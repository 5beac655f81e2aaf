//! What recordings, takes of a rhythm and the meters have to do with one another.

use vstd::prelude::*;

use crate::capture::{
    closing_silence, drawn, glyph_recorded, is_drawn, normalize_trail, predict_due, stream_due,
    stride, stroke_recorded, stroke_refused, CaptureChannel, Recorder, RhythmTake, TakeEnd,
};
use crate::meters::{ClipLamp, PeakHold};
use crate::text::{decimal, decimal_int};

verus! {

// ── recording ───────────────────────────────────────────────────────────────────────────────────

/// The button that starts a recording stops it: the second press records nothing and cancels.
pub proof fn law_second_press_stops(
    a: &mut Recorder,
    b: &mut Recorder,
    rhythm: &Option<String>,
    trigger: &str,
    r: Option<u64>,
    s: Option<u64>,
)
    requires
        !old(a).capturing,
        old(a).generation < u64::MAX,
        call_ensures(Recorder::record_gesture, (a, rhythm, trigger), r),
        *old(b) == *final(a),
        call_ensures(Recorder::record_gesture, (b, rhythm, trigger), s),
    ensures
        r == Some((old(a).generation + 1) as u64),
        final(a).capturing && !final(a).cancel && !final(a).stroke_saved,
        s is None,
        !final(b).capturing && final(b).cancel && final(b).generation == final(a).generation,
        final(b).gesture_status@ == "recording stopped"@ && final(b).predict@.len() == 0,
{
}

/// A recording tells what to hold, or which rhythm to tap, and what to do.
pub proof fn law_recording_tells_what_to_do(
    a: &mut Recorder,
    p: &mut Recorder,
    rhythm: &Option<String>,
    trigger: &str,
    r: Option<u64>,
    g: u64,
)
    requires
        !old(a).capturing,
        old(a).generation < u64::MAX,
        old(p).generation < u64::MAX,
        call_ensures(Recorder::record_gesture, (a, rhythm, trigger), r),
        call_ensures(Recorder::preview_radial, (p, rhythm, trigger), g),
    ensures
        *rhythm is None ==> final(a).gesture_status@ == "hold "@ + trigger@ + " and draw — ESC cancels"@
            && final(p).radial_status@ == "hold "@ + trigger@ + " and flick a direction — ESC cancels"@,
        *rhythm matches Some(t) ==> final(a).gesture_status@ == "["@ + t@ + "] on "@ + trigger@
            + " and draw — ESC cancels"@,
        final(a).radial_status@ == old(a).radial_status@,
        final(p).gesture_status@ == old(p).gesture_status@,
        g == old(p).generation + 1 && final(p).capturing && !final(p).cancel,
{
}

/// A rich stroke is recorded as such and told as such; the second press stops it.
pub proof fn law_rich_stroke(a: &mut Recorder, b: &mut Recorder, trigger: &str, r: Option<u64>, s: Option<u64>)
    requires
        !old(a).capturing,
        old(a).generation < u64::MAX,
        call_ensures(Recorder::record_rich_stroke, (a, trigger), r),
        *old(b) == *final(a),
        call_ensures(Recorder::record_rich_stroke, (b, trigger), s),
    ensures
        r == Some((old(a).generation + 1) as u64),
        final(a).rich && final(a).capturing,
        final(a).gesture_status@ == "RICH STROKE → file · "@ + trigger@ + " and draw — ESC cancels"@,
        s is None && !final(b).rich && !final(b).capturing && final(b).cancel,
{
}

/// Only the worker of the latest recording ends it.
pub proof fn law_late_worker_ends_nothing(a: &mut Recorder, generation: u64)
    requires
        call_ensures(Recorder::worker_ended, (a, generation), ()),
    ensures
        old(a).generation != generation ==> final(a).capturing == old(a).capturing && final(a).rich == old(
            a).rich,
        old(a).generation == generation ==> !final(a).capturing && !final(a).rich && final(
            a).predict@.len() == 0,
        final(a).gesture_status@ == old(a).gesture_status@ && final(a).stroke_saved == old(a).stroke_saved,
{
}

/// A failure is told where it happened.
pub proof fn law_failure_is_told_in_its_place(a: &mut Recorder, b: &mut Recorder)
    requires
        call_ensures(Recorder::worker_failed, (a, CaptureChannel::Gesture), ()),
        call_ensures(Recorder::worker_failed, (b, CaptureChannel::Radial), ()),
    ensures
        final(a).gesture_status@ == "capture hiccup — nothing saved, try again"@ && final(a).radial_status@
            == old(a).radial_status@,
        final(b).radial_status@ == "capture hiccup — nothing saved, try again"@ && final(b).gesture_status@
            == old(b).gesture_status@,
{
}

/// A guess is shown with its confidence, a flick with its wedge; a short flick picks none.
pub proof fn law_guess_and_flick_are_shown(a: &mut Recorder, b: &mut Recorder, c: &mut Recorder, name: &str, n: i32, w: i32, compass: &str)
    requires
        call_ensures(Recorder::predicted, (a, name, n), ()),
        call_ensures(Recorder::flicked, (b, Some(w), compass), ()),
        call_ensures(Recorder::flicked, (c, None::<i32>, compass), ()),
    ensures
        final(a).predict@ == name@ && final(a).gesture_status@ == "≈ "@ + name@ + " · "@ + decimal_int(
            n as int,
        ) + "%"@,
        final(b).preview_sector == w && final(b).radial_status@ == "flick → wedge "@ + decimal_int(w as int)
            + " ("@ + compass@ + ")"@,
        final(c).preview_sector == -1,
        final(b).capturing == old(b).capturing && final(a).capturing == old(a).capturing,
{
}

/// A stroke of three points is one; fewer are too short, none is cancelled.
pub proof fn law_strokes_have_three_points(n: usize, r: Option<&'static str>)
    requires
        call_ensures(stroke_refused, (n,), r),
    ensures
        n >= 3 <==> r is None,
        n == 0 ==> (r matches Some(s) && s@ == "cancelled"@),
        n == 1 || n == 2 ==> (r matches Some(s) && s@ == "too short — try again"@),
{
}

/// What was recorded is told with its points, what was not saved with its reason.
pub proof fn law_recorded_is_told(
    name: String,
    n: usize,
    error: &Option<String>,
    r: String,
    saved: &Result<(String, usize), String>,
    s: (String, bool),
    label: &str,
)
    requires
        call_ensures(glyph_recorded, (label, n, error), r),
        call_ensures(stroke_recorded, (saved,), s),
    ensures
        *error is None ==> r@ == "recorded '"@ + label@ + "' ("@ + decimal(n as nat)
            + " pts) — click its chip to bind it"@,
        *error matches Some(e) ==> r@ == "recorded '"@ + label@ + "' but not saved: "@ + e@,
        *saved == Ok::<(String, usize), String>((name, n)) ==> s.1 && s.0@ == "saved strokes/"@ + name@ + " ("@
            + decimal(n as nat) + " pts) + .gwyph · click to reveal"@,
        *saved matches Err(e) ==> !s.1 && s.0@ == "stroke save failed: "@ + e@,
{
}

/// The trail is streamed every fourteen points from the fourth on; the streamed length is where it counts
/// from.
pub proof fn law_trail_is_streamed(a: &mut usize, b: &mut usize, n: usize, m: usize, r: bool, s: bool)
    requires
        call_ensures(stream_due, (n, a), r),
        *old(b) == *final(a),
        call_ensures(stream_due, (m, b), s),
    ensures
        n < 4 ==> !r,
        n >= 4 && n >= *old(a) + 14 ==> r && *final(a) == n,
        n < *old(a) + 14 ==> !r && *final(a) == *old(a),
        r && m < n + 14 ==> !s,
        r && m >= n + 14 ==> s,
{
}

/// A guess is made from eight points on, where there is anything to guess.
pub proof fn law_guess_is_due(templates: usize, n: usize, r: bool)
    requires
        call_ensures(predict_due, (templates, n), r),
    ensures
        templates == 0 ==> !r,
        n < 8 ==> !r,
        templates > 0 && n >= 8 ==> r,
{
}

/// A short trail is drawn whole.
pub proof fn law_short_trail_is_drawn_whole(n: usize, r: Vec<usize>, i: int)
    requires
        n <= 128,
        call_ensures(normalize_trail, (n,), r),
        0 <= i < n,
    ensures
        r@.len() == n,
        r@[i] == i,
{
    lemma_whole(n as nat, n as nat);
    assert(r@[i] == drawn(n as nat, n as nat)[i]);
}

proof fn lemma_whole(n: nat, k: nat)
    requires
        k <= n <= 128,
    ensures
        drawn(n, k).len() == k,
        forall|i: int| 0 <= i < k ==> #[trigger] drawn(n, k)[i] == i,
    decreases k,
{
    if k > 0 {
        lemma_whole(n, (k - 1) as nat);
        assert(stride(n) == 1);
        assert((k - 1) % 1 == 0);
        assert(is_drawn(k - 1, n));
    }
}

/// The points of a trail are drawn in their order.
pub proof fn law_trail_is_drawn_in_order(n: nat, k: nat)
    requires
        k <= n,
    ensures
        forall|i: int, j: int| 0 <= i < j < drawn(n, k).len() ==> #[trigger] drawn(n, k)[i] < #[trigger] drawn(n, k)[j],
        forall|i: int| 0 <= i < drawn(n, k).len() ==> 0 <= #[trigger] drawn(n, k)[i] < k,
    decreases k,
{
    if k > 0 {
        law_trail_is_drawn_in_order(n, (k - 1) as nat);
        let before = drawn(n, (k - 1) as nat);
        let all = drawn(n, k);
        assert forall|i: int| 0 <= i < all.len() implies 0 <= #[trigger] all[i] < k by {
            if i < before.len() {
                assert(all[i] == before[i]);
            }
        }
        assert forall|i: int, j: int| 0 <= i < j < all.len() implies #[trigger] all[i] < #[trigger] all[j] by {
            assert(all[i] == before[i]);
            if j < before.len() {
                assert(all[j] == before[j]);
            }
        }
    }
}

// ── takes of a rhythm ───────────────────────────────────────────────────────────────────────────

/// A press and its release are one beat, from the one to the other.
pub proof fn law_press_and_release_are_a_beat(
    a: &mut RhythmTake,
    b: &mut RhythmTake,
    t: u64,
    u: u64,
    silence: u64,
    r: Option<TakeEnd>,
    s: Option<TakeEnd>,
)
    requires
        old(a).wf(),
        !old(a).down,
        call_ensures(RhythmTake::step, (a, t, false, true, silence), r),
        *old(b) == *final(a),
        call_ensures(RhythmTake::step, (b, u, false, false, silence), s),
    ensures
        final(b).presses@ == old(a).presses@.push((t, Some(u))),
        r is None,
        s is None,
        !final(b).down && final(b).last_edge == u,
{
    assert(final(a).presses@.last() == (t, None::<u64>));
    assert(final(b).presses@ =~= old(a).presses@.push((t, Some(u))));
}

/// A take is performed once the silence behind its last beat is long enough; Escape cancels it as it is,
/// and so does waiting six seconds for the first press.
pub proof fn law_take_ends(a: &mut RhythmTake, now: u64, escape: bool, silence: u64, r: Option<TakeEnd>)
    requires
        old(a).wf(),
        !old(a).down,
        call_ensures(RhythmTake::step, (a, now, escape, false, silence), r),
    ensures
        escape ==> r == Some(TakeEnd::Cancelled),
        !escape && old(a).presses@.len() > 0 ==> (r == Some(TakeEnd::Performed) <==> now > old(a).last_edge
            + silence) && r != Some(TakeEnd::Cancelled),
        !escape && old(a).presses@.len() == 0 ==> (r == Some(TakeEnd::Cancelled) <==> now > 6000) && r
            != Some(TakeEnd::Performed),
        final(a).presses@ == old(a).presses@,
{
}

/// A take goes on while the key is down, however long.
pub proof fn law_held_key_goes_on(a: &mut RhythmTake, now: u64, silence: u64, r: Option<TakeEnd>, gap: u64, c: u64)
    requires
        old(a).wf(),
        call_ensures(RhythmTake::step, (a, now, false, true, silence), r),
        gap * 3 <= u64::MAX,
        call_ensures(closing_silence, (gap,), c),
    ensures
        r is None,
        final(a).down,
        c == gap + gap + gap,
{
}

// ── meters ──────────────────────────────────────────────────────────────────────────────────────

/// A lamp that was hit is lit for sixty updates and no longer.
pub proof fn law_hit_lights_the_lamp(a: &mut ClipLamp, b: &mut ClipLamp, lit: bool, later: bool)
    requires
        call_ensures(ClipLamp::update, (a, true), ()),
        call_ensures(ClipLamp::lit, (&*final(a),), lit),
        call_ensures(ClipLamp::update, (b, false), ()),
        call_ensures(ClipLamp::lit, (&*final(b),), later),
    ensures
        lit && final(a).left == 60,
        old(b).left > 0 ==> final(b).left + 1 == old(b).left,
        old(b).left == 0 ==> final(b).left == 0,
        later <==> old(b).left > 1,
{
}

/// A peak is held for thirty updates and then falls, until it is reached again.
pub proof fn law_peak_is_held(a: &mut PeakHold, b: &mut PeakHold, falls: bool, reached: bool)
    requires
        call_ensures(PeakHold::update, (a, false), falls),
        call_ensures(PeakHold::update, (b, true), reached),
    ensures
        falls <==> old(a).age >= 30,
        old(a).age < u32::MAX ==> final(a).age == old(a).age + 1,
        !reached && final(b).age == 0,
{
}

/// What a worker tells touches what it is about and nothing else.
pub proof fn law_workers_touch_their_own(a: &mut Recorder, b: &mut Recorder, c: &mut Recorder, d: &mut Recorder, g: u64, channel: CaptureChannel, name: &str, n: i32, pick: Option<i32>, compass: &str)
    requires
        call_ensures(Recorder::worker_ended, (a, g), ()),
        call_ensures(Recorder::worker_failed, (b, channel), ()),
        call_ensures(Recorder::predicted, (c, name, n), ()),
        call_ensures(Recorder::flicked, (d, pick, compass), ()),
    ensures
        final(a).cancel == old(a).cancel && final(a).generation == old(a).generation && final(a).preview_sector
            == old(a).preview_sector && final(a).radial_status@ == old(a).radial_status@,
        final(b).cancel == old(b).cancel && final(b).generation == old(b).generation && final(b).preview_sector
            == old(b).preview_sector && final(b).capturing == old(b).capturing && final(b).rich == old(b).rich
            && final(b).predict@ == old(b).predict@ && final(b).stroke_saved == old(b).stroke_saved,
        final(c).cancel == old(c).cancel && final(c).generation == old(c).generation && final(c).preview_sector
            == old(c).preview_sector && final(c).rich == old(c).rich && final(c).stroke_saved == old(
            c).stroke_saved && final(c).radial_status@ == old(c).radial_status@,
        final(d).cancel == old(d).cancel && final(d).generation == old(d).generation && final(d).rich == old(
            d).rich && final(d).stroke_saved == old(d).stroke_saved && final(d).predict@ == old(d).predict@
            && final(d).gesture_status@ == old(d).gesture_status@,
        pick is None ==> final(d).radial_status@ == "flick too short — move further from center, then release"@,
{
}

/// A stopped recording of a stroke, and one that begins, keep what they are not about.
pub proof fn law_strokes_keep_the_rest(a: &mut Recorder, b: &mut Recorder, p: &mut Recorder, rhythm: &Option<String>, trigger: &str, r: Option<u64>, s: Option<u64>, g: u64)
    requires
        old(a).generation < u64::MAX && old(b).generation < u64::MAX && old(p).generation < u64::MAX,
        call_ensures(Recorder::record_rich_stroke, (a, trigger), r),
        call_ensures(Recorder::record_gesture, (b, rhythm, trigger), s),
        call_ensures(Recorder::preview_radial, (p, rhythm, trigger), g),
    ensures
        old(a).capturing ==> final(a).generation == old(a).generation && final(a).stroke_saved == old(
            a).stroke_saved && final(a).gesture_status@ == "recording stopped"@ && final(a).predict@.len() == 0,
        !old(a).capturing ==> final(a).generation == old(a).generation + 1 && !final(a).stroke_saved && !final(
            a).cancel && final(a).predict@ == old(a).predict@,
        final(a).radial_status@ == old(a).radial_status@ && final(a).preview_sector == old(a).preview_sector,
        old(b).capturing ==> final(b).generation == old(b).generation && final(b).stroke_saved == old(
            b).stroke_saved,
        final(b).rich == old(b).rich && final(b).preview_sector == old(b).preview_sector,
        final(p).rich == old(p).rich && final(p).predict@ == old(p).predict@ && final(p).stroke_saved == old(
            p).stroke_saved && final(p).preview_sector == old(p).preview_sector,
{
}

/// A take begins with no press, the lamps dark and the peaks fresh.
pub proof fn law_takes_and_meters_begin(t: RhythmTake, l: ClipLamp, p: PeakHold)
    requires
        call_ensures(RhythmTake::new, (), t),
        call_ensures(ClipLamp::new, (), l),
        call_ensures(PeakHold::new, (), p),
    ensures
        t.presses@.len() == 0 && !t.down && t.last_edge == 0,
        l.left == 0 && p.age == 0,
{
}

} // verus!
