//! Capturing a stroke: the recorder that one press starts and another stops, what is drawn of a
//! stroke, and the recording of a rhythm.

use vstd::prelude::*;

use crate::text::{decimal, decimal_int, show_i64, show_u64};

verus! {

// ── the recorder ────────────────────────────────────────────────────────────────────────────────

/// Where a failed capture is reported.
#[derive(Clone, Copy, Debug, PartialEq, Eq, Structural)]
pub enum CaptureChannel {
    Gesture,
    Radial,
}

/// The recorder that the glyph panel and the wheel share.
pub struct Recorder {
    pub capturing: bool,
    /// Whether the capture under way is a full one that goes to a file.
    pub rich: bool,
    /// The glyph that the stroke looks like so far.
    pub predict: String,
    pub gesture_status: String,
    pub radial_status: String,
    /// Whether the status line leads to a saved stroke.
    pub stroke_saved: bool,
    /// Whether a running capture is to stop.
    pub cancel: bool,
    /// The number of the latest capture.
    pub generation: u64,
    /// The wedge that the last flick hit, or -1.
    pub preview_sector: i32,
}

/// How a capture is opened: the trigger is held, or the rhythm is performed on it.
pub open spec fn opening(rhythm: Option<String>, trigger: Seq<char>) -> Seq<char> {
    match rhythm {
        None => "hold "@ + trigger,
        Some(p) => "["@ + p@ + "] on "@ + trigger,
    }
}

fn opening_words(rhythm: &Option<String>, trigger: &str) -> (r: String)
    ensures
        r@ == opening(*rhythm, trigger@),
{
    match rhythm {
        None => {
            let mut s = "hold ".to_owned();
            s.append(trigger);
            s
        },
        Some(p) => {
            let mut s = "[".to_owned();
            s.append(p.as_str());
            s.append("] on ");
            s.append(trigger);
            s
        },
    }
}

impl Recorder {
    /// The recorder is at rest: nothing is captured, nothing guessed.
    pub open spec fn at_rest(self) -> bool {
        !self.capturing && !self.rich && self.predict@ == Seq::<char>::empty()
    }

    /// Starts recording a glyph, or stops what is being captured. `rhythm` is what opens a weave, or
    /// none where the trigger is simply held. The number of the capture, where one starts.
    pub fn record_gesture(&mut self, rhythm: &Option<String>, trigger: &str) -> (r: Option<u64>)
        requires
            old(self).generation < u64::MAX,
        ensures
            final(self).radial_status@ == old(self).radial_status@,
            final(self).rich == old(self).rich,
            final(self).preview_sector == old(self).preview_sector,
            match r {
                None => old(self).capturing && !final(self).capturing && final(self).cancel
                    && final(self).predict@ == Seq::<char>::empty() && final(self).gesture_status@
                    == "recording stopped"@ && final(self).generation == old(self).generation
                    && final(self).stroke_saved == old(self).stroke_saved,
                Some(g) => !old(self).capturing && final(self).capturing && !final(self).cancel
                    && !final(self).stroke_saved && g == old(self).generation + 1
                    && final(self).generation == g && final(self).predict@ == old(self).predict@
                    && final(self).gesture_status@ == opening(*rhythm, trigger@)
                    + " and draw — ESC cancels"@,
            },
    {
        if self.capturing {
            self.cancel = true;
            self.capturing = false;
            self.predict = String::new();
            self.gesture_status = "recording stopped".to_owned();
            return None;
        }
        self.cancel = false;
        self.capturing = true;
        self.stroke_saved = false;
        self.generation = self.generation + 1;
        let mut s = opening_words(rhythm, trigger);
        s.append(" and draw — ESC cancels");
        self.gesture_status = s;
        Some(self.generation)
    }

    /// Starts recording a full stroke to a file, or stops what is being captured. The number of the
    /// capture, where one starts.
    pub fn record_rich_stroke(&mut self, trigger: &str) -> (r: Option<u64>)
        requires
            old(self).generation < u64::MAX,
        ensures
            final(self).radial_status@ == old(self).radial_status@,
            final(self).preview_sector == old(self).preview_sector,
            match r {
                None => old(self).capturing && final(self).at_rest() && final(self).cancel
                    && final(self).gesture_status@ == "recording stopped"@
                    && final(self).generation == old(self).generation
                    && final(self).stroke_saved == old(self).stroke_saved,
                Some(g) => !old(self).capturing && final(self).capturing && final(self).rich
                    && !final(self).cancel && !final(self).stroke_saved && g == old(self).generation
                    + 1 && final(self).generation == g && final(self).predict@ == old(self).predict@
                    && final(self).gesture_status@ == "RICH STROKE → file · "@ + trigger@
                    + " and draw — ESC cancels"@,
            },
    {
        if self.capturing {
            self.cancel = true;
            self.capturing = false;
            self.rich = false;
            self.predict = String::new();
            self.gesture_status = "recording stopped".to_owned();
            return None;
        }
        self.cancel = false;
        self.capturing = true;
        self.rich = true;
        self.stroke_saved = false;
        self.generation = self.generation + 1;
        let mut s = "RICH STROKE → file · ".to_owned();
        s.append(trigger);
        s.append(" and draw — ESC cancels");
        self.gesture_status = s;
        Some(self.generation)
    }

    /// Starts a flick on the wheel. The number of the capture.
    pub fn preview_radial(&mut self, rhythm: &Option<String>, trigger: &str) -> (g: u64)
        requires
            old(self).generation < u64::MAX,
        ensures
            final(self).capturing,
            !final(self).cancel,
            g == old(self).generation + 1,
            final(self).generation == g,
            final(self).radial_status@ == opening(*rhythm, trigger@)
                + " and flick a direction — ESC cancels"@,
            final(self).gesture_status@ == old(self).gesture_status@,
            final(self).rich == old(self).rich,
            final(self).predict@ == old(self).predict@,
            final(self).stroke_saved == old(self).stroke_saved,
            final(self).preview_sector == old(self).preview_sector,
    {
        self.cancel = false;
        self.capturing = true;
        self.generation = self.generation + 1;
        let mut s = opening_words(rhythm, trigger);
        s.append(" and flick a direction — ESC cancels");
        self.radial_status = s;
        self.generation
    }

    /// The worker of a capture ended, in whatever way: the recorder comes to rest, unless a later
    /// capture has it.
    pub fn worker_ended(&mut self, generation: u64)
        ensures
            old(self).generation == generation ==> final(self).at_rest(),
            old(self).generation != generation ==> final(self).capturing == old(self).capturing
                && final(self).rich == old(self).rich && final(self).predict@ == old(self).predict@,
            final(self).gesture_status@ == old(self).gesture_status@,
            final(self).radial_status@ == old(self).radial_status@,
            final(self).stroke_saved == old(self).stroke_saved,
            final(self).cancel == old(self).cancel,
            final(self).generation == old(self).generation,
            final(self).preview_sector == old(self).preview_sector,
    {
        if self.generation == generation {
            self.capturing = false;
            self.rich = false;
            self.predict = String::new();
        }
    }

    /// The worker of a capture failed: this is said where the user looks.
    pub fn worker_failed(&mut self, channel: CaptureChannel)
        ensures
            final(self).gesture_status@ == if channel == CaptureChannel::Gesture {
                "capture hiccup — nothing saved, try again"@
            } else {
                old(self).gesture_status@
            },
            final(self).radial_status@ == if channel == CaptureChannel::Radial {
                "capture hiccup — nothing saved, try again"@
            } else {
                old(self).radial_status@
            },
            final(self).capturing == old(self).capturing,
            final(self).rich == old(self).rich,
            final(self).predict@ == old(self).predict@,
            final(self).stroke_saved == old(self).stroke_saved,
            final(self).cancel == old(self).cancel,
            final(self).generation == old(self).generation,
            final(self).preview_sector == old(self).preview_sector,
    {
        match channel {
            CaptureChannel::Gesture => {
                self.gesture_status = "capture hiccup — nothing saved, try again".to_owned();
            },
            CaptureChannel::Radial => {
                self.radial_status = "capture hiccup — nothing saved, try again".to_owned();
            },
        }
    }

    /// The stroke looks like a glyph, with so much confidence.
    pub fn predicted(&mut self, name: &str, confidence: i32)
        ensures
            final(self).predict@ == name@,
            final(self).gesture_status@ == "≈ "@ + name@ + " · "@ + decimal_int(confidence as int)
                + "%"@,
            final(self).radial_status@ == old(self).radial_status@,
            final(self).capturing == old(self).capturing,
            final(self).rich == old(self).rich,
            final(self).stroke_saved == old(self).stroke_saved,
            final(self).cancel == old(self).cancel,
            final(self).generation == old(self).generation,
            final(self).preview_sector == old(self).preview_sector,
    {
        let mut s = "≈ ".to_owned();
        s.append(name);
        s.append(" · ");
        s.append(show_i64(confidence as i64).as_str());
        s.append("%");
        self.gesture_status = s;
        self.predict = name.to_owned();
    }

    /// A flick ended on a wedge, given with its direction, or on none.
    pub fn flicked(&mut self, pick: Option<i32>, compass: &str)
        ensures
            match pick {
                Some(w) => final(self).preview_sector == w && final(self).radial_status@
                    == "flick → wedge "@ + decimal_int(w as int) + " ("@ + compass@ + ")"@,
                None => final(self).preview_sector == -1 && final(self).radial_status@
                    == "flick too short — move further from center, then release"@,
            },
            final(self).gesture_status@ == old(self).gesture_status@,
            final(self).capturing == old(self).capturing,
            final(self).rich == old(self).rich,
            final(self).predict@ == old(self).predict@,
            final(self).stroke_saved == old(self).stroke_saved,
            final(self).cancel == old(self).cancel,
            final(self).generation == old(self).generation,
    {
        match pick {
            Some(w) => {
                self.preview_sector = w;
                let mut s = "flick → wedge ".to_owned();
                s.append(show_i64(w as i64).as_str());
                s.append(" (");
                s.append(compass);
                s.append(")");
                self.radial_status = s;
            },
            None => {
                self.preview_sector = -1;
                self.radial_status = "flick too short — move further from center, then release".to_owned();
            },
        }
    }
}

/// Why a captured stroke of so many points is not kept; nothing where it is.
pub open spec fn too_little(captured: nat) -> Option<Seq<char>> {
    if captured == 0 {
        Some("cancelled"@)
    } else if captured < 3 {
        Some("too short — try again"@)
    } else {
        None
    }
}

/// Why a captured stroke of so many points is not kept.
pub fn stroke_refused(captured: usize) -> (r: Option<&'static str>)
    ensures
        match r {
            Some(s) => too_little(captured as nat) == Some(s@),
            None => too_little(captured as nat) is None,
        },
{
    if captured == 0 {
        Some("cancelled")
    } else if captured < 3 {
        Some("too short — try again")
    } else {
        None
    }
}

/// What is said once a glyph was recorded.
pub fn glyph_recorded(name: &str, captured: usize, error: &Option<String>) -> (r: String)
    ensures
        r@ == match *error {
            Some(e) => "recorded '"@ + name@ + "' but not saved: "@ + e@,
            None => "recorded '"@ + name@ + "' ("@ + decimal(captured as nat)
                + " pts) — click its chip to bind it"@,
        },
{
    let mut s = "recorded '".to_owned();
    s.append(name);
    match error {
        Some(e) => {
            s.append("' but not saved: ");
            s.append(e.as_str());
        },
        None => {
            s.append("' (");
            s.append(show_u64(captured as u64).as_str());
            s.append(" pts) — click its chip to bind it");
        },
    }
    s
}

/// What is said once a full stroke of at least three points was written: the file's name and how many
/// points it holds, or why it was not written. Whether the line leads to the file.
pub fn stroke_recorded(saved: &Result<(String, usize), String>) -> (r: (String, bool))
    ensures
        match *saved {
            Ok((name, n)) => r.1 && r.0@ == "saved strokes/"@ + name@ + " ("@ + decimal(n as nat)
                + " pts) + .gwyph · click to reveal"@,
            Err(e) => !r.1 && r.0@ == "stroke save failed: "@ + e@,
        },
{
    match saved {
        Ok((name, n)) => {
            let mut s = "saved strokes/".to_owned();
            s.append(name.as_str());
            s.append(" (");
            s.append(show_u64(*n as u64).as_str());
            s.append(" pts) + .gwyph · click to reveal");
            (s, true)
        },
        Err(e) => {
            let mut s = "stroke save failed: ".to_owned();
            s.append(e.as_str());
            (s, false)
        },
    }
}

// ── the trail ───────────────────────────────────────────────────────────────────────────────────

/// Whether the trail is drawn anew: at least fourteen points came since the last time. The buffer may
/// have been thinned meanwhile, which counts as none.
pub fn stream_due(len: usize, last: &mut usize) -> (r: bool)
    ensures
        r == (len >= 4 && len - *old(last) >= 14),
        *final(last) == if r {
            len
        } else {
            *old(last)
        },
{
    if len >= 4 && len >= *last && len - *last >= 14 {
        *last = len;
        true
    } else {
        false
    }
}

/// Whether a guess is worth while: there are glyphs, and enough points.
pub fn predict_due(templates: usize, len: usize) -> (r: bool)
    ensures
        r == (templates > 0 && len >= 8),
{
    templates > 0 && len >= 8
}

/// The most points of a trail that are drawn.
pub const MAX_DOTS: usize = 128;

/// How far apart the drawn points of a stroke are.
pub open spec fn stride(n: nat) -> nat {
    if n % 128 == 0 {
        n / 128
    } else {
        n / 128 + 1
    }
}

/// The point is drawn: it is the last, or on the stride; the place of the last is kept free.
pub open spec fn is_drawn(i: int, n: nat) -> bool {
    i == n - 1 || i % (stride(n) as int) == 0 && i < 127 * stride(n)
}

/// The drawn points among the first `k` of a stroke of `n`.
pub open spec fn drawn(n: nat, k: nat) -> Seq<int>
    decreases k,
{
    if k == 0 {
        Seq::empty()
    } else {
        let before = drawn(n, (k - 1) as nat);
        if is_drawn(k - 1, n) {
            before.push(k - 1)
        } else {
            before
        }
    }
}

/// The points of a stroke that are drawn, in order.
pub fn normalize_trail(n: usize) -> (r: Vec<usize>)
    ensures
        r@.len() == drawn(n as nat, n as nat).len(),
        forall|i: int| 0 <= i < r@.len() ==> #[trigger] r@[i] == drawn(n as nat, n as nat)[i],
{
    let mut out: Vec<usize> = Vec::new();
    if n == 0 {
        return out;
    }
    let step: usize = if n % MAX_DOTS == 0 {
        n / MAX_DOTS
    } else {
        n / MAX_DOTS + 1
    };
    let mut i: usize = 0;
    while i < n
        invariant
            i <= n,
            0 < step,
            step == stride(n as nat),
            MAX_DOTS == 128,
            out@.len() == drawn(n as nat, i as nat).len(),
            forall|j: int| 0 <= j < out@.len() ==> #[trigger] out@[j] == drawn(n as nat, i as nat)[j],
        decreases n - i,
    {
        proof {
            lemma_quotient_below(i as int, step as int, MAX_DOTS - 1);
        }
        if i == n - 1 || i % step == 0 && i / step < MAX_DOTS - 1 {
            out.push(i);
        }
        i = i + 1;
    }
    out
}

proof fn lemma_quotient_below(i: int, step: int, bound: int)
    requires
        0 <= i,
        0 < step,
    ensures
        i / step < bound <==> i < bound * step,
{
    vstd::arithmetic::div_mod::lemma_fundamental_div_mod(i, step);
    vstd::arithmetic::div_mod::lemma_mod_bound(i, step);
    let q = i / step;
    assert(step * q == q * step) by (nonlinear_arith);
    if q < bound {
        assert((q + 1) * step <= bound * step) by (nonlinear_arith)
            requires
                q + 1 <= bound,
                0 < step,
        ;
        assert((q + 1) * step == q * step + step) by (nonlinear_arith);
    } else {
        assert(bound * step <= q * step) by (nonlinear_arith)
            requires
                bound <= q,
                0 < step,
        ;
    }
}

// ── recording a rhythm ──────────────────────────────────────────────────────────────────────────

/// A rhythm being performed: the presses so far, each with its moment and the moment of its release,
/// if it was released, in milliseconds.
pub struct RhythmTake {
    pub presses: Vec<(u64, Option<u64>)>,
    pub down: bool,
    pub last_edge: u64,
}

/// How a take ended.
#[derive(Clone, Copy, Debug, PartialEq, Eq, Structural)]
pub enum TakeEnd {
    Cancelled,
    Performed,
}

impl RhythmTake {
    /// Every press but the last was released, the last exactly where the trigger is up now.
    pub open spec fn wf(self) -> bool {
        &&& forall|i: int|
            0 <= i < self.presses@.len() - 1 ==> (#[trigger] self.presses@[i]).1 is Some
        &&& self.presses@.len() > 0 ==> (self.presses@.last().1 is None <==> self.down)
        &&& self.presses@.len() == 0 ==> !self.down
    }

    /// Nothing performed yet.
    pub fn new() -> (r: Self)
        ensures
            r.wf(),
            r.presses@.len() == 0,
            !r.down,
            r.last_edge == 0,
    {
        RhythmTake { presses: Vec::new(), down: false, last_edge: 0 }
    }

    /// One look at the keys: a press or a release of the trigger is noted; the take ends on Escape,
    /// once the trigger was up for longer than `silence`, or where nothing was performed for six
    /// seconds.
    pub fn step(&mut self, now: u64, escape: bool, held: bool, silence: u64) -> (r: Option<TakeEnd>)
        requires
            old(self).wf(),
        ensures
            final(self).wf(),
            escape ==> r == Some(TakeEnd::Cancelled) && *final(self) == *old(self),
            !escape ==> {
                &&& final(self).presses@ == if held && !old(self).down {
                    old(self).presses@.push((now, None))
                } else if !held && old(self).down {
                    old(self).presses@.update(
                        old(self).presses@.len() - 1,
                        (old(self).presses@.last().0, Some(now)),
                    )
                } else {
                    old(self).presses@
                }
                &&& final(self).down == held
                &&& final(self).last_edge == if held != old(self).down {
                    now
                } else {
                    old(self).last_edge
                }
                &&& r == if final(self).presses@.len() > 0 && !held && now - final(self).last_edge
                    > silence {
                    Some(TakeEnd::Performed)
                } else if final(self).presses@.len() == 0 && now > 6000 {
                    Some(TakeEnd::Cancelled)
                } else {
                    None
                }
            },
    {
        if escape {
            return Some(TakeEnd::Cancelled);
        }
        if held && !self.down {
            self.presses.push((now, None));
            self.down = true;
            self.last_edge = now;
        } else if !held && self.down {
            let n: usize = self.presses.len();
            let at: u64 = self.presses[n - 1].0;
            self.presses.set(n - 1, (at, Some(now)));
            self.down = false;
            self.last_edge = now;
        }
        if self.presses.len() > 0 && !self.down && now > self.last_edge && now - self.last_edge
            > silence {
            return Some(TakeEnd::Performed);
        }
        if self.presses.len() == 0 && now > 6000 {
            return Some(TakeEnd::Cancelled);
        }
        None
    }
}

/// How long the trigger is up before a performance is over: a few gaps.
pub fn closing_silence(gap_ms: u64) -> (r: u64)
    requires
        gap_ms * 3 <= u64::MAX,
    ensures
        r == gap_ms * 3,
{
    gap_ms * 3
}

// ── laws ────────────────────────────────────────────────────────────────────────────────────────

/// A finished take has only presses that were released.
pub proof fn law_performance_is_closed(t: RhythmTake)
    requires
        t.wf(),
        !t.down,
    ensures
        forall|i: int| 0 <= i < t.presses@.len() ==> (#[trigger] t.presses@[i]).1 is Some,
{
    assert forall|i: int| 0 <= i < t.presses@.len() implies (#[trigger] t.presses@[i]).1 is Some by {
        if i == t.presses@.len() - 1 {
            assert(t.presses@.last() == t.presses@[i]);
        }
    }
}

proof fn lemma_stride_covers(n: nat)
    requires
        n > 0,
    ensures
        stride(n) > 0,
        n <= 128 * stride(n),
{
}

/// How many of the first `k` points are on a stride.
spec fn on_stride(k: int, step: int) -> int {
    (k + step - 1) / step
}

proof fn lemma_on_stride_step(k: int, step: int)
    requires
        k >= 1,
        step >= 1,
    ensures
        on_stride(k, step) == on_stride(k - 1, step) + (if (k - 1) % step == 0 {
            1int
        } else {
            0
        }),
{
    let q = (k - 1) / step;
    let m = (k - 1) % step;
    vstd::arithmetic::div_mod::lemma_fundamental_div_mod(k - 1, step);
    vstd::arithmetic::div_mod::lemma_mod_bound(k - 1, step);
    assert(step * q == q * step) by (nonlinear_arith);
    assert((q + 1) * step == q * step + step) by (nonlinear_arith);
    if m == 0 {
        // k + step - 1 == (q + 1) * step + 0 and k - 1 + step - 1 == q * step + (step - 1)
        vstd::arithmetic::div_mod::lemma_fundamental_div_mod_converse(k + step - 1, step, q + 1, 0);
        vstd::arithmetic::div_mod::lemma_fundamental_div_mod_converse(
            k - 1 + step - 1,
            step,
            q,
            step - 1,
        );
    } else {
        vstd::arithmetic::div_mod::lemma_fundamental_div_mod_converse(k + step - 1, step, q + 1, m);
        vstd::arithmetic::div_mod::lemma_fundamental_div_mod_converse(
            k - 1 + step - 1,
            step,
            q + 1,
            m - 1,
        );
    }
}

/// `k`, but no further than where the strided points end.
spec fn strided(k: int, step: int) -> int {
    if k > 127 * step {
        127 * step
    } else {
        k
    }
}

proof fn lemma_drawn_count(n: nat, k: nat)
    requires
        0 < n,
        k <= n,
    ensures
        drawn(n, k).len() <= on_stride(strided(k as int, stride(n) as int), stride(n) as int) + (if k
            == n {
            1int
        } else {
            0
        }),
    decreases k,
{
    lemma_stride_covers(n);
    let step = stride(n) as int;
    if k == 0 {
        vstd::arithmetic::div_mod::lemma_fundamental_div_mod_converse(step - 1, step, 0, step - 1);
    } else {
        lemma_drawn_count(n, (k - 1) as nat);
        if k <= 127 * step {
            lemma_on_stride_step(k as int, step);
        }
    }
}

/// However long a stroke is, at most a hundred and twenty-eight of its points are drawn.
pub proof fn law_trail_is_short(n: nat)
    ensures
        drawn(n, n).len() <= MAX_DOTS,
{
    if n > 0 {
        lemma_drawn_count(n, n);
        lemma_stride_covers(n);
        let step = stride(n) as int;
        let k = strided(n as int, step);
        vstd::arithmetic::div_mod::lemma_fundamental_div_mod_converse(
            127 * step + (step - 1),
            step,
            127,
            step - 1,
        );
        vstd::arithmetic::div_mod::lemma_div_is_ordered(
            k + step - 1,
            127 * step + (step - 1),
            step,
        );
    }
}

proof fn lemma_drawn_point(n: nat, k: nat, i: int)
    requires
        0 <= i < k,
        is_drawn(i, n),
    ensures
        drawn(n, k).contains(i),
    decreases k,
{
    if i == k - 1 {
        assert(drawn(n, k)[drawn(n, (k - 1) as nat).len() as int] == i);
    } else {
        lemma_drawn_point(n, (k - 1) as nat, i);
        let before = drawn(n, (k - 1) as nat);
        let x = choose|x: int| 0 <= x < before.len() && before[x] == i;
        assert(drawn(n, k)[x] == i);
    }
}

/// The first and the last point of a stroke are always drawn.
pub proof fn law_trail_keeps_ends(n: nat)
    requires
        n > 0,
    ensures
        drawn(n, n).contains(0),
        drawn(n, n).contains(n - 1),
{
    lemma_stride_covers(n);
    vstd::arithmetic::div_mod::lemma_fundamental_div_mod_converse(0, stride(n) as int, 0, 0);
    lemma_drawn_point(n, n, 0);
    lemma_drawn_point(n, n, n - 1);
}

} // verus!
