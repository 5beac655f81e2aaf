//! What the glyphs, the rhythms, the wheel and the names of things have to do with one another.

use vstd::prelude::*;

use crate::naming::{
    app_stem, config_tags, file_part, first_free_glyph, fmt_uptime, free_glyph_name, glyph_name,
    law_rhythm_is_phrase, phrase, phrase_symbols, platform_tags, refresh_profile_suggestion, rhythm,
    rhythm_symbols, stem, sync_activation_view, without_all, without_one, Beat, NameSearch,
};
use crate::text::{
    begins_with, decimal, decimal_int, finishes_with, is_space, texts, trimmed, two_digits,
};
use crate::text_laws::{law_clean_text_is_trimmed, law_joined_from_the_front};
use crate::textmap::TextMap;
use crate::weave::{
    activation_set, assist_set, bound_taps, cast_trigger_captured, effects_by, feel_timing_set,
    first_error, gestures_cleared, glyph_named, healed_sector, hypershift_set,
    law_deleted_glyph_is_gone, others, refresh_effects, refresh_gestures, refresh_pockets,
    refresh_pockets_if_changed, refresh_radial, refresh_rhythms, rhythm_bind, rhythm_order,
    rhythm_recorded, rhythm_recording, sector_prompt, set_feel_timing, set_sector_count,
    shown_sectors, stance_meaning, FeelTiming, Glyph, GlyphChip, Glyphs, HyperRadial, LayerMode,
    Pocket, PocketCard, Renamed, RhythmBind, RhythmRow,
};

verus! {

// ── glyphs ──────────────────────────────────────────────────────────────────────────────────────

/// Every glyph of another name survives a deletion, in order.
pub proof fn law_other_glyphs_survive<T>(t: Seq<Glyph<T>>, name: Seq<char>, k: nat, i: int)
    requires
        k <= t.len(),
        0 <= i < k,
        t[i].name@ != name,
    ensures
        others(t, name, k).contains(t[i]),
    decreases k,
{
    let before = others(t, name, (k - 1) as nat);
    if i < k - 1 {
        law_other_glyphs_survive(t, name, (k - 1) as nat, i);
        let x = choose|x: int| 0 <= x < before.len() && before[x] == t[i];
        assert(others(t, name, k)[x] == t[i]);
    } else {
        assert(others(t, name, k)[before.len() as int] == t[i]);
    }
}

/// A name that no glyph has deletes nothing.
pub proof fn law_unknown_name_deletes_nothing<T>(t: Seq<Glyph<T>>, name: Seq<char>, k: nat)
    requires
        k <= t.len(),
        forall|i: int| 0 <= i < k ==> (#[trigger] t[i]).name@ != name,
    ensures
        others(t, name, k) == t.take(k as int),
    decreases k,
{
    if k > 0 {
        law_unknown_name_deletes_nothing(t, name, (k - 1) as nat);
        assert(t[k - 1].name@ != name);
        assert(t.take(k - 1).push(t[k - 1]) =~= t.take(k as int));
    } else {
        assert(t.take(0) =~= Seq::<Glyph<T>>::empty());
    }
}

/// A deleted glyph is gone with its binding; the bindings of all others stay.
pub proof fn law_deletion_takes_the_binding<T, A>(g: &mut Glyphs<T, A>, name: &str, other: Seq<char>)
    requires
        call_ensures(Glyphs::<T, A>::delete_gesture, (g, name), ()),
        old(g).wf(),
        other != name@,
    ensures
        !final(g).bound@.contains_key(name@),
        final(g).bound@.contains_key(other) <==> old(g).bound@.contains_key(other),
        old(g).bound@.contains_key(other) ==> final(g).bound@[other] == old(g).bound@[other],
        forall|i: int| 0 <= i < final(g).templates@.len() ==> (#[trigger] final(g).templates@[i]).name@
            != name@,
{
    law_deleted_glyph_is_gone(
        old(g).templates@,
        name@,
        old(g).templates@.len(),
    );
}

/// A glyph is renamed exactly where the new name says something, no glyph has it and the glyph is there;
/// its shape and its binding go with it.
pub proof fn law_rename_moves_shape_and_binding<T, A>(
    g: &mut Glyphs<T, A>,
    from: &str,
    to: &str,
    r: Renamed,
)
    requires
        call_ensures(Glyphs::<T, A>::rename_gesture, (g, from, to), r),
        old(g).wf(),
    ensures
        r is Done <==> trimmed(to@).len() > 0 && glyph_named(old(g).templates@, trimmed(to@), 0) is None
            && glyph_named(old(g).templates@, from@, 0) is Some,
        r is Done && old(g).bound@.contains_key(from@) ==> final(g).bound@.contains_key(trimmed(to@))
            && final(g).bound@[trimmed(to@)] == old(g).bound@[from@],
        r is Done && old(g).bound@.contains_key(from@) && from@ != trimmed(to@)
            ==> !final(g).bound@.contains_key(from@),
        r is Done ==> final(g).templates@.len() == old(g).templates@.len(),
        r is Refused ==> final(g).templates@ == old(g).templates@ && final(g).bound@ == old(g).bound@,
{
}

/// The name that a search finds is that of the first glyph that has it.
pub proof fn law_glyph_is_found_by_name<T>(t: Seq<Glyph<T>>, name: Seq<char>, from: nat)
    ensures
        match glyph_named(t, name, from) {
            Some(i) => from <= i < t.len() && t[i as int].name@ == name && forall|j: int|
                from <= j < i ==> (#[trigger] t[j]).name@ != name,
            None => forall|j: int| from <= j < t.len() ==> (#[trigger] t[j]).name@ != name,
        },
    decreases t.len() - from,
{
    if from < t.len() && t[from as int].name@ != name {
        law_glyph_is_found_by_name(t, name, from + 1);
    }
}

/// Every glyph has a chip with its name, and with its own action where it is bound.
pub proof fn law_chips_show_their_glyphs<T>(
    templates: &Vec<Glyph<T>>,
    bound: &TextMap<String>,
    r: Vec<GlyphChip>,
    i: int,
)
    requires
        call_ensures(refresh_gestures::<T>, (templates, bound), r),
        bound.wf(),
        0 <= i < templates@.len(),
    ensures
        r@.len() == templates@.len(),
        r@[i].name@ == templates@[i].name@,
        r@[i].bound <==> bound@.contains_key(templates@[i].name@),
        r@[i].bound ==> r@[i].action@ == bound@[templates@[i].name@]@,
        !r@[i].bound ==> r@[i].action@.len() == 0,
{
}

/// Clearing leaves no glyph and no binding.
pub proof fn law_clearing_leaves_nothing<T, A>(g: &mut Glyphs<T, A>, r: usize)
    requires
        call_ensures(Glyphs::<T, A>::clear_gestures, (g,), r),
        old(g).wf(),
    ensures
        final(g).templates@.len() == 0,
        forall|k: Seq<char>| !#[trigger] final(g).bound@.contains_key(k),
        r == old(g).bound.entries@.len(),
{
}

/// The first of two errors is the one that is told.
pub proof fn law_first_error_is_told(a: Option<String>, b: Option<String>, r: Option<String>)
    requires
        call_ensures(first_error, (a, b), r),
    ensures
        a is Some ==> r == a,
        a is None ==> r == b,
{
}

// ── rhythms ─────────────────────────────────────────────────────────────────────────────────────

/// A rhythm of so many taps is shown with so many dots and a bar behind them.
pub proof fn law_rhythm_shows_its_taps(taps: nat)
    ensures
        rhythm(0) == "▬"@,
        rhythm(taps + 1) == "●"@ + " "@ + rhythm(taps),
{
    let none = Seq::new(0, |i: int| "●"@).push("▬"@);
    assert(none =~= seq!["▬"@]);
    let all = Seq::new(taps, |i: int| "●"@).push("▬"@);
    let more = Seq::new(taps + 1, |i: int| "●"@).push("▬"@);
    assert(more =~= seq!["●"@] + all);
    law_joined_from_the_front("●"@, all, " "@);
}

/// Every row of the rhythms shows its own taps and what they fire; what is bound has a row.
pub proof fn law_rhythm_rows_show_their_taps(b: &Vec<RhythmBind>, r: Vec<RhythmRow>, i: int)
    requires
        call_ensures(refresh_rhythms, (b,), r),
        0 <= i < r@.len(),
    ensures
        r@[i].taps >= 0,
        r@[i].label@ == rhythm(r@[i].taps as nat),
        r@[i].bound <==> rhythm_bind(b@, r@[i].taps as nat, 0) is Some,
        rhythm_bind(b@, r@[i].taps as nat, 0) matches Some(k) ==> r@[i].desc@ == b@[k as int].action->0@,
        !r@[i].bound ==> r@[i].desc@.len() == 0,
{
}

/// What a rhythm fires is the first action that is bound to its taps.
pub proof fn law_first_bound_action_fires(b: Seq<RhythmBind>, taps: nat, from: nat)
    ensures
        match rhythm_bind(b, taps, from) {
            Some(i) => from <= i < b.len() && b[i as int].taps == taps && b[i as int].action is Some,
            None => forall|j: int|
                from <= j < b.len() ==> (#[trigger] b[j]).taps != taps || b[j].action is None,
        },
    decreases b.len() - from,
{
    if from < b.len() && !(b[from as int].taps == taps && b[from as int].action is Some) {
        law_first_bound_action_fires(b, taps, from + 1);
    }
}

/// Every bound rhythm of one tap or more has a row.
pub proof fn law_bound_rhythm_has_a_row(b: Seq<RhythmBind>, taps: nat)
    requires
        1 <= taps <= 255,
        rhythm_bind(b, taps, 0) is Some,
    ensures
        rhythm_order(b).contains(taps),
{
    lemma_bound_taps(b, taps, 255);
    let bound = bound_taps(b, 255);
    let x = choose|x: int| 0 <= x < bound.len() && bound[x] == taps;
    assert(rhythm_order(b)[x] == taps);
}

proof fn lemma_bound_taps(b: Seq<RhythmBind>, taps: nat, t: nat)
    requires
        1 <= taps <= t,
        rhythm_bind(b, taps, 0) is Some,
    ensures
        bound_taps(b, t).contains(taps),
    decreases t,
{
    let before = bound_taps(b, (t - 1) as nat);
    if taps < t {
        lemma_bound_taps(b, taps, (t - 1) as nat);
        let x = choose|x: int| 0 <= x < before.len() && before[x] == taps;
        assert(bound_taps(b, t)[x] == taps);
    } else {
        assert(bound_taps(b, t)[before.len() as int] == taps);
    }
}

/// A phrase shows one sign for each beat, a dot for a tap and a bar for a hold, and says where it is
/// closed by another tap.
pub proof fn law_phrase_shows_its_beats(beats: Seq<Beat>, i: int)
    requires
        0 <= i < beats.len(),
    ensures
        phrase(beats)[i] == (if beats[i] == Beat::Tap {
            "●"@
        } else {
            "▬"@
        }),
        phrase(beats).len() == (if beats.last() == Beat::Hold {
            beats.len()
        } else {
            beats.len() + 1
        }),
        beats.last() == Beat::Tap ==> phrase(beats).last() == "↔"@,
{
}

/// The signs of a rhythm, of a phrase and of the activation agree.
pub proof fn law_signs_agree(
    taps: u8,
    beats: &Vec<Beat>,
    pattern: &str,
    parsed: &Option<Vec<Beat>>,
    r: String,
    s: String,
    v: (String, String),
)
    requires
        call_ensures(rhythm_symbols, (taps,), r),
        call_ensures(phrase_symbols, (beats,), s),
        call_ensures(sync_activation_view, (pattern, parsed), v),
    ensures
        r@ == rhythm(taps as nat),
        beats@ == Seq::new(taps as nat, |i: int| Beat::Tap).push(Beat::Hold) ==> r@ == s@,
        *parsed matches Some(b) ==> (b@ == beats@ ==> v.1@ == s@),
        v.0@ == pattern@,
        *parsed is None ==> v.1@ == "▬"@,
{
    law_rhythm_is_phrase(taps as nat);
    if *parsed is None {
        assert(phrase(seq![Beat::Hold]) =~= seq!["▬"@]);
    }
}

// ── the wheel ───────────────────────────────────────────────────────────────────────────────────

/// A wheel has as many wedges as were asked for, between three and what fits.
pub proof fn law_wheel_has_what_fits(n: i32, max: i32, r: i32)
    requires
        call_ensures(set_sector_count, (n, max), r),
        max >= 3,
    ensures
        3 <= r <= max,
        3 <= n <= max ==> r == n,
        n > max ==> r == max,
        n < 3 ==> r == 3,
{
}

/// Every wedge shows its own direction and its own action, a dash where it has none.
pub proof fn law_wedges_show_their_actions(
    labels: &Vec<String>,
    actions: &Vec<String>,
    r: Vec<(String, String)>,
    i: int,
)
    requires
        call_ensures(refresh_radial, (labels, actions), r),
        0 <= i < labels@.len(),
    ensures
        r@.len() == labels@.len(),
        r@[i].0@ == labels@[i]@,
        i < actions@.len() ==> r@[i].1@ == actions@[i]@,
        i >= actions@.len() ==> r@[i].1@ == "—"@,
{
}

/// A mark on a wedge that is gone is taken off; any other stays.
pub proof fn law_mark_stays_on_the_wheel(marked: i32, n: i32, r: i32, sectors: usize, s: usize)
    requires
        call_ensures(healed_sector, (marked, n), r),
        call_ensures(shown_sectors, (sectors,), s),
    ensures
        marked < n ==> r == marked,
        marked >= n ==> r == -1,
        s >= 1,
        sectors >= 1 ==> s == sectors,
{
}

/// The prompt of a wedge names it by number and direction.
pub proof fn law_wedge_prompt(i: i32, compass: &str, r: String)
    requires
        call_ensures(sector_prompt, (i, compass), r),
    ensures
        begins_with(r@, "editing wedge "@ + decimal_int(i as int) + " ("@ + compass@ + ")"@),
{
    reveal_strlit(") — choose an action, then Set");
    reveal_strlit(")");
    let p = "editing wedge "@ + decimal_int(i as int) + " ("@ + compass@ + ")"@;
    assert(r@.take(p.len() as int) =~= p);
}

/// The second wheel shows what was saved last.
pub proof fn law_second_wheel_shows_what_was_saved(h: &mut HyperRadial, on: bool, e: &Option<String>, r: String)
    requires
        call_ensures(HyperRadial::set, (h, on, e), r),
    ensures
        final(h).held == on,
        *e is None ==> final(h).shown == on && r@ == (if on {
            "HyperShift radial enabled"@
        } else {
            "HyperShift radial off"@
        }),
        *e is Some ==> final(h).shown == old(h).shown,
{
}

/// The windows of the timing are what was asked for, none below zero, each in its own place.
pub proof fn law_timing_is_as_asked(hold: i32, gap: i32, coyote: i32, t: FeelTiming, r: String)
    requires
        call_ensures(set_feel_timing, (hold, gap, coyote), t),
        call_ensures(feel_timing_set, (t,), r),
        hold >= 0 && gap >= 0 && coyote >= 0,
    ensures
        t.hold_ms == hold && t.gap_ms == gap && t.coyote_ms == coyote,
        r@ == "feel timing -> hold "@ + decimal(hold as nat) + "ms · gap "@ + decimal(gap as nat)
            + "ms · coyote "@ + decimal(coyote as nat) + "ms"@,
{
}

/// A time below zero is none.
pub proof fn law_no_time_below_zero(hold: i32, gap: i32, coyote: i32, t: FeelTiming)
    requires
        call_ensures(set_feel_timing, (hold, gap, coyote), t),
    ensures
        hold < 0 ==> t.hold_ms == 0,
        gap < 0 ==> t.gap_ms == 0,
        coyote < 0 ==> t.coyote_ms == 0,
{
}

/// The stances of the second layer, in words.
pub proof fn law_stances_in_words(m: LayerMode)
    ensures
        stance_meaning(m) == "live while held"@ <==> m == LayerMode::Hold,
        stance_meaning(m) == "tap on, tap off"@ <==> m == LayerMode::Latch,
        stance_meaning(m) == "tap latches, hold is momentary"@ <==> m == LayerMode::Smart,
        stance_meaning(m) == "next press only"@ <==> m == LayerMode::OneShot,
{
    reveal_strlit("live while held");
    reveal_strlit("tap on, tap off");
    reveal_strlit("tap latches, hold is momentary");
    reveal_strlit("next press only");
    assert("live while held"@[0] == 'l' && "tap on, tap off"@[0] == 't' && "next press only"@[0] == 'n');
    assert("tap latches, hold is momentary"@.len() != "tap on, tap off"@.len());
    assert("tap latches, hold is momentary"@[0] == 't');
}

// ── pockets and effects ─────────────────────────────────────────────────────────────────────────

/// Every pocket has a card with its name and its summary; a filled one shows its sigil.
pub proof fn law_pockets_show_what_they_hold(ps: &Vec<Pocket>, r: Vec<PocketCard>, i: int)
    requires
        call_ensures(refresh_pockets, (ps,), r),
        0 <= i < ps@.len(),
    ensures
        r@.len() == ps@.len(),
        r@[i].name@ == ps@[i].slot@ && r@[i].summary@ == ps@[i].summary@ && r@[i].durable
            == ps@[i].durable,
        r@[i].filled <==> !(ps@[i].kind is Empty),
        r@[i].filled ==> r@[i].sigil@ == ps@[i].sigil@,
        !r@[i].filled ==> r@[i].sigil@.len() == 0 && r@[i].kind@ == "empty"@,
        ps@[i].kind is Text ==> r@[i].kind@ == "text"@,
        ps@[i].kind is Files ==> r@[i].kind@ == "files"@,
        ps@[i].kind is Image ==> r@[i].kind@ == "image"@,
{
}

/// Pockets are shown anew once for each change.
pub proof fn law_pockets_are_shown_once(now: u64, a: &mut u64, b: &mut u64, first: bool, second: bool)
    requires
        call_ensures(refresh_pockets_if_changed, (now, a), first),
        *old(b) == *final(a),
        call_ensures(refresh_pockets_if_changed, (now, b), second),
    ensures
        first <==> *old(a) != now,
        !second,
{
}

/// Every effect is in one of the two lists, in order: those that the device runs, and those that are
/// streamed.
pub proof fn law_effects_are_parted(natives: Seq<bool>, native: bool, k: nat)
    requires
        k <= natives.len(),
    ensures
        forall|q: int|
            0 <= q < effects_by(natives, native, k).len() ==> 0 <= #[trigger] effects_by(
                natives,
                native,
                k,
            )[q] < k && natives[effects_by(natives, native, k)[q]] == native,
        forall|i: int|
            0 <= i < k && #[trigger] natives[i] == native ==> effects_by(natives, native, k).contains(i),
        forall|p: int, q: int|
            0 <= p < q < effects_by(natives, native, k).len() ==> #[trigger] effects_by(
                natives,
                native,
                k,
            )[p] < #[trigger] effects_by(natives, native, k)[q],
    decreases k,
{
    if k > 0 {
        law_effects_are_parted(natives, native, (k - 1) as nat);
        let before = effects_by(natives, native, (k - 1) as nat);
        let all = effects_by(natives, native, k);
        assert forall|i: int| 0 <= i < k && #[trigger] natives[i] == native implies all.contains(i) by {
            if i < k - 1 {
                let x = choose|x: int| 0 <= x < before.len() && before[x] == i;
                assert(all[x] == i);
            } else {
                assert(all[before.len() as int] == i);
            }
        }
    }
}

/// The first list holds what the device runs, the second what is streamed.
pub proof fn law_effect_lists(natives: &Vec<bool>, r: (Vec<usize>, Vec<usize>), q: int)
    requires
        call_ensures(refresh_effects, (natives,), r),
    ensures
        0 <= q < r.0@.len() ==> r.0@[q] < natives@.len() && natives@[r.0@[q] as int],
        0 <= q < r.1@.len() ==> r.1@[q] < natives@.len() && !natives@[r.1@[q] as int],
{
    law_effects_are_parted(natives@, true, natives@.len());
    law_effects_are_parted(natives@, false, natives@.len());
}

// ── names ───────────────────────────────────────────────────────────────────────────────────────

/// No separator of folders stands in `s`.
pub open spec fn is_file_name(s: Seq<char>) -> bool {
    forall|i: int| 0 <= i < s.len() ==> #[trigger] s[i] != '\\' && s[i] != '/'
}

/// What stands behind the last separator of a path is its file.
pub proof fn law_file_is_behind_the_last_separator(dir: Seq<char>, sep: char, file: Seq<char>)
    requires
        sep == '\\' || sep == '/',
        is_file_name(file),
    ensures
        file_part(dir + seq![sep] + file) == file,
        file_part(file) == file,
    decreases file.len(),
{
    let s = dir + seq![sep] + file;
    if file.len() == 0 {
        assert(s.last() == sep);
        assert(file =~= Seq::<char>::empty());
    } else {
        let front = file.drop_last();
        assert forall|i: int| 0 <= i < front.len() implies #[trigger] front[i] != '\\' && front[i]
            != '/' by {
            assert(front[i] == file[i]);
        }
        law_file_is_behind_the_last_separator(dir, sep, front);
        assert(s.drop_last() =~= dir + seq![sep] + front);
        assert(file[file.len() - 1] != '\\' && file[file.len() - 1] != '/');
        assert(front.push(file.last()) =~= file);
    }
}

/// A suffix is taken off, and a text that does not end in it stays.
pub proof fn law_suffix_is_taken_off(s: Seq<char>, suffix: Seq<char>)
    requires
        suffix.len() > 0,
        !finishes_with(s, suffix),
    ensures
        without_all(s, suffix) == s,
        without_all(s + suffix, suffix) == s,
{
    let t = s + suffix;
    assert(t.skip(t.len() - suffix.len()) =~= suffix);
    assert(t.take(t.len() - suffix.len()) =~= s);
}

/// The name of a program is its file without folders and without its ending.
pub proof fn law_program_is_named_by_its_file(focused: &str, dir: Seq<char>, name: Seq<char>, r: String)
    requires
        call_ensures(app_stem, (focused,), r),
        focused@ == dir + seq!['\\'] + (name + ".exe"@),
        name.len() > 0,
        is_file_name(name),
        !is_space(name[0]) && !is_space(name.last()),
        !finishes_with(name, ".exe"@) && !finishes_with(name, ".EXE"@),
        forall|i: int| 0 <= i < config_tags().len() ==> !finishes_with(name, #[trigger] config_tags()[i]),
        forall|i: int| 0 <= i < platform_tags().len() ==> !finishes_with(name, #[trigger] platform_tags()[i]),
    ensures
        r@ == name,
{
    reveal_strlit(".exe");
    reveal_strlit(".EXE");
    let file = name + ".exe"@;
    assert(is_file_name(file)) by {
        assert forall|i: int| 0 <= i < file.len() implies #[trigger] file[i] != '\\' && file[i] != '/' by {
            if i < name.len() {
                assert(file[i] == name[i]);
            }
        }
    }
    law_file_is_behind_the_last_separator(dir, '\\', file);
    law_suffix_is_taken_off(name, ".exe"@);
    law_suffix_is_taken_off(name, ".EXE"@);
    lemma_no_tag(name, config_tags(), 0);
    lemma_no_tag(name, platform_tags(), 0);
    law_clean_text_is_trimmed(name);
}

proof fn lemma_no_tag(s: Seq<char>, tags: Seq<Seq<char>>, from: nat)
    requires
        forall|i: int| 0 <= i < tags.len() ==> !finishes_with(s, #[trigger] tags[i]),
    ensures
        without_one(s, tags, from) == s,
    decreases tags.len() - from,
{
    if from < tags.len() {
        assert(!finishes_with(s, tags[from as int]));
        lemma_no_tag(s, tags, from + 1);
    }
}

/// The marks of a game's build do not belong to its name.
pub proof fn law_build_marks_are_no_name(name: Seq<char>, i: int, j: int)
    requires
        0 <= i < platform_tags().len(),
        0 <= j < config_tags().len(),
        name.len() > 0,
        is_file_name(name),
        !is_space(name[0]) && !is_space(name.last()),
        forall|k: int|
            0 <= k < j ==> !finishes_with(
                name + platform_tags()[i] + config_tags()[j],
                #[trigger] config_tags()[k],
            ),
        forall|k: int|
            0 <= k < i ==> !finishes_with(name + platform_tags()[i], #[trigger] platform_tags()[k]),
    ensures
        without_one(
            without_one(name + platform_tags()[i] + config_tags()[j], config_tags(), 0),
            platform_tags(),
            0,
        ) == name,
{
    lemma_tag_found(name + platform_tags()[i], config_tags(), 0, j);
    lemma_tag_found(name, platform_tags(), 0, i);
}

proof fn lemma_tag_found(s: Seq<char>, tags: Seq<Seq<char>>, from: nat, j: int)
    requires
        from <= j < tags.len(),
        forall|k: int| 0 <= k < j ==> !finishes_with(s + tags[j], #[trigger] tags[k]),
    ensures
        without_one(s + tags[j], tags, from) == s,
    decreases j - from,
{
    let t = s + tags[j];
    if from == j {
        assert(t.skip(t.len() - tags[j].len()) =~= tags[j]);
        assert(t.take(t.len() - tags[j].len()) =~= s);
    } else {
        assert(!finishes_with(t, tags[from as int]));
        lemma_tag_found(s, tags, from + 1, j);
    }
}

/// A profile is named after the focused program, else after its effect, else after its resolution.
pub proof fn law_profile_is_named_after_the_program(focused: &str, dpi: i32, effect: &str, r: NameSearch)
    requires
        call_ensures(refresh_profile_suggestion, (focused, dpi, effect), r),
    ensures
        r.tried == 0,
        stem(focused@).len() > 0 && stem(focused@) != "—"@ ==> r.root@ == stem(focused@) && !r.numbered,
        stem(focused@).len() == 0 && effect@.len() > 0 ==> r.root@ == decimal_int(dpi as int) + " "@
            + effect@ && !r.numbered,
        stem(focused@).len() == 0 && effect@.len() == 0 && dpi > 0 ==> r.root@ == decimal_int(dpi as int)
            + " dpi"@ && !r.numbered,
        stem(focused@).len() == 0 && effect@.len() == 0 && dpi <= 0 ==> r.root@ == "profile"@
            && r.numbered,
{
}

/// The name that a search offers is the first that is not taken: the root itself, then the root with
/// rising numbers from two on.
pub proof fn law_search_offers_what_is_free(s: &mut NameSearch, taken: bool, r: Option<String>, shown: String)
    requires
        call_ensures(NameSearch::step, (s, taken), r),
        old(s).tried < u64::MAX,
        call_ensures(NameSearch::candidate, (&*old(s),), shown),
    ensures
        taken <==> r is None,
        r matches Some(n) ==> n@ == shown@,
        taken ==> final(s).tried == old(s).tried + 1,
        old(s).tried == 0 && !old(s).numbered ==> shown@ == old(s).root@,
        old(s).tried > 0 ==> shown@ == old(s).root@ + " "@ + decimal((old(s).tried + 1) as nat),
        old(s).tried == 0 && old(s).numbered ==> shown@ == old(s).root@ + " "@ + decimal(1),
        final(s).root == old(s).root,
{
}

/// A new glyph gets the lowest number that no glyph has.
pub proof fn law_new_glyph_gets_the_lowest_number(names: &Vec<String>, r: String, j: nat)
    requires
        call_ensures(free_glyph_name, (names,), r),
        names@.len() < usize::MAX,
        j >= 1,
        !texts(names@).contains("glyph_"@ + decimal(j)),
    ensures
        !texts(names@).contains(r@),
        exists|i: nat| 1 <= i <= j && r@ == #[trigger] glyph_name(i),
        begins_with(r@, "glyph_"@),
{
    let i = choose|i: nat| first_free_glyph(texts(names@), i) && r@ == #[trigger] glyph_name(i);
    assert(glyph_name(j) == "glyph_"@ + decimal(j));
    assert(i <= j);
    assert(r@.take("glyph_"@.len() as int) =~= "glyph_"@);
}

/// A time is shown in its two largest units.
pub proof fn law_time_in_two_units(ms: u64, d: nat, h: nat, m: nat, s: nat, rest: nat, r: String)
    requires
        call_ensures(fmt_uptime, (ms,), r),
        h < 24,
        m < 60,
        s < 60,
        rest < 1000,
        ms == (((d * 24 + h) * 60 + m) * 60 + s) * 1000 + rest,
    ensures
        d > 0 ==> r@ == decimal(d) + "d "@ + two_digits(h) + "h"@,
        d == 0 && h > 0 ==> r@ == decimal(h) + "h "@ + two_digits(m) + "m"@,
        d == 0 && h == 0 && m > 0 ==> r@ == decimal(m) + "m "@ + two_digits(s) + "s"@,
        d == 0 && h == 0 && m == 0 ==> r@ == decimal(s) + "s"@,
{
    let t = (ms / 1000) as int;
    assert(t == ((d * 24 + h) * 60 + m) * 60 + s);
    assert(t == d * 86400 + h * 3600 + m * 60 + s);
    assert(t / 86400 == d && t % 86400 == h * 3600 + m * 60 + s) by (nonlinear_arith)
        requires
            t == d * 86400 + h * 3600 + m * 60 + s,
            0 <= h < 24,
            0 <= m < 60,
            0 <= s < 60,
            0 <= d,
    ;
    assert((h * 3600 + m * 60 + s) / 3600 == h);
    assert(t % 3600 == m * 60 + s) by (nonlinear_arith)
        requires
            t == d * 86400 + h * 3600 + m * 60 + s,
            0 <= m < 60,
            0 <= s < 60,
    ;
    assert((m * 60 + s) / 60 == m);
    assert(t % 60 == s) by (nonlinear_arith)
        requires
            t == d * 86400 + h * 3600 + m * 60 + s,
            0 <= s < 60,
    ;
}

/// What was set is told with its value, what failed with its reason.
pub proof fn law_settings_are_told(
    n: usize,
    off: bool,
    percent: u32,
    vk: u16,
    name: &str,
    error: &Option<String>,
    cleared: String,
    assist: String,
    cast: String,
    recording: String,
)
    requires
        call_ensures(gestures_cleared, (n, error), cleared),
        call_ensures(assist_set, (off, percent, error), assist),
        call_ensures(cast_trigger_captured, (vk, name, error), cast),
        call_ensures(rhythm_recording, (name,), recording),
    ensures
        *error is None ==> cleared@ == "gesture vault cleared ("@ + decimal(n as nat)
            + " glyph binding(s) removed)"@,
        *error is None && !off ==> assist@ == "spell forgiveness → "@ + decimal(percent as nat)
            + "% (near-misses snap to a clear-winner spell)"@,
        *error is None && off ==> assist@ == "spell assist off — strict recognition only"@,
        *error is None && vk != 0 ==> cast@ == "cast trigger -> "@ + name@,
        vk == 0 ==> cast@ == "cast trigger capture cancelled"@,
        *error matches Some(e) ==> cleared@ == "gesture vault clear failed: "@ + e@ && assist@
            == "assist not saved: "@ + e@ && (vk != 0 ==> cast@ == "cast trigger save failed: "@ + e@),
        recording@ == "perform the rhythm on "@ + name@ + " now — taps and holds both count, ESC cancels"@,
{
}

/// A recorded rhythm and the way the weave opens are told with their phrase; one that ends in a tap is
/// closed by another.
pub proof fn law_rhythms_are_told(
    p: String,
    phrase: &str,
    hold: bool,
    m: LayerMode,
    error: &Option<String>,
    recorded: String,
    none: String,
    set: String,
    stance: String,
    some: &Option<String>,
)
    requires
        *some == Some(p),
        call_ensures(rhythm_recorded, (some, error), recorded),
        call_ensures(rhythm_recorded, (&None::<String>, error), none),
        call_ensures(activation_set, (phrase, hold, error), set),
        call_ensures(hypershift_set, (m, phrase, error), stance),
    ensures
        none@ == "no rhythm recorded"@,
        *error is None ==> recorded@ == "rhythm recorded — weave opens on ["@ + p@ + "]"@,
        *error is None && !hold ==> set@ == "weave opens on ["@ + phrase@ + "]"@ + " — tap again to close"@,
        *error is None && hold ==> set@ == "weave opens on ["@ + phrase@ + "]"@,
        *error is None ==> stance@ == "HyperShift stance -> "@ + phrase@ + " ("@ + (match m {
            LayerMode::Hold => "live while held"@,
            LayerMode::Latch => "tap on, tap off"@,
            LayerMode::Smart => "tap latches, hold is momentary"@,
            LayerMode::OneShot => "next press only"@,
        }) + ")"@,
        *error matches Some(e) ==> recorded@ == "rhythm not saved: "@ + e@ && set@ == "activation not saved: "@
            + e@ && stance@ == "stance not saved: "@ + e@,
{
    reveal_strlit("");
    assert(""@.len() == 0);
    assert("weave opens on ["@ + phrase@ + "]"@ + ""@ =~= "weave opens on ["@ + phrase@ + "]"@);
}

/// A refused name tells why: it is empty, it is taken, or there is no such glyph.
pub proof fn law_refused_name_tells_why<T, A>(g: &mut Glyphs<T, A>, from: &str, to: &str, r: Renamed)
    requires
        call_ensures(Glyphs::<T, A>::rename_gesture, (g, from, to), r),
        old(g).wf(),
    ensures
        trimmed(to@).len() == 0 ==> (r matches Renamed::Refused(s) && s@ == "a glyph needs a name"@),
        trimmed(to@).len() > 0 && glyph_named(old(g).templates@, trimmed(to@), 0) is Some ==> (r matches Renamed::Refused(
            s,
        ) && s@ == "a glyph named '"@ + trimmed(to@) + "' already exists"@),
        trimmed(to@).len() > 0 && glyph_named(old(g).templates@, trimmed(to@), 0) is None && glyph_named(
            old(g).templates@,
            from@,
            0,
        ) is None ==> (r matches Renamed::Refused(s) && s@ == "no glyph '"@ + from@ + "'"@),
{
}

} // verus!
