//! What the lists of bindings show, what the picker of actions holds, and which editor owns it.

use vstd::prelude::*;

use crate::bindings::{
    add_binding_refused, begin_edit_refused, binding_added, bindings_reloaded, commit_step,
    edited_index, edited_trigger, gesture_prompt, hold_key, hypershift_hold_captured,
    hypershift_hold_cleared, is_hold, refresh_rules, remove_refused, rhythm_prompt, saved_text,
    tier, tier_index, trigger_kind_str, AddOutcome, BindTrigger, CommitStep, Editors, GuiRule,
    HoldKeyMove, RuleLists, RuleView, TriggerKind,
};
use crate::palette::{
    captured_fill, captured_text, choice_from, choice_of, choice_shows, current_action,
    default_choice, first_choice, init_action_palette, opens_group, palette_rows,
    refresh_param_suggestions, row_of, ActionChoice, Known, PaletteEntry, PickerState,
};
use crate::text::{decimal, decimal_int, is_space, texts};
use crate::text_laws::{
    law_blanks_around_do_not_count, law_clean_text_is_trimmed, law_cut_at_the_first_character,
};

verus! {

// ── the lists ───────────────────────────────────────────────────────────────────────────────────

/// The authored rules of a layer are all listed, each once and in order, and nothing else is: those with
/// a layer on the second, those without on the first, the hold key on neither.
pub proof fn law_layer_lists_its_own_rules(gui: Seq<GuiRule>, hyper: bool, k: nat)
    requires
        k <= gui.len(),
    ensures
        forall|q: int|
            0 <= q < tier(gui, hyper, k).len() ==> 0 <= #[trigger] tier(gui, hyper, k)[q] < k && (
            gui[tier(gui, hyper, k)[q]].layer is Some <==> hyper) && !(
            gui[tier(gui, hyper, k)[q]].noop && (gui[tier(gui, hyper, k)[q]].layer matches Some(l) && l@
                == "hypershift"@)),
        forall|p: int, q: int|
            0 <= p < q < tier(gui, hyper, k).len() ==> #[trigger] tier(gui, hyper, k)[p]
                < #[trigger] tier(gui, hyper, k)[q],
        forall|i: int|
            0 <= i < k && ((#[trigger] gui[i]).layer is Some <==> hyper) && !(gui[i].noop && (
            gui[i].layer matches Some(l) && l@ == "hypershift"@)) ==> tier(gui, hyper, k).contains(i),
    decreases k,
{
    if k > 0 {
        law_layer_lists_its_own_rules(gui, hyper, (k - 1) as nat);
        let before = tier(gui, hyper, (k - 1) as nat);
        let all = tier(gui, hyper, k);
        assert forall|i: int|
            0 <= i < k && ((#[trigger] gui[i]).layer is Some <==> hyper) && !(gui[i].noop && (
            gui[i].layer matches Some(l) && l@ == "hypershift"@)) implies all.contains(i) by {
            if i < k - 1 {
                assert(before.contains(i));
                let x = choose|x: int| 0 <= x < before.len() && before[x] == i;
                assert(all[x] == i);
            } else {
                assert(all[before.len() as int] == i);
            }
        }
    }
}

/// The rows of a layer are those that come from files, then the authored ones; each shows the trigger
/// and the action of its own rule, and only an authored one can be removed.
pub proof fn law_rows_show_their_rules(
    base: &Vec<RuleView>,
    hyper: &Vec<RuleView>,
    gui: &Vec<GuiRule>,
    r: RuleLists,
    i: int,
)
    requires
        call_ensures(refresh_rules, (base, hyper, gui), r),
        gui@.len() <= i32::MAX,
        0 <= i < r.base@.len(),
    ensures
        r.base@.len() == base@.len() + r.editable_base,
        r.hyper@.len() == hyper@.len() + r.editable_hyper,
        i < base@.len() ==> r.base@[i].trigger@ == base@[i].trigger@ && r.base@[i].action@
            == base@[i].action@ && !r.base@[i].removable,
        i >= base@.len() ==> r.base@[i].removable && r.base@[i].layer@ == "base"@ && exists|g: int|
            0 <= g < gui@.len() && r.base@[i].trigger@ == (#[trigger] gui@[g]).trigger@
                && r.base@[i].action@ == gui@[g].action@ && gui@[g].layer is None,
{
    law_layer_lists_its_own_rules(gui@, false, gui@.len());
    let own = tier(gui@, false, gui@.len());
    if i >= base@.len() {
        let q = i - base@.len();
        let g = own[q];
        assert(r.base@[base@.len() + q] == r.base@[i]);
        assert(r.base@[i].trigger@ == gui@[g].trigger@);
    }
}

/// The hold key that is shown is the one that was written last.
pub proof fn law_last_hold_key_is_shown(gui: Seq<GuiRule>, k: nat, i: int)
    requires
        k <= gui.len(),
        0 <= i < k,
        gui[i].noop,
        gui[i].layer matches Some(l) && l@ == "hypershift"@,
        forall|j: int| i < j < k ==> !is_hold(#[trigger] gui[j]),
    ensures
        hold_key(gui, k) == Some(gui[i].trigger@),
    decreases k,
{
    if i < k - 1 {
        assert(!is_hold(gui[k - 1]));
        law_last_hold_key_is_shown(gui, (k - 1) as nat, i);
    }
}

/// A row of the first layer leads to its rule's number among the authored ones, one of the second to its
/// own number; a row that comes from a file leads nowhere.
pub proof fn law_row_numbers(row: i32, total: i32, editable: i32, base: Option<usize>, hyper: Option<usize>)
    requires
        call_ensures(tier_index, (row, false, total, editable), base),
        call_ensures(tier_index, (row, true, total, editable), hyper),
        0 <= editable <= total,
        0 <= row < total,
    ensures
        base is Some <==> row >= total - editable,
        base matches Some(n) ==> n + (total - editable) == row && n < editable,
        hyper == Some(row as usize),
{
}

/// A trigger that was captured anew takes the place of the one there was.
pub proof fn law_captured_trigger_wins<T>(captured: Option<T>, existing: Option<T>, r: Option<T>)
    requires
        call_ensures(edited_trigger::<T>, (captured, existing), r),
    ensures
        captured is Some ==> r == captured,
        captured is None ==> r == existing,
{
}

/// Nothing is written while no editor is open or while the action is not valid, and it is said why.
pub proof fn law_only_valid_actions_are_written(
    open: bool,
    captured: bool,
    invalid: &Option<String>,
    step: CommitStep,
    refused: Option<String>,
)
    requires
        call_ensures(commit_step, (open, invalid), step),
        call_ensures(add_binding_refused, (captured, invalid), refused),
    ensures
        step is Write <==> open && *invalid is None,
        step is Nothing <==> !open,
        step matches CommitStep::Refused(s) ==> (*invalid matches Some(e) && s@ == e@),
        refused is None <==> captured && *invalid is None,
{
}

/// What is said of a write is one of its two lines, the second with the reason.
pub proof fn law_write_is_reported(ok: &str, failed: &str, error: &Option<String>, r: String)
    requires
        call_ensures(saved_text, (ok, failed, error), r),
    ensures
        *error is None ==> r@ == ok@,
        *error matches Some(e) ==> r@ == failed@ + e@,
{
}

/// The marks of the triggers, by their kinds.
pub proof fn law_trigger_marks(t: TriggerKind, r: &'static str)
    requires
        call_ensures(trigger_kind_str, (t,), r),
    ensures
        r@ == "input"@ <==> t == TriggerKind::Input,
        r@ == "gesture"@ <==> t == TriggerKind::Gesture,
        r@ == "radial"@ <==> t == TriggerKind::RadialSector,
        r@ == "app"@ <==> t == TriggerKind::AppFocus,
        r@ == "mic"@ <==> t == TriggerKind::MicTap,
        r@ == "hold"@ <==> t == TriggerKind::Hold,
        r@ == "cast"@ <==> t == TriggerKind::Cast,
{
    reveal_strlit("input");
    reveal_strlit("gesture");
    reveal_strlit("radial");
    reveal_strlit("app");
    reveal_strlit("mic");
    reveal_strlit("hold");
    reveal_strlit("cast");
    assert("hold"@[0] != "cast"@[0]);
    assert("app"@[0] != "mic"@[0]);
    assert("input"@.len() == 5 && "gesture"@.len() == 7 && "radial"@.len() == 6 && "app"@.len() == 3
        && "mic"@.len() == 3 && "hold"@.len() == 4 && "cast"@.len() == 4);
}

/// The hold key goes live once it was written; clearing it reads the bindings anew in any case.
pub proof fn law_hold_key_moves(captured: bool, error: &Option<String>, set: HoldKeyMove, cleared: HoldKeyMove)
    requires
        call_ensures(hypershift_hold_captured, (captured, error), set),
        call_ensures(hypershift_hold_cleared, (error,), cleared),
    ensures
        set.reload <==> captured && *error is None,
        cleared.reload,
        captured ==> (*error matches Some(e) ==> set.status@ == cleared.status@),
{
}

// ── the trigger and the editors ─────────────────────────────────────────────────────────────────

/// A captured control is held and named until it is cleared; a cancelled capture changes nothing.
pub proof fn law_captured_control_is_held<C>(
    t: &mut BindTrigger<C>,
    u: &mut BindTrigger<C>,
    control: Option<(C, String)>,
    r: &'static str,
)
    requires
        call_ensures(BindTrigger::<C>::captured, (t, control), r),
        *old(u) == *final(t),
        call_ensures(BindTrigger::<C>::clear, (u,), ()),
    ensures
        control matches Some((c, label)) ==> final(t).captured == Some(c) && final(t).label@ == label@
            && final(t).ready,
        control is None ==> *final(t) == *old(t),
        final(u).captured is None && !final(u).ready && final(u).label@ == "—"@,
{
}

/// Whichever editor is opened, it is the one that is open, on what it was opened for; every other is
/// closed.
pub proof fn law_one_editor_is_open(
    a: &mut Editors,
    b: &mut Editors,
    c: &mut Editors,
    d: &mut Editors,
    i: i32,
    name: &str,
    hyper: bool,
)
    requires
        call_ensures(Editors::edit_sector, (a, i), ()),
        call_ensures(Editors::bind_gesture, (b, name), ()),
        call_ensures(Editors::bind_rhythm, (c, i), ()),
        call_ensures(Editors::begin_edit_rule, (d, i, hyper), ()),
        i >= 0,
        name@.len() > 0,
    ensures
        final(a).sector == i && final(a).glyph@.len() == 0 && final(a).rhythm < 0 && final(a).rule < 0,
        final(b).sector < 0 && final(b).glyph@ == name@ && final(b).rhythm < 0 && final(b).rule < 0,
        final(c).sector < 0 && final(c).glyph@.len() == 0 && final(c).rhythm == i && final(c).rule < 0,
        final(d).sector < 0 && final(d).glyph@.len() == 0 && final(d).rhythm < 0 && final(d).rule == i
            && final(d).rule_hyper == hyper,
        final(a).open_count() == 1 && final(b).open_count() == 1 && final(c).open_count() == 1 && final(d).open_count() == 1,
{
}

/// A wedge that was written closes its editor, one that was not leaves it open; the line names it.
pub proof fn law_written_wedge_closes(e: &mut Editors, f: &mut Editors, ok: &Option<String>, bad: &Option<String>, r: String, s: String)
    requires
        call_ensures(Editors::sector_committed, (e, ok), r),
        call_ensures(Editors::sector_committed, (f, bad), s),
        *ok is None,
        *bad is Some,
    ensures
        final(e).sector == -1,
        final(f).sector == old(f).sector,
        r@ == "wedge "@ + decimal_int(old(e).sector as int) + " set"@,
        final(e).glyph == old(e).glyph && final(e).rule == old(e).rule && final(e).rhythm == old(e).rhythm,
{
}

/// What moves, reloads, shrinks or deletes closes only the editors that it touches.
pub proof fn law_touched_editors_close(
    a: &mut Editors,
    b: &mut Editors,
    c: &mut Editors,
    d: &mut Editors,
    n: i32,
    name: &str,
)
    requires
        call_ensures(Editors::rows_moved, (a,), ()),
        call_ensures(Editors::reloaded, (b,), ()),
        call_ensures(Editors::wedges, (c, n), ()),
        call_ensures(Editors::glyph_deleted, (d, name), ()),
    ensures
        final(a).rule == -1 && final(a).sector == old(a).sector && final(a).glyph@ == old(a).glyph@,
        final(b).rule == -1 && final(b).sector == -1 && final(b).glyph@ == old(b).glyph@,
        final(c).sector < n || final(c).sector == -1,
        old(c).sector < n ==> final(c).sector == old(c).sector,
        final(c).rule == old(c).rule,
        old(d).glyph@ != name@ ==> final(d).glyph@ == old(d).glyph@,
        old(d).glyph@ == name@ ==> final(d).glyph@.len() == 0,
{
}

// ── the picker ──────────────────────────────────────────────────────────────────────────────────

/// Every row of the palette shows the entry that it stands for, or heads the group of that entry.
pub proof fn law_palette_rows_show_their_entries(p: &Vec<PaletteEntry>, r: Vec<ActionChoice>, i: int)
    requires
        call_ensures(init_action_palette, (p,), r),
        0 <= i < r@.len(),
    ensures
        r@.len() == palette_rows(p@, p@.len()).len(),
        ({
            let e = p@[palette_rows(p@, p@.len())[i].0];
            if r@[i].header {
                r@[i].label@ == e.group@ && r@[i].id@.len() == 0
            } else {
                r@[i].id@ == e.id@ && r@[i].label@ == e.label@ && r@[i].param_hint@ == e.hint@
                    && r@[i].required == e.required && r@[i].tier == e.tier
            }
        }),
        r@[i].header <==> palette_rows(p@, p@.len())[i].1,
{
}

/// A group is headed once: before its first entry, and not again while its entries follow one another.
pub proof fn law_groups_are_headed_once(p: Seq<PaletteEntry>, k: int)
    requires
        0 <= k < p.len(),
    ensures
        p[k].group@.len() == 0 ==> !opens_group(p, k),
        k == 0 && p[0].group@.len() > 0 ==> opens_group(p, 0),
        k > 0 && p[k - 1].group@.len() > 0 && p[k].group@.len() > 0 ==> (opens_group(p, k)
            <==> p[k].group@ != p[k - 1].group@),
{
}

/// An action that the picker was opened on is the action that it holds, parameter and all.
pub proof fn law_picker_holds_what_it_was_opened_on(
    s: &mut PickerState,
    rows: &Vec<ActionChoice>,
    id: &str,
    param: &str,
    param_held: &str,
    r: (String, String),
)
    requires
        call_ensures(PickerState::preset_picker, (s, rows, id, param), ()),
        rows@.len() <= i32::MAX,
        param_held@ == final(s).param@,
        call_ensures(current_action, (rows, final(s).choice, param_held), r),
        exists|i: int| 0 <= i < rows@.len() && !(#[trigger] rows@[i]).header && rows@[i].id@ == id@,
    ensures
        r.0@ == id@,
        r.1@ == param@,
{
    let i = choose|i: int| 0 <= i < rows@.len() && !(#[trigger] rows@[i]).header && rows@[i].id@ == id@;
    lemma_row_found(rows@, id@, 0, i);
}

proof fn lemma_row_found(rows: Seq<ActionChoice>, id: Seq<char>, from: nat, i: int)
    requires
        from <= i < rows.len(),
        !rows[i].header,
        rows[i].id@ == id,
    ensures
        row_of(rows, id, from) matches Some(n) && from <= n <= i && rows[n as int].id@ == id && !rows[n as int].header,
    decreases i - from,
{
    if from < i && !(!rows[from as int].header && rows[from as int].id@ == id) {
        lemma_row_found(rows, id, from + 1, i);
    }
}

/// The row of an action is the first one that is no header and has its id.
pub proof fn law_choice_is_the_first_row(rows: &Vec<ActionChoice>, id: &str, r: Option<usize>)
    requires
        call_ensures(choice_of, (rows, id), r),
    ensures
        r matches Some(i) ==> i < rows@.len() && !rows@[i as int].header && rows@[i as int].id@ == id@,
        r is None ==> forall|i: int| 0 <= i < rows@.len() ==> (#[trigger] rows@[i]).header || rows@[i].id@
            != id@,
{
    assert forall|i: int| 0 <= i < rows@.len() implies ((#[trigger] rows@[i]).header || rows@[i].id@
        != id@ || r is Some) by {
        if !rows@[i].header && rows@[i].id@ == id@ {
            lemma_row_found(rows@, id@, 0, i);
        }
    }
    if r is Some {
        lemma_row_sound(rows@, id@, 0);
    }
}

proof fn lemma_row_sound(rows: Seq<ActionChoice>, id: Seq<char>, from: nat)
    ensures
        row_of(rows, id, from) matches Some(n) ==> n < rows.len() && !rows[n as int].header
            && rows[n as int].id@ == id,
    decreases rows.len() - from,
{
    if from < rows.len() {
        lemma_row_sound(rows, id, from + 1);
    }
}

/// What is chosen at the start is never a header where there is anything else.
pub proof fn law_start_is_no_header(rows: &Vec<ActionChoice>, chosen: i32, r: i32, i: int)
    requires
        call_ensures(first_choice, (rows, chosen), r),
        rows@.len() <= i32::MAX,
        chosen >= 0,
        0 <= i < rows@.len(),
        !rows@[i].header,
    ensures
        0 <= r < rows@.len() && !rows@[r as int].header,
        chosen < rows@.len() && !rows@[chosen as int].header ==> r == chosen,
{
    lemma_choice_found(rows@, 0, i);
}

proof fn lemma_choice_found(rows: Seq<ActionChoice>, from: nat, i: int)
    requires
        from <= i < rows.len(),
        !rows[i].header,
    ensures
        choice_from(rows, from) is Some,
    decreases i - from,
{
    if from < i && rows[from as int].header {
        lemma_choice_found(rows, from + 1, i);
    }
}

/// A key pressed while a rapid fire is chosen takes the key's place and keeps the rate; any other press
/// chooses what was pressed.
pub proof fn law_rapid_fire_keeps_its_rate(key: Seq<char>, rate: Seq<char>, new: Seq<char>, id: Seq<char>, cur: Seq<char>)
    requires
        !key.contains('·'),
        rate.len() > 0,
        !is_space(rate[0]) && !is_space(rate.last()),
    ensures
        captured_fill("turbo"@, key + " · "@ + rate, "key"@, new) == ("turbo"@, new + " · "@ + rate),
        id != "key"@ ==> captured_fill(cur, key, id, new) == (id, new),
        cur != "turbo"@ ==> captured_fill(cur, key, id, new) == (id, new),
{
    reveal_strlit(" · ");
    reveal_strlit("·");
    assert("·"@ =~= seq!['·']);
    let s = key + " · "@ + rate;
    assert(s =~= key.push(' ') + seq!['·'] + (seq![' '] + rate));
    assert(!key.push(' ').contains('·')) by {
        assert forall|i: int| 0 <= i < key.push(' ').len() implies key.push(' ')[i] != '·' by {
            if i < key.len() {
                assert(key.contains(key[i]));
            }
        }
    }
    law_cut_at_the_first_character(key.push(' '), '·', seq![' '] + rate);
    law_blanks_around_do_not_count(rate);
    law_clean_text_is_trimmed(rate);
}

/// A take of keys that ended fills the picker with what was played, or leaves it.
pub proof fn law_taken_keys_fill_the_picker(
    s: &mut PickerState,
    rows: &Vec<ActionChoice>,
    take: &Option<String>,
    r: String,
)
    requires
        call_ensures(PickerState::keys_recorded, (s, rows, take), r),
        rows@.len() <= i32::MAX,
    ensures
        *take matches Some(g) ==> final(s).param@ == g@,
        *take is None ==> *final(s) == *old(s),
{
}

/// What is offered for an action is what is known of its sort, all of it and in order.
pub proof fn law_suggestions_are_what_is_known(id: &str, k: &Known, r: Vec<String>)
    requires
        call_ensures(refresh_param_suggestions, (id, k), r),
    ensures
        id@ == "profile"@ ==> texts(r@) == texts(k.profiles@),
        id@ == "macro"@ ==> texts(r@) == texts(k.macros@),
        id@ == "glance"@ || id@ == "summon"@ ==> texts(r@) == texts(k.windows@),
        id@ == "output-flip"@ ==> texts(r@) == texts(k.outputs@),
        id@ == "pin"@ || id@ == "kill"@ ==> texts(r@) == seq!["focused"@, "hover"@],
        id@ == "banish"@ ==> texts(r@) == seq!["focused"@, "hover"@, "behind"@],
        id@ == "dial"@ ==> texts(r@) == seq!["volume"@, "mic"@],
        id@ == "momentary-mic"@ ==> texts(r@) == seq!["flip"@, "talk"@, "mute"@],
        id@ == "ghost-paste"@ ==> texts(r@) == seq!["instant"@, "borderline"@, "fast"@, "normal"@],
{
    reveal_strlit("glance");
    reveal_strlit("summon");
    reveal_strlit("profile");
    reveal_strlit("macro");
    reveal_strlit("banish");
    reveal_strlit("pin");
    reveal_strlit("kill");
    reveal_strlit("ghost-paste");
    reveal_strlit("momentary-mic");
    reveal_strlit("dial");
    reveal_strlit("output-flip");
    assert("kill"@[0] != "dial"@[0]);
    assert("glance"@[0] != "banish"@[0] && "summon"@[0] != "banish"@[0]);
    assert("ghost-paste"@[0] != "output-flip"@[0]);
    assert("glance"@.len() == 6 && "summon"@.len() == 6 && "profile"@.len() == 7 && "macro"@.len() == 5
        && "banish"@.len() == 6 && "pin"@.len() == 3 && "kill"@.len() == 4 && "ghost-paste"@.len() == 11
        && "momentary-mic"@.len() == 13 && "dial"@.len() == 4 && "output-flip"@.len() == 11);
}

// ── what is told and what closes ────────────────────────────────────────────────────────────────

/// An authored row is edited in its place behind the rows that others wrote; a row of the shifted layer
/// stands where it is.
pub proof fn law_edited_row_is_the_authored_one(row: i32, total: i32, editable: i32, base: usize, hyper: usize)
    requires
        0 <= editable <= total,
        0 <= row < total,
        call_ensures(edited_index, (row, false, total, editable), base),
        call_ensures(edited_index, (row, true, total, editable), hyper),
    ensures
        row >= total - editable ==> base == row - (total - editable),
        row < total - editable ==> base == 0,
        hyper == row,
{
}

/// A rule that others wrote cannot be edited, nor one that is not there.
pub proof fn law_foreign_rule_is_not_edited(target: Option<usize>, found: bool, r: Option<&'static str>)
    requires
        call_ensures(begin_edit_refused, (target, found), r),
    ensures
        r is None <==> target is Some && found,
        target is None ==> (r matches Some(s) && s@
            == "that rule comes from bindings.toml / cast.toml — edit it there"@),
        target is Some && !found ==> (r matches Some(s) && s@ == "couldn't find that binding to edit"@),
{
}

/// An added binding is told with how many there are, a replaced one as such, a failed one with its reason.
pub proof fn law_added_binding_is_told(n: usize, outcome: &Result<AddOutcome, String>, r: String, m: usize, reloaded: String)
    requires
        call_ensures(binding_added, (outcome,), r),
        call_ensures(bindings_reloaded, (m,), reloaded),
    ensures
        *outcome == Ok::<AddOutcome, String>(AddOutcome::Added(n)) ==> r@ == "binding added ("@ + decimal(n as nat)
            + " GUI rule(s)) — live now: press it and watch the lamp"@,
        *outcome == Ok::<AddOutcome, String>(AddOutcome::Replaced) ==> r@
            == "re-bound — the old action was replaced"@,
        *outcome matches Err(e) ==> r@ == "add failed: "@ + e@,
        reloaded@ == "bindings reloaded ("@ + decimal(m as nat) + " spine rules)"@,
{
}

/// A trigger that is seeded holds its control and label, and is ready.
pub proof fn law_seeded_trigger_is_ready<C>(t: &mut BindTrigger<C>, control: Option<C>, label: String)
    requires
        call_ensures(BindTrigger::<C>::seed, (t, control, label), ()),
    ensures
        final(t).captured == control && final(t).label@ == label@ && final(t).ready,
{
}

/// What was written closes its own editor and no other; what failed leaves it open.
pub proof fn law_written_editor_closes(
    g: &mut Editors,
    h: &mut Editors,
    d: &mut Editors,
    phrase: &str,
    error: &Option<String>,
    a: String,
    b: String,
    c: String,
)
    requires
        call_ensures(Editors::gesture_committed, (g, error), a),
        call_ensures(Editors::rhythm_committed, (h, phrase, error), b),
        call_ensures(Editors::rhythm_deleted, (d, phrase, error), c),
    ensures
        *error is None ==> final(g).glyph@.len() == 0 && final(h).rhythm == -1 && final(d).rhythm == -1,
        *error is Some ==> final(g).glyph@ == old(g).glyph@ && final(h).rhythm == old(h).rhythm && final(
            d).rhythm == old(d).rhythm,
        final(g).rhythm == old(g).rhythm && final(g).sector == old(g).sector && final(g).rule == old(g).rule,
        final(h).glyph == old(h).glyph && final(h).sector == old(h).sector && final(h).rule == old(h).rule,
        final(d).glyph == old(d).glyph && final(d).sector == old(d).sector && final(d).rule == old(d).rule,
        *error is None ==> a@ == "glyph '"@ + old(g).glyph@ + "' bound"@ && b@ == "rhythm "@ + phrase@
            + " bound"@ && c@ == "rhythm "@ + phrase@ + " unbound"@,
        *error matches Some(e) ==> a@ == "bind failed: "@ + e@ && b@ == "bind failed: "@ + e@ && c@
            == "unbind failed: "@ + e@,
{
}

/// Turning or flicking the wheel closes its editor alone.
pub proof fn law_wheel_closes_its_editor(a: &mut Editors, b: &mut Editors, hyper: bool, r: &'static str)
    requires
        call_ensures(Editors::wheel_flicked, (a,), ()),
        call_ensures(Editors::wheel_turned, (b, hyper), r),
    ensures
        final(a).sector == -1 && final(b).sector == -1,
        final(a).glyph == old(a).glyph && final(a).rhythm == old(a).rhythm && final(a).rule == old(a).rule,
        final(b).glyph == old(b).glyph && final(b).rhythm == old(b).rhythm && final(b).rule == old(b).rule,
        hyper ==> r@ == "editing the HyperShift radial"@,
        !hyper ==> r@ == "editing the base radial"@,
{
}

/// Prompts name what they ask about.
pub proof fn law_prompts_name_their_subject(name: &str, g: String, r: String, refused: &'static str)
    requires
        call_ensures(gesture_prompt, (name,), g),
        call_ensures(rhythm_prompt, (name,), r),
        call_ensures(remove_refused, (), refused),
    ensures
        g@ == "glyph '"@ + name@ + "' — bind, rename, or delete"@,
        r@ == "rhythm "@ + name@ + " — pick what it fires"@,
        refused@ == "that rule comes from bindings.toml / cast.toml — edit there to change it"@,
{
}

/// A captured key fills what is chosen: its own row where the list has one, with its own parameter.
pub proof fn law_captured_key_is_chosen(
    p: &mut PickerState,
    rows: &Vec<ActionChoice>,
    id: &str,
    param: &str,
    r: String,
    i: int,
    name: &str,
    told: String,
)
    requires
        rows@.len() <= i32::MAX,
        call_ensures(PickerState::capture_action_param, (p, rows, id, param), r),
        id@ != "key"@,
        call_ensures(captured_text, (name, id, param), told),
        0 <= i < rows@.len(),
        rows@[i].id@ == id@ && !rows@[i].header,
        forall|j: int| 0 <= j < i ==> (#[trigger] rows@[j]).id@ != id@,
    ensures
        r@ == id@ && final(p).param@ == param@,
        final(p).choice == i,
        told@ == "captured "@ + name@ + " → "@ + id@ + " · "@ + param@,
{
    lemma_row_of(rows@, id@, 0, i);
}

proof fn lemma_row_of(rows: Seq<ActionChoice>, id: Seq<char>, from: nat, i: int)
    requires
        from <= i < rows.len(),
        rows[i].id@ == id && !rows[i].header,
        forall|j: int| 0 <= j < i ==> (#[trigger] rows[j]).id@ != id,
    ensures
        row_of(rows, id, from) == Some(i as nat),
    decreases i - from,
{
    if from < i {
        assert(rows[from as int].id@ != id);
        lemma_row_of(rows, id, from + 1, i);
    }
}

/// Opening an editor closes every other, and only the editor of a rule changes the layer that is edited.
pub proof fn law_opened_editor_stands_alone(a: &mut Editors, b: &mut Editors, c: &mut Editors, fresh: Editors, row: i32, hyper: bool, i: i32, n: i32)
    requires
        call_ensures(Editors::begin_edit_rule, (a, row, hyper), ()),
        call_ensures(Editors::edit_sector, (b, i), ()),
        call_ensures(Editors::wedges, (c, n), ()),
        call_ensures(Editors::new, (), fresh),
    ensures
        final(a).rule == row && final(a).rule_hyper == hyper && final(a).sector == -1 && final(a).rhythm == -1
            && final(a).glyph@.len() == 0,
        final(b).sector == i && final(b).rule == -1 && final(b).rhythm == -1 && final(b).glyph@.len() == 0
            && final(b).rule_hyper == old(b).rule_hyper,
        final(c).rule == old(c).rule && final(c).glyph@ == old(c).glyph@ && final(c).rhythm == old(c).rhythm
            && final(c).rule_hyper == old(c).rule_hyper,
        old(c).sector < n ==> final(c).sector == old(c).sector,
        old(c).sector >= n ==> final(c).sector == -1,
        fresh.open_count() == 0,
{
}

/// Without a hold key none is shown.
pub proof fn law_no_hold_key_is_shown(base: &Vec<RuleView>, hyper: &Vec<RuleView>, gui: &Vec<GuiRule>, r: RuleLists)
    requires
        call_ensures(refresh_rules, (base, hyper, gui), r),
        gui@.len() == 0,
    ensures
        !r.hold_ready && r.hold_label@ == "—"@ && r.editable_base == 0 && r.editable_hyper == 0,
        r.base@.len() == base@.len() && r.hyper@.len() == hyper@.len(),
{
}

/// A take that played nothing changes nothing; one that played fills the keys.
pub proof fn law_recorded_take_fills_the_keys(p: &mut PickerState, rows: &Vec<ActionChoice>, take: &Option<String>, r: String)
    requires
        rows@.len() <= i32::MAX,
        call_ensures(PickerState::keys_recorded, (p, rows, take), r),
    ensures
        *take is None ==> *final(p) == *old(p) && r@ == "recording ended — nothing played"@,
        *take matches Some(g) ==> final(p).param@ == g@ && r@ == "take: "@ + g@ + " — trim or retime it freely"@,
        *take is Some ==> (forall|i: int|
            0 <= i < rows@.len() && (#[trigger] rows@[i]).id@ == "keys"@ && !rows@[i].header ==> 0 <= final(
                p).choice <= i && rows@[final(p).choice as int].id@ == "keys"@),
{
    if *take is Some {
        assert forall|i: int|
            0 <= i < rows@.len() && (#[trigger] rows@[i]).id@ == "keys"@ && !rows@[i].header implies 0 <= final(
            p).choice <= i && rows@[final(p).choice as int].id@ == "keys"@ by {
            lemma_row_at_most(rows@, "keys"@, 0, i);
        }
    }
}

proof fn lemma_row_at_most(rows: Seq<ActionChoice>, id: Seq<char>, from: nat, i: int)
    requires
        from <= i < rows.len(),
        rows[i].id@ == id && !rows[i].header,
    ensures
        row_of(rows, id, from) matches Some(k) && from <= k <= i && rows[k as int].id@ == id,
    decreases i - from,
{
    if from < i {
        lemma_row_at_most(rows, id, from + 1, i);
    }
}

/// A list of headers alone, or an empty one, starts behind its first header.
pub proof fn law_list_without_choices_starts_at_one(rows: Seq<ActionChoice>)
    requires
        forall|i: int| 0 <= i < rows.len() ==> (#[trigger] rows[i]).header,
    ensures
        default_choice(rows) == 1,
{
    lemma_no_choice(rows, 0);
}

proof fn lemma_no_choice(rows: Seq<ActionChoice>, from: nat)
    requires
        forall|i: int| 0 <= i < rows.len() ==> (#[trigger] rows[i]).header,
    ensures
        choice_from(rows, from) is None,
    decreases rows.len() - from,
{
    if from < rows.len() {
        assert(rows[from as int].header);
        lemma_no_choice(rows, from + 1);
    }
}

/// What happens to one editor leaves the layer that is edited, and every other editor, as they were.
pub proof fn law_editors_are_touched_alone(
    a: &mut Editors,
    b: &mut Editors,
    c: &mut Editors,
    d: &mut Editors,
    e: &mut Editors,
    f: &mut Editors,
    g: &mut Editors,
    h: &mut Editors,
    name: &str,
    error: &Option<String>,
    hyper: bool,
    said: String,
    turned: &'static str,
    bound: String,
    committed: String,
    deleted: String,
)
    requires
        call_ensures(Editors::reloaded, (a,), ()),
        call_ensures(Editors::glyph_deleted, (b, name), ()),
        call_ensures(Editors::sector_committed, (c, error), said),
        call_ensures(Editors::wheel_flicked, (d,), ()),
        call_ensures(Editors::wheel_turned, (e, hyper), turned),
        call_ensures(Editors::gesture_committed, (f, error), bound),
        call_ensures(Editors::rhythm_committed, (g, name, error), committed),
        call_ensures(Editors::rhythm_deleted, (h, name, error), deleted),
    ensures
        final(a).rule_hyper == old(a).rule_hyper && final(a).rhythm == old(a).rhythm && final(a).glyph@ == old(
            a).glyph@ && final(a).rule == -1 && final(a).sector == -1,
        final(b).rule_hyper == old(b).rule_hyper && final(b).rhythm == old(b).rhythm && final(b).rule == old(
            b).rule && final(b).sector == old(b).sector,
        old(b).glyph@ == name@ ==> final(b).glyph@.len() == 0,
        old(b).glyph@ != name@ ==> final(b).glyph@ == old(b).glyph@,
        final(c).rule_hyper == old(c).rule_hyper && final(c).rhythm == old(c).rhythm && final(c).rule == old(
            c).rule && final(c).glyph == old(c).glyph,
        final(d).rule_hyper == old(d).rule_hyper && final(e).rule_hyper == old(e).rule_hyper && final(
            f).rule_hyper == old(f).rule_hyper && final(g).rule_hyper == old(g).rule_hyper && final(
            h).rule_hyper == old(h).rule_hyper,
{
}

/// A group's header is no choice and has nothing but its name.
pub proof fn law_header_is_its_name(c: ActionChoice, e: PaletteEntry)
    requires
        choice_shows(c, e, true),
    ensures
        c.header && c.label@ == e.group@ && c.id@.len() == 0 && c.param_hint@.len() == 0 && !c.required && c.tier == 0,
{
}

} // verus!
