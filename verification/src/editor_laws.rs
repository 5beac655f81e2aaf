//! What the typed settings of a device read as: every value that a device can hold, typed as it is
//! written, reads as that value.

use vstd::prelude::*;

use crate::devices::DeviceRow;
use crate::editors::{
    dpi_parsed, entries, init_perf_controls, is_mode, list_separators, lod_level_label, mode_count,
    not_modes, not_stages, numerals, parse_dpi_stage_editor, parse_idle_editor,
    parse_scroll_stage_editor, pid_supports_hyperpoll, pid_supports_snap_tap, refresh_idle_readout,
    refresh_lod_readout, refresh_snap_tap, row_has_snap_tap, scroll_note, stage_dpi, stages,
    sync_idle_editor, sync_scroll_stage_editor, sync_stage_nums, DpiStageParse, IdleEditor,
    IdleParse, IdleReadout, LodView, PerfSeed, ScrollStageParse, StageEditor,
};
use crate::text::{
    all_trimmed, begins_with, decimal, hex_digits, is_space, joined, law_decimal_reads_back,
    lemma_decimal_digits, lowercase, nonempty, number, split_on, trimmed,
};
use crate::text_laws::{
    free_of, law_blanks_around_do_not_count, law_clean_text_is_trimmed,
    law_four_hex_digits_read_back, law_good_pieces_are_kept, law_joined_is_cut_apart,
    law_joined_of_one, law_number_above_the_bound_is_none,
};

verus! {

// ── DPI stages ──────────────────────────────────────────────────────────────────────────────────

/// An entry that spells a number from 100 to 30000 is a stage of exactly that number; any other number
/// is none.
pub proof fn law_stage_reads_as_typed(n: nat)
    ensures
        100 <= n <= 30000 ==> stage_dpi(decimal(n)) == Some(n as i32),
        n < 100 || n > 30000 ==> stage_dpi(decimal(n)) is None,
{
    if n <= 65535 {
        law_decimal_reads_back(n, 65535);
    } else {
        law_number_above_the_bound_is_none(n, 65535);
    }
}

/// A decimal spelling is one piece of a list: no separator stands in it, and nothing around it.
proof fn lemma_numeral_is_a_piece(n: nat)
    ensures
        decimal(n).len() > 0,
        trimmed(decimal(n)) == decimal(n),
        free_of(decimal(n), list_separators()),
{
    lemma_decimal_digits(n);
    let d = decimal(n);
    assert(!is_space(d[0]) && !is_space(d[d.len() - 1]));
    law_clean_text_is_trimmed(d);
    let seps = list_separators();
    assert forall|i: int| 0 <= i < d.len() implies !seps.contains(#[trigger] d[i]) by {
        assert('0' <= d[i] <= '9');
    }
}

/// The entries of a list are what was typed between its separators: slashes, commas or blanks.
pub proof fn law_list_holds_what_was_typed(toks: Seq<Seq<char>>, sep: char)
    requires
        sep == '/' || sep == ',' || sep == ' ',
        toks.len() > 0,
        forall|i: int|
            0 <= i < toks.len() ==> (#[trigger] toks[i]).len() > 0 && trimmed(toks[i]) == toks[i]
                && !toks[i].contains('/') && !toks[i].contains(',') && !toks[i].contains(' '),
    ensures
        entries(joined(toks, seq![sep])) == toks,
{
    let seps = list_separators();
    assert(seps[0] == '/' && seps[1] == ',' && seps[2] == ' ');
    assert(seps.contains(sep));
    assert forall|i: int| 0 <= i < toks.len() implies free_of(#[trigger] toks[i], seps) by {
        assert forall|j: int| 0 <= j < toks[i].len() implies !seps.contains(
            #[trigger] toks[i][j],
        ) by {
            assert(toks[i].contains(toks[i][j]));
        }
    }
    law_joined_is_cut_apart(toks, sep, seps);
    law_good_pieces_are_kept(toks);
}

/// Numbers that a device can hold, written with any of the separators between them, are parsed to those
/// very numbers, in order, none changed, none left out.
pub proof fn law_stage_list_reads_as_typed(nums: Seq<u16>, sep: char, p: DpiStageParse)
    requires
        sep == '/' || sep == ',' || sep == ' ',
        nums.len() > 0,
        forall|i: int| 0 <= i < nums.len() ==> 100 <= #[trigger] nums[i] <= 30000,
        dpi_parsed(joined(numerals(nums), seq![sep]), p),
    ensures
        p.nums@.len() == nums.len(),
        forall|i: int| 0 <= i < nums.len() ==> #[trigger] p.nums@[i] == nums[i],
        p.valid <==> nums.len() <= 5,
        p.note@ == (if nums.len() > 5 {
            "device table holds 5 stages; remove "@ + decimal((nums.len() - 5) as nat)
        } else if nums.len() == 1 {
            decimal(1) + " "@ + "stage"@ + Seq::<char>::empty() + " ready"@
        } else {
            decimal(nums.len()) + " "@ + "stage"@ + "s"@ + " ready"@
        }),
{
    let toks = numerals(nums);
    assert forall|i: int| 0 <= i < toks.len() implies (#[trigger] toks[i]).len() > 0 && trimmed(toks[i])
        == toks[i] && !toks[i].contains('/') && !toks[i].contains(',') && !toks[i].contains(' ') by {
        lemma_numeral_is_a_piece(nums[i] as nat);
        lemma_decimal_digits(nums[i] as nat);
    }
    law_list_holds_what_was_typed(toks, sep);
    lemma_stages_of(nums, nums.len());
}

proof fn lemma_stages_of(nums: Seq<u16>, k: nat)
    requires
        k <= nums.len(),
        forall|i: int| 0 <= i < nums.len() ==> 100 <= #[trigger] nums[i] <= 30000,
    ensures
        stages(numerals(nums), k).len() == k,
        forall|i: int| 0 <= i < k ==> #[trigger] stages(numerals(nums), k)[i] == nums[i],
        not_stages(numerals(nums), k).len() == 0,
    decreases k,
{
    if k > 0 {
        lemma_stages_of(nums, (k - 1) as nat);
        law_stage_reads_as_typed(nums[k - 1] as nat);
        assert(100 <= nums[k - 1] <= 30000);
    }
}

/// The same of what the parser gives back.
pub proof fn law_parsed_stages_are_those_typed(list: &str, nums: Seq<u16>, sep: char, r: DpiStageParse)
    requires
        call_ensures(parse_dpi_stage_editor, (list,), r),
        sep == '/' || sep == ',' || sep == ' ',
        nums.len() > 0,
        forall|i: int| 0 <= i < nums.len() ==> 100 <= #[trigger] nums[i] <= 30000,
        list@ == joined(numerals(nums), seq![sep]),
    ensures
        r.nums@.len() == nums.len(),
        forall|i: int| 0 <= i < nums.len() ==> #[trigger] r.nums@[i] == nums[i],
        r.valid <==> nums.len() <= 5,
{
    law_stage_list_reads_as_typed(nums, sep, r);
}

/// One number that no device holds makes the whole list unfit, and the note names it.
pub proof fn law_one_bad_stage_spoils_the_list(list: &str, n: nat, r: DpiStageParse)
    requires
        call_ensures(parse_dpi_stage_editor, (list,), r),
        n < 100 || n > 30000,
        list@ == decimal(n),
    ensures
        !r.valid,
        r.nums@.len() == 0,
        r.note@ == "invalid: "@ + decimal(n) + " (use 100-30000)"@,
{
    let toks = seq![decimal(n)];
    lemma_numeral_is_a_piece(n);
    assert(list_separators()[0] == '/');
    law_joined_is_cut_apart(toks, '/', list_separators());
    law_good_pieces_are_kept(toks);
    assert(entries(list@) == toks);
    law_stage_reads_as_typed(n);
    reveal_with_fuel(stages, 2);
    reveal_with_fuel(not_stages, 2);
    assert(not_stages(toks, 1) =~= toks);
}

/// An empty list asks for a stage.
pub proof fn law_empty_list_asks_for_a_stage(list: &str, r: DpiStageParse)
    requires
        call_ensures(parse_dpi_stage_editor, (list,), r),
        list@.len() == 0,
    ensures
        !r.valid,
        r.nums@.len() == 0,
        r.note@ == "enter at least one DPI stage"@,
{
    let none = Seq::<char>::empty();
    assert(list@ =~= none);
    assert(split_on(none, list_separators()) =~= seq![none]);
    assert(all_trimmed(seq![none]) =~= seq![none]);
    assert(seq![none].drop_last() =~= Seq::<Seq<char>>::empty());
    assert(nonempty(seq![none]) == nonempty(
        Seq::<Seq<char>>::empty(),
    ));
}

/// The stage that was active stays active while the list still has it; past the end it is the last.
pub proof fn law_active_stage_stays(list: &str, active: i32, r: StageEditor)
    requires
        call_ensures(sync_stage_nums, (list, active), r),
    ensures
        dpi_parsed(list@, r.parsed),
        0 <= active < r.parsed.nums@.len() ==> r.active == active,
        active >= r.parsed.nums@.len() && r.parsed.nums@.len() > 0 ==> r.active
            == r.parsed.nums@.len() - 1,
        active <= 0 ==> r.active == active,
{
}

/// The stages that are read off a device are put into the editor so that it parses to them again.
pub proof fn law_read_stages_fill_the_editor(
    idle: Option<u32>,
    sniper: &Option<(String, u16)>,
    table: &Vec<u16>,
    seed: PerfSeed,
    p: DpiStageParse,
)
    requires
        call_ensures(init_perf_controls, (idle, sniper, table), seed),
        table@.len() > 0,
        forall|i: int| 0 <= i < table@.len() ==> 100 <= #[trigger] table@[i] <= 30000,
        seed.dpi_stages matches Some(s) && dpi_parsed(s@, p),
    ensures
        p.nums@.len() == table@.len(),
        forall|i: int| 0 <= i < table@.len() ==> #[trigger] p.nums@[i] == table@[i],
{
    reveal_strlit("/");
    assert("/"@ =~= seq!['/']);
    law_stage_list_reads_as_typed(table@, '/', p);
}

/// The panel shows the bound control and its sensitivity, and a dash where there is none.
pub proof fn law_seed_shows_the_sniper(
    idle: Option<u32>,
    sniper: &Option<(String, u16)>,
    table: &Vec<u16>,
    seed: PerfSeed,
)
    requires
        call_ensures(init_perf_controls, (idle, sniper, table), seed),
    ensures
        *sniper matches Some((label, dpi)) ==> seed.sniper_button@ == label@ && (dpi > 0
            ==> seed.sniper_dpi == Some(dpi)),
        *sniper is None ==> seed.sniper_button@ == "—"@ && seed.sniper_dpi is None,
        seed.dpi_stages is None <==> table@.len() == 0,
        idle is Some <==> seed.idle_text is Some,
{
}

// ── scroll modes ────────────────────────────────────────────────────────────────────────────────

/// A list of modes can be applied exactly where it has entries and each of them is a mode: tactile, free
/// or a small number.
pub proof fn law_scroll_list_needs_modes_alone(list: &str, r: ScrollStageParse)
    requires
        call_ensures(parse_scroll_stage_editor, (list,), r),
    ensures
        r.valid <==> entries(list@).len() > 0 && forall|i: int|
            0 <= i < entries(list@).len() ==> ({
                let t = lowercase(#[trigger] entries(list@)[i]);
                begins_with(t, "free"@) || begins_with(t, "tact"@) || number(t, 10, 255) is Some
            }),
        entries(list@).len() == 0 ==> r.note@ == "enter tactile/free modes"@,
{
    lemma_modes(entries(list@), entries(list@).len());
}

proof fn lemma_modes(toks: Seq<Seq<char>>, k: nat)
    requires
        k <= toks.len(),
    ensures
        mode_count(toks, k) + not_modes(toks, k).len() == k,
        not_modes(toks, k).len() == 0 <==> forall|i: int| 0 <= i < k ==> is_mode(#[trigger] toks[i]),
    decreases k,
{
    if k > 0 {
        lemma_modes(toks, (k - 1) as nat);
        if not_modes(toks, k).len() == 0 {
            assert(is_mode(toks[k - 1]));
            assert forall|i: int| 0 <= i < k implies is_mode(#[trigger] toks[i]) by {
                if i < k - 1 {
                    assert(not_modes(toks, (k - 1) as nat).len() == 0);
                }
            }
        }
    }
}

/// Both readings of a list of modes agree.
pub proof fn law_scroll_editor_agrees(list: &str, a: ScrollStageParse, b: ScrollStageParse)
    requires
        call_ensures(parse_scroll_stage_editor, (list,), a),
        call_ensures(sync_scroll_stage_editor, (list,), b),
    ensures
        a.valid == b.valid,
        a.note@ == b.note@,
{
}

// ── the idle time ───────────────────────────────────────────────────────────────────────────────

/// A time up to 65535 seconds, typed as it is written, is that time; zero is never; more is none.
pub proof fn law_idle_reads_as_typed(text: &str, n: nat, r: IdleParse)
    requires
        call_ensures(parse_idle_editor, (text,), r),
        text@ == decimal(n),
    ensures
        n <= 65535 ==> r.secs == Some(n as u32),
        n > 65535 ==> r.secs is None && r.note@ == "use 0-65535 seconds"@,
        n == 0 ==> r.note@ == "never sleep ready"@,
        0 < n <= 65535 ==> r.note@ == decimal(n) + "s ready"@,
{
    lemma_numeral_is_a_piece(n);
    if n <= 65535 {
        law_decimal_reads_back(n, 65535);
    } else {
        law_number_above_the_bound_is_none(n, 65535);
    }
}

/// Blanks around a time do not count.
pub proof fn law_blanks_around_a_time(text: &str, padded: &str, a: IdleParse, b: IdleParse)
    requires
        call_ensures(parse_idle_editor, (text,), a),
        call_ensures(parse_idle_editor, (padded,), b),
        padded@ == seq![' '] + text@.push(' '),
    ensures
        a.secs == b.secs,
        a.note@ == b.note@,
{
    law_blanks_around_do_not_count(text@.push(' '));
    law_blanks_around_do_not_count(text@);
}

/// A text that is no time leaves the time at which the editor stood; one that is sets it.
pub proof fn law_idle_editor_keeps_its_time(text: &str, secs: u32, n: nat, r: IdleEditor)
    requires
        call_ensures(sync_idle_editor, (text, secs), r),
    ensures
        !r.valid ==> r.secs == secs,
        text@ == decimal(n) && n <= 65535 ==> r.valid && r.secs == n,
        text@ == decimal(n) && n > 65535 ==> !r.valid && r.secs == secs,
{
    if text@ == decimal(n) {
        lemma_numeral_is_a_piece(n);
        if n <= 65535 {
            law_decimal_reads_back(n, 65535);
        } else {
            law_number_above_the_bound_is_none(n, 65535);
        }
    }
}

/// A time that was read is shown in seconds and stands in the editor; nothing read shows a dash and
/// leaves the editor.
pub proof fn law_read_time_is_shown(read: Option<u32>, r: IdleReadout)
    requires
        call_ensures(refresh_idle_readout, (read,), r),
    ensures
        read matches Some(s) ==> r.readout@ == decimal(s as nat) + "s"@ && (r.editor matches Some((t, e))
            && t@ == decimal(s as nat) && e.secs == s),
        read is None ==> r.readout@ == "—"@ && r.editor is None,
{
}

// ── lift-off and what a product can do ──────────────────────────────────────────────────────────

/// The levels have three names, lowest first; a pair that was read shows both of its distances.
pub proof fn law_lift_off_is_named(
    level: i32,
    word: &'static str,
    before: LodView,
    pair: Option<(u8, u8)>,
    shared: Option<u8>,
    r: LodView,
)
    requires
        call_ensures(lod_level_label, (level,), word),
        call_ensures(refresh_lod_readout, (before, pair, shared), r),
    ensures
        level == 0 ==> word@ == "low"@,
        level == 1 ==> word@ == "medium"@,
        level == 2 ==> word@ == "high"@,
        pair matches Some((a, b)) ==> r.split && r.lift == a && r.land == b,
        pair is None && shared is Some ==> !r.split && 0 <= r.level <= 2,
        pair is None ==> (shared matches Some(l) ==> (l <= 2 ==> r.level == l)),
        pair is None ==> r.lift == before.lift && r.land == before.land,
        pair is None && shared is None ==> r.level == before.level && r.split == before.split,
{
}

/// Snap tap is on only where a connected keyboard has it and it was enabled.
pub proof fn law_snap_tap_needs_a_keyboard(rows: &Vec<DeviceRow>, enabled: bool, r: (bool, bool))
    requires
        call_ensures(refresh_snap_tap, (rows, enabled), r),
    ensures
        r.1 <==> r.0 && enabled,
        (forall|j: int|
            0 <= j < rows@.len() ==> !(#[trigger] rows@[j]).connected || rows@[j].kind@
                != "keyboard"@) ==> !r.0,
{
}

/// A row has snap tap where it is a connected keyboard of a product that has it, written in base sixteen.
pub proof fn law_row_with_snap_tap(row: DeviceRow, pid: u16, tap: bool)
    requires
        row.pid@ == hex_digits(pid as nat, 4),
        call_ensures(pid_supports_snap_tap, (pid,), tap),
    ensures
        row_has_snap_tap(row) <==> row.connected && row.kind@ == "keyboard"@ && tap,
{
    law_four_hex_digits_read_back(pid as nat);
}

/// The products with fast polling and with snap tap are those that are known to have it.
pub proof fn law_known_products(pid: u16, fast: bool, tap: bool)
    requires
        call_ensures(pid_supports_hyperpoll, (pid,), fast),
        call_ensures(pid_supports_snap_tap, (pid,), tap),
    ensures
        fast <==> pid == 0x00B3,
        tap <==> seq![0x0287u16, 0x028B, 0x02A5, 0x02A6, 0x02A7, 0x02A8].contains(pid),
{
    let s = seq![0x0287u16, 0x028B, 0x02A5, 0x02A6, 0x02A7, 0x02A8];
    assert(s[0] == 0x0287 && s[1] == 0x028B && s[2] == 0x02A5 && s[3] == 0x02A6 && s[4] == 0x02A7
        && s[5] == 0x02A8);
}

/// The resolutions of a table are shown, one or more, and none without a table; a split lift-off shows its
/// two distances.
pub proof fn law_tables_and_distances_are_shown(idle: Option<u32>, sniper: &Option<(String, u16)>, table: &Vec<u16>, seed: PerfSeed, before: LodView, lift: u8, land: u8, r: LodView, none: LodView)
    requires
        call_ensures(init_perf_controls, (idle, sniper, table), seed),
        call_ensures(refresh_lod_readout, (before, Some((lift, land)), None::<u8>), r),
        call_ensures(refresh_lod_readout, (before, None::<(u8, u8)>, None::<u8>), none),
    ensures
        seed.dpi_stages is Some <==> table@.len() > 0,
        table@.len() == 1 ==> (seed.dpi_stages matches Some(s) && s@ == decimal(table@[0] as nat)),
        r.readout@ == "lift "@ + decimal(lift as nat) + " / land "@ + decimal(land as nat) && r.split && r.lift == lift
            && r.land == land && r.level == before.level,
        none.readout@ == "—"@ && none.split == before.split && none.level == before.level && none.lift == before.lift
            && none.land == before.land,
{
    if table@.len() == 1 {
        assert(numerals(table@) =~= seq![decimal(table@[0] as nat)]);
        law_joined_of_one(decimal(table@[0] as nat), "/"@);
    }
}

/// A wrong mode is told by its own name.
pub proof fn law_wrong_mode_is_told(n: nat, bad: Seq<char>)
    ensures
        scroll_note(n, seq![bad]) == "invalid: "@ + bad + " (use tactile/free)"@,
        scroll_note(0, Seq::<Seq<char>>::empty()) == "enter tactile/free modes"@,
{
    law_joined_of_one(bad, ", "@);
}

} // verus!
