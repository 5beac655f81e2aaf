//! The typed editors of the device page: lists of DPI stages, lists of scroll modes, the idle time;
//! and the readouts beside them.

use vstd::prelude::*;

use crate::devices::DeviceRow;
use crate::text::{
    all_trimmed, begins_with, decimal, drop_empty, join, joined, law_decimal_reads_back,
    lemma_decimal_digits, lemma_texts_push, lowercase, nonempty, number, parse_number, same_text,
    show_u64, split_chars, split_on, starts_with, texts, to_lowercase, trim, trim_all, trimmed,
};

verus! {

/// The least DPI of a stage.
pub const DPI_MIN: u16 = 100;

/// The greatest DPI of a stage.
pub const DPI_MAX: u16 = 30_000;

/// How many DPI stages a device holds.
pub const DPI_STAGE_CAPACITY: usize = 5;

/// The least idle time, in seconds; zero means that the device never sleeps.
pub const IDLE_MIN_SECS: u32 = 0;

/// The greatest idle time, in seconds.
pub const IDLE_MAX_SECS: u32 = 65_535;

/// The separators between the entries of a list.
pub open spec fn list_separators() -> Seq<char> {
    seq!['/', ',', ' ']
}

/// The entries of a list: the trimmed, non-empty pieces between separators.
pub open spec fn entries(list: Seq<char>) -> Seq<Seq<char>> {
    nonempty(all_trimmed(split_on(list, list_separators())))
}

/// The entries of a list.
pub fn list_entries(list: &str) -> (r: Vec<String>)
    ensures
        texts(r@) == entries(list@),
{
    let seps: [char; 3] = ['/', ',', ' '];
    proof {
        assert(seps@ =~= list_separators());
    }
    drop_empty(trim_all(&split_chars(list, &seps)))
}

/// `n` with its word, in the plural unless it is one.
pub open spec fn counted(n: nat, word: Seq<char>) -> Seq<char> {
    decimal(n) + " "@ + word + if n == 1 {
        Seq::<char>::empty()
    } else {
        "s"@
    }
}

fn counted_text(n: usize, word: &str) -> (r: String)
    ensures
        r@ == counted(n as nat, word@),
{
    let mut s = show_u64(n as u64);
    s.append(" ");
    s.append(word);
    if n != 1 {
        s.append("s");
    }
    proof {
        assert(s@ =~= counted(n as nat, word@));
    }
    s
}

// ── DPI stages ──────────────────────────────────────────────────────────────────────────────────

/// What a list of DPI stages parses to.
pub struct DpiStageParse {
    pub nums: Vec<i32>,
    pub valid: bool,
    pub note: String,
}

/// The DPI that an entry spells, where a stage can have it.
pub open spec fn stage_dpi(tok: Seq<char>) -> Option<i32> {
    match number(tok, 10, 65535) {
        Some(n) => if DPI_MIN <= n <= DPI_MAX {
            Some(n as i32)
        } else {
            None
        },
        None => None,
    }
}

/// The stages among the first `k` entries.
pub open spec fn stages(toks: Seq<Seq<char>>, k: nat) -> Seq<i32>
    decreases k,
{
    if k == 0 || k > toks.len() {
        Seq::empty()
    } else {
        let before = stages(toks, (k - 1) as nat);
        match stage_dpi(toks[k - 1]) {
            Some(v) => before.push(v),
            None => before,
        }
    }
}

/// The entries among the first `k` that are no stages.
pub open spec fn not_stages(toks: Seq<Seq<char>>, k: nat) -> Seq<Seq<char>>
    decreases k,
{
    if k == 0 || k > toks.len() {
        Seq::empty()
    } else {
        let before = not_stages(toks, (k - 1) as nat);
        if stage_dpi(toks[k - 1]) is None {
            before.push(toks[k - 1])
        } else {
            before
        }
    }
}

/// The note beside a list with so many stages and these bad entries.
pub open spec fn dpi_note(n: nat, bad: Seq<Seq<char>>) -> Seq<char> {
    if bad.len() > 0 {
        "invalid: "@ + joined(bad, ", "@) + " (use 100-30000)"@
    } else if n == 0 {
        "enter at least one DPI stage"@
    } else if n > DPI_STAGE_CAPACITY {
        "device table holds 5 stages; remove "@ + decimal((n - DPI_STAGE_CAPACITY) as nat)
    } else {
        counted(n, "stage"@) + " ready"@
    }
}

/// What a list of DPI stages parses to: the stages, whether it can be applied, and a note.
pub open spec fn dpi_parsed(list: Seq<char>, p: DpiStageParse) -> bool {
    let toks = entries(list);
    let bad = not_stages(toks, toks.len());
    &&& p.nums@ == stages(toks, toks.len())
    &&& p.valid == (0 < p.nums@.len() <= DPI_STAGE_CAPACITY && bad.len() == 0)
    &&& p.note@ == dpi_note(p.nums@.len(), bad)
}

/// Parses a list of DPI stages.
pub fn parse_dpi_stage_editor(list: &str) -> (r: DpiStageParse)
    ensures
        dpi_parsed(list@, r),
{
    let toks = list_entries(list);
    let ghost all = texts(toks@);
    let mut nums: Vec<i32> = Vec::new();
    let mut bad: Vec<String> = Vec::new();
    let mut i: usize = 0;
    proof {
        assert(texts(bad@) =~= not_stages(all, 0));
    }
    while i < toks.len()
        invariant
            i <= toks@.len(),
            all == texts(toks@),
            nums@ == stages(all, i as nat),
            texts(bad@) == not_stages(all, i as nat),
        decreases toks@.len() - i,
    {
        proof {
            assert(all[i as int] == toks@[i as int]@);
        }
        let v = match parse_number(toks[i].as_str(), 10, 65535) {
            Some(v) => if DPI_MIN as u64 <= v && v <= DPI_MAX as u64 {
                Some(v as i32)
            } else {
                None
            },
            None => None,
        };
        match v {
            Some(v) => {
                nums.push(v);
            },
            None => {
                let t = toks[i].clone();
                proof {
                    lemma_texts_push(bad@, t);
                }
                bad.push(t);
            },
        }
        i = i + 1;
    }
    let n: usize = nums.len();
    proof {
        assert(texts(bad@).len() == bad@.len());
    }
    let valid = n > 0 && n <= DPI_STAGE_CAPACITY && bad.len() == 0;
    let note: String = if bad.len() > 0 {
        let mut s = "invalid: ".to_owned();
        s.append(join(&bad, ", ").as_str());
        s.append(" (use 100-30000)");
        s
    } else if n == 0 {
        "enter at least one DPI stage".to_owned()
    } else if n > DPI_STAGE_CAPACITY {
        let mut s = "device table holds 5 stages; remove ".to_owned();
        s.append(show_u64((n - DPI_STAGE_CAPACITY) as u64).as_str());
        s
    } else {
        let mut s = counted_text(n, "stage");
        s.append(" ready");
        s
    };
    DpiStageParse { nums, valid, note }
}

/// The stage editor: what its list parses to, and the stage that is marked active.
pub struct StageEditor {
    pub parsed: DpiStageParse,
    pub active: i32,
}

/// The active stage, no further than the last of `n`.
pub open spec fn active_within(active: i32, n: nat) -> int {
    let last = if n == 0 {
        0
    } else {
        n - 1
    };
    if active > last {
        last
    } else {
        active as int
    }
}

/// Parses the stage list anew and keeps the active stage within it.
pub fn sync_stage_nums(list: &str, active: i32) -> (r: StageEditor)
    ensures
        dpi_parsed(list@, r.parsed),
        r.active == active_within(active, r.parsed.nums@.len()),
{
    let parsed = parse_dpi_stage_editor(list);
    let n: usize = parsed.nums.len();
    let last: usize = if n == 0 {
        0
    } else {
        n - 1
    };
    let clamped: i32 = if active > 0 && active as usize > last {
        last as i32
    } else {
        active
    };
    StageEditor { parsed, active: clamped }
}

// ── scroll modes ────────────────────────────────────────────────────────────────────────────────

/// What a list of scroll modes parses to.
pub struct ScrollStageParse {
    pub valid: bool,
    pub note: String,
}

/// An entry that names a scroll mode: "free…", "tact…" or a small number.
pub open spec fn is_mode(tok: Seq<char>) -> bool {
    let t = lowercase(tok);
    begins_with(t, "free"@) || begins_with(t, "tact"@) || number(t, 10, 255) is Some
}

/// How many of the first `k` entries name a mode.
pub open spec fn mode_count(toks: Seq<Seq<char>>, k: nat) -> nat
    decreases k,
{
    if k == 0 || k > toks.len() {
        0
    } else {
        mode_count(toks, (k - 1) as nat) + if is_mode(toks[k - 1]) {
            1nat
        } else {
            0nat
        }
    }
}

/// The entries among the first `k` that name no mode.
pub open spec fn not_modes(toks: Seq<Seq<char>>, k: nat) -> Seq<Seq<char>>
    decreases k,
{
    if k == 0 || k > toks.len() {
        Seq::empty()
    } else {
        let before = not_modes(toks, (k - 1) as nat);
        if is_mode(toks[k - 1]) {
            before
        } else {
            before.push(toks[k - 1])
        }
    }
}

/// The note beside a list with so many modes and these bad entries.
pub open spec fn scroll_note(n: nat, bad: Seq<Seq<char>>) -> Seq<char> {
    if bad.len() > 0 {
        "invalid: "@ + joined(bad, ", "@) + " (use tactile/free)"@
    } else if n == 0 {
        "enter tactile/free modes"@
    } else {
        counted(n, "mode"@) + " ready"@
    }
}

/// What a list of scroll modes parses to.
pub open spec fn scroll_parsed(list: Seq<char>, p: ScrollStageParse) -> bool {
    let toks = entries(list);
    let n = mode_count(toks, toks.len());
    let bad = not_modes(toks, toks.len());
    &&& p.valid == (n > 0 && bad.len() == 0)
    &&& p.note@ == scroll_note(n, bad)
}

fn names_mode(tok: &str) -> (r: bool)
    ensures
        r == is_mode(tok@),
{
    let t = to_lowercase(tok);
    starts_with(t.as_str(), "free") || starts_with(t.as_str(), "tact") || parse_number(
        t.as_str(),
        10,
        255,
    ).is_some()
}

/// Parses a list of scroll modes.
pub fn parse_scroll_stage_editor(list: &str) -> (r: ScrollStageParse)
    ensures
        scroll_parsed(list@, r),
{
    let toks = list_entries(list);
    let ghost all = texts(toks@);
    let mut n: usize = 0;
    let mut bad: Vec<String> = Vec::new();
    let mut i: usize = 0;
    proof {
        assert(texts(bad@) =~= not_modes(all, 0));
    }
    while i < toks.len()
        invariant
            i <= toks@.len(),
            all == texts(toks@),
            n <= i,
            n == mode_count(all, i as nat),
            texts(bad@) == not_modes(all, i as nat),
        decreases toks@.len() - i,
    {
        proof {
            assert(all[i as int] == toks@[i as int]@);
        }
        if names_mode(toks[i].as_str()) {
            n = n + 1;
        } else {
            let t = toks[i].clone();
            proof {
                lemma_texts_push(bad@, t);
            }
            bad.push(t);
        }
        i = i + 1;
    }
    proof {
        assert(texts(bad@).len() == bad@.len());
    }
    let valid = n > 0 && bad.len() == 0;
    let note: String = if bad.len() > 0 {
        let mut s = "invalid: ".to_owned();
        s.append(join(&bad, ", ").as_str());
        s.append(" (use tactile/free)");
        s
    } else if n == 0 {
        "enter tactile/free modes".to_owned()
    } else {
        let mut s = counted_text(n, "mode");
        s.append(" ready");
        s
    };
    ScrollStageParse { valid, note }
}

/// The editor of the scroll modes after an edit.
pub fn sync_scroll_stage_editor(list: &str) -> (r: ScrollStageParse)
    ensures
        scroll_parsed(list@, r),
{
    parse_scroll_stage_editor(list)
}

// ── the idle time ───────────────────────────────────────────────────────────────────────────────

/// What a typed idle time parses to.
pub struct IdleParse {
    pub secs: Option<u32>,
    pub note: String,
}

/// The idle time that a text spells, in seconds.
pub open spec fn idle_secs(text: Seq<char>) -> Option<nat> {
    number(trimmed(text), 10, IDLE_MAX_SECS as nat)
}

/// The note beside a typed idle time.
pub open spec fn idle_note(text: Seq<char>) -> Seq<char> {
    if trimmed(text).len() == 0 {
        "enter seconds"@
    } else {
        match idle_secs(text) {
            Some(v) => if v == 0 {
                "never sleep ready"@
            } else {
                decimal(v) + "s ready"@
            },
            None => "use 0-65535 seconds"@,
        }
    }
}

/// What a typed idle time parses to.
pub open spec fn idle_parsed(text: Seq<char>, p: IdleParse) -> bool {
    &&& match p.secs {
        Some(v) => idle_secs(text) == Some(v as nat),
        None => idle_secs(text) is None,
    }
    &&& p.note@ == idle_note(text)
}

/// Parses a typed idle time.
pub fn parse_idle_editor(text: &str) -> (r: IdleParse)
    ensures
        idle_parsed(text@, r),
{
    let t = trim(text);
    if t.as_str().is_empty() {
        return IdleParse { secs: None, note: "enter seconds".to_owned() };
    }
    match parse_number(t.as_str(), 10, IDLE_MAX_SECS as u64) {
        Some(v) => {
            let note: String = if v == 0 {
                "never sleep ready".to_owned()
            } else {
                let mut s = show_u64(v);
                s.append("s ready");
                s
            };
            IdleParse { secs: Some(v as u32), note }
        },
        None => IdleParse { secs: None, note: "use 0-65535 seconds".to_owned() },
    }
}

/// The idle editor: the time that it stands at, whether its text is a time, and a note.
pub struct IdleEditor {
    pub secs: u32,
    pub valid: bool,
    pub note: String,
}

/// The idle editor after an edit: a text that is no time leaves the time as it was.
pub fn sync_idle_editor(text: &str, secs: u32) -> (r: IdleEditor)
    ensures
        r.valid == (idle_secs(text@) is Some),
        r.valid ==> idle_secs(text@) == Some(r.secs as nat),
        !r.valid ==> r.secs == secs,
        r.note@ == idle_note(text@),
{
    let p = parse_idle_editor(text);
    match p.secs {
        Some(v) => IdleEditor { secs: v, valid: true, note: p.note },
        None => IdleEditor { secs, valid: false, note: p.note },
    }
}

/// The idle readout: the device's time, or a dash where it does not answer.
pub open spec fn idle_readout(read: Option<u32>) -> Seq<char> {
    match read {
        Some(s) => decimal(s as nat) + "s"@,
        None => "—"@,
    }
}

fn idle_line(read: Option<u32>) -> (r: String)
    ensures
        r@ == idle_readout(read),
{
    match read {
        Some(s) => {
            let mut t = show_u64(s as u64);
            t.append("s");
            t
        },
        None => "—".to_owned(),
    }
}

/// The idle readout, and what reading the device's time puts into the editor.
pub struct IdleReadout {
    pub readout: String,
    /// The text of the editor and the editor with it; absent where nothing was read, which leaves
    /// the editor as it is.
    pub editor: Option<(String, IdleEditor)>,
}

/// The idle readout after the device was asked. A time that was read is put into the editor too, so
/// that the two agree.
pub fn refresh_idle_readout(read: Option<u32>) -> (r: IdleReadout)
    ensures
        r.readout@ == idle_readout(read),
        match (read, r.editor) {
            (Some(s), Some((text, e))) => {
                &&& text@ == decimal(s as nat)
                &&& e.secs == s
                &&& e.valid == (s <= IDLE_MAX_SECS)
                &&& e.note@ == idle_note(decimal(s as nat))
            },
            (None, None) => true,
            _ => false,
        },
{
    let editor: Option<(String, IdleEditor)> = match read {
        Some(s) => {
            let text = show_u64(s as u64);
            proof {
                lemma_decimal_digits(s as nat);
                if s <= IDLE_MAX_SECS {
                    law_decimal_reads_back(s as nat, IDLE_MAX_SECS as nat);
                }
            }
            let e = sync_idle_editor(text.as_str(), s);
            Some((text, e))
        },
        None => None,
    };
    IdleReadout { readout: idle_line(read), editor }
}

// ── the panel at start ──────────────────────────────────────────────────────────────────────────

/// What the performance panel starts with: what was read off the device and what is bound. A field
/// that is absent is left as it is.
pub struct PerfSeed {
    pub idle_readout: String,
    /// The text of the idle editor.
    pub idle_text: Option<String>,
    pub sniper_button: String,
    pub sniper_dpi: Option<u16>,
    pub dpi_stages: Option<String>,
}

/// The decimal numerals of a list.
pub open spec fn numerals(v: Seq<u16>) -> Seq<Seq<char>> {
    Seq::new(v.len(), |i: int| decimal(v[i] as nat))
}

/// What the panel starts with, given the idle time, the bound sniper control with its sensitivity,
/// and the stage table; never a made-up reading.
pub fn init_perf_controls(
    idle: Option<u32>,
    sniper: &Option<(String, u16)>,
    stages: &Vec<u16>,
) -> (r: PerfSeed)
    ensures
        r.idle_readout@ == idle_readout(idle),
        match r.idle_text {
            Some(s) => idle matches Some(i) && s@ == decimal(i as nat),
            None => idle is None,
        },
        r.sniper_button@ == match *sniper {
            Some((label, _)) => label@,
            None => "—"@,
        },
        r.sniper_dpi == match *sniper {
            Some((_, dpi)) => if dpi == 0 {
                None
            } else {
                Some(dpi)
            },
            None => None,
        },
        match r.dpi_stages {
            Some(s) => stages@.len() > 0 && s@ == joined(numerals(stages@), "/"@),
            None => stages@.len() == 0,
        },
{
    let idle_text: Option<String> = match idle {
        Some(s) => Some(show_u64(s as u64)),
        None => None,
    };
    let (sniper_button, dpi): (String, u16) = match sniper {
        Some((label, dpi)) => (label.clone(), *dpi),
        None => ("—".to_owned(), 0),
    };
    let mut words: Vec<String> = Vec::new();
    let mut i: usize = 0;
    while i < stages.len()
        invariant
            i <= stages@.len(),
            words@.len() == i,
            forall|j: int| 0 <= j < i ==> (#[trigger] words@[j])@ == decimal(stages@[j] as nat),
        decreases stages@.len() - i,
    {
        words.push(show_u64(stages[i] as u64));
        i = i + 1;
    }
    proof {
        assert(texts(words@) =~= numerals(stages@));
    }
    PerfSeed {
        idle_readout: idle_line(idle),
        idle_text,
        sniper_button,
        sniper_dpi: if dpi == 0 {
            None
        } else {
            Some(dpi)
        },
        dpi_stages: if stages.len() == 0 {
            None
        } else {
            Some(join(&words, "/"))
        },
    }
}

// ── lift-off distance ───────────────────────────────────────────────────────────────────────────

/// What a lift-off level is called; a level outside the scale counts as the nearest.
pub open spec fn lod_word(level: int) -> Seq<char> {
    if level <= 0 {
        "low"@
    } else if level == 1 {
        "medium"@
    } else {
        "high"@
    }
}

/// What a lift-off level is called.
pub fn lod_level_label(level: i32) -> (r: &'static str)
    ensures
        r@ == lod_word(level as int),
{
    if level <= 0 {
        "low"
    } else if level == 1 {
        "medium"
    } else {
        "high"
    }
}

/// The lift-off controls: whether the distances are split, the shared level, the pair, and the
/// readout.
pub struct LodView {
    pub split: bool,
    pub level: i32,
    pub lift: i32,
    pub land: i32,
    pub readout: String,
}

/// The lift-off controls after a read: a split pair first, else the shared level, else a dash with
/// everything else as it was.
pub fn refresh_lod_readout(old_view: LodView, pair: Option<(u8, u8)>, level: Option<u8>) -> (r: LodView)
    ensures
        match pair {
            Some((lift, land)) => r.split && r.lift == lift && r.land == land && r.level
                == old_view.level && r.readout@ == "lift "@ + decimal(lift as nat) + " / land "@
                + decimal(land as nat),
            None => match level {
                Some(l) => !r.split && r.level == (if l > 2 {
                    2
                } else {
                    l as int
                }) && r.lift == old_view.lift && r.land == old_view.land && r.readout@ == lod_word(
                    l as int,
                ),
                None => r.split == old_view.split && r.level == old_view.level && r.lift
                    == old_view.lift && r.land == old_view.land && r.readout@ == "—"@,
            },
        },
{
    match pair {
        Some((lift, land)) => {
            let mut s = "lift ".to_owned();
            s.append(show_u64(lift as u64).as_str());
            s.append(" / land ");
            s.append(show_u64(land as u64).as_str());
            LodView {
                split: true,
                level: old_view.level,
                lift: lift as i32,
                land: land as i32,
                readout: s,
            }
        },
        None => match level {
            Some(l) => {
                let lvl: i32 = if l > 2 {
                    2
                } else {
                    l as i32
                };
                LodView {
                    split: false,
                    level: lvl,
                    lift: old_view.lift,
                    land: old_view.land,
                    readout: lod_level_label(lvl).to_owned(),
                }
            },
            None => LodView {
                split: old_view.split,
                level: old_view.level,
                lift: old_view.lift,
                land: old_view.land,
                readout: "—".to_owned(),
            },
        },
    }
}

// ── what a product can do ───────────────────────────────────────────────────────────────────────

/// Whether a product can poll faster than a thousand times a second.
pub fn pid_supports_hyperpoll(pid: u16) -> (r: bool)
    ensures
        r == (pid == 0x00B3),
{
    pid == 0x00B3
}

/// The products whose keyboards have snap tap.
pub open spec fn has_snap_tap(pid: nat) -> bool {
    pid == 0x0287 || pid == 0x02A5 || pid == 0x028B || pid == 0x02A6 || pid == 0x02A7 || pid
        == 0x02A8
}

/// Whether a product's keyboard has snap tap.
pub fn pid_supports_snap_tap(pid: u16) -> (r: bool)
    ensures
        r == has_snap_tap(pid as nat),
{
    pid == 0x0287 || pid == 0x02A5 || pid == 0x028B || pid == 0x02A6 || pid == 0x02A7 || pid
        == 0x02A8
}

/// The row is a connected keyboard with snap tap.
pub open spec fn row_has_snap_tap(r: DeviceRow) -> bool {
    r.connected && r.kind@ == "keyboard"@ && (number(r.pid@, 16, 65535) matches Some(p)
        && has_snap_tap(p))
}

/// Whether any of the rows is a connected keyboard with snap tap; and whether snap tap may stay
/// enabled.
pub fn refresh_snap_tap(rows: &Vec<DeviceRow>, enabled: bool) -> (r: (bool, bool))
    ensures
        r.0 <==> exists|i: int| 0 <= i < rows@.len() && row_has_snap_tap(#[trigger] rows@[i]),
        r.1 == (r.0 && enabled),
{
    let mut i: usize = 0;
    while i < rows.len()
        invariant
            i <= rows@.len(),
            forall|j: int| 0 <= j < i ==> !row_has_snap_tap(#[trigger] rows@[j]),
        decreases rows@.len() - i,
    {
        if rows[i].connected && same_text(rows[i].kind.as_str(), "keyboard") {
            match parse_number(rows[i].pid.as_str(), 16, 65535) {
                Some(p) => {
                    if pid_supports_snap_tap(p as u16) {
                        proof {
                            assert(row_has_snap_tap(rows@[i as int]));
                        }
                        return (true, enabled);
                    }
                },
                None => {},
            }
        }
        i = i + 1;
    }
    (false, false)
}

// ── laws ────────────────────────────────────────────────────────────────────────────────────────

/// Every stage that a list parses to is one that a device can hold, and a valid list is never empty
/// nor longer than the device's table.
pub proof fn law_stages_in_range(toks: Seq<Seq<char>>, k: nat, i: int)
    requires
        0 <= i < stages(toks, k).len(),
    ensures
        DPI_MIN <= stages(toks, k)[i] <= DPI_MAX,
    decreases k,
{
    if 0 < k <= toks.len() {
        if i < stages(toks, (k - 1) as nat).len() {
            law_stages_in_range(toks, (k - 1) as nat, i);
        }
    }
}

/// No entry of a list is lost: each is a stage or listed as bad.
pub proof fn law_every_entry_counts(toks: Seq<Seq<char>>, k: nat)
    requires
        k <= toks.len(),
    ensures
        stages(toks, k).len() + not_stages(toks, k).len() == k,
        mode_count(toks, k) + not_modes(toks, k).len() == k,
    decreases k,
{
    if k > 0 {
        law_every_entry_counts(toks, (k - 1) as nat);
    }
}

/// The active stage never points behind the last one.
pub proof fn law_active_stage_within(active: i32, n: nat)
    requires
        active >= 0,
    ensures
        n > 0 ==> 0 <= active_within(active, n) < n,
        n == 0 ==> active_within(active, n) == 0,
{
}

} // verus!
