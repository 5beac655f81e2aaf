//! Profiles: the cards, which rule the focused program wins, what streams once a profile was applied,
//! and the import wizard.

use vstd::prelude::*;

use crate::text::{
    contains_text, decimal, has_text, join, joined, list_has, lowercase, same_text,
    show_u64, texts, to_lowercase,
};

verus! {

// ── cards ───────────────────────────────────────────────────────────────────────────────────────

/// A saved profile, with its summary and its lighting in words.
pub struct Profile {
    pub name: String,
    pub summary: String,
    pub dpi_stages: Vec<u16>,
    pub dpi: Option<u16>,
    pub polling_hz: Option<u32>,
    pub brightness: Option<u8>,
    pub lighting: String,
    pub idle_secs: Option<u32>,
    /// The polling rates in a game, wired and wireless.
    pub in_game_polling: Option<(u32, u32)>,
    pub gaming: bool,
}

/// A profile's card; what a profile does not set is blank.
pub struct ProfileRow {
    pub name: String,
    pub summary: String,
    pub dpi: String,
    pub polling: String,
    pub brightness: String,
    pub lighting: String,
    pub idle: String,
    pub in_game: String,
    pub gaming: bool,
    pub active: bool,
}

/// Numbers in words.
pub open spec fn decimals(v: Seq<u16>) -> Seq<Seq<char>> {
    Seq::new(v.len(), |i: int| decimal(v[i] as nat))
}

/// The stages of a profile, else its one sensitivity, else nothing.
pub open spec fn dpi_text(p: Profile) -> Seq<char> {
    if p.dpi_stages@.len() > 0 {
        joined(decimals(p.dpi_stages@), "/"@)
    } else {
        match p.dpi {
            Some(d) => decimal(d as nat),
            None => Seq::empty(),
        }
    }
}

/// A number with its unit, or nothing.
pub open spec fn with_unit(n: Option<nat>, unit: Seq<char>) -> Seq<char> {
    match n {
        Some(n) => decimal(n) + unit,
        None => Seq::empty(),
    }
}

/// A card shows a profile.
pub open spec fn card_shows(r: ProfileRow, p: Profile, active: Seq<char>) -> bool {
    &&& r.name@ == p.name@
    &&& r.summary@ == p.summary@
    &&& r.dpi@ == dpi_text(p)
    &&& r.polling@ == with_unit(
        match p.polling_hz {
            Some(h) => Some(h as nat),
            None => None,
        },
        " Hz"@,
    )
    &&& r.brightness@ == with_unit(
        match p.brightness {
            Some(b) => Some(b as nat),
            None => None,
        },
        "%"@,
    )
    &&& r.lighting@ == p.lighting@
    &&& r.idle@ == with_unit(
        match p.idle_secs {
            Some(s) => Some(s as nat),
            None => None,
        },
        "s"@,
    )
    &&& r.in_game@ == match p.in_game_polling {
        Some((wired, dongle)) => decimal(wired as nat) + "/"@ + decimal(dongle as nat) + "Hz"@,
        None => Seq::empty(),
    }
    &&& r.gaming == p.gaming
    &&& r.active == (p.name@ == active)
}

fn number_list(v: &Vec<u16>) -> (r: Vec<String>)
    ensures
        texts(r@) == decimals(v@),
{
    let mut out: Vec<String> = Vec::new();
    let mut i: usize = 0;
    while i < v.len()
        invariant
            i <= v@.len(),
            out@.len() == i,
            forall|j: int| 0 <= j < i ==> (#[trigger] out@[j])@ == decimal(v@[j] as nat),
        decreases v@.len() - i,
    {
        out.push(show_u64(v[i] as u64));
        i = i + 1;
    }
    proof {
        assert(texts(out@) =~= decimals(v@));
    }
    out
}

fn dpi_words(p: &Profile) -> (r: String)
    ensures
        r@ == dpi_text(*p),
{
    if p.dpi_stages.len() > 0 {
        return join(&number_list(&p.dpi_stages), "/");
    }
    match p.dpi {
        Some(d) => show_u64(d as u64),
        None => String::new(),
    }
}

fn unit_words(n: Option<u64>, unit: &str) -> (r: String)
    ensures
        r@ == with_unit(
            match n {
                Some(h) => Some(h as nat),
                None => None,
            },
            unit@,
        ),
{
    match n {
        Some(n) => {
            let mut s = show_u64(n);
            s.append(unit);
            s
        },
        None => String::new(),
    }
}

fn profile_row(p: &Profile, active: &str) -> (r: ProfileRow)
    ensures
        card_shows(r, *p, active@),
{
    let polling: Option<u64> = match p.polling_hz {
        Some(h) => Some(h as u64),
        None => None,
    };
    let brightness: Option<u64> = match p.brightness {
        Some(b) => Some(b as u64),
        None => None,
    };
    let idle: Option<u64> = match p.idle_secs {
        Some(s) => Some(s as u64),
        None => None,
    };
    let in_game: String = match p.in_game_polling {
        Some((wired, dongle)) => {
            let mut s = show_u64(wired as u64);
            s.append("/");
            s.append(show_u64(dongle as u64).as_str());
            s.append("Hz");
            s
        },
        None => String::new(),
    };
    ProfileRow {
        name: p.name.clone(),
        summary: p.summary.clone(),
        dpi: dpi_words(p),
        polling: unit_words(polling, " Hz"),
        brightness: unit_words(brightness, "%"),
        lighting: p.lighting.clone(),
        idle: unit_words(idle, "s"),
        in_game,
        gaming: p.gaming,
        active: same_text(p.name.as_str(), active),
    }
}

/// The cards of the saved profiles, in order, and their names.
pub fn refresh_profiles(profiles: &Vec<Profile>, active: &str) -> (r: (
    Vec<ProfileRow>,
    Vec<String>,
))
    ensures
        r.0@.len() == profiles@.len(),
        r.1@.len() == profiles@.len(),
        forall|i: int|
            0 <= i < profiles@.len() ==> card_shows(#[trigger] r.0@[i], profiles@[i], active@),
        forall|i: int| 0 <= i < profiles@.len() ==> (#[trigger] r.1@[i])@ == profiles@[i].name@,
{
    let mut rows: Vec<ProfileRow> = Vec::new();
    let mut names: Vec<String> = Vec::new();
    let mut i: usize = 0;
    while i < profiles.len()
        invariant
            i <= profiles@.len(),
            rows@.len() == i,
            names@.len() == i,
            forall|j: int| 0 <= j < i ==> card_shows(#[trigger] rows@[j], profiles@[j], active@),
            forall|j: int| 0 <= j < i ==> (#[trigger] names@[j])@ == profiles@[j].name@,
        decreases profiles@.len() - i,
    {
        rows.push(profile_row(&profiles[i], active));
        names.push(profiles[i].name.clone());
        i = i + 1;
    }
    (rows, names)
}

/// Whether saving under a name would overwrite a profile: names that are kept in the same file count
/// as the same. `keys` are the file keys of the saved profiles, `key` that of the name.
pub fn profile_name_edited(keys: &Vec<String>, key: &str) -> (r: bool)
    ensures
        r == texts(keys@).contains(key@),
{
    list_has(keys, key)
}

// ── what is live ────────────────────────────────────────────────────────────────────────────────

/// The active profile as the header shows it and as the runtime holds it, and the row that the
/// binding editor is open on, or a negative number.
pub struct LiveProfile {
    pub shown: String,
    pub held: String,
    pub editing_rule: i32,
}

/// The live loop runs on this profile now. A change of what is shown closes the editor of a binding,
/// whose row may be another's now; one that only repeats what is shown closes nothing. Whether the
/// cards are to be rebuilt.
pub fn note_live_profile(live: &mut LiveProfile, name: &str) -> (rebuild: bool)
    ensures
        final(live).shown@ == name@,
        final(live).held@ == name@,
        final(live).editing_rule == if old(live).shown@ == name@ {
            old(live).editing_rule as int
        } else {
            -1
        },
        rebuild == (old(live).held@ != name@),
{
    if !same_text(live.shown.as_str(), name) {
        live.shown = name.to_owned();
        live.editing_rule = -1;
    }
    if !same_text(live.held.as_str(), name) {
        live.held = name.to_owned();
        return true;
    }
    false
}

/// A rule that switches to a profile while a program is focused.
pub struct AppRule {
    pub app: String,
    pub profile: String,
}

/// The rule speaks of the focused program: its text occurs in the program's, whatever the case.
pub open spec fn rule_matches(r: AppRule, focused: Seq<char>) -> bool {
    r.app@.len() > 0 && has_text(lowercase(focused), lowercase(r.app@))
}

/// The first rule from `from` on that speaks of the focused program.
pub open spec fn winning_rule(rules: Seq<AppRule>, focused: Seq<char>, from: nat) -> int
    decreases rules.len() - from,
{
    if from >= rules.len() {
        -1
    } else if rule_matches(rules[from as int], focused) {
        from as int
    } else {
        winning_rule(rules, focused, from + 1)
    }
}

/// The rule that wins while a program is focused, the first from the top; -1 where none does.
pub fn note_focused_app(rules: &Vec<AppRule>, focused: &str) -> (r: i32)
    requires
        rules@.len() <= i32::MAX,
    ensures
        r == winning_rule(rules@, focused@, 0),
{
    let lf = to_lowercase(focused);
    let mut i: usize = 0;
    while i < rules.len()
        invariant
            i <= rules@.len() <= i32::MAX,
            lf@ == lowercase(focused@),
            winning_rule(rules@, focused@, 0) == winning_rule(rules@, focused@, i as nat),
        decreases rules@.len() - i,
    {
        let app = rules[i].app.as_str();
        proof {
            reveal_strlit("");
            if app@.len() == 0 {
                assert(app@ =~= ""@);
            }
        }
        if !same_text(app, "") && contains_text(lf.as_str(), to_lowercase(app).as_str()) {
            return i as i32;
        }
        i = i + 1;
    }
    -1
}

/// The rows of the rules, in order, and the one that wins now.
pub fn refresh_app_rules(rules: &Vec<AppRule>, focused: &str) -> (r: (Vec<(String, String)>, i32))
    requires
        rules@.len() <= i32::MAX,
    ensures
        r.0@.len() == rules@.len(),
        forall|i: int|
            0 <= i < rules@.len() ==> (#[trigger] r.0@[i]).0@ == rules@[i].app@ && r.0@[i].1@
                == rules@[i].profile@,
        r.1 == winning_rule(rules@, focused@, 0),
{
    let mut rows: Vec<(String, String)> = Vec::new();
    let mut i: usize = 0;
    while i < rules.len()
        invariant
            i <= rules@.len(),
            rows@.len() == i,
            forall|j: int|
                0 <= j < i ==> (#[trigger] rows@[j]).0@ == rules@[j].app@ && rows@[j].1@
                    == rules@[j].profile@,
        decreases rules@.len() - i,
    {
        rows.push((rules[i].app.clone(), rules[i].profile.clone()));
        i = i + 1;
    }
    (rows, note_focused_app(rules, focused))
}

/// What is said while a profile is being applied.
pub fn applying(name: &str) -> (r: String)
    ensures
        r@ == "applying '"@ + name@ + "'..."@,
{
    let mut s = "applying '".to_owned();
    s.append(name);
    s.append("'...");
    s
}

/// The stack to stream once a profile was applied: the profile's own, else the one that streamed
/// before; where applying failed, the one that streamed before. None where that is empty.
pub fn lighting_after_apply<T>(applied: bool, own: Option<Vec<T>>, before: Vec<T>) -> (r: Option<
    Vec<T>,
>)
    ensures
        match r {
            Some(stack) => stack@.len() > 0 && stack@ == (if applied && own is Some && own->0@.len()
                > 0 {
                own->0@
            } else {
                before@
            }),
            None => before@.len() == 0 && !(applied && own is Some && own->0@.len() > 0),
        },
{
    if applied {
        match own {
            Some(stack) => {
                if stack.len() > 0 {
                    return Some(stack);
                }
            },
            None => {},
        }
    }
    if before.len() > 0 {
        Some(before)
    } else {
        None
    }
}

// ── import ──────────────────────────────────────────────────────────────────────────────────────

/// A line of what an import would bring.
pub struct ImportLine {
    pub label: String,
    pub detail: String,
    pub ok: bool,
    pub category: String,
}

/// A pane of the wizard.
#[derive(Clone, Copy, Debug, PartialEq, Eq, Structural)]
pub enum ImportPane {
    Performance,
    Bindings,
    Notes,
}

/// A line of this category belongs on the pane.
pub open spec fn on_pane(category: Seq<char>, pane: ImportPane) -> bool {
    match pane {
        ImportPane::Performance => category == "perf"@ || category == "lighting"@,
        ImportPane::Bindings => category == "binding"@,
        ImportPane::Notes => category == "note"@,
    }
}

/// The lines among the first `k` that belong on a pane, by index.
pub open spec fn pane_lines(lines: Seq<ImportLine>, pane: ImportPane, k: nat) -> Seq<int>
    decreases k,
{
    if k == 0 || k > lines.len() {
        Seq::empty()
    } else {
        let before = pane_lines(lines, pane, (k - 1) as nat);
        if on_pane(lines[k - 1].category@, pane) {
            before.push(k - 1)
        } else {
            before
        }
    }
}

/// The lines that belong on a pane, in order.
pub fn import_pane(lines: &Vec<ImportLine>, pane: ImportPane) -> (r: Vec<usize>)
    ensures
        r@.len() == pane_lines(lines@, pane, lines@.len()).len(),
        forall|i: int| 0 <= i < r@.len() ==> #[trigger] r@[i] == pane_lines(lines@, pane, lines@.len())[i],
{
    let mut out: Vec<usize> = Vec::new();
    let mut i: usize = 0;
    while i < lines.len()
        invariant
            i <= lines@.len(),
            out@.len() == pane_lines(lines@, pane, i as nat).len(),
            forall|j: int|
                0 <= j < out@.len() ==> #[trigger] out@[j] == pane_lines(lines@, pane, i as nat)[j],
        decreases lines@.len() - i,
    {
        let c = lines[i].category.as_str();
        let there = match pane {
            ImportPane::Performance => same_text(c, "perf") || same_text(c, "lighting"),
            ImportPane::Bindings => same_text(c, "binding"),
            ImportPane::Notes => same_text(c, "note"),
        };
        if there {
            out.push(i);
        }
        i = i + 1;
    }
    out
}

/// The import wizard.
pub struct ImportWizard {
    pub status: String,
    pub path: String,
    pub ready: bool,
    pub open: bool,
    pub sheet_open: bool,
    /// What was parsed and waits to be applied.
    pub pending: bool,
}

impl ImportWizard {
    /// Opens the file picker, unless it is open; whether it is to be opened.
    pub fn browse(&mut self) -> (r: bool)
        ensures
            r == (old(self).status@ != "opening file picker…"@),
            final(self).status@ == "opening file picker…"@,
            final(self).path == old(self).path,
            final(self).ready == old(self).ready,
            final(self).open == old(self).open,
            final(self).sheet_open == old(self).sheet_open,
            final(self).pending == old(self).pending,
    {
        if same_text(self.status.as_str(), "opening file picker…") {
            return false;
        }
        self.status = "opening file picker…".to_owned();
        true
    }

    /// A file was picked, or none; whether it is to be parsed.
    pub fn picked(&mut self, path: &str) -> (r: bool)
        ensures
            r == (path@.len() > 0),
            final(self).status@ == if r {
                old(self).status@
            } else {
                "no file selected."@
            },
            final(self).path@ == if r {
                path@
            } else {
                old(self).path@
            },
            final(self).ready == old(self).ready,
            final(self).open == old(self).open,
            final(self).sheet_open == old(self).sheet_open,
            final(self).pending == old(self).pending,
    {
        proof {
            reveal_strlit("");
            if path@.len() == 0 {
                assert(path@ =~= ""@);
            }
        }
        if same_text(path, "") {
            self.status = "no file selected.".to_owned();
            return false;
        }
        self.path = path.to_owned();
        true
    }

    /// The import was applied, or failed. Success uses the import up, closes the wizard and opens the
    /// profiles; a failure keeps everything, so that it can be tried again. What the status line says.
    pub fn applied(&mut self, result: &Result<String, String>) -> (r: String)
        ensures
            match *result {
                Ok(msg) => !final(self).pending && !final(self).ready && !final(self).open
                    && final(self).sheet_open && final(self).path@ == Seq::<char>::empty()
                    && final(self).status@ == "Pick a Synapse export (.synapse3 / .ChromaEffects)."@ && r@ == msg@
                    + " — press apply on the profile to make it live"@,
                Err(msg) => final(self).pending == old(self).pending
                    && final(self).ready == old(self).ready && final(self).open == old(self).open
                    && final(self).sheet_open == old(self).sheet_open
                    && final(self).path@ == old(self).path@ && final(self).status@ == msg@
                    && r@ == msg@,
            },
    {
        match result {
            Ok(msg) => {
                self.pending = false;
                self.ready = false;
                self.path = String::new();
                self.status = "Pick a Synapse export (.synapse3 / .ChromaEffects).".to_owned();
                self.open = false;
                self.sheet_open = true;
                let mut s = msg.clone();
                s.append(" — press apply on the profile to make it live");
                s
            },
            Err(msg) => {
                self.status = msg.clone();
                msg.clone()
            },
        }
    }
}

// ── laws ────────────────────────────────────────────────────────────────────────────────────────

/// The rule that wins speaks of the focused program, and no rule above it does; where none wins, none
/// speaks of it.
pub proof fn law_first_matching_rule_wins(rules: Seq<AppRule>, focused: Seq<char>, from: nat)
    requires
        from <= rules.len(),
    ensures
        ({
            let w = winning_rule(rules, focused, from);
            &&& w == -1 || (from <= w < rules.len() && rule_matches(rules[w], focused))
            &&& forall|i: int|
                from <= i < (if w == -1 {
                    rules.len() as int
                } else {
                    w
                }) ==> !rule_matches(#[trigger] rules[i], focused)
        }),
    decreases rules.len() - from,
{
    if from < rules.len() && !rule_matches(rules[from as int], focused) {
        law_first_matching_rule_wins(rules, focused, from + 1);
    }
}

/// No line of an import is on two panes.
pub proof fn law_panes_do_not_share(category: Seq<char>, a: ImportPane, b: ImportPane)
    requires
        on_pane(category, a),
        on_pane(category, b),
    ensures
        a == b,
{
    reveal_strlit("perf");
    reveal_strlit("lighting");
    reveal_strlit("binding");
    reveal_strlit("note");
    let first = category[0];
    assert("perf"@[0] == 'p');
    assert("lighting"@[0] == 'l');
    assert("binding"@[0] == 'b');
    assert("note"@[0] == 'n');
}

} // verus!
