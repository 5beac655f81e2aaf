//! The macro workshop: the catalog of macros with what fires each, the editor's actions on a macro,
//! and the test bench.

use vstd::prelude::*;

use crate::canvas::{count_macro_nodes, node_count};
use crate::macros::MacroNode;
use crate::source_scan::{first_line, line_one, option_count, option_count_from_source};
use crate::text::{
    contains_text, decimal, has_text, join, joined, lemma_texts_push, list_has, same_text, show_u64,
    texts, trim, trimmed,
};
use crate::textmap::TextMap;

verus! {

// ── which macros a binding fires ────────────────────────────────────────────────────────────────

/// What a binding does, as far as macros go.
pub enum Action {
    /// Runs a macro by its id.
    Macro(String),
    Sequence(Vec<Action>),
    Other,
}

/// The macros that an action runs, in order.
pub open spec fn macro_ids(a: Action) -> Seq<Seq<char>>
    decreases a,
{
    match a {
        Action::Macro(id) => seq![id@],
        Action::Sequence(steps) => steps_ids(steps@, steps@.len()),
        Action::Other => Seq::empty(),
    }
}

/// The macros that the first `k` steps run, in order.
pub open spec fn steps_ids(steps: Seq<Action>, k: nat) -> Seq<Seq<char>>
    decreases steps, k,
    via steps_ids_decreases
{
    if k == 0 || k > steps.len() {
        Seq::empty()
    } else {
        steps_ids(steps, (k - 1) as nat) + macro_ids(steps[k - 1])
    }
}

#[via_fn]
proof fn steps_ids_decreases(steps: Seq<Action>, k: nat) {
    if 0 < k <= steps.len() {
        assert(decreases_to!(steps => steps[k - 1]));
    }
}

/// Appends the macros that an action runs, a sequence step by step.
pub fn collect_macro_ids(action: &Action, out: &mut Vec<String>)
    ensures
        texts(final(out)@) == texts(old(out)@) + macro_ids(*action),
    decreases action,
{
    let ghost before = texts(out@);
    match action {
        Action::Macro(id) => {
            proof {
                lemma_texts_push(out@, *id);
                assert(before.push(id@) =~= before + seq![id@]);
            }
            out.push(id.clone());
        },
        Action::Sequence(steps) => {
            let mut i: usize = 0;
            proof {
                assert(texts(out@) =~= before + steps_ids(steps@, 0));
            }
            while i < steps.len()
                invariant
                    i <= steps@.len(),
                    *action == Action::Sequence(*steps),
                    texts(out@) == before + steps_ids(steps@, i as nat),
                decreases steps@.len() - i,
            {
                proof {
                    assert(decreases_to!(*action => action->Sequence_0));
                    assert(decreases_to!(steps => steps@));
                    assert(decreases_to!(steps@ => steps@[i as int]));
                }
                collect_macro_ids(&steps[i], out);
                proof {
                    assert(texts(out@) =~= before + steps_ids(steps@, (i + 1) as nat));
                }
                i = i + 1;
            }
        },
        Action::Other => {
            proof {
                assert(before =~= before + Seq::<Seq<char>>::empty());
            }
        },
    }
}

/// A binding: its trigger in words, and what it does.
pub struct Rule {
    pub trigger: String,
    pub action: Action,
}

/// A list with a text put at its end, unless it holds it already.
pub open spec fn with_label(labels: Seq<Seq<char>>, label: Seq<char>) -> Seq<Seq<char>> {
    if labels.contains(label) {
        labels
    } else {
        labels.push(label)
    }
}

/// The triggers among the first `k` bindings that fire a macro, each once, in order.
pub open spec fn triggers_of(rules: Seq<Rule>, id: Seq<char>, k: nat) -> Seq<Seq<char>>
    decreases k,
{
    if k == 0 || k > rules.len() {
        Seq::empty()
    } else {
        let before = triggers_of(rules, id, (k - 1) as nat);
        if macro_ids(rules[k - 1].action).contains(id) {
            with_label(before, rules[k - 1].trigger@)
        } else {
            before
        }
    }
}

/// The map holds, under each macro that something fires, the triggers that do.
pub open spec fn maps_triggers(m: Map<Seq<char>, Vec<String>>, rules: Seq<Rule>, k: nat) -> bool {
    forall|id: Seq<char>|
        (#[trigger] m.contains_key(id) <==> triggers_of(rules, id, k).len() > 0) && (m.contains_key(
            id,
        ) ==> texts(m[id]@) == triggers_of(rules, id, k))
}

/// What the map holds once the first `j` macros of a binding were taken in.
pub open spec fn maps_midway(
    m: Map<Seq<char>, Vec<String>>,
    rules: Seq<Rule>,
    k: nat,
    ids: Seq<Seq<char>>,
    j: int,
    label: Seq<char>,
) -> bool {
    forall|id: Seq<char>|
        ({
            let want = if ids.take(j).contains(id) {
                with_label(triggers_of(rules, id, k), label)
            } else {
                triggers_of(rules, id, k)
            };
            (#[trigger] m.contains_key(id) <==> want.len() > 0) && (m.contains_key(id) ==> texts(
                m[id]@,
            ) == want)
        })
}

/// Which triggers fire which macro. A macro that nothing fires is not in the map.
pub fn macro_trigger_map(rules: &Vec<Rule>) -> (r: TextMap<Vec<String>>)
    ensures
        r.wf(),
        maps_triggers(r@, rules@, rules@.len()),
{
    let mut map: TextMap<Vec<String>> = TextMap::new();
    let mut i: usize = 0;
    while i < rules.len()
        invariant
            i <= rules@.len(),
            map.wf(),
            maps_triggers(map@, rules@, i as nat),
        decreases rules@.len() - i,
    {
        let mut ids: Vec<String> = Vec::new();
        collect_macro_ids(&rules[i].action, &mut ids);
        let ghost all = texts(ids@);
        proof {
            assert(all =~= macro_ids(rules@[i as int].action));
            assert(all.take(0) =~= Seq::empty());
        }
        let label = rules[i].trigger.as_str();
        let mut j: usize = 0;
        while j < ids.len()
            invariant
                i < rules@.len(),
                j <= ids@.len(),
                all == texts(ids@),
                map.wf(),
                maps_midway(map@, rules@, i as nat, all, j as int, label@),
            decreases ids@.len() - j,
        {
            let ghost before = map@;
            let id = ids[j].as_str();
            let mut entry: Vec<String> = match map.remove(id) {
                Some(v) => v,
                None => Vec::new(),
            };
            proof {
                assert(all.take(j as int).push(id@) =~= all.take(j + 1));
                assert(before.contains_key(id@) || texts(entry@) =~= Seq::empty());
            }
            let ghost had = texts(entry@);
            if !list_has(&entry, label) {
                let l: String = label.to_owned();
                proof {
                    lemma_texts_push(entry@, l);
                }
                entry.push(l);
            }
            let ghost now = entry;
            map.insert(id, entry);
            proof {
                let k = i as nat;
                assert(map@ =~= before.insert(id@, now));
                assert forall|q: Seq<char>|
                    ({
                        let want = if all.take(j + 1).contains(q) {
                            with_label(triggers_of(rules@, q, k), label@)
                        } else {
                            triggers_of(rules@, q, k)
                        };
                        (#[trigger] map@.contains_key(q) <==> want.len() > 0) && (map@.contains_key(
                            q,
                        ) ==> texts(map@[q]@) == want)
                    }) by {
                    let seen = all.take(j as int);
                    let upto = all.take(j + 1);
                    assert(upto == seen.push(id@));
                    assert(before.contains_key(q) || !before.contains_key(q));
                    if q == id@ {
                        assert(upto[j as int] == q);
                        let base = triggers_of(rules@, q, k);
                        // whether or not the macro was met before in this binding, the label is
                        // there once
                        if seen.contains(q) {
                            assert(before.contains_key(q));
                            assert(had == with_label(base, label@));
                            assert(with_label(base, label@).contains(label@)) by {
                                if !base.contains(label@) {
                                    assert(base.push(label@)[base.len() as int] == label@);
                                }
                            }
                        } else {
                            assert(had == base);
                        }
                        assert(texts(now@) == with_label(base, label@));
                        assert(with_label(base, label@).len() > 0);
                    } else {
                        assert(upto.contains(q) == seen.contains(q)) by {
                            if seen.contains(q) {
                                let x = choose|x: int| 0 <= x < seen.len() && seen[x] == q;
                                assert(upto[x] == q);
                            }
                            if upto.contains(q) {
                                let x = choose|x: int| 0 <= x < upto.len() && upto[x] == q;
                                assert(seen[x] == q);
                            }
                        }
                    }
                }
            }
            j = j + 1;
        }
        proof {
            assert(all.take(all.len() as int) =~= all);
            assert(maps_triggers(map@, rules@, (i + 1) as nat)) by {
                assert forall|id: Seq<char>|
                    (#[trigger] map@.contains_key(id) <==> triggers_of(
                        rules@,
                        id,
                        (i + 1) as nat,
                    ).len() > 0) && (map@.contains_key(id) ==> texts(map@[id]@) == triggers_of(
                        rules@,
                        id,
                        (i + 1) as nat,
                    )) by {}
            }
        }
        i = i + 1;
    }
    map
}

// ── the catalog ─────────────────────────────────────────────────────────────────────────────────

/// A macro on disk: its id, its source, and the summary and number of steps that parsing gave, if it
/// could be parsed.
pub struct MacroFile {
    pub id: String,
    pub source: String,
    pub parsed: Option<(String, i32)>,
}

/// What parsing a macro on disk gives: its summary, with as many steps as its tree holds, those in
/// lanes counted in.
pub open spec fn file_of(
    f: MacroFile,
    id: Seq<char>,
    source: Seq<char>,
    parsed: Option<(String, &Vec<MacroNode>)>,
) -> bool {
    &&& f.id@ == id
    &&& f.source@ == source
    &&& match (parsed, f.parsed) {
        (Some((summary, nodes)), Some((s, steps))) => s@ == summary@ && steps == node_count(nodes@),
        (None, None) => true,
        _ => false,
    }
}

/// A macro on disk, with the summary and the tree that parsing it gave, if it could be parsed.
pub fn macro_file(
    id: &str,
    source: &str,
    parsed: Option<(String, &Vec<MacroNode>)>,
) -> (r: MacroFile)
    requires
        parsed matches Some((_, nodes)) ==> node_count(nodes@) <= i32::MAX,
    ensures
        file_of(r, id@, source@, parsed),
{
    let read: Option<(String, i32)> = match parsed {
        Some((summary, nodes)) => Some((summary, count_macro_nodes(nodes.as_slice()))),
        None => None,
    };
    MacroFile { id: id.to_owned(), source: source.to_owned(), parsed: read }
}

/// A card of the catalog.
pub struct MacroCard {
    pub name: String,
    pub summary: String,
    pub steps: i32,
    pub options: i32,
    pub trigger: String,
}

/// The triggers of a macro in words.
pub open spec fn trigger_text(labels: Seq<Seq<char>>) -> Seq<char> {
    if labels.len() == 0 {
        "(unbound)"@
    } else {
        joined(labels, "  ·  "@)
    }
}

/// A card shows a macro.
pub open spec fn card_shows(c: MacroCard, f: MacroFile, labels: Seq<Seq<char>>) -> bool {
    &&& c.name@ == f.id@
    &&& match f.parsed {
        Some((summary, steps)) => c.summary@ == summary@ && c.steps == steps,
        None => c.summary@ == "couldn't read steps (syntax error?)"@ && c.steps == 0,
    }
    &&& c.options == option_count(f.source@)
    &&& c.trigger@ == trigger_text(labels)
}

/// What is under a macro's id, if anything.
pub open spec fn labels_in(m: Map<Seq<char>, Vec<String>>, id: Seq<char>) -> Seq<Seq<char>> {
    if m.contains_key(id) {
        texts(m[id]@)
    } else {
        Seq::empty()
    }
}

/// The cards of the macros on disk, in order. A file that cannot be read has a card too, which says
/// so.
pub fn refresh_macro_catalog(files: &Vec<MacroFile>, triggers: &TextMap<Vec<String>>) -> (r: Vec<
    MacroCard,
>)
    requires
        triggers.wf(),
        forall|i: int|
            0 <= i < files@.len() ==> 2 * (#[trigger] files@[i]).source@.len() <= i32::MAX,
    ensures
        r@.len() == files@.len(),
        forall|i: int|
            0 <= i < r@.len() ==> card_shows(
                #[trigger] r@[i],
                files@[i],
                labels_in(triggers@, files@[i].id@),
            ),
{
    let mut out: Vec<MacroCard> = Vec::new();
    let mut i: usize = 0;
    while i < files.len()
        invariant
            i <= files@.len(),
            out@.len() == i,
            triggers.wf(),
            forall|j: int|
                0 <= j < files@.len() ==> 2 * (#[trigger] files@[j]).source@.len() <= i32::MAX,
            forall|j: int|
                0 <= j < i ==> card_shows(
                    #[trigger] out@[j],
                    files@[j],
                    labels_in(triggers@, files@[j].id@),
                ),
        decreases files@.len() - i,
    {
        let f = &files[i];
        let (summary, steps): (String, i32) = match &f.parsed {
            Some((s, n)) => (s.clone(), *n),
            None => ("couldn't read steps (syntax error?)".to_owned(), 0),
        };
        let trigger: String = match triggers.get(f.id.as_str()) {
            Some(ts) => if ts.len() > 0 {
                join(ts, "  ·  ")
            } else {
                "(unbound)".to_owned()
            },
            None => "(unbound)".to_owned(),
        };
        out.push(
            MacroCard {
                name: f.id.clone(),
                summary,
                steps,
                options: option_count_from_source(f.source.as_str()),
                trigger,
            },
        );
        i = i + 1;
    }
    out
}

/// What a request to rebuild the catalog does.
#[derive(Clone, Copy, Debug, PartialEq, Eq, Structural)]
pub enum CatalogStep {
    /// There is nothing to show.
    Empty,
    /// A rebuild is running, and reads what is on disk now.
    Running,
    Build,
}

/// What a request to rebuild the catalog does; one rebuild runs at a time.
pub fn catalog_request(files: usize, building: &mut bool) -> (r: CatalogStep)
    ensures
        r == if files == 0 {
            CatalogStep::Empty
        } else if *old(building) {
            CatalogStep::Running
        } else {
            CatalogStep::Build
        },
        *final(building) == (*old(building) || r == CatalogStep::Build),
{
    if files == 0 {
        return CatalogStep::Empty;
    }
    if *building {
        return CatalogStep::Running;
    }
    *building = true;
    CatalogStep::Build
}

// ── the editor ──────────────────────────────────────────────────────────────────────────────────

/// What a syntax check found: a line for each function, and what is said.
pub struct CheckReport {
    pub lines: Vec<String>,
    pub status: String,
}

/// The lines of a report.
pub open spec fn def_lines(defs: Seq<Seq<char>>) -> Seq<Seq<char>> {
    Seq::new(defs.len(), |i: int| "def "@ + defs[i])
}

/// The macro can be entered.
pub open spec fn has_entry(defs: Seq<Seq<char>>) -> bool {
    defs.contains("macro"@) || defs.contains("main"@)
}

/// What a syntax check found.
pub open spec fn check_shows(c: CheckReport, result: Result<Vec<String>, String>) -> bool {
    match result {
        Ok(defs) => texts(c.lines@) == def_lines(texts(defs@)) && c.status@ == (if has_entry(
            texts(defs@),
        ) {
            "syntax ok — has a macro(ctx) entry. Save to register, Test to run."@
        } else {
            "syntax ok — but no `def macro(ctx):` entry point yet"@
        }),
        Err(e) => c.lines@.len() == 0 && c.status@ == "syntax error: "@ + line_one(e@),
    }
}

/// What a syntax check found.
pub fn macro_check(result: &Result<Vec<String>, String>) -> (r: CheckReport)
    ensures
        check_shows(r, *result),
{
    match result {
        Ok(defs) => {
            let mut lines: Vec<String> = Vec::new();
            let ghost all = texts(defs@);
            let mut i: usize = 0;
            while i < defs.len()
                invariant
                    i <= defs@.len(),
                    all == texts(defs@),
                    lines@.len() == i,
                    forall|j: int| 0 <= j < i ==> (#[trigger] lines@[j])@ == "def "@ + all[j],
                decreases defs@.len() - i,
            {
                let mut s = "def ".to_owned();
                s.append(defs[i].as_str());
                lines.push(s);
                i = i + 1;
            }
            proof {
                assert(texts(lines@) =~= def_lines(all));
            }
            let status: String = if list_has(defs, "macro") || list_has(defs, "main") {
                "syntax ok — has a macro(ctx) entry. Save to register, Test to run.".to_owned()
            } else {
                "syntax ok — but no `def macro(ctx):` entry point yet".to_owned()
            };
            CheckReport { lines, status }
        },
        Err(e) => {
            let mut status = "syntax error: ".to_owned();
            status.append(first_line(e.as_str()).as_str());
            CheckReport { lines: Vec::new(), status }
        },
    }
}

/// What a change of the source does to the canvas.
#[derive(Clone, Copy, Debug, PartialEq, Eq, Structural)]
pub enum BlocksStep {
    /// The tree is emptied, and only the invitation to add is shown.
    Clear,
    /// A parse is running.
    Wait,
    Parse,
}

/// What a change of the source does to the canvas: a blank source has no steps and no error, and one
/// parse runs at a time.
pub fn refresh_macro_blocks(source: &str, parsing: bool) -> (r: BlocksStep)
    ensures
        r == if trimmed(source@).len() == 0 {
            BlocksStep::Clear
        } else if parsing {
            BlocksStep::Wait
        } else {
            BlocksStep::Parse
        },
{
    if is_blank(trim(source).as_str()) {
        return BlocksStep::Clear;
    }
    if parsing {
        BlocksStep::Wait
    } else {
        BlocksStep::Parse
    }
}

/// Why a source could not be parsed.
pub enum ParseError {
    Syntax { line: u32, msg: String },
    Host { msg: String },
}

/// What is shown above the blocks, which stay as they were.
pub open spec fn parse_error_shown(e: ParseError) -> Seq<char> {
    match e {
        ParseError::Syntax { line, msg } => "line "@ + decimal(line as nat) + ": "@ + line_one(msg@),
        ParseError::Host { msg } => "couldn't read the blocks: "@ + line_one(msg@),
    }
}

/// What is shown above the blocks.
pub fn parse_error_text(e: &ParseError) -> (r: String)
    ensures
        r@ == parse_error_shown(*e),
{
    match e {
        ParseError::Syntax { line, msg } => {
            let mut s = "line ".to_owned();
            s.append(show_u64(*line as u64).as_str());
            s.append(": ");
            s.append(first_line(msg.as_str()).as_str());
            s
        },
        ParseError::Host { msg } => {
            let mut s = "couldn't read the blocks: ".to_owned();
            s.append(first_line(msg.as_str()).as_str());
            s
        },
    }
}

fn is_blank(s: &str) -> (r: bool)
    ensures
        r == (s@.len() == 0),
{
    proof {
        reveal_strlit("");
        if s@.len() == 0 {
            assert(s@ =~= ""@);
        }
    }
    same_text(s, "")
}

/// A macro's name, or another where it is blank.
pub open spec fn name_or(name: Seq<char>, other: Seq<char>) -> Seq<char> {
    if trimmed(name).len() == 0 {
        other
    } else {
        trimmed(name)
    }
}

fn name_or_else(name: &str, other: &str) -> (r: String)
    ensures
        r@ == name_or(name@, other@),
{
    let n = trim(name);
    if is_blank(n.as_str()) {
        other.to_owned()
    } else {
        n
    }
}

/// What saving a macro starts with.
pub enum SaveStep {
    /// Nothing is registered; what is said, if anything.
    Refused(Option<&'static str>),
    /// The name to register under, and what is said meanwhile.
    Register { name: String, status: String },
}

/// What saving a macro starts with: it needs a name, and nothing else may be running.
pub fn macro_save(name: &str, busy: bool) -> (r: SaveStep)
    ensures
        match r {
            SaveStep::Refused(Some(s)) => trimmed(name@).len() == 0 && s@ == "name the macro first"@,
            SaveStep::Refused(None) => trimmed(name@).len() > 0 && busy,
            SaveStep::Register { name: n, status } => trimmed(name@).len() > 0 && !busy && n@
                == trimmed(name@) && status@ == "registering '"@ + n@ + "'…"@,
        },
{
    let n = trim(name);
    if is_blank(n.as_str()) {
        return SaveStep::Refused(Some("name the macro first"));
    }
    if busy {
        return SaveStep::Refused(None);
    }
    let mut status = "registering '".to_owned();
    status.append(n.as_str());
    status.append("'…");
    SaveStep::Register { name: n, status }
}

/// What is said once a macro was registered.
pub fn macro_saved(name: &str, error: &Option<String>) -> (r: String)
    ensures
        r@ == match *error {
            None => "saved + registered '"@ + name@ + "' — bind it as a python macro"@,
            Some(e) => "save failed: "@ + line_one(e@),
        },
{
    match error {
        None => {
            let mut s = "saved + registered '".to_owned();
            s.append(name);
            s.append("' — bind it as a python macro");
            s
        },
        Some(e) => {
            let mut s = "save failed: ".to_owned();
            s.append(first_line(e.as_str()).as_str());
            s
        },
    }
}

/// The name that a test run registers under.
pub fn macro_test_name(name: &str) -> (r: String)
    ensures
        r@ == name_or(name@, "__test__"@),
{
    name_or_else(name, "__test__")
}

/// What is said where a test run could not be registered.
pub fn register_failed(error: &str) -> (r: String)
    ensures
        r@ == "register failed: "@ + line_one(error@),
{
    let mut s = "register failed: ".to_owned();
    s.append(first_line(error).as_str());
    s
}

// ── mock fires ──────────────────────────────────────────────────────────────────────────────────

/// What a request to try a macro's questions does.
pub enum BeaconTest {
    /// Nothing, and nothing is said.
    Nothing,
    /// Nothing is fired; what is said.
    Refused(&'static str),
    /// The macro to fire, and what is said meanwhile.
    Fire { id: String, status: String },
}

/// The one test that can wait for an answer.
pub struct BeaconGate {
    /// Whether a test waits.
    pub waiting: bool,
}

impl BeaconGate {
    /// Tries the questions of a saved macro.
    pub fn test_beacon(&mut self, id: &str) -> (r: BeaconTest)
        ensures
            match r {
                BeaconTest::Nothing => trimmed(id@).len() == 0
                    && final(self).waiting == old(self).waiting,
                BeaconTest::Refused(s) => trimmed(id@).len() > 0 && old(self).waiting
                    && final(self).waiting && s@ == "a test beacon is already waiting — answer it before testing another"@,
                BeaconTest::Fire { id: n, status } => trimmed(id@).len() > 0 && !old(self).waiting
                    && final(self).waiting && n@ == trimmed(id@) && status@ == "mock-firing '"@ + n@
                    + "' — its beacon will appear; answer it (nothing real runs)"@,
            },
    {
        let n = trim(id);
        if is_blank(n.as_str()) {
            return BeaconTest::Nothing;
        }
        if self.waiting {
            return BeaconTest::Refused(
                "a test beacon is already waiting — answer it before testing another",
            );
        }
        self.waiting = true;
        let mut status = "mock-firing '".to_owned();
        status.append(n.as_str());
        status.append("' — its beacon will appear; answer it (nothing real runs)");
        BeaconTest::Fire { id: n, status }
    }

    /// Tries the questions of the source in the editor, which must have one; a macro without a name
    /// is a draft.
    pub fn test_asks(&mut self, name: &str, source: &str) -> (r: BeaconTest)
        ensures
            match r {
                BeaconTest::Nothing => false,
                BeaconTest::Refused(s) => final(self).waiting == old(self).waiting && (if !has_text(
                    source@,
                    "neuron.ask"@,
                ) {
                    s@ == "add a neuron.ask(\"…\") (the 'ask' chip), then Test asks previews its beacon"@
                } else {
                    old(self).waiting && s@
                        == "a test beacon is already waiting — answer it before testing another"@
                }),
                BeaconTest::Fire { id, status } => has_text(source@, "neuron.ask"@)
                    && !old(self).waiting && final(self).waiting && id@ == name_or(name@, "draft"@)
                    && status@
                    == "previewing your asks — answer the beacon at your cursor (nothing real runs)"@,
            },
    {
        if !contains_text(source, "neuron.ask") {
            return BeaconTest::Refused(
                "add a neuron.ask(\"…\") (the 'ask' chip), then Test asks previews its beacon",
            );
        }
        let id = name_or_else(name, "draft");
        if self.waiting {
            return BeaconTest::Refused(
                "a test beacon is already waiting — answer it before testing another",
            );
        }
        self.waiting = true;
        BeaconTest::Fire {
            id,
            status: "previewing your asks — answer the beacon at your cursor (nothing real runs)".to_owned(),
        }
    }

    /// The fire was answered with `result`: one that was not dispatched raises no question, so the
    /// next test is let through. What is said, behind `what`.
    pub fn fired(&mut self, what: &str, result: &str) -> (r: String)
        ensures
            final(self).waiting == (old(self).waiting && has_text(result@, "dispatched"@)),
            r@ == what@ + " · "@ + result@,
    {
        if !contains_text(result, "dispatched") {
            self.waiting = false;
        }
        let mut s = what.to_owned();
        s.append(" · ");
        s.append(result);
        s
    }

    /// The question was answered.
    pub fn answered(&mut self)
        ensures
            !final(self).waiting,
    {
        self.waiting = false;
    }
}

/// What a request to delete a macro names, if anything.
pub fn delete_macro_id(id: &str) -> (r: Option<String>)
    ensures
        match r {
            Some(n) => trimmed(id@).len() > 0 && n@ == trimmed(id@),
            None => trimmed(id@).len() == 0,
        },
{
    let n = trim(id);
    if is_blank(n.as_str()) {
        None
    } else {
        Some(n)
    }
}

/// What is said once a macro was deleted.
pub fn macro_deleted(id: &str, error: &Option<String>) -> (r: String)
    ensures
        r@ == match *error {
            None => "deleted macro "@ + id@,
            Some(e) => "delete failed: "@ + e@,
        },
{
    match error {
        None => {
            let mut s = "deleted macro ".to_owned();
            s.append(id);
            s
        },
        Some(e) => {
            let mut s = "delete failed: ".to_owned();
            s.append(e.as_str());
            s
        },
    }
}

/// What is said once a macro was put in the editor.
pub fn macro_loaded(id: &str) -> (r: String)
    ensures
        r@ == "loaded '"@ + id@ + "' — edit it, then save"@,
{
    let mut s = "loaded '".to_owned();
    s.append(id);
    s.append("' — edit it, then save");
    s
}

/// The open macro that a reload reads again: one that has a name and is on disk.
pub fn reopened_macro(name: &str, on_disk: bool) -> (r: Option<String>)
    ensures
        match r {
            Some(id) => on_disk && trimmed(name@).len() > 0 && id@ == trimmed(name@),
            None => !on_disk || trimmed(name@).len() == 0,
        },
{
    let id = trim(name);
    if on_disk && !is_blank(id.as_str()) {
        Some(id)
    } else {
        None
    }
}

/// What is said once the macros were read anew.
pub fn macros_reloaded(count: usize) -> (r: String)
    ensures
        r@ == "reloaded "@ + decimal(count as nat) + " macro(s) from disk"@,
{
    let mut s = "reloaded ".to_owned();
    s.append(show_u64(count as u64).as_str());
    s.append(" macro(s) from disk");
    s
}

// ── the test bench ──────────────────────────────────────────────────────────────────────────────

/// How many of the first `k` probes ended in a state.
pub open spec fn in_state(states: Seq<Seq<char>>, state: Seq<char>, k: nat) -> nat
    decreases k,
{
    if k == 0 || k > states.len() {
        0
    } else {
        in_state(states, state, (k - 1) as nat) + if states[k - 1] == state {
            1nat
        } else {
            0
        }
    }
}

fn count_state(states: &Vec<String>, state: &str) -> (r: usize)
    ensures
        r == in_state(texts(states@), state@, states@.len()),
        r <= states@.len(),
{
    let mut n: usize = 0;
    let mut i: usize = 0;
    while i < states.len()
        invariant
            i <= states@.len(),
            n <= i,
            n == in_state(texts(states@), state@, i as nat),
        decreases states@.len() - i,
    {
        if same_text(states[i].as_str(), state) {
            n = n + 1;
        }
        i = i + 1;
    }
    n
}

/// What a run of the bench shows.
pub struct BenchSummary {
    pub pass: usize,
    pub fail: usize,
    pub skip: usize,
    pub summary: String,
}

/// Counts the probes that passed, failed and were skipped.
pub fn run_diagnostics(states: &Vec<String>) -> (r: BenchSummary)
    ensures
        r.pass == in_state(texts(states@), "pass"@, states@.len()),
        r.fail == in_state(texts(states@), "fail"@, states@.len()),
        r.skip == in_state(texts(states@), "skip"@, states@.len()),
        r.summary@ == decimal(r.pass as nat) + " passed · "@ + decimal(r.fail as nat) + " failed · "@
            + decimal(r.skip as nat) + " skipped"@,
{
    let pass: usize = count_state(states, "pass");
    let fail: usize = count_state(states, "fail");
    let skip: usize = count_state(states, "skip");
    let mut s = show_u64(pass as u64);
    s.append(" passed · ");
    s.append(show_u64(fail as u64).as_str());
    s.append(" failed · ");
    s.append(show_u64(skip as u64).as_str());
    s.append(" skipped");
    BenchSummary { pass, fail, skip, summary: s }
}

/// The test bench as it is shown.
pub struct Bench {
    pub running: bool,
    pub pass: usize,
    pub fail: usize,
    pub skip: usize,
    pub summary: String,
}

impl Bench {
    /// Nothing was probed yet.
    pub fn new() -> (r: Self)
        ensures
            !r.running,
            r.pass == 0,
            r.fail == 0,
            r.skip == 0,
            r.summary@ == "9 stations idle — run to fire every capability live"@,
    {
        Bench {
            running: false,
            pass: 0,
            fail: 0,
            skip: 0,
            summary: "9 stations idle — run to fire every capability live".to_owned(),
        }
    }

    /// A run is asked for; whether it starts. One run at a time: while one goes on, nothing changes.
    pub fn begin(&mut self) -> (starts: bool)
        ensures
            starts == !old(self).running,
            !starts ==> *final(self) == *old(self),
            starts ==> final(self).running && final(self).summary@ == "probing…"@,
            final(self).pass == old(self).pass,
            final(self).fail == old(self).fail,
            final(self).skip == old(self).skip,
    {
        if self.running {
            return false;
        }
        self.running = true;
        self.summary = "probing…".to_owned();
        true
    }

    /// The run is over: its probes ended in these states.
    pub fn ended(&mut self, states: &Vec<String>)
        ensures
            !final(self).running,
            final(self).pass == in_state(texts(states@), "pass"@, states@.len()),
            final(self).fail == in_state(texts(states@), "fail"@, states@.len()),
            final(self).skip == in_state(texts(states@), "skip"@, states@.len()),
            final(self).summary@ == decimal(final(self).pass as nat) + " passed · "@ + decimal(
                final(self).fail as nat,
            ) + " failed · "@ + decimal(final(self).skip as nat) + " skipped"@,
    {
        let b = run_diagnostics(states);
        self.pass = b.pass;
        self.fail = b.fail;
        self.skip = b.skip;
        self.summary = b.summary;
        self.running = false;
    }
}

// ── laws ────────────────────────────────────────────────────────────────────────────────────────

/// A trigger is named once on a card, however often its binding runs the macro.
pub proof fn law_trigger_named_once(rules: Seq<Rule>, id: Seq<char>, k: nat)
    ensures
        forall|i: int, j: int|
            0 <= i < j < triggers_of(rules, id, k).len() ==> #[trigger] triggers_of(rules, id, k)[i]
                != #[trigger] triggers_of(rules, id, k)[j],
    decreases k,
{
    if 0 < k <= rules.len() {
        law_trigger_named_once(rules, id, (k - 1) as nat);
        let before = triggers_of(rules, id, (k - 1) as nat);
        let label = rules[k - 1].trigger@;
        let all = triggers_of(rules, id, k);
        assert forall|i: int, j: int| 0 <= i < j < all.len() implies #[trigger] all[i]
            != #[trigger] all[j] by {
            if j < before.len() {
                assert(before[i] != before[j]);
            } else {
                assert(before.contains(before[i]));
            }
        }
    }
}

/// A macro is shown as unbound exactly where no binding runs it.
pub proof fn law_unbound_means_nothing_fires(rules: Seq<Rule>, id: Seq<char>, k: nat)
    requires
        k <= rules.len(),
    ensures
        triggers_of(rules, id, k).len() == 0 <==> forall|i: int|
            0 <= i < k ==> !macro_ids((#[trigger] rules[i]).action).contains(id),
    decreases k,
{
    if k > 0 {
        law_unbound_means_nothing_fires(rules, id, (k - 1) as nat);
        let before = triggers_of(rules, id, (k - 1) as nat);
        if macro_ids(rules[k - 1].action).contains(id) {
            assert(with_label(before, rules[k - 1].trigger@).len() > 0);
        }
    }
}

} // verus!
