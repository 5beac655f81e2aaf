//! The lists of bindings: which rows are authored here and can be edited, what a row leads to, and
//! the one editor that owns the action picker.

use vstd::prelude::*;

use crate::text::{decimal, decimal_int, same_text, show_i64, show_u64};

verus! {

// ── rows ────────────────────────────────────────────────────────────────────────────────────────

/// What sets a binding off.
#[derive(Clone, Copy, Debug, PartialEq, Eq, Structural)]
pub enum TriggerKind {
    Input,
    Gesture,
    RadialSector,
    AppFocus,
    MicTap,
    Hold,
    Cast,
}

/// The short mark of a trigger.
pub open spec fn trigger_mark(t: TriggerKind) -> Seq<char> {
    match t {
        TriggerKind::Input => "input"@,
        TriggerKind::Gesture => "gesture"@,
        TriggerKind::RadialSector => "radial"@,
        TriggerKind::AppFocus => "app"@,
        TriggerKind::MicTap => "mic"@,
        TriggerKind::Hold => "hold"@,
        TriggerKind::Cast => "cast"@,
    }
}

/// The short mark of a trigger.
pub fn trigger_kind_str(t: TriggerKind) -> (r: &'static str)
    ensures
        r@ == trigger_mark(t),
{
    match t {
        TriggerKind::Input => "input",
        TriggerKind::Gesture => "gesture",
        TriggerKind::RadialSector => "radial",
        TriggerKind::AppFocus => "app",
        TriggerKind::MicTap => "mic",
        TriggerKind::Hold => "hold",
        TriggerKind::Cast => "cast",
    }
}

/// A binding that comes from a file the user writes by hand, in words.
pub struct RuleView {
    pub trigger: String,
    pub action: String,
    pub layer: String,
    pub kind: String,
}

/// A binding that was authored here, with its trigger and its action in words.
pub struct GuiRule {
    pub trigger: String,
    pub action: String,
    /// Whether the action does nothing.
    pub noop: bool,
    pub layer: Option<String>,
    pub kind: TriggerKind,
}

/// A row of a list of bindings.
pub struct RuleRow {
    pub trigger: String,
    pub action: String,
    pub layer: String,
    pub kind: String,
    /// Whether it was authored here.
    pub removable: bool,
}

/// The two lists, how many rows at the end of each were authored here, and the key that is held to
/// reach the second layer.
pub struct RuleLists {
    pub base: Vec<RuleRow>,
    pub hyper: Vec<RuleRow>,
    pub editable_base: i32,
    pub editable_hyper: i32,
    pub hold_ready: bool,
    pub hold_label: String,
}

/// The binding only makes a key the one that is held to reach the second layer.
pub open spec fn is_hold(g: GuiRule) -> bool {
    g.noop && (g.layer matches Some(l) && l@ == "hypershift"@)
}

/// The binding is listed on this layer.
pub open spec fn in_tier(g: GuiRule, hyper: bool) -> bool {
    !is_hold(g) && (g.layer is Some) == hyper
}

/// The authored bindings among the first `k` that are listed on a layer, by index.
pub open spec fn tier(gui: Seq<GuiRule>, hyper: bool, k: nat) -> Seq<int>
    decreases k,
{
    if k == 0 || k > gui.len() {
        Seq::empty()
    } else {
        let before = tier(gui, hyper, (k - 1) as nat);
        if in_tier(gui[k - 1], hyper) {
            before.push(k - 1)
        } else {
            before
        }
    }
}

/// The hold key among the first `k` bindings: the last one counts.
pub open spec fn hold_key(gui: Seq<GuiRule>, k: nat) -> Option<Seq<char>>
    decreases k,
{
    if k == 0 || k > gui.len() {
        None
    } else if is_hold(gui[k - 1]) {
        Some(gui[k - 1].trigger@)
    } else {
        hold_key(gui, (k - 1) as nat)
    }
}

/// A row shows a binding from a file.
pub open spec fn shows_view(row: RuleRow, v: RuleView) -> bool {
    &&& row.trigger@ == v.trigger@
    &&& row.action@ == v.action@
    &&& row.layer@ == v.layer@
    &&& row.kind@ == v.kind@
    &&& !row.removable
}

/// A row shows an authored binding.
pub open spec fn shows_rule(row: RuleRow, g: GuiRule) -> bool {
    &&& row.trigger@ == g.trigger@
    &&& row.action@ == g.action@
    &&& row.layer@ == (if g.layer is Some {
        "hypershift"@
    } else {
        "base"@
    })
    &&& row.kind@ == trigger_mark(g.kind)
    &&& row.removable
}

/// A list shows first the bindings from files, then the authored ones of its layer.
pub open spec fn list_shows(
    rows: Seq<RuleRow>,
    views: Seq<RuleView>,
    gui: Seq<GuiRule>,
    hyper: bool,
    k: nat,
) -> bool {
    let own = tier(gui, hyper, k);
    &&& rows.len() == views.len() + own.len()
    &&& forall|i: int| 0 <= i < views.len() ==> shows_view(#[trigger] rows[i], views[i])
    &&& forall|i: int|
        0 <= i < own.len() ==> shows_rule(#[trigger] rows[views.len() + i], gui[own[i]])
}

proof fn lemma_tier_bounds(gui: Seq<GuiRule>, hyper: bool, k: nat)
    ensures
        tier(gui, hyper, k).len() <= k,
        forall|i: int|
            0 <= i < tier(gui, hyper, k).len() ==> 0 <= #[trigger] tier(gui, hyper, k)[i] < k
                && k <= gui.len() && in_tier(gui[tier(gui, hyper, k)[i]], hyper),
    decreases k,
{
    if 0 < k <= gui.len() {
        lemma_tier_bounds(gui, hyper, (k - 1) as nat);
    }
}

fn view_rows(views: &Vec<RuleView>) -> (r: Vec<RuleRow>)
    ensures
        r@.len() == views@.len(),
        forall|i: int| 0 <= i < r@.len() ==> shows_view(#[trigger] r@[i], views@[i]),
{
    let mut out: Vec<RuleRow> = Vec::new();
    let mut i: usize = 0;
    while i < views.len()
        invariant
            i <= views@.len(),
            out@.len() == i,
            forall|j: int| 0 <= j < i ==> shows_view(#[trigger] out@[j], views@[j]),
        decreases views@.len() - i,
    {
        let v = &views[i];
        out.push(
            RuleRow {
                trigger: v.trigger.clone(),
                action: v.action.clone(),
                layer: v.layer.clone(),
                kind: v.kind.clone(),
                removable: false,
            },
        );
        i = i + 1;
    }
    out
}

fn holds_layer(g: &GuiRule) -> (r: bool)
    ensures
        r == is_hold(*g),
{
    match &g.layer {
        Some(l) => g.noop && same_text(l.as_str(), "hypershift"),
        None => false,
    }
}

fn rule_row(g: &GuiRule) -> (r: RuleRow)
    ensures
        shows_rule(r, *g),
{
    let layer: String = if g.layer.is_some() {
        "hypershift".to_owned()
    } else {
        "base".to_owned()
    };
    RuleRow {
        trigger: g.trigger.clone(),
        action: g.action.clone(),
        layer,
        kind: trigger_kind_str(g.kind).to_owned(),
        removable: true,
    }
}

/// The two lists of bindings: what comes from files first, then what was authored here, in order. The
/// hold key is shown on its own, never as a binding.
pub fn refresh_rules(base: &Vec<RuleView>, hyper: &Vec<RuleView>, gui: &Vec<GuiRule>) -> (r:
    RuleLists)
    requires
        gui@.len() <= i32::MAX,
    ensures
        list_shows(r.base@, base@, gui@, false, gui@.len()),
        list_shows(r.hyper@, hyper@, gui@, true, gui@.len()),
        r.editable_base == tier(gui@, false, gui@.len()).len(),
        r.editable_hyper == tier(gui@, true, gui@.len()).len(),
        match hold_key(gui@, gui@.len()) {
            Some(t) => r.hold_ready && r.hold_label@ == t,
            None => !r.hold_ready && r.hold_label@ == "—"@,
        },
{
    let mut base_rows = view_rows(base);
    let mut hyper_rows = view_rows(hyper);
    let mut editable_base: i32 = 0;
    let mut editable_hyper: i32 = 0;
    let mut hold: Option<String> = None;
    let mut i: usize = 0;
    while i < gui.len()
        invariant
            i <= gui@.len() <= i32::MAX,
            list_shows(base_rows@, base@, gui@, false, i as nat),
            list_shows(hyper_rows@, hyper@, gui@, true, i as nat),
            editable_base == tier(gui@, false, i as nat).len(),
            editable_hyper == tier(gui@, true, i as nat).len(),
            match hold {
                Some(t) => hold_key(gui@, i as nat) == Some(t@),
                None => hold_key(gui@, i as nat) is None,
            },
        decreases gui@.len() - i,
    {
        let g = &gui[i];
        let ghost base_before = base_rows@;
        let ghost hyper_before = hyper_rows@;
        proof {
            lemma_tier_bounds(gui@, false, i as nat);
            lemma_tier_bounds(gui@, true, i as nat);
        }
        if holds_layer(g) {
            hold = Some(g.trigger.clone());
        } else if g.layer.is_some() {
            hyper_rows.push(rule_row(g));
            editable_hyper = editable_hyper + 1;
            proof {
                let own = tier(gui@, true, i as nat);
                assert forall|j: int| 0 <= j < own.len() implies shows_rule(
                    #[trigger] hyper_rows@[hyper@.len() + j],
                    gui@[own[j]],
                ) by {
                    assert(hyper_rows@[hyper@.len() + j] == hyper_before[hyper@.len() + j]);
                }
            }
        } else {
            base_rows.push(rule_row(g));
            editable_base = editable_base + 1;
            proof {
                let own = tier(gui@, false, i as nat);
                assert forall|j: int| 0 <= j < own.len() implies shows_rule(
                    #[trigger] base_rows@[base@.len() + j],
                    gui@[own[j]],
                ) by {
                    assert(base_rows@[base@.len() + j] == base_before[base@.len() + j]);
                }
            }
        }
        i = i + 1;
    }
    let hold_ready = hold.is_some();
    let hold_label: String = match hold {
        Some(t) => t,
        None => "—".to_owned(),
    };
    RuleLists {
        base: base_rows,
        hyper: hyper_rows,
        editable_base,
        editable_hyper,
        hold_ready,
        hold_label,
    }
}

// ── from a row to a binding ─────────────────────────────────────────────────────────────────────

/// What a row of a list leads to: the n-th authored binding of its layer, or nothing where the
/// binding comes from a file. On the second layer every row was authored here.
pub open spec fn row_target(row: int, hyper: bool, total: int, editable: int) -> Option<int> {
    if hyper {
        Some(
            if row < 0 {
                0
            } else {
                row
            },
        )
    } else if row < total - editable {
        None
    } else {
        Some(row - (total - editable))
    }
}

/// What a row of a list leads to.
pub fn tier_index(row: i32, hyper: bool, total: i32, editable: i32) -> (r: Option<usize>)
    requires
        0 <= editable <= total,
    ensures
        match r {
            Some(n) => row_target(row as int, hyper, total as int, editable as int) == Some(
                n as int,
            ),
            None => row_target(row as int, hyper, total as int, editable as int) is None,
        },
{
    if hyper {
        return Some(
            if row < 0 {
                0
            } else {
                row as usize
            },
        );
    }
    let first: i32 = total - editable;
    if row < first {
        None
    } else {
        Some((row - first) as usize)
    }
}

/// The authored binding that an open editor writes to; a row that left its list counts as the first.
pub fn edited_index(row: i32, hyper: bool, total: i32, editable: i32) -> (r: usize)
    requires
        0 <= editable <= total,
    ensures
        r == match row_target(row as int, hyper, total as int, editable as int) {
            Some(n) => n,
            None => 0,
        },
{
    match tier_index(row, hyper, total, editable) {
        Some(n) => n,
        None => 0,
    }
}

/// What is said of a row that cannot be removed.
pub fn remove_refused() -> (r: &'static str)
    ensures
        r@ == "that rule comes from bindings.toml / cast.toml — edit there to change it"@,
{
    "that rule comes from bindings.toml / cast.toml — edit there to change it"
}

/// Why a row is not opened for editing.
pub fn begin_edit_refused(target: Option<usize>, found: bool) -> (r: Option<&'static str>)
    ensures
        match r {
            Some(s) => (target is None || !found) && s@ == (if target is None {
                "that rule comes from bindings.toml / cast.toml — edit it there"@
            } else {
                "couldn't find that binding to edit"@
            }),
            None => target is Some && found,
        },
{
    if target.is_none() {
        Some("that rule comes from bindings.toml / cast.toml — edit it there")
    } else if !found {
        Some("couldn't find that binding to edit")
    } else {
        None
    }
}

/// The trigger that an edit writes: the one that was captured anew, else the one the binding has; none
/// where the binding is gone.
pub fn edited_trigger<T>(captured: Option<T>, existing: Option<T>) -> (r: Option<T>)
    ensures
        r == if captured is Some {
            captured
        } else {
            existing
        },
{
    match captured {
        Some(t) => Some(t),
        None => existing,
    }
}

/// How adding a binding went.
#[derive(Clone, Copy, Debug, PartialEq, Eq, Structural)]
pub enum AddOutcome {
    /// So many authored bindings there are now.
    Added(usize),
    Replaced,
}

/// Why a binding is not added: no trigger was captured, or the chosen action is not complete.
pub fn add_binding_refused(captured: bool, invalid: &Option<String>) -> (r: Option<String>)
    ensures
        match r {
            Some(s) => if !captured {
                s@ == "press-to-bind a trigger first"@
            } else {
                invalid matches Some(e) && s@ == e@
            },
            None => captured && invalid is None,
        },
{
    if !captured {
        return Some("press-to-bind a trigger first".to_owned());
    }
    match invalid {
        Some(e) => Some(e.clone()),
        None => None,
    }
}

/// What committing an open editor does.
pub enum CommitStep {
    /// No editor is open.
    Nothing,
    /// The chosen action is not complete, for this reason.
    Refused(String),
    /// The action is written.
    Write,
}

/// What committing an editor does: nothing where none is open, and never an action that is not
/// complete.
pub fn commit_step(open: bool, invalid: &Option<String>) -> (r: CommitStep)
    ensures
        match r {
            CommitStep::Nothing => !open,
            CommitStep::Refused(s) => open && (*invalid matches Some(e) && s@ == e@),
            CommitStep::Write => open && *invalid is None,
        },
{
    if !open {
        return CommitStep::Nothing;
    }
    match invalid {
        Some(e) => CommitStep::Refused(e.clone()),
        None => CommitStep::Write,
    }
}

/// What is said once the bindings were read again.
pub fn bindings_reloaded(rules: usize) -> (r: String)
    ensures
        r@ == "bindings reloaded ("@ + decimal(rules as nat) + " spine rules)"@,
{
    let mut s = "bindings reloaded (".to_owned();
    s.append(show_u64(rules as u64).as_str());
    s.append(" spine rules)");
    s
}

/// What is said once a binding was added.
pub open spec fn added_text(outcome: Result<AddOutcome, String>) -> Seq<char> {
    match outcome {
        Ok(AddOutcome::Added(n)) => "binding added ("@ + decimal(n as nat)
            + " GUI rule(s)) — live now: press it and watch the lamp"@,
        Ok(AddOutcome::Replaced) => "re-bound — the old action was replaced"@,
        Err(e) => "add failed: "@ + e@,
    }
}

/// What is said once a binding was added.
pub fn binding_added(outcome: &Result<AddOutcome, String>) -> (r: String)
    ensures
        r@ == added_text(*outcome),
{
    match outcome {
        Ok(AddOutcome::Added(n)) => {
            let mut s = "binding added (".to_owned();
            s.append(show_u64(*n as u64).as_str());
            s.append(" GUI rule(s)) — live now: press it and watch the lamp");
            s
        },
        Ok(AddOutcome::Replaced) => "re-bound — the old action was replaced".to_owned(),
        Err(e) => {
            let mut s = "add failed: ".to_owned();
            s.append(e.as_str());
            s
        },
    }
}

/// What is said once something was written: the words for success, or for failure with the reason.
pub fn saved_text(ok: &str, failed: &str, error: &Option<String>) -> (r: String)
    ensures
        r@ == match *error {
            None => ok@,
            Some(e) => failed@ + e@,
        },
{
    match error {
        None => ok.to_owned(),
        Some(e) => {
            let mut s = failed.to_owned();
            s.append(e.as_str());
            s
        },
    }
}

// ── the trigger end of the editor ───────────────────────────────────────────────────────────────

/// The trigger that the next binding gets.
pub struct BindTrigger<C> {
    pub captured: Option<C>,
    pub label: String,
    pub ready: bool,
}

impl<C> BindTrigger<C> {
    /// Nothing is captured, and nothing is shown.
    pub open spec fn is_clear(self) -> bool {
        self.captured is None && self.label@ == "—"@ && !self.ready
    }

    /// Nothing captured.
    pub fn new() -> (r: Self)
        ensures
            r.is_clear(),
    {
        BindTrigger { captured: None, label: "—".to_owned(), ready: false }
    }

    /// A control was pressed, or the capture was cancelled, which leaves what there was. What the
    /// status line says.
    pub fn captured(&mut self, control: Option<(C, String)>) -> (r: &'static str)
        ensures
            match control {
                Some((c, label)) => final(self).captured == Some(c) && final(self).label@ == label@
                    && final(self).ready && r@ == "control captured — pick an action, then Add"@,
                None => *final(self) == *old(self) && r@ == "capture cancelled"@,
            },
    {
        match control {
            Some((c, label)) => {
                self.captured = Some(c);
                self.label = label;
                self.ready = true;
                "control captured — pick an action, then Add"
            },
            None => "capture cancelled",
        }
    }

    /// Opens on the trigger of an existing binding: a control can be captured anew, anything else is
    /// only shown.
    pub fn seed(&mut self, control: Option<C>, label: String)
        ensures
            final(self).captured == control,
            final(self).label@ == label@,
            final(self).ready,
    {
        self.captured = control;
        self.label = label;
        self.ready = true;
    }

    /// Forgets the trigger.
    pub fn clear(&mut self)
        ensures
            final(self).is_clear(),
    {
        self.captured = None;
        self.label = "—".to_owned();
        self.ready = false;
    }
}

// ── the editor that owns the picker ─────────────────────────────────────────────────────────────

/// Which editor owns the action picker: that of a wedge, a glyph, a rhythm or a binding. A negative
/// index, or an empty name, is a closed editor.
pub struct Editors {
    pub sector: i32,
    pub glyph: String,
    pub rhythm: i32,
    pub rule: i32,
    pub rule_hyper: bool,
}

impl Editors {
    /// How many editors are open.
    pub open spec fn open_count(self) -> int {
        (if self.sector >= 0 {
            1int
        } else {
            0
        }) + (if self.glyph@.len() > 0 {
            1int
        } else {
            0
        }) + (if self.rhythm >= 0 {
            1int
        } else {
            0
        }) + (if self.rule >= 0 {
            1int
        } else {
            0
        })
    }

    /// One editor at most owns the picker.
    pub open spec fn wf(self) -> bool {
        self.open_count() <= 1
    }

    /// All closed.
    pub fn new() -> (r: Self)
        ensures
            r.open_count() == 0,
    {
        let e = Editors { sector: -1, glyph: String::new(), rhythm: -1, rule: -1, rule_hyper: false };
        proof {
            assert(e.glyph@.len() == 0);
        }
        e
    }

    /// Opens the editor of a wedge and closes the others.
    pub fn edit_sector(&mut self, i: i32)
        ensures
            final(self).wf(),
            final(self).sector == i,
            final(self).glyph@ == Seq::<char>::empty(),
            final(self).rhythm == -1,
            final(self).rule == -1,
            final(self).rule_hyper == old(self).rule_hyper,
    {
        self.glyph = String::new();
        self.rhythm = -1;
        self.rule = -1;
        self.sector = i;
    }

    /// Opens the editor of a glyph and closes the others.
    pub fn bind_gesture(&mut self, name: &str)
        ensures
            final(self).wf(),
            final(self).sector == -1,
            final(self).glyph@ == name@,
            final(self).rhythm == -1,
            final(self).rule == -1,
            final(self).rule_hyper == old(self).rule_hyper,
    {
        self.sector = -1;
        self.rhythm = -1;
        self.rule = -1;
        self.glyph = name.to_owned();
    }

    /// Opens the editor of a rhythm and closes the others.
    pub fn bind_rhythm(&mut self, taps: i32)
        ensures
            final(self).wf(),
            final(self).sector == -1,
            final(self).glyph@ == Seq::<char>::empty(),
            final(self).rhythm == taps,
            final(self).rule == -1,
            final(self).rule_hyper == old(self).rule_hyper,
    {
        self.sector = -1;
        self.glyph = String::new();
        self.rule = -1;
        self.rhythm = taps;
    }

    /// Opens the editor of a binding and closes the others.
    pub fn begin_edit_rule(&mut self, row: i32, hyper: bool)
        ensures
            final(self).wf(),
            final(self).sector == -1,
            final(self).glyph@ == Seq::<char>::empty(),
            final(self).rhythm == -1,
            final(self).rule == row,
            final(self).rule_hyper == hyper,
    {
        self.sector = -1;
        self.glyph = String::new();
        self.rhythm = -1;
        self.rule = row;
        self.rule_hyper = hyper;
    }

    /// The rows of the bindings may have moved: the editor of a binding closes, so that nothing is
    /// written to another row.
    pub fn rows_moved(&mut self)
        ensures
            final(self).rule == -1,
            final(self).sector == old(self).sector,
            final(self).glyph@ == old(self).glyph@,
            final(self).rhythm == old(self).rhythm,
            final(self).rule_hyper == old(self).rule_hyper,
            final(self).open_count() <= old(self).open_count(),
    {
        self.rule = -1;
    }

    /// The bindings were read anew: the editors of a binding and of a wedge close.
    pub fn reloaded(&mut self)
        ensures
            final(self).rule == -1,
            final(self).sector == -1,
            final(self).glyph@ == old(self).glyph@,
            final(self).rhythm == old(self).rhythm,
            final(self).rule_hyper == old(self).rule_hyper,
            final(self).open_count() <= old(self).open_count(),
    {
        self.rule = -1;
        self.sector = -1;
    }

    /// The wheel has `n` wedges: an editor of one that is gone closes.
    pub fn wedges(&mut self, n: i32)
        ensures
            final(self).sector == if old(self).sector >= n {
                -1
            } else {
                old(self).sector as int
            },
            final(self).rule == old(self).rule,
            final(self).glyph@ == old(self).glyph@,
            final(self).rhythm == old(self).rhythm,
            final(self).rule_hyper == old(self).rule_hyper,
            final(self).open_count() <= old(self).open_count(),
    {
        if self.sector >= n {
            self.sector = -1;
        }
    }

    /// A glyph was deleted: its editor closes.
    pub fn glyph_deleted(&mut self, name: &str)
        ensures
            final(self).glyph@ == if old(self).glyph@ == name@ {
                Seq::<char>::empty()
            } else {
                old(self).glyph@
            },
            final(self).sector == old(self).sector,
            final(self).rule == old(self).rule,
            final(self).rhythm == old(self).rhythm,
            final(self).rule_hyper == old(self).rule_hyper,
            final(self).open_count() <= old(self).open_count(),
    {
        if same_text(self.glyph.as_str(), name) {
            self.glyph = String::new();
        }
    }

    /// The wheel is flicked, not edited: the editor of a wedge closes.
    pub fn wheel_flicked(&mut self)
        ensures
            final(self).sector == -1,
            final(self).glyph == old(self).glyph,
            final(self).rhythm == old(self).rhythm,
            final(self).rule == old(self).rule,
            final(self).rule_hyper == old(self).rule_hyper,
            final(self).open_count() <= old(self).open_count(),
    {
        self.sector = -1;
    }

    /// The other wheel is shown: the editor of a wedge closes, so that nothing is written to the wheel
    /// that was left. What the status line says.
    pub fn wheel_turned(&mut self, hyper: bool) -> (r: &'static str)
        ensures
            final(self).sector == -1,
            final(self).glyph == old(self).glyph,
            final(self).rhythm == old(self).rhythm,
            final(self).rule == old(self).rule,
            final(self).rule_hyper == old(self).rule_hyper,
            final(self).open_count() <= old(self).open_count(),
            r@ == if hyper {
                "editing the HyperShift radial"@
            } else {
                "editing the base radial"@
            },
    {
        self.sector = -1;
        if hyper {
            "editing the HyperShift radial"
        } else {
            "editing the base radial"
        }
    }

    /// The action of the open wedge was written, which closes its editor, or was not. What the status
    /// line says.
    pub fn sector_committed(&mut self, error: &Option<String>) -> (r: String)
        ensures
            final(self).sector == if *error is None {
                -1
            } else {
                old(self).sector as int
            },
            final(self).glyph == old(self).glyph,
            final(self).rhythm == old(self).rhythm,
            final(self).rule == old(self).rule,
            final(self).rule_hyper == old(self).rule_hyper,
            final(self).open_count() <= old(self).open_count(),
            r@ == match *error {
                None => "wedge "@ + decimal_int(old(self).sector as int) + " set"@,
                Some(e) => "set failed: "@ + e@,
            },
    {
        let mut ok = "wedge ".to_owned();
        ok.append(show_i64(self.sector as i64).as_str());
        ok.append(" set");
        if error.is_none() {
            self.sector = -1;
        }
        saved_text(ok.as_str(), "set failed: ", error)
    }

    /// The action of the open glyph was written, which closes its editor, or was not. What the status
    /// line says.
    pub fn gesture_committed(&mut self, error: &Option<String>) -> (r: String)
        ensures
            final(self).glyph@ == if *error is None {
                Seq::<char>::empty()
            } else {
                old(self).glyph@
            },
            final(self).sector == old(self).sector,
            final(self).rhythm == old(self).rhythm,
            final(self).rule == old(self).rule,
            final(self).rule_hyper == old(self).rule_hyper,
            final(self).open_count() <= old(self).open_count(),
            r@ == match *error {
                None => "glyph '"@ + old(self).glyph@ + "' bound"@,
                Some(e) => "bind failed: "@ + e@,
            },
    {
        let mut ok = "glyph '".to_owned();
        ok.append(self.glyph.as_str());
        ok.append("' bound");
        if error.is_none() {
            self.glyph = String::new();
        }
        saved_text(ok.as_str(), "bind failed: ", error)
    }

    /// The action of the open rhythm was written, which closes its editor, or was not; `phrase` is the
    /// rhythm in words. What the status line says.
    pub fn rhythm_committed(&mut self, phrase: &str, error: &Option<String>) -> (r: String)
        ensures
            final(self).rhythm == if *error is None {
                -1
            } else {
                old(self).rhythm as int
            },
            final(self).sector == old(self).sector,
            final(self).glyph == old(self).glyph,
            final(self).rule == old(self).rule,
            final(self).rule_hyper == old(self).rule_hyper,
            final(self).open_count() <= old(self).open_count(),
            r@ == match *error {
                None => "rhythm "@ + phrase@ + " bound"@,
                Some(e) => "bind failed: "@ + e@,
            },
    {
        let mut ok = "rhythm ".to_owned();
        ok.append(phrase);
        ok.append(" bound");
        if error.is_none() {
            self.rhythm = -1;
        }
        saved_text(ok.as_str(), "bind failed: ", error)
    }

    /// A rhythm was freed of its action, which closes the editor of rhythms, or was not; `phrase` is the
    /// rhythm in words. What the status line says.
    pub fn rhythm_deleted(&mut self, phrase: &str, error: &Option<String>) -> (r: String)
        ensures
            final(self).rhythm == if *error is None {
                -1
            } else {
                old(self).rhythm as int
            },
            final(self).sector == old(self).sector,
            final(self).glyph == old(self).glyph,
            final(self).rule == old(self).rule,
            final(self).rule_hyper == old(self).rule_hyper,
            final(self).open_count() <= old(self).open_count(),
            r@ == match *error {
                None => "rhythm "@ + phrase@ + " unbound"@,
                Some(e) => "unbind failed: "@ + e@,
            },
    {
        let mut ok = "rhythm ".to_owned();
        ok.append(phrase);
        ok.append(" unbound");
        if error.is_none() {
            self.rhythm = -1;
        }
        saved_text(ok.as_str(), "unbind failed: ", error)
    }
}

/// What is said while the editor of a glyph is open.
pub fn gesture_prompt(name: &str) -> (r: String)
    ensures
        r@ == "glyph '"@ + name@ + "' — bind, rename, or delete"@,
{
    let mut s = "glyph '".to_owned();
    s.append(name);
    s.append("' — bind, rename, or delete");
    s
}

/// What is said while the editor of a rhythm is open; `phrase` is the rhythm in words.
pub fn rhythm_prompt(phrase: &str) -> (r: String)
    ensures
        r@ == "rhythm "@ + phrase@ + " — pick what it fires"@,
{
    let mut s = "rhythm ".to_owned();
    s.append(phrase);
    s.append(" — pick what it fires");
    s
}

// ── the hold key of the second layer ────────────────────────────────────────────────────────────

/// What follows a try to change the hold key.
pub struct HoldKeyMove {
    /// Whether the bindings are read anew and the engine with them.
    pub reload: bool,
    pub status: String,
}

/// A control was pressed for the hold key and written, or was not written; or the capture was
/// cancelled, which changes nothing.
pub fn hypershift_hold_captured(captured: bool, error: &Option<String>) -> (r: HoldKeyMove)
    ensures
        r.reload == (captured && *error is None),
        r.status@ == if !captured {
            "capture cancelled"@
        } else {
            match *error {
                None => "HyperShift hold key set — hold it to reach the second layer"@,
                Some(e) => "failed: "@ + e@,
            }
        },
{
    if !captured {
        return HoldKeyMove { reload: false, status: "capture cancelled".to_owned() };
    }
    HoldKeyMove {
        reload: error.is_none(),
        status: saved_text(
            "HyperShift hold key set — hold it to reach the second layer",
            "failed: ",
            error,
        ),
    }
}

/// The hold key was cleared, or could not be, which is said. The bindings are read anew either way, so
/// that what is live is what was written.
pub fn hypershift_hold_cleared(error: &Option<String>) -> (r: HoldKeyMove)
    ensures
        r.reload,
        r.status@ == match *error {
            None => "HyperShift hold key cleared"@,
            Some(e) => "failed: "@ + e@,
        },
{
    HoldKeyMove {
        reload: true,
        status: saved_text("HyperShift hold key cleared", "failed: ", error),
    }
}

// ── laws ────────────────────────────────────────────────────────────────────────────────────────

/// A row that can be edited leads to the very binding that it shows: row by row, on both layers,
/// where no row of the second layer comes from a file.
pub proof fn law_row_leads_to_its_binding(
    rows: Seq<RuleRow>,
    views: Seq<RuleView>,
    gui: Seq<GuiRule>,
    hyper: bool,
    row: int,
)
    requires
        list_shows(rows, views, gui, hyper, gui.len()),
        hyper ==> views.len() == 0,
        0 <= row < rows.len(),
    ensures
        ({
            let own = tier(gui, hyper, gui.len());
            match row_target(row, hyper, rows.len() as int, own.len() as int) {
                Some(n) => rows[row].removable && 0 <= n < own.len() && 0 <= own[n] < gui.len()
                    && shows_rule(rows[row], gui[own[n]]),
                None => !rows[row].removable,
            }
        }),
{
    lemma_tier_bounds(gui, hyper, gui.len());
    if row >= views.len() {
        assert(rows[views.len() + (row - views.len())] == rows[row]);
    }
}

/// Every authored binding is listed on exactly one layer, or is the hold key.
pub proof fn law_binding_on_one_layer(gui: Seq<GuiRule>, k: nat)
    requires
        k <= gui.len(),
    ensures
        forall|i: int|
            0 <= i < k ==> (is_hold(#[trigger] gui[i]) || tier(gui, false, k).contains(i)
                || tier(gui, true, k).contains(i)) && !(tier(gui, false, k).contains(i) && tier(
                gui,
                true,
                k,
            ).contains(i)),
    decreases k,
{
    if k > 0 {
        let j = (k - 1) as nat;
        law_binding_on_one_layer(gui, j);
        lemma_tier_bounds(gui, false, k);
        lemma_tier_bounds(gui, true, k);
        assert forall|i: int| 0 <= i < k implies (is_hold(#[trigger] gui[i]) || tier(
            gui,
            false,
            k,
        ).contains(i) || tier(gui, true, k).contains(i)) && !(tier(gui, false, k).contains(i)
            && tier(gui, true, k).contains(i)) by {
            if i < j {
                if tier(gui, false, j).contains(i) {
                    let x = choose|x: int|
                        0 <= x < tier(gui, false, j).len() && tier(gui, false, j)[x] == i;
                    assert(tier(gui, false, k)[x] == i);
                }
                if tier(gui, true, j).contains(i) {
                    let x = choose|x: int|
                        0 <= x < tier(gui, true, j).len() && tier(gui, true, j)[x] == i;
                    assert(tier(gui, true, k)[x] == i);
                }
            } else {
                if in_tier(gui[i], false) {
                    assert(tier(gui, false, k)[tier(gui, false, j).len() as int] == i);
                }
                if in_tier(gui[i], true) {
                    assert(tier(gui, true, k)[tier(gui, true, j).len() as int] == i);
                }
            }
        }
    }
}

} // verus!
