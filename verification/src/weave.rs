//! Weaving: the glyphs and what they are bound to, the rhythms, the wheel, the pockets and the
//! effects.

use vstd::prelude::*;

use crate::naming::{rhythm, rhythm_symbols};
use crate::text::{
    decimal, decimal_int, same_text, show_i64, show_u64, trim, trimmed,
};
use crate::textmap::TextMap;

verus! {

// ── glyphs ──────────────────────────────────────────────────────────────────────────────────────

/// A recorded glyph.
pub struct Glyph<T> {
    pub name: String,
    pub shape: T,
}

/// The recorded glyphs, and what some of them are bound to.
pub struct Glyphs<T, A> {
    pub templates: Vec<Glyph<T>>,
    pub bound: TextMap<A>,
}

/// The names of the glyphs, in order.
pub open spec fn glyph_names<T>(t: Seq<Glyph<T>>) -> Seq<Seq<char>> {
    Seq::new(t.len(), |i: int| t[i].name@)
}

/// The glyphs of another name among the first `k`.
pub open spec fn others<T>(t: Seq<Glyph<T>>, name: Seq<char>, k: nat) -> Seq<Glyph<T>>
    decreases k,
{
    if k == 0 || k > t.len() {
        Seq::empty()
    } else {
        let before = others(t, name, (k - 1) as nat);
        if t[k - 1].name@ != name {
            before.push(t[k - 1])
        } else {
            before
        }
    }
}

/// The first glyph of this name from `from` on.
pub open spec fn glyph_named<T>(t: Seq<Glyph<T>>, name: Seq<char>, from: nat) -> Option<nat>
    decreases t.len() - from,
{
    if from >= t.len() {
        None
    } else if t[from as int].name@ == name {
        Some(from)
    } else {
        glyph_named(t, name, from + 1)
    }
}

/// A glyph's chip: its name, what it is bound to in words, and whether it is bound.
pub struct GlyphChip {
    pub name: String,
    pub action: String,
    pub bound: bool,
}

/// How a rename went.
pub enum Renamed {
    /// Nothing was changed; what is said.
    Refused(String),
    /// The glyph has its new name. Whether a binding went along, which is then to be saved too.
    Done { name: String, binding: bool },
}

impl<T, A> Glyphs<T, A> {
    /// No binding has two actions.
    pub open spec fn wf(self) -> bool {
        self.bound.wf()
    }

    fn find(&self, name: &str) -> (r: Option<usize>)
        ensures
            match r {
                Some(i) => i < self.templates@.len() && glyph_named(self.templates@, name@, 0)
                    == Some(i as nat),
                None => glyph_named(self.templates@, name@, 0) is None,
            },
    {
        let mut i: usize = 0;
        while i < self.templates.len()
            invariant
                i <= self.templates@.len(),
                glyph_named(self.templates@, name@, 0) == glyph_named(
                    self.templates@,
                    name@,
                    i as nat,
                ),
            decreases self.templates@.len() - i,
        {
            if same_text(self.templates[i].name.as_str(), name) {
                return Some(i);
            }
            i = i + 1;
        }
        None
    }

    /// Forgets every glyph, and with them every binding. How many bindings there were.
    pub fn clear_gestures(&mut self) -> (r: usize)
        requires
            old(self).wf(),
        ensures
            final(self).wf(),
            final(self).templates@.len() == 0,
            final(self).bound@ == Map::<Seq<char>, A>::empty(),
            r == old(self).bound.entries@.len(),
    {
        let n: usize = self.bound.entries.len();
        self.templates = Vec::new();
        self.bound = TextMap::new();
        n
    }

    /// Deletes a glyph and its binding.
    pub fn delete_gesture(&mut self, name: &str)
        requires
            old(self).wf(),
        ensures
            final(self).wf(),
            final(self).templates@ == others(
                old(self).templates@,
                name@,
                old(self).templates@.len(),
            ),
            final(self).bound@ == old(self).bound@.remove(name@),
    {
        let ghost all = self.templates@;
        let ghost mut seen: nat = 0;
        let mut i: usize = 0;
        proof {
            assert(self.templates@ =~= others(all, name@, 0) + all.skip(0));
        }
        while i < self.templates.len()
            invariant
                i <= self.templates@.len(),
                seen <= all.len(),
                i == others(all, name@, seen).len(),
                self.templates@ == others(all, name@, seen) + all.skip(seen as int),
                self.bound == old(self).bound,
            decreases self.templates@.len() - i,
        {
            proof {
                assert(self.templates@[i as int] == all.skip(seen as int)[0]);
                assert(self.templates@[i as int] == all[seen as int]);
            }
            if same_text(self.templates[i].name.as_str(), name) {
                let _ = self.templates.remove(i);
            } else {
                i = i + 1;
            }
            proof {
                seen = seen + 1;
                assert(self.templates@ =~= others(all, name@, seen) + all.skip(seen as int));
            }
        }
        proof {
            assert(seen == all.len());
            assert(self.templates@ =~= others(all, name@, all.len()));
        }
        let _ = self.bound.remove(name);
    }

    /// Gives a glyph another name; its binding follows. The new name is trimmed, and must not be
    /// blank nor taken.
    pub fn rename_gesture(&mut self, from: &str, to: &str) -> (r: Renamed)
        requires
            old(self).wf(),
        ensures
            final(self).wf(),
            match r {
                Renamed::Refused(s) => final(self).templates@ == old(self).templates@ && final(
                    self).bound@ == old(self).bound@ && (if trimmed(to@).len() == 0 {
                    s@ == "a glyph needs a name"@
                } else if glyph_named(old(self).templates@, trimmed(to@), 0) is Some {
                    s@ == "a glyph named '"@ + trimmed(to@) + "' already exists"@
                } else {
                    glyph_named(old(self).templates@, from@, 0) is None && s@ == "no glyph '"@
                        + from@ + "'"@
                }),
                Renamed::Done { name, binding } => {
                    &&& trimmed(to@).len() > 0
                    &&& name@ == trimmed(to@)
                    &&& glyph_named(old(self).templates@, name@, 0) is None
                    &&& glyph_named(old(self).templates@, from@, 0) matches Some(i) && {
                        &&& final(self).templates@.len() == old(self).templates@.len()
                        &&& final(self).templates@[i as int].name@ == name@
                        &&& final(self).templates@[i as int].shape == old(
                            self).templates@[i as int].shape
                        &&& forall|j: int|
                            0 <= j < old(self).templates@.len() && j != i ==> #[trigger] final(
                                self).templates@[j] == old(self).templates@[j]
                    }
                    &&& binding == old(self).bound@.contains_key(from@)
                    &&& final(self).bound@ == if binding {
                        old(self).bound@.remove(from@).insert(name@, old(self).bound@[from@])
                    } else {
                        old(self).bound@
                    }
                },
            },
    {
        let new = trim(to);
        proof {
            reveal_strlit("");
            if new@.len() == 0 {
                assert(new@ =~= ""@);
            }
        }
        if same_text(new.as_str(), "") {
            return Renamed::Refused("a glyph needs a name".to_owned());
        }
        if self.find(new.as_str()).is_some() {
            let mut s = "a glyph named '".to_owned();
            s.append(new.as_str());
            s.append("' already exists");
            return Renamed::Refused(s);
        }
        match self.find(from) {
            None => {
                let mut s = "no glyph '".to_owned();
                s.append(from);
                s.append("'");
                Renamed::Refused(s)
            },
            Some(i) => {
                self.templates[i].name = new.clone();
                let binding = match self.bound.remove(from) {
                    Some(a) => {
                        self.bound.insert(new.as_str(), a);
                        true
                    },
                    None => {
                        proof {
                            assert(old(self).bound@.remove(from@) =~= old(self).bound@);
                        }
                        false
                    },
                };
                Renamed::Done { name: new, binding }
            },
        }
    }
}

/// The chips of the glyphs, in order, given what each is bound to in words.
pub fn refresh_gestures<T>(templates: &Vec<Glyph<T>>, bound: &TextMap<String>) -> (r: Vec<GlyphChip>)
    requires
        bound.wf(),
    ensures
        r@.len() == templates@.len(),
        forall|i: int|
            0 <= i < r@.len() ==> {
                let name = templates@[i].name@;
                (#[trigger] r@[i]).name@ == name && r@[i].bound == bound@.contains_key(name)
                    && r@[i].action@ == (if bound@.contains_key(name) {
                    bound@[name]@
                } else {
                    Seq::<char>::empty()
                })
            },
{
    let mut out: Vec<GlyphChip> = Vec::new();
    let mut i: usize = 0;
    while i < templates.len()
        invariant
            i <= templates@.len(),
            out@.len() == i,
            bound.wf(),
            forall|j: int|
                0 <= j < i ==> {
                    let name = templates@[j].name@;
                    (#[trigger] out@[j]).name@ == name && out@[j].bound == bound@.contains_key(name)
                        && out@[j].action@ == (if bound@.contains_key(name) {
                        bound@[name]@
                    } else {
                        Seq::<char>::empty()
                    })
                },
        decreases templates@.len() - i,
    {
        let name = templates[i].name.as_str();
        let (action, is_bound): (String, bool) = match bound.get(name) {
            Some(a) => (a.clone(), true),
            None => (String::new(), false),
        };
        out.push(GlyphChip { name: templates[i].name.clone(), action, bound: is_bound });
        i = i + 1;
    }
    out
}

/// What is said once the glyphs were forgotten.
pub fn gestures_cleared(bindings: usize, error: &Option<String>) -> (r: String)
    ensures
        r@ == match *error {
            Some(e) => "gesture vault clear failed: "@ + e@,
            None => "gesture vault cleared ("@ + decimal(bindings as nat)
                + " glyph binding(s) removed)"@,
        },
{
    match error {
        Some(e) => {
            let mut s = "gesture vault clear failed: ".to_owned();
            s.append(e.as_str());
            s
        },
        None => {
            let mut s = "gesture vault cleared (".to_owned();
            s.append(show_u64(bindings as u64).as_str());
            s.append(" glyph binding(s) removed)");
            s
        },
    }
}

/// The error to report of two writes: the first that failed.
pub fn first_error(a: Option<String>, b: Option<String>) -> (r: Option<String>)
    ensures
        r == if a is Some {
            a
        } else {
            b
        },
{
    match a {
        Some(e) => Some(e),
        None => b,
    }
}

// ── rhythms ─────────────────────────────────────────────────────────────────────────────────────

/// What a rhythm of so many taps and a hold fires, in words; nothing where the action does nothing.
pub struct RhythmBind {
    pub taps: u8,
    pub action: Option<String>,
}

/// A row of the rhythms.
pub struct RhythmRow {
    pub taps: i32,
    pub label: String,
    pub desc: String,
    pub bound: bool,
}

/// The first binding of a rhythm from `from` on that does something.
pub open spec fn rhythm_bind(b: Seq<RhythmBind>, taps: nat, from: nat) -> Option<nat>
    decreases b.len() - from,
{
    if from >= b.len() {
        None
    } else if b[from as int].taps == taps && b[from as int].action is Some {
        Some(from)
    } else {
        rhythm_bind(b, taps, from + 1)
    }
}

/// The rhythms of up to `t` taps that are bound, in order; a plain hold is none of them.
pub open spec fn bound_taps(b: Seq<RhythmBind>, t: nat) -> Seq<nat>
    decreases t,
{
    if t == 0 {
        Seq::empty()
    } else {
        let before = bound_taps(b, (t - 1) as nat);
        if rhythm_bind(b, t, 0) is Some {
            before.push(t)
        } else {
            before
        }
    }
}

/// The rhythms that have a row: those that are bound, then one tap and two taps where they are not.
pub open spec fn rhythm_order(b: Seq<RhythmBind>) -> Seq<nat> {
    let bound = bound_taps(b, 255);
    let one = if rhythm_bind(b, 1, 0) is Some {
        bound
    } else {
        bound.push(1)
    };
    if rhythm_bind(b, 2, 0) is Some {
        one
    } else {
        one.push(2)
    }
}

/// A row shows a rhythm.
pub open spec fn row_shows(r: RhythmRow, b: Seq<RhythmBind>, taps: nat) -> bool {
    &&& r.taps == taps
    &&& r.label@ == rhythm(taps)
    &&& match rhythm_bind(b, taps, 0) {
        Some(i) => r.bound && r.desc@ == b[i as int].action->0@,
        None => !r.bound && r.desc@ == Seq::<char>::empty(),
    }
}

fn bound_action(b: &Vec<RhythmBind>, taps: u8) -> (r: Option<usize>)
    ensures
        match r {
            Some(i) => i < b@.len() && rhythm_bind(b@, taps as nat, 0) == Some(i as nat)
                && b@[i as int].action is Some,
            None => rhythm_bind(b@, taps as nat, 0) is None,
        },
{
    let mut i: usize = 0;
    while i < b.len()
        invariant
            i <= b@.len(),
            rhythm_bind(b@, taps as nat, 0) == rhythm_bind(b@, taps as nat, i as nat),
        decreases b@.len() - i,
    {
        if b[i].taps == taps && b[i].action.is_some() {
            return Some(i);
        }
        i = i + 1;
    }
    None
}

fn rhythm_row(b: &Vec<RhythmBind>, taps: u8) -> (r: RhythmRow)
    ensures
        row_shows(r, b@, taps as nat),
{
    let (desc, bound): (String, bool) = match bound_action(b, taps) {
        Some(i) => match &b[i].action {
            Some(a) => (a.clone(), true),
            None => (String::new(), false),
        },
        None => (String::new(), false),
    };
    RhythmRow { taps: taps as i32, label: rhythm_symbols(taps), desc, bound }
}

/// The rows of the rhythms: the bound ones by their taps, then one tap and two taps if they are free.
pub fn refresh_rhythms(b: &Vec<RhythmBind>) -> (r: Vec<RhythmRow>)
    ensures
        r@.len() == rhythm_order(b@).len(),
        forall|i: int| 0 <= i < r@.len() ==> row_shows(#[trigger] r@[i], b@, rhythm_order(b@)[i]),
{
    let mut out: Vec<RhythmRow> = Vec::new();
    let mut t: u8 = 0;
    while t < 255
        invariant
            out@.len() == bound_taps(b@, t as nat).len(),
            forall|i: int|
                0 <= i < out@.len() ==> row_shows(#[trigger] out@[i], b@, bound_taps(b@, t as nat)[i]),
        decreases 255 - t,
    {
        t = t + 1;
        if bound_action(b, t).is_some() {
            out.push(rhythm_row(b, t));
        }
    }
    if bound_action(b, 1).is_none() {
        out.push(rhythm_row(b, 1));
    }
    if bound_action(b, 2).is_none() {
        out.push(rhythm_row(b, 2));
    }
    out
}

// ── the wheel ───────────────────────────────────────────────────────────────────────────────────

/// The number of wedges, within what the commit radius allows; three are the fewest.
pub fn set_sector_count(n: i32, max: i32) -> (r: i32)
    requires
        max >= 3,
    ensures
        r == if n < 3 {
            3
        } else if n > max {
            max as int
        } else {
            n as int
        },
{
    if n < 3 {
        3
    } else if n > max {
        max
    } else {
        n
    }
}

/// The wedges of the wheel: the label of each with its action, or a dash where it has none.
pub fn refresh_radial(labels: &Vec<String>, actions: &Vec<String>) -> (r: Vec<(String, String)>)
    ensures
        r@.len() == labels@.len(),
        forall|i: int|
            0 <= i < r@.len() ==> (#[trigger] r@[i]).0@ == labels@[i]@ && r@[i].1@ == (if i
                < actions@.len() {
                actions@[i]@
            } else {
                "—"@
            }),
{
    let mut out: Vec<(String, String)> = Vec::new();
    let mut i: usize = 0;
    while i < labels.len()
        invariant
            i <= labels@.len(),
            out@.len() == i,
            forall|j: int|
                0 <= j < i ==> (#[trigger] out@[j]).0@ == labels@[j]@ && out@[j].1@ == (if j
                    < actions@.len() {
                    actions@[j]@
                } else {
                    "—"@
                }),
        decreases labels@.len() - i,
    {
        let action: String = if i < actions.len() {
            actions[i].clone()
        } else {
            "—".to_owned()
        };
        out.push((labels[i].clone(), action));
        i = i + 1;
    }
    out
}

/// The number of wedges that the wheel shows.
pub fn shown_sectors(sectors: usize) -> (r: usize)
    ensures
        r == if sectors == 0 {
            1
        } else {
            sectors
        },
{
    if sectors == 0 {
        1
    } else {
        sectors
    }
}

/// The wedge that is marked, once the wheel has `n`: one that is gone is marked no more.
pub fn healed_sector(marked: i32, n: i32) -> (r: i32)
    ensures
        r == if marked >= n {
            -1
        } else {
            marked as int
        },
{
    if marked >= n {
        -1
    } else {
        marked
    }
}

/// Whether the wheel of the second layer is on: in the settings at hand, and as it is shown.
pub struct HyperRadial {
    pub held: bool,
    pub shown: bool,
}

impl HyperRadial {
    /// Turns the second wheel on or off. What is shown follows only once it was saved. What the status
    /// line says.
    pub fn set(&mut self, on: bool, error: &Option<String>) -> (r: String)
        ensures
            final(self).held == on,
            final(self).shown == if *error is None {
                on
            } else {
                old(self).shown
            },
            r@ == match *error {
                None => if on {
                    "HyperShift radial enabled"@
                } else {
                    "HyperShift radial off"@
                },
                Some(e) => "save failed: "@ + e@,
            },
    {
        self.held = on;
        match error {
            None => {
                self.shown = on;
                if on {
                    "HyperShift radial enabled".to_owned()
                } else {
                    "HyperShift radial off".to_owned()
                }
            },
            Some(e) => {
                let mut s = "save failed: ".to_owned();
                s.append(e.as_str());
                s
            },
        }
    }
}

/// What is said while a wedge is edited.
pub fn sector_prompt(i: i32, compass: &str) -> (r: String)
    ensures
        r@ == "editing wedge "@ + decimal_int(i as int) + " ("@ + compass@
            + ") — choose an action, then Set"@,
{
    let mut s = "editing wedge ".to_owned();
    s.append(show_i64(i as i64).as_str());
    s.append(" (");
    s.append(compass);
    s.append(") — choose an action, then Set");
    s
}

/// What is said once the forgiveness of the recognition was set.
pub fn assist_set(off: bool, percent: u32, error: &Option<String>) -> (r: String)
    ensures
        r@ == match *error {
            Some(e) => "assist not saved: "@ + e@,
            None => if off {
                "spell assist off — strict recognition only"@
            } else {
                "spell forgiveness → "@ + decimal(percent as nat)
                    + "% (near-misses snap to a clear-winner spell)"@
            },
        },
{
    match error {
        Some(e) => {
            let mut s = "assist not saved: ".to_owned();
            s.append(e.as_str());
            s
        },
        None => if off {
            "spell assist off — strict recognition only".to_owned()
        } else {
            let mut s = "spell forgiveness → ".to_owned();
            s.append(show_u64(percent as u64).as_str());
            s.append("% (near-misses snap to a clear-winner spell)");
            s
        },
    }
}

/// What is said once a press was captured for the cast trigger: zero is no key, and changes nothing.
pub fn cast_trigger_captured(vk: u16, name: &str, error: &Option<String>) -> (r: String)
    ensures
        r@ == if vk == 0 {
            "cast trigger capture cancelled"@
        } else {
            match *error {
                Some(e) => "cast trigger save failed: "@ + e@,
                None => "cast trigger -> "@ + name@,
            }
        },
{
    if vk == 0 {
        return "cast trigger capture cancelled".to_owned();
    }
    match error {
        Some(e) => {
            let mut s = "cast trigger save failed: ".to_owned();
            s.append(e.as_str());
            s
        },
        None => {
            let mut s = "cast trigger -> ".to_owned();
            s.append(name);
            s
        },
    }
}

// ── activation, stance, timing ──────────────────────────────────────────────────────────────────

/// What is said while a rhythm is performed on the trigger.
pub fn rhythm_recording(trigger: &str) -> (r: String)
    ensures
        r@ == "perform the rhythm on "@ + trigger@ + " now — taps and holds both count, ESC cancels"@,
{
    let mut s = "perform the rhythm on ".to_owned();
    s.append(trigger);
    s.append(" now — taps and holds both count, ESC cancels");
    s
}

/// What is said once a rhythm was performed; nothing was, where there is no phrase.
pub fn rhythm_recorded(phrase: &Option<String>, error: &Option<String>) -> (r: String)
    ensures
        r@ == match *phrase {
            None => "no rhythm recorded"@,
            Some(p) => match *error {
                Some(e) => "rhythm not saved: "@ + e@,
                None => "rhythm recorded — weave opens on ["@ + p@ + "]"@,
            },
        },
{
    match phrase {
        None => "no rhythm recorded".to_owned(),
        Some(p) => match error {
            Some(e) => {
                let mut s = "rhythm not saved: ".to_owned();
                s.append(e.as_str());
                s
            },
            None => {
                let mut s = "rhythm recorded — weave opens on [".to_owned();
                s.append(p.as_str());
                s.append("]");
                s
            },
        },
    }
}

/// What is said once the rhythm that opens a weave was set.
pub fn activation_set(phrase: &str, ends_in_hold: bool, error: &Option<String>) -> (r: String)
    ensures
        r@ == match *error {
            Some(e) => "activation not saved: "@ + e@,
            None => "weave opens on ["@ + phrase@ + "]"@ + (if ends_in_hold {
                ""@
            } else {
                " — tap again to close"@
            }),
        },
{
    match error {
        Some(e) => {
            let mut s = "activation not saved: ".to_owned();
            s.append(e.as_str());
            s
        },
        None => {
            let mut s = "weave opens on [".to_owned();
            s.append(phrase);
            s.append("]");
            s.append(
                if ends_in_hold {
                    ""
                } else {
                    " — tap again to close"
                },
            );
            s
        },
    }
}

/// How the second layer is reached.
#[derive(Clone, Copy, Debug, PartialEq, Eq, Structural)]
pub enum LayerMode {
    Hold,
    Latch,
    Smart,
    OneShot,
}

/// What a stance means.
pub open spec fn stance_meaning(m: LayerMode) -> Seq<char> {
    match m {
        LayerMode::Hold => "live while held"@,
        LayerMode::Latch => "tap on, tap off"@,
        LayerMode::Smart => "tap latches, hold is momentary"@,
        LayerMode::OneShot => "next press only"@,
    }
}

/// What is said once the stance was set; `name` is what it is called.
pub fn hypershift_set(m: LayerMode, name: &str, error: &Option<String>) -> (r: String)
    ensures
        r@ == match *error {
            Some(e) => "stance not saved: "@ + e@,
            None => "HyperShift stance -> "@ + name@ + " ("@ + stance_meaning(m) + ")"@,
        },
{
    match error {
        Some(e) => {
            let mut s = "stance not saved: ".to_owned();
            s.append(e.as_str());
            s
        },
        None => {
            let mut s = "HyperShift stance -> ".to_owned();
            s.append(name);
            s.append(" (");
            s.append(
                match m {
                    LayerMode::Hold => "live while held",
                    LayerMode::Latch => "tap on, tap off",
                    LayerMode::Smart => "tap latches, hold is momentary",
                    LayerMode::OneShot => "next press only",
                },
            );
            s.append(")");
            s
        },
    }
}

/// The timing windows, in milliseconds.
#[derive(Clone, Copy, Debug, PartialEq, Eq, Structural)]
pub struct FeelTiming {
    pub hold_ms: u64,
    pub gap_ms: u64,
    pub coyote_ms: u64,
}

/// A window from a slider: nothing below zero.
pub open spec fn window(v: int) -> int {
    if v < 0 {
        0
    } else {
        v
    }
}

fn window_of(v: i32) -> (r: u64)
    ensures
        r == window(v as int),
{
    if v < 0 {
        0
    } else {
        v as u64
    }
}

/// The timing windows from the sliders.
pub fn set_feel_timing(hold: i32, gap: i32, coyote: i32) -> (r: FeelTiming)
    ensures
        r.hold_ms == window(hold as int),
        r.gap_ms == window(gap as int),
        r.coyote_ms == window(coyote as int),
{
    FeelTiming { hold_ms: window_of(hold), gap_ms: window_of(gap), coyote_ms: window_of(coyote) }
}

/// What is said once the timing was set.
pub fn feel_timing_set(t: FeelTiming) -> (r: String)
    ensures
        r@ == "feel timing -> hold "@ + decimal(t.hold_ms as nat) + "ms · gap "@ + decimal(
            t.gap_ms as nat,
        ) + "ms · coyote "@ + decimal(t.coyote_ms as nat) + "ms"@,
{
    let mut s = "feel timing -> hold ".to_owned();
    s.append(show_u64(t.hold_ms).as_str());
    s.append("ms · gap ");
    s.append(show_u64(t.gap_ms).as_str());
    s.append("ms · coyote ");
    s.append(show_u64(t.coyote_ms).as_str());
    s.append("ms");
    s
}

// ── pockets ─────────────────────────────────────────────────────────────────────────────────────

/// What a pocket holds.
#[derive(Clone, Copy, Debug, PartialEq, Eq, Structural)]
pub enum PocketKind {
    Text,
    Files,
    Image,
    Other,
    Empty,
}

/// The word for what a pocket holds.
pub open spec fn pocket_word(k: PocketKind) -> Seq<char> {
    match k {
        PocketKind::Text => "text"@,
        PocketKind::Files => "files"@,
        PocketKind::Image => "image"@,
        PocketKind::Other => "other"@,
        PocketKind::Empty => "empty"@,
    }
}

/// A pocket.
pub struct Pocket {
    pub slot: String,
    pub durable: bool,
    pub kind: PocketKind,
    pub summary: String,
    /// Its drawing.
    pub sigil: String,
}

/// A pocket's card.
pub struct PocketCard {
    pub name: String,
    pub summary: String,
    pub kind: &'static str,
    pub sigil: String,
    pub durable: bool,
    pub filled: bool,
}

/// A card shows a pocket; an empty one has no drawing.
pub open spec fn pocket_shows(c: PocketCard, p: Pocket) -> bool {
    &&& c.name@ == p.slot@
    &&& c.summary@ == p.summary@
    &&& c.kind@ == pocket_word(p.kind)
    &&& c.durable == p.durable
    &&& c.filled == (p.kind != PocketKind::Empty)
    &&& c.sigil@ == (if c.filled {
        p.sigil@
    } else {
        Seq::<char>::empty()
    })
}

/// The cards of the pockets, in order.
pub fn refresh_pockets(ps: &Vec<Pocket>) -> (r: Vec<PocketCard>)
    ensures
        r@.len() == ps@.len(),
        forall|i: int| 0 <= i < r@.len() ==> pocket_shows(#[trigger] r@[i], ps@[i]),
{
    let mut out: Vec<PocketCard> = Vec::new();
    let mut i: usize = 0;
    while i < ps.len()
        invariant
            i <= ps@.len(),
            out@.len() == i,
            forall|j: int| 0 <= j < i ==> pocket_shows(#[trigger] out@[j], ps@[j]),
        decreases ps@.len() - i,
    {
        let p = &ps[i];
        let kind: &'static str = match p.kind {
            PocketKind::Text => "text",
            PocketKind::Files => "files",
            PocketKind::Image => "image",
            PocketKind::Other => "other",
            PocketKind::Empty => "empty",
        };
        let filled = p.kind != PocketKind::Empty;
        let sigil: String = if filled {
            p.sigil.clone()
        } else {
            String::new()
        };
        out.push(
            PocketCard {
                name: p.slot.clone(),
                summary: p.summary.clone(),
                kind,
                sigil,
                durable: p.durable,
                filled,
            },
        );
        i = i + 1;
    }
    out
}

/// Whether the pockets changed since the last look, which is remembered.
pub fn refresh_pockets_if_changed(generation: u64, last: &mut u64) -> (r: bool)
    ensures
        r == (*old(last) != generation),
        *final(last) == generation,
{
    if *last != generation {
        *last = generation;
        true
    } else {
        false
    }
}

// ── effects ─────────────────────────────────────────────────────────────────────────────────────

/// The effects among the first `k` that the device runs itself, or that are streamed, by index.
pub open spec fn effects_by(natives: Seq<bool>, native: bool, k: nat) -> Seq<int>
    decreases k,
{
    if k == 0 || k > natives.len() {
        Seq::empty()
    } else {
        let before = effects_by(natives, native, (k - 1) as nat);
        if natives[k - 1] == native {
            before.push(k - 1)
        } else {
            before
        }
    }
}

/// The effects that the device runs itself and those that are streamed, by index, in order.
pub fn refresh_effects(natives: &Vec<bool>) -> (r: (Vec<usize>, Vec<usize>))
    ensures
        r.0@.len() == effects_by(natives@, true, natives@.len()).len(),
        r.1@.len() == effects_by(natives@, false, natives@.len()).len(),
        forall|i: int|
            0 <= i < r.0@.len() ==> #[trigger] r.0@[i] == effects_by(natives@, true, natives@.len())[i],
        forall|i: int|
            0 <= i < r.1@.len() ==> #[trigger] r.1@[i] == effects_by(
                natives@,
                false,
                natives@.len(),
            )[i],
{
    let mut fw: Vec<usize> = Vec::new();
    let mut sw: Vec<usize> = Vec::new();
    let mut i: usize = 0;
    while i < natives.len()
        invariant
            i <= natives@.len(),
            fw@.len() == effects_by(natives@, true, i as nat).len(),
            sw@.len() == effects_by(natives@, false, i as nat).len(),
            forall|j: int|
                0 <= j < fw@.len() ==> #[trigger] fw@[j] == effects_by(natives@, true, i as nat)[j],
            forall|j: int|
                0 <= j < sw@.len() ==> #[trigger] sw@[j] == effects_by(natives@, false, i as nat)[j],
        decreases natives@.len() - i,
    {
        if natives[i] {
            fw.push(i);
        } else {
            sw.push(i);
        }
        i = i + 1;
    }
    (fw, sw)
}

// ── laws ────────────────────────────────────────────────────────────────────────────────────────

/// A deleted glyph is gone: no glyph of its name is left, and the others stay in order.
pub proof fn law_deleted_glyph_is_gone<T>(t: Seq<Glyph<T>>, name: Seq<char>, k: nat)
    ensures
        forall|i: int|
            0 <= i < others(t, name, k).len() ==> (#[trigger] others(t, name, k)[i]).name@ != name,
        others(t, name, k).len() <= k,
    decreases k,
{
    if 0 < k <= t.len() {
        law_deleted_glyph_is_gone(t, name, (k - 1) as nat);
    }
}

proof fn lemma_no_glyph_named<T>(t: Seq<Glyph<T>>, name: Seq<char>, from: nat)
    requires
        glyph_named(t, name, from) is None,
    ensures
        forall|i: int| from <= i < t.len() ==> (#[trigger] t[i]).name@ != name,
    decreases t.len() - from,
{
    if from < t.len() {
        lemma_no_glyph_named(t, name, from + 1);
    }
}

/// A rename keeps the names of the glyphs apart.
pub proof fn law_rename_keeps_names_apart<T>(t: Seq<Glyph<T>>, at: int, name: Seq<char>)
    requires
        forall|i: int, j: int|
            0 <= i < j < t.len() ==> (#[trigger] glyph_names(t)[i]) != (#[trigger] glyph_names(t)[j]),
        glyph_named(t, name, 0) is None,
        0 <= at < t.len(),
    ensures
        ({
            let after = glyph_names(t).update(at, name);
            forall|i: int, j: int|
                0 <= i < j < after.len() ==> (#[trigger] after[i]) != (#[trigger] after[j])
        }),
{
    lemma_no_glyph_named(t, name, 0);
    let after = glyph_names(t).update(at, name);
    assert forall|i: int, j: int| 0 <= i < j < after.len() implies (#[trigger] after[i]) != (
    #[trigger] after[j]) by {
        assert(glyph_names(t)[i] == t[i].name@);
        assert(glyph_names(t)[j] == t[j].name@);
    }
}

/// The bound rhythms have a row each, by rising number of taps.
pub proof fn law_rhythms_rise(b: Seq<RhythmBind>, t: nat)
    ensures
        forall|i: int, j: int|
            0 <= i < j < bound_taps(b, t).len() ==> #[trigger] bound_taps(b, t)[i]
                < #[trigger] bound_taps(b, t)[j],
        forall|i: int|
            0 <= i < bound_taps(b, t).len() ==> 0 < #[trigger] bound_taps(b, t)[i] <= t,
    decreases t,
{
    if t > 0 {
        law_rhythms_rise(b, (t - 1) as nat);
        let before = bound_taps(b, (t - 1) as nat);
        let all = bound_taps(b, t);
        assert forall|i: int| 0 <= i < all.len() implies 0 < #[trigger] all[i] <= t by {
            if i < before.len() {
                assert(all[i] == before[i]);
            }
        }
        assert forall|i: int, j: int| 0 <= i < j < all.len() implies #[trigger] all[i]
            < #[trigger] all[j] by {
            assert(all[i] == before[i]);
            if j < before.len() {
                assert(all[j] == before[j]);
            }
        }
    }
}

proof fn lemma_taps_listed(b: Seq<RhythmBind>, t: nat, taps: nat)
    requires
        0 < taps <= t,
        rhythm_bind(b, taps, 0) is Some,
    ensures
        bound_taps(b, t).contains(taps),
    decreases t,
{
    let before = bound_taps(b, (t - 1) as nat);
    if taps == t {
        assert(bound_taps(b, t)[before.len() as int] == taps);
    } else {
        lemma_taps_listed(b, (t - 1) as nat, taps);
        let x = choose|x: int| 0 <= x < before.len() && before[x] == taps;
        assert(bound_taps(b, t)[x] == taps);
    }
}

/// One tap and two taps always have a row, bound or not.
pub proof fn law_standard_rhythms_have_rows(b: Seq<RhythmBind>)
    ensures
        rhythm_order(b).contains(1),
        rhythm_order(b).contains(2),
{
    let bound = bound_taps(b, 255);
    let one = if rhythm_bind(b, 1, 0) is Some {
        bound
    } else {
        bound.push(1)
    };
    if rhythm_bind(b, 1, 0) is Some {
        lemma_taps_listed(b, 255, 1);
    } else {
        assert(bound.push(1)[bound.len() as int] == 1);
    }
    let x = choose|x: int| 0 <= x < one.len() && one[x] == 1;
    assert(rhythm_order(b)[x] == 1);
    if rhythm_bind(b, 2, 0) is Some {
        lemma_taps_listed(b, 255, 2);
        let y = choose|y: int| 0 <= y < bound.len() && bound[y] == 2;
        assert(rhythm_order(b)[y] == 2);
    } else {
        assert(one.push(2)[one.len() as int] == 2);
    }
}

} // verus!
