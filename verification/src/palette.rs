//! The action picker: its rows, the row that shows an action, the suggestions for its parameter, and
//! what a captured key fills in.

use vstd::prelude::*;

use crate::text::{
    copy_texts, lemma_texts_push, same_text, split_first, split_once, texts, trim, trimmed,
};

verus! {

/// An action that can be picked.
pub struct PaletteEntry {
    pub id: String,
    pub label: String,
    pub hint: String,
    pub group: String,
    pub required: bool,
    pub tier: u8,
}

/// A row of the picker: an action, or the header of a group.
pub struct ActionChoice {
    pub id: String,
    pub label: String,
    pub param_hint: String,
    pub header: bool,
    pub required: bool,
    pub tier: i32,
}

/// What the rows of the first `k` entries are, each given by an entry's index: the header of a group,
/// marked by `true`, wherever the group changes, then the entry. An entry without a group leaves the
/// group as it is.
pub open spec fn palette_rows(p: Seq<PaletteEntry>, k: nat) -> Seq<(int, bool)>
    decreases k,
{
    if k == 0 || k > p.len() {
        Seq::empty()
    } else {
        let before = palette_rows(p, (k - 1) as nat);
        let opened = if opens_group(p, k - 1) {
            before.push((k - 1, true))
        } else {
            before
        };
        opened.push((k - 1, false))
    }
}

/// The group that the rows before entry `k` stand in.
pub open spec fn group_before(p: Seq<PaletteEntry>, k: int) -> Seq<char>
    decreases k,
{
    if k <= 0 || k > p.len() {
        Seq::empty()
    } else if p[k - 1].group@.len() > 0 {
        p[k - 1].group@
    } else {
        group_before(p, k - 1)
    }
}

/// The group changes at the entry.
pub open spec fn opens_group(p: Seq<PaletteEntry>, k: int) -> bool {
    p[k].group@.len() > 0 && p[k].group@ != group_before(p, k)
}

/// A row shows an entry, or heads its group.
pub open spec fn choice_shows(c: ActionChoice, e: PaletteEntry, header: bool) -> bool {
    if header {
        c.header && c.id@ == Seq::<char>::empty() && c.label@ == e.group@ && c.param_hint@
            == Seq::<char>::empty() && !c.required && c.tier == 0
    } else {
        !c.header && c.id@ == e.id@ && c.label@ == e.label@ && c.param_hint@ == e.hint@ && c.required
            == e.required && c.tier == e.tier
    }
}

/// The rows of the picker: each group under its header.
pub fn init_action_palette(p: &Vec<PaletteEntry>) -> (r: Vec<ActionChoice>)
    ensures
        r@.len() == palette_rows(p@, p@.len()).len(),
        forall|i: int|
            0 <= i < r@.len() ==> choice_shows(
                #[trigger] r@[i],
                p@[palette_rows(p@, p@.len())[i].0],
                palette_rows(p@, p@.len())[i].1,
            ),
{
    let mut out: Vec<ActionChoice> = Vec::new();
    let mut last: String = String::new();
    let mut i: usize = 0;
    while i < p.len()
        invariant
            i <= p@.len(),
            last@ == group_before(p@, i as int),
            out@.len() == palette_rows(p@, i as nat).len(),
            forall|j: int|
                0 <= j < out@.len() ==> choice_shows(
                    #[trigger] out@[j],
                    p@[palette_rows(p@, i as nat)[j].0],
                    palette_rows(p@, i as nat)[j].1,
                ),
        decreases p@.len() - i,
    {
        let e = &p[i];
        proof {
            reveal_strlit("");
            if e.group@.len() == 0 {
                assert(e.group@ =~= ""@);
            }
        }
        if !same_text(e.group.as_str(), last.as_str()) && !same_text(e.group.as_str(), "") {
            out.push(
                ActionChoice {
                    id: String::new(),
                    label: e.group.clone(),
                    param_hint: String::new(),
                    header: true,
                    required: false,
                    tier: 0,
                },
            );
            last = e.group.clone();
        }
        out.push(
            ActionChoice {
                id: e.id.clone(),
                label: e.label.clone(),
                param_hint: e.hint.clone(),
                header: false,
                required: e.required,
                tier: e.tier as i32,
            },
        );
        i = i + 1;
    }
    out
}

/// The row can be chosen.
pub open spec fn is_choice(rows: Seq<ActionChoice>, i: int) -> bool {
    0 <= i < rows.len() && !rows[i].header
}

/// The first row from `from` on that can be chosen.
pub open spec fn choice_from(rows: Seq<ActionChoice>, from: nat) -> Option<nat>
    decreases rows.len() - from,
{
    if from >= rows.len() {
        None
    } else if is_choice(rows, from as int) {
        Some(from)
    } else {
        choice_from(rows, from + 1)
    }
}

/// The row that is chosen at first: the one under the first header, else the first that can be.
pub open spec fn default_choice(rows: Seq<ActionChoice>) -> int {
    if is_choice(rows, 1) {
        1
    } else {
        match choice_from(rows, 0) {
            Some(i) => i as int,
            None => 1,
        }
    }
}

/// The row that is chosen once the rows were made: never a header where anything can be chosen.
pub fn first_choice(rows: &Vec<ActionChoice>, chosen: i32) -> (r: i32)
    requires
        rows@.len() <= i32::MAX,
    ensures
        r == ({
            let at = if chosen < 0 {
                0
            } else {
                chosen as int
            };
            if is_choice(rows@, at) {
                chosen as int
            } else {
                default_choice(rows@)
            }
        }),
        choice_from(rows@, 0) is Some && chosen >= 0 ==> is_choice(rows@, r as int),
{
    proof {
        lemma_choice_from(rows@, 0);
    }
    let at: usize = if chosen < 0 {
        0
    } else {
        chosen as usize
    };
    if at < rows.len() && !rows[at].header {
        return chosen;
    }
    if 1 < rows.len() && !rows[1].header {
        return 1;
    }
    let mut i: usize = 0;
    while i < rows.len()
        invariant
            i <= rows@.len() <= i32::MAX,
            choice_from(rows@, 0) == choice_from(rows@, i as nat),
            at == if chosen < 0 {
                0
            } else {
                chosen as int
            },
            !is_choice(rows@, at as int),
            !is_choice(rows@, 1),
        decreases rows@.len() - i,
    {
        if !rows[i].header {
            return i as i32;
        }
        i = i + 1;
    }
    1
}

proof fn lemma_choice_from(rows: Seq<ActionChoice>, from: nat)
    ensures
        choice_from(rows, from) matches Some(i) ==> is_choice(rows, i as int),
    decreases rows.len() - from,
{
    if from < rows.len() && !is_choice(rows, from as int) {
        lemma_choice_from(rows, from + 1);
    }
}

/// The id of the chosen action; one beyond the rows does nothing.
pub open spec fn chosen_id(rows: Seq<ActionChoice>, chosen: int) -> Seq<char> {
    let at = if chosen < 0 {
        0
    } else {
        chosen
    };
    if at < rows.len() {
        rows[at].id@
    } else {
        "noop"@
    }
}

/// The chosen action and its parameter.
pub fn current_action(rows: &Vec<ActionChoice>, chosen: i32, param: &str) -> (r: (String, String))
    ensures
        r.0@ == chosen_id(rows@, chosen as int),
        r.1@ == param@,
{
    let at: usize = if chosen < 0 {
        0
    } else {
        chosen as usize
    };
    let id: String = if at < rows.len() {
        rows[at].id.clone()
    } else {
        "noop".to_owned()
    };
    (id, param.to_owned())
}

/// The first row from `from` on that is the action of this id.
pub open spec fn row_of(rows: Seq<ActionChoice>, id: Seq<char>, from: nat) -> Option<nat>
    decreases rows.len() - from,
{
    if from >= rows.len() {
        None
    } else if !rows[from as int].header && rows[from as int].id@ == id {
        Some(from)
    } else {
        row_of(rows, id, from + 1)
    }
}

/// The row of an action.
pub fn choice_of(rows: &Vec<ActionChoice>, id: &str) -> (r: Option<usize>)
    ensures
        match r {
            Some(i) => i < rows@.len() && row_of(rows@, id@, 0) == Some(i as nat),
            None => row_of(rows@, id@, 0) is None,
        },
{
    let mut i: usize = 0;
    while i < rows.len()
        invariant
            i <= rows@.len(),
            row_of(rows@, id@, 0) == row_of(rows@, id@, i as nat),
        decreases rows@.len() - i,
    {
        if !rows[i].header && same_text(rows[i].id.as_str(), id) {
            return Some(i);
        }
        i = i + 1;
    }
    None
}

/// What the picker is set to.
pub struct PickerState {
    pub choice: i32,
    pub param: String,
}

impl PickerState {
    /// Shows an existing action, given as the picker has it: the row, with the action's own parameter
    /// in place of whatever was left there; the first row under the first header where there is none.
    pub fn preset_picker(&mut self, rows: &Vec<ActionChoice>, id: &str, param: &str)
        requires
            rows@.len() <= i32::MAX,
        ensures
            final(self).choice == match row_of(rows@, id@, 0) {
                Some(i) => i as int,
                None => 1,
            },
            final(self).param@ == param@,
    {
        self.choice = match choice_of(rows, id) {
            Some(i) => i as i32,
            None => 1,
        };
        self.param = param.to_owned();
    }

    /// A key, button or chord was pressed, which fills in an action and its parameter. A key fills the
    /// key of a turbo that is chosen, and keeps its rate. The action that was filled in.
    pub fn capture_action_param(&mut self, rows: &Vec<ActionChoice>, id: &str, param: &str) -> (r: String)
        requires
            rows@.len() <= i32::MAX,
        ensures
            r@ == captured_fill(
                chosen_id(rows@, old(self).choice as int),
                old(self).param@,
                id@,
                param@,
            ).0,
            final(self).param@ == captured_fill(
                chosen_id(rows@, old(self).choice as int),
                old(self).param@,
                id@,
                param@,
            ).1,
            final(self).choice == match row_of(rows@, r@, 0) {
                Some(i) => i as int,
                None => old(self).choice as int,
            },
    {
        let (cur_id, cur_param) = current_action(rows, self.choice, self.param.as_str());
        let (id, param): (String, String) = if same_text(cur_id.as_str(), "turbo") && same_text(
            id,
            "key",
        ) {
            ("turbo".to_owned(), turbo_param(cur_param.as_str(), param))
        } else {
            (id.to_owned(), param.to_owned())
        };
        match choice_of(rows, id.as_str()) {
            Some(i) => {
                self.choice = i as i32;
            },
            None => {},
        }
        self.param = param;
        id
    }

    /// A sequence of keys was played, or nothing. What the status line says.
    pub fn keys_recorded(&mut self, rows: &Vec<ActionChoice>, take: &Option<String>) -> (r: String)
        requires
            rows@.len() <= i32::MAX,
        ensures
            match *take {
                Some(g) => final(self).param@ == g@ && final(self).choice == (match row_of(
                    rows@,
                    "keys"@,
                    0,
                ) {
                    Some(i) => i as int,
                    None => old(self).choice as int,
                }) && r@ == "take: "@ + g@ + " — trim or retime it freely"@,
                None => *final(self) == *old(self) && r@ == "recording ended — nothing played"@,
            },
    {
        match take {
            Some(g) => {
                match choice_of(rows, "keys") {
                    Some(i) => {
                        self.choice = i as i32;
                    },
                    None => {},
                }
                self.param = g.clone();
                let mut s = "take: ".to_owned();
                s.append(g.as_str());
                s.append(" — trim or retime it freely");
                s
            },
            None => "recording ended — nothing played".to_owned(),
        }
    }
}

/// The parameter of a turbo with another key: the rate behind the dot is kept.
pub open spec fn turbo_fill(cur: Seq<char>, key: Seq<char>) -> Seq<char> {
    match split_first(cur, "·"@) {
        Some((_, rate)) => if trimmed(rate).len() > 0 {
            key + " · "@ + trimmed(rate)
        } else {
            key
        },
        None => key,
    }
}

/// What a press fills in, given what is chosen.
pub open spec fn captured_fill(
    cur_id: Seq<char>,
    cur_param: Seq<char>,
    id: Seq<char>,
    param: Seq<char>,
) -> (Seq<char>, Seq<char>) {
    if cur_id == "turbo"@ && id == "key"@ {
        ("turbo"@, turbo_fill(cur_param, param))
    } else {
        (id, param)
    }
}

fn turbo_param(cur: &str, key: &str) -> (r: String)
    ensures
        r@ == turbo_fill(cur@, key@),
{
    proof {
        reveal_strlit("·");
    }
    match split_once(cur, "·") {
        Some((_, rate)) => {
            let t = trim(rate.as_str());
            proof {
                reveal_strlit("");
                if t@.len() == 0 {
                    assert(t@ =~= ""@);
                }
            }
            if same_text(t.as_str(), "") {
                key.to_owned()
            } else {
                let mut s = key.to_owned();
                s.append(" · ");
                s.append(t.as_str());
                s
            }
        },
        None => key.to_owned(),
    }
}

/// What is said once a press was captured.
pub fn captured_text(name: &str, id: &str, param: &str) -> (r: String)
    ensures
        r@ == "captured "@ + name@ + " → "@ + id@ + " · "@ + param@,
{
    let mut s = "captured ".to_owned();
    s.append(name);
    s.append(" → ");
    s.append(id);
    s.append(" · ");
    s.append(param);
    s
}

// ── suggestions ─────────────────────────────────────────────────────────────────────────────────

/// What there is to suggest from: the open windows, the saved profiles, the macros and the outputs.
pub struct Known {
    pub windows: Vec<String>,
    pub profiles: Vec<String>,
    pub macros: Vec<String>,
    pub outputs: Vec<String>,
}

/// The suggestions for the parameter of an action.
pub open spec fn suggestions(id: Seq<char>, k: Known) -> Seq<Seq<char>> {
    if id == "glance"@ || id == "summon"@ {
        texts(k.windows@)
    } else if id == "profile"@ {
        texts(k.profiles@)
    } else if id == "macro"@ {
        texts(k.macros@)
    } else if id == "banish"@ {
        seq!["focused"@, "hover"@, "behind"@]
    } else if id == "pin"@ || id == "kill"@ {
        seq!["focused"@, "hover"@]
    } else if id == "ghost-paste"@ {
        seq!["instant"@, "borderline"@, "fast"@, "normal"@]
    } else if id == "momentary-mic"@ {
        seq!["flip"@, "talk"@, "mute"@]
    } else if id == "dial"@ {
        seq!["volume"@, "mic"@]
    } else if id == "output-flip"@ {
        texts(k.outputs@)
    } else {
        Seq::empty()
    }
}

fn words2(a: &str, b: &str) -> (r: Vec<String>)
    ensures
        texts(r@) == seq![a@, b@],
{
    let mut v: Vec<String> = Vec::new();
    v.push(a.to_owned());
    v.push(b.to_owned());
    proof {
        assert(texts(v@) =~= seq![a@, b@]);
    }
    v
}

fn words3(a: &str, b: &str, c: &str) -> (r: Vec<String>)
    ensures
        texts(r@) == seq![a@, b@, c@],
{
    let mut v = words2(a, b);
    let s: String = c.to_owned();
    proof {
        lemma_texts_push(v@, s);
    }
    v.push(s);
    proof {
        assert(texts(v@) =~= seq![a@, b@, c@]);
    }
    v
}

fn words4(a: &str, b: &str, c: &str, d: &str) -> (r: Vec<String>)
    ensures
        texts(r@) == seq![a@, b@, c@, d@],
{
    let mut v = words3(a, b, c);
    let s: String = d.to_owned();
    proof {
        lemma_texts_push(v@, s);
    }
    v.push(s);
    proof {
        assert(texts(v@) =~= seq![a@, b@, c@, d@]);
    }
    v
}

/// The suggestions for the parameter of an action: what it accepts, or what is there to name.
pub fn refresh_param_suggestions(id: &str, k: &Known) -> (r: Vec<String>)
    ensures
        texts(r@) == suggestions(id@, *k),
{
    if same_text(id, "glance") || same_text(id, "summon") {
        copy_texts(&k.windows)
    } else if same_text(id, "profile") {
        copy_texts(&k.profiles)
    } else if same_text(id, "macro") {
        copy_texts(&k.macros)
    } else if same_text(id, "banish") {
        words3("focused", "hover", "behind")
    } else if same_text(id, "pin") || same_text(id, "kill") {
        words2("focused", "hover")
    } else if same_text(id, "ghost-paste") {
        words4("instant", "borderline", "fast", "normal")
    } else if same_text(id, "momentary-mic") {
        words3("flip", "talk", "mute")
    } else if same_text(id, "dial") {
        words2("volume", "mic")
    } else if same_text(id, "output-flip") {
        copy_texts(&k.outputs)
    } else {
        let v: Vec<String> = Vec::new();
        proof {
            assert(texts(v@) =~= Seq::empty());
        }
        v
    }
}

// ── laws ────────────────────────────────────────────────────────────────────────────────────────

proof fn lemma_row_of(rows: Seq<ActionChoice>, id: Seq<char>, from: nat)
    ensures
        match row_of(rows, id, from) {
            Some(i) => from <= i < rows.len() && !rows[i as int].header && rows[i as int].id@ == id,
            None => forall|i: int|
                from <= i < rows.len() ==> rows[i].header || (#[trigger] rows[i]).id@ != id,
        },
    decreases rows.len() - from,
{
    if from < rows.len() {
        lemma_row_of(rows, id, from + 1);
    }
}

/// Once the picker shows an action that has a row, that very action is the chosen one.
pub proof fn law_preset_reads_back(rows: Seq<ActionChoice>, id: Seq<char>)
    requires
        row_of(rows, id, 0) is Some,
    ensures
        chosen_id(rows, row_of(rows, id, 0)->0 as int) == id,
{
    lemma_row_of(rows, id, 0);
}

/// Every entry has exactly one row that is no header: the rows that are none show the entries, each
/// once, in order.
pub proof fn law_every_entry_has_its_row(p: Seq<PaletteEntry>, k: nat, e: int)
    requires
        k <= p.len(),
        0 <= e < k,
    ensures
        exists|i: int|
            0 <= i < palette_rows(p, k).len() && #[trigger] palette_rows(p, k)[i] == (e, false),
        forall|i: int, j: int|
            0 <= i < j < palette_rows(p, k).len() && !(#[trigger] palette_rows(p, k)[i]).1 && !(
            #[trigger] palette_rows(p, k)[j]).1 ==> palette_rows(p, k)[i].0 < palette_rows(
                p,
                k,
            )[j].0,
    decreases k,
{
    lemma_rows_rise(p, k);
    let all = palette_rows(p, k);
    let before = palette_rows(p, (k - 1) as nat);
    if e == k - 1 {
        assert(all[all.len() - 1] == (e, false));
    } else {
        law_every_entry_has_its_row(p, (k - 1) as nat, e);
        let i = choose|i: int| 0 <= i < before.len() && #[trigger] before[i] == (e, false);
        assert(all[i] == before[i]);
    }
}

proof fn lemma_rows_rise(p: Seq<PaletteEntry>, k: nat)
    requires
        k <= p.len(),
    ensures
        forall|i: int|
            0 <= i < palette_rows(p, k).len() ==> 0 <= (#[trigger] palette_rows(p, k)[i]).0 < k,
        forall|i: int, j: int|
            0 <= i < j < palette_rows(p, k).len() && !(#[trigger] palette_rows(p, k)[i]).1 && !(
            #[trigger] palette_rows(p, k)[j]).1 ==> palette_rows(p, k)[i].0 < palette_rows(
                p,
                k,
            )[j].0,
    decreases k,
{
    if k > 0 {
        lemma_rows_rise(p, (k - 1) as nat);
        let all = palette_rows(p, k);
        let before = palette_rows(p, (k - 1) as nat);
        assert forall|i: int| 0 <= i < all.len() implies 0 <= (#[trigger] all[i]).0 < k by {
            if i < before.len() {
                assert(all[i] == before[i]);
            }
        }
        assert forall|i: int, j: int|
            0 <= i < j < all.len() && !(#[trigger] all[i]).1 && !(#[trigger] all[j]).1 implies all[i].0
            < all[j].0 by {
            if j < before.len() {
                assert(all[i] == before[i]);
                assert(all[j] == before[j]);
            } else if i < before.len() {
                assert(all[i] == before[i]);
            }
        }
    }
}

} // verus!
