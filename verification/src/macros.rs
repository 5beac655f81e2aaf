//! The macro constructor's working tree: nodes, paths into the tree, edits in place, and the flat
//! list of rows that the canvas draws.

use vstd::prelude::*;

use crate::text::{
    all_trimmed, drop_empty, lowercase, nonempty, number, parse_number, same_text, split_chars,
    decimal, show_u64, split_first, split_on, split_once, texts, to_lowercase, trim, trim_all, trimmed,
};

verus! {

/// An expression of a macro step.
#[derive(Debug, PartialEq)]
pub enum Value {
    /// A string literal.
    Str { s: String },
    /// An integer literal.
    Int { n: i64 },
    /// A truth value.
    Bool { b: bool },
    /// A field of the macro's context.
    Ctx { field: String },
    /// A binary operation.
    Bin { op: String, left: Box<Value>, right: Box<Value> },
    /// Source text that is kept verbatim.
    Raw { src: String },
}

/// One step of a macro. Flow steps own the bodies of their lanes.
#[derive(Debug, PartialEq)]
pub enum MacroNode {
    Type { text: Value, as_ghost: bool, speed: Option<String> },
    Press { keys: Vec<String> },
    KeyPress { name: String },
    Click { button: String },
    Scroll { amount: Value },
    MoveTo { x: Value, y: Value },
    Copy { text: Value },
    Paste,
    Open { command: Value, capture: Option<String> },
    Focus { window: Value },
    Wait { ms: Value },
    Notify { text: Value },
    Ask { question: Value, description: Value, yes: Vec<MacroNode>, no: Vec<MacroNode> },
    If { cond: Value, then_: Vec<MacroNode>, else_: Vec<MacroNode> },
    RepeatN { count: Value, body: Vec<MacroNode> },
    RepeatWhile { cond: Value, body: Vec<MacroNode> },
    ForEach { var: String, source: Value, body: Vec<MacroNode> },
    SetVar { name: String, value: Value },
    Stop,
    Try { body: Vec<MacroNode>, except_: Vec<MacroNode> },
    Raw { code: String },
}

impl Value {
    /// The string literal `s`.
    pub fn str(s: &str) -> (r: Value)
        ensures
            is_str(r, s@),
    {
        Value::Str { s: s.to_owned() }
    }

    /// The empty string literal.
    pub fn empty_str() -> (r: Value)
        ensures
            is_str(r, Seq::<char>::empty()),
    {
        Value::Str { s: String::new() }
    }

    /// The source text `s`, verbatim.
    pub fn raw(s: &str) -> (r: Value)
        ensures
            is_raw(r, s@),
    {
        Value::Raw { src: s.to_owned() }
    }
}

/// `v` is the string literal `s`.
pub open spec fn is_str(v: Value, s: Seq<char>) -> bool {
    v matches Value::Str { s: t } && t@ == s
}

/// `v` is the verbatim source `s`.
pub open spec fn is_raw(v: Value, s: Seq<char>) -> bool {
    v matches Value::Raw { src: t } && t@ == s
}

// ── kinds and verbs ─────────────────────────────────────────────────────────────────────────────

/// The stable tag of a step's kind.
pub open spec fn kind_of(node: MacroNode) -> Seq<char> {
    match node {
        MacroNode::Type { .. } => "type"@,
        MacroNode::Press { .. } => "press"@,
        MacroNode::KeyPress { .. } => "key_press"@,
        MacroNode::Click { .. } => "click"@,
        MacroNode::Scroll { .. } => "scroll"@,
        MacroNode::MoveTo { .. } => "move_to"@,
        MacroNode::Copy { .. } => "copy"@,
        MacroNode::Paste => "paste"@,
        MacroNode::Open { .. } => "open"@,
        MacroNode::Focus { .. } => "focus"@,
        MacroNode::Wait { .. } => "wait"@,
        MacroNode::Notify { .. } => "notify"@,
        MacroNode::Ask { .. } => "ask"@,
        MacroNode::If { .. } => "if"@,
        MacroNode::RepeatN { .. } => "repeat_n"@,
        MacroNode::RepeatWhile { .. } => "repeat_while"@,
        MacroNode::ForEach { .. } => "for_each"@,
        MacroNode::SetVar { .. } => "set_var"@,
        MacroNode::Stop => "stop"@,
        MacroNode::Try { .. } => "try"@,
        MacroNode::Raw { .. } => "raw"@,
    }
}

/// The plain-language verb that a step of kind `k` shows; nothing for an unknown kind.
pub open spec fn verb_of(k: Seq<char>) -> Seq<char> {
    if k == "key_press"@ {
        "key"@
    } else if k == "move_to"@ {
        "move"@
    } else if k == "repeat_n"@ {
        "repeat"@
    } else if k == "repeat_while"@ {
        "while"@
    } else if k == "for_each"@ {
        "for each"@
    } else if k == "set_var"@ {
        "set"@
    } else if k == "raw"@ {
        "code"@
    } else if known_kind(k) {
        k
    } else {
        Seq::empty()
    }
}

/// The tags that name a kind of step.
pub open spec fn known_kind(k: Seq<char>) -> bool {
    ||| k == "type"@
    ||| k == "press"@
    ||| k == "key_press"@
    ||| k == "click"@
    ||| k == "scroll"@
    ||| k == "move_to"@
    ||| k == "copy"@
    ||| k == "paste"@
    ||| k == "open"@
    ||| k == "focus"@
    ||| k == "wait"@
    ||| k == "notify"@
    ||| k == "ask"@
    ||| k == "if"@
    ||| k == "repeat_n"@
    ||| k == "repeat_while"@
    ||| k == "for_each"@
    ||| k == "set_var"@
    ||| k == "stop"@
    ||| k == "try"@
    ||| k == "raw"@
}

/// The stable tag of a step's kind.
pub fn macro_kind(node: &MacroNode) -> (r: &'static str)
    ensures
        r@ == kind_of(*node),
{
    match node {
        MacroNode::Type { .. } => "type",
        MacroNode::Press { .. } => "press",
        MacroNode::KeyPress { .. } => "key_press",
        MacroNode::Click { .. } => "click",
        MacroNode::Scroll { .. } => "scroll",
        MacroNode::MoveTo { .. } => "move_to",
        MacroNode::Copy { .. } => "copy",
        MacroNode::Paste => "paste",
        MacroNode::Open { .. } => "open",
        MacroNode::Focus { .. } => "focus",
        MacroNode::Wait { .. } => "wait",
        MacroNode::Notify { .. } => "notify",
        MacroNode::Ask { .. } => "ask",
        MacroNode::If { .. } => "if",
        MacroNode::RepeatN { .. } => "repeat_n",
        MacroNode::RepeatWhile { .. } => "repeat_while",
        MacroNode::ForEach { .. } => "for_each",
        MacroNode::SetVar { .. } => "set_var",
        MacroNode::Stop => "stop",
        MacroNode::Try { .. } => "try",
        MacroNode::Raw { .. } => "raw",
    }
}

/// The tags, each of which is its own verb.
fn plain_verb(kind: &str) -> (r: Option<&'static str>)
    ensures
        match r {
            Some(v) => v@ == kind@ && known_kind(kind@),
            None => known_kind(kind@) ==> kind@ == "key_press"@ || kind@ == "move_to"@ || kind@
                == "repeat_n"@ || kind@ == "repeat_while"@ || kind@ == "for_each"@ || kind@
                == "set_var"@ || kind@ == "raw"@,
        },
{
    let plain: [&'static str; 14] = [
        "type",
        "press",
        "click",
        "scroll",
        "copy",
        "paste",
        "open",
        "focus",
        "wait",
        "notify",
        "ask",
        "if",
        "stop",
        "try",
    ];
    let mut i: usize = 0;
    while i < 14
        invariant
            i <= 14,
            plain@ == seq![
                "type",
                "press",
                "click",
                "scroll",
                "copy",
                "paste",
                "open",
                "focus",
                "wait",
                "notify",
                "ask",
                "if",
                "stop",
                "try",
            ],
            forall|j: int| 0 <= j < i ==> plain@[j]@ != kind@,
        decreases 14 - i,
    {
        if same_text(plain[i], kind) {
            return Some(plain[i]);
        }
        i = i + 1;
    }
    None
}

/// The plain-language verb shown on a step of kind `kind`.
pub fn macro_verb(kind: &str) -> (r: &'static str)
    ensures
        r@ == verb_of(kind@),
{
    if same_text(kind, "key_press") {
        "key"
    } else if same_text(kind, "move_to") {
        "move"
    } else if same_text(kind, "repeat_n") {
        "repeat"
    } else if same_text(kind, "repeat_while") {
        "while"
    } else if same_text(kind, "for_each") {
        "for each"
    } else if same_text(kind, "set_var") {
        "set"
    } else if same_text(kind, "raw") {
        "code"
    } else {
        match plain_verb(kind) {
            Some(v) => v,
            None => {
                proof {
                    reveal_strlit("");
                    assert(""@ =~= Seq::<char>::empty());
                }
                ""
            },
        }
    }
}

// ── fresh steps ─────────────────────────────────────────────────────────────────────────────────

/// `node` is the step that a kind starts as: text-like fields empty, counts and coordinates small
/// integers, conditions true, lanes empty.
pub open spec fn fresh(kind: Seq<char>, node: MacroNode) -> bool {
    let none = Seq::<char>::empty();
    if kind == "type"@ {
        node matches MacroNode::Type { text, as_ghost, speed } && is_str(text, none) && !as_ghost
            && speed is None
    } else if kind == "press"@ {
        node matches MacroNode::Press { keys } && keys@.len() == 0
    } else if kind == "key_press"@ {
        node matches MacroNode::KeyPress { name } && name@ == none
    } else if kind == "click"@ {
        node matches MacroNode::Click { button } && button@ == "left"@
    } else if kind == "scroll"@ {
        node == (MacroNode::Scroll { amount: Value::Int { n: 1 } })
    } else if kind == "move_to"@ {
        node == (MacroNode::MoveTo { x: Value::Int { n: 0 }, y: Value::Int { n: 0 } })
    } else if kind == "copy"@ {
        node matches MacroNode::Copy { text } && is_str(text, none)
    } else if kind == "paste"@ {
        node == MacroNode::Paste
    } else if kind == "open"@ {
        node matches MacroNode::Open { command, capture } && is_str(command, none) && capture is None
    } else if kind == "focus"@ {
        node matches MacroNode::Focus { window } && is_str(window, none)
    } else if kind == "wait"@ {
        node == (MacroNode::Wait { ms: Value::Int { n: 500 } })
    } else if kind == "notify"@ {
        node matches MacroNode::Notify { text } && is_str(text, none)
    } else if kind == "ask"@ {
        node matches MacroNode::Ask { question, description, yes, no } && is_str(question, none)
            && is_str(description, none) && yes@.len() == 0 && no@.len() == 0
    } else if kind == "if"@ {
        node matches MacroNode::If { cond, then_, else_ } && cond == (Value::Bool { b: true })
            && then_@.len() == 0 && else_@.len() == 0
    } else if kind == "repeat_n"@ {
        node matches MacroNode::RepeatN { count, body } && count == (Value::Int { n: 1 })
            && body@.len() == 0
    } else if kind == "repeat_while"@ {
        node matches MacroNode::RepeatWhile { cond, body } && cond == (Value::Bool { b: true })
            && body@.len() == 0
    } else if kind == "for_each"@ {
        node matches MacroNode::ForEach { var, source, body } && var@ == "item"@ && is_str(
            source,
            none,
        ) && body@.len() == 0
    } else if kind == "set_var"@ {
        node matches MacroNode::SetVar { name, value } && name@ == "x"@ && is_str(value, none)
    } else if kind == "stop"@ {
        node == MacroNode::Stop
    } else if kind == "try"@ {
        node matches MacroNode::Try { body, except_ } && body@.len() == 0 && except_@.len() == 0
    } else {
        kind == "raw"@ && (node matches MacroNode::Raw { code } && code@ == none)
    }
}

/// The step that a kind starts as; `None` for an unknown kind.
pub fn default_node(kind: &str) -> (r: Option<MacroNode>)
    ensures
        match r {
            Some(node) => known_kind(kind@) && fresh(kind@, node) && kind_of(node) == kind@,
            None => !known_kind(kind@),
        },
{
    if same_text(kind, "type") {
        Some(MacroNode::Type { text: Value::empty_str(), as_ghost: false, speed: None })
    } else if same_text(kind, "press") {
        Some(MacroNode::Press { keys: Vec::new() })
    } else if same_text(kind, "key_press") {
        Some(MacroNode::KeyPress { name: String::new() })
    } else if same_text(kind, "click") {
        Some(MacroNode::Click { button: "left".to_owned() })
    } else if same_text(kind, "scroll") {
        Some(MacroNode::Scroll { amount: Value::Int { n: 1 } })
    } else if same_text(kind, "move_to") {
        Some(MacroNode::MoveTo { x: Value::Int { n: 0 }, y: Value::Int { n: 0 } })
    } else if same_text(kind, "copy") {
        Some(MacroNode::Copy { text: Value::empty_str() })
    } else if same_text(kind, "paste") {
        Some(MacroNode::Paste)
    } else if same_text(kind, "open") {
        Some(MacroNode::Open { command: Value::empty_str(), capture: None })
    } else if same_text(kind, "focus") {
        Some(MacroNode::Focus { window: Value::empty_str() })
    } else if same_text(kind, "wait") {
        Some(MacroNode::Wait { ms: Value::Int { n: 500 } })
    } else if same_text(kind, "notify") {
        Some(MacroNode::Notify { text: Value::empty_str() })
    } else if same_text(kind, "ask") {
        Some(
            MacroNode::Ask {
                question: Value::empty_str(),
                description: Value::empty_str(),
                yes: Vec::new(),
                no: Vec::new(),
            },
        )
    } else if same_text(kind, "if") {
        Some(
            MacroNode::If {
                cond: Value::Bool { b: true },
                then_: Vec::new(),
                else_: Vec::new(),
            },
        )
    } else if same_text(kind, "repeat_n") {
        Some(MacroNode::RepeatN { count: Value::Int { n: 1 }, body: Vec::new() })
    } else if same_text(kind, "repeat_while") {
        Some(MacroNode::RepeatWhile { cond: Value::Bool { b: true }, body: Vec::new() })
    } else if same_text(kind, "for_each") {
        Some(
            MacroNode::ForEach {
                var: "item".to_owned(),
                source: Value::empty_str(),
                body: Vec::new(),
            },
        )
    } else if same_text(kind, "set_var") {
        Some(MacroNode::SetVar { name: "x".to_owned(), value: Value::empty_str() })
    } else if same_text(kind, "stop") {
        Some(MacroNode::Stop)
    } else if same_text(kind, "try") {
        Some(MacroNode::Try { body: Vec::new(), except_: Vec::new() })
    } else if same_text(kind, "raw") {
        Some(MacroNode::Raw { code: String::new() })
    } else {
        None
    }
}

// ── editing a step's field ──────────────────────────────────────────────────────────────────────

/// The separators between the keys of a chord.
pub open spec fn chord_separators() -> Seq<char> {
    seq!['+', ',', ' ']
}

/// The key names of a chord as typed: the trimmed, non-empty pieces between separators.
pub open spec fn chord_parts(v: Seq<char>) -> Seq<Seq<char>> {
    nonempty(all_trimmed(split_on(v, chord_separators())))
}

/// Each member of `ss` in lower case.
pub open spec fn lowered(ss: Seq<Seq<char>>) -> Seq<Seq<char>> {
    Seq::new(ss.len(), |i: int| lowercase(ss[i]))
}

/// The key names of a chord as typed, before their case is folded.
pub fn key_parts(v: &str) -> (r: Vec<String>)
    ensures
        texts(r@) == chord_parts(v@),
{
    let seps: [char; 3] = ['+', ',', ' '];
    proof {
        assert(seps@ =~= chord_separators());
    }
    drop_empty(trim_all(&split_chars(v, &seps)))
}

/// The lower-case key names of a chord.
pub fn split_keys(v: &str) -> (r: Vec<String>)
    ensures
        texts(r@) == lowered(chord_parts(v@)),
{
    let parts = key_parts(v);
    let mut out: Vec<String> = Vec::new();
    let mut i: usize = 0;
    while i < parts.len()
        invariant
            i <= parts@.len(),
            out@.len() == i,
            forall|j: int| 0 <= j < i ==> out@[j]@ == lowercase(parts@[j]@),
        decreases parts@.len() - i,
    {
        out.push(to_lowercase(parts[i].as_str()));
        i = i + 1;
    }
    proof {
        assert(texts(out@) =~= lowered(texts(parts@)));
    }
    out
}

/// `new` is `node` after its field was edited to `v`. Text-like fields become string literals,
/// expression fields verbatim source; "x, y", "var in source" and "name = value" are split back into
/// their parts, and what cannot be split lands in the first or the expression part; a step without a
/// field stays as it is.
pub open spec fn edited(node: MacroNode, new: MacroNode, v: Seq<char>) -> bool {
    match node {
        MacroNode::Type { as_ghost, speed, .. } => new matches MacroNode::Type {
            text,
            as_ghost: g,
            speed: sp,
        } && is_str(text, v) && g == as_ghost && sp == speed,
        MacroNode::Copy { .. } => new matches MacroNode::Copy { text } && is_str(text, v),
        MacroNode::Notify { .. } => new matches MacroNode::Notify { text } && is_str(text, v),
        MacroNode::Open { capture, .. } => new matches MacroNode::Open { command, capture: c }
            && is_str(command, v) && c == capture,
        MacroNode::Focus { .. } => new matches MacroNode::Focus { window } && is_str(window, v),
        MacroNode::Scroll { .. } => new matches MacroNode::Scroll { amount } && is_raw(
            amount,
            trimmed(v),
        ),
        MacroNode::Wait { .. } => new matches MacroNode::Wait { ms } && is_raw(ms, trimmed(v)),
        MacroNode::Ask { description, yes, no, .. } => new matches MacroNode::Ask {
            question,
            description: d,
            yes: y,
            no: n,
        } && is_str(question, v) && d == description && y == yes && n == no,
        MacroNode::If { then_, else_, .. } => new matches MacroNode::If {
            cond,
            then_: t,
            else_: e,
        } && is_raw(cond, trimmed(v)) && t == then_ && e == else_,
        MacroNode::RepeatWhile { body, .. } => new matches MacroNode::RepeatWhile { cond, body: b }
            && is_raw(cond, trimmed(v)) && b == body,
        MacroNode::RepeatN { body, .. } => new matches MacroNode::RepeatN { count, body: b }
            && is_raw(count, trimmed(v)) && b == body,
        MacroNode::MoveTo { y: y0, .. } => new matches MacroNode::MoveTo { x, y }
            && match split_first(v, ","@) {
            Some((a, b)) => is_raw(x, trimmed(a)) && is_raw(y, trimmed(b)),
            None => is_raw(x, trimmed(v)) && y == y0,
        },
        MacroNode::ForEach { var: var0, body: b0, .. } => new matches MacroNode::ForEach {
            var,
            source,
            body,
        } && body == b0 && match split_first(v, " in "@) {
            Some((a, b)) => var@ == trimmed(a) && is_raw(source, trimmed(b)),
            None => var == var0 && is_raw(source, trimmed(v)),
        },
        MacroNode::SetVar { name: name0, .. } => new matches MacroNode::SetVar { name, value }
            && match split_first(v, "="@) {
            Some((a, b)) => name@ == trimmed(a) && is_raw(value, trimmed(b)),
            None => name == name0 && is_raw(value, trimmed(v)),
        },
        MacroNode::Press { .. } => new matches MacroNode::Press { keys } && texts(keys@) == lowered(
            chord_parts(v),
        ),
        MacroNode::KeyPress { .. } => new matches MacroNode::KeyPress { name } && name@ == lowercase(
            trimmed(v),
        ),
        MacroNode::Click { .. } => new matches MacroNode::Click { button } && button@ == lowercase(
            trimmed(v),
        ),
        MacroNode::Raw { .. } => new matches MacroNode::Raw { code } && code@ == v,
        MacroNode::Paste | MacroNode::Stop | MacroNode::Try { .. } => new == node,
    }
}

fn raw_trimmed(v: &str) -> (r: Value)
    ensures
        is_raw(r, trimmed(v@)),
{
    Value::Raw { src: trim(v) }
}

/// Edits a step's field in place.
pub fn edit_node_value(node: &mut MacroNode, v: String)
    ensures
        edited(*old(node), *final(node), v@),
{
    match node {
        MacroNode::Type { text, .. } => {
            *text = Value::Str { s: v };
        },
        MacroNode::Copy { text } => {
            *text = Value::Str { s: v };
        },
        MacroNode::Notify { text } => {
            *text = Value::Str { s: v };
        },
        MacroNode::Open { command, .. } => {
            *command = Value::Str { s: v };
        },
        MacroNode::Focus { window } => {
            *window = Value::Str { s: v };
        },
        MacroNode::Scroll { amount } => {
            *amount = raw_trimmed(v.as_str());
        },
        MacroNode::Wait { ms } => {
            *ms = raw_trimmed(v.as_str());
        },
        MacroNode::Ask { question, .. } => {
            *question = Value::Str { s: v };
        },
        MacroNode::If { cond, .. } => {
            *cond = raw_trimmed(v.as_str());
        },
        MacroNode::RepeatWhile { cond, .. } => {
            *cond = raw_trimmed(v.as_str());
        },
        MacroNode::RepeatN { count, .. } => {
            *count = raw_trimmed(v.as_str());
        },
        MacroNode::MoveTo { x, y } => {
            match split_once(v.as_str(), ",") {
                Some((a, b)) => {
                    *x = raw_trimmed(a.as_str());
                    *y = raw_trimmed(b.as_str());
                },
                None => {
                    *x = raw_trimmed(v.as_str());
                },
            }
        },
        MacroNode::ForEach { var, source, .. } => {
            match split_once(v.as_str(), " in ") {
                Some((a, b)) => {
                    *var = trim(a.as_str());
                    *source = raw_trimmed(b.as_str());
                },
                None => {
                    *source = raw_trimmed(v.as_str());
                },
            }
        },
        MacroNode::SetVar { name, value } => {
            match split_once(v.as_str(), "=") {
                Some((a, b)) => {
                    *name = trim(a.as_str());
                    *value = raw_trimmed(b.as_str());
                },
                None => {
                    *value = raw_trimmed(v.as_str());
                },
            }
        },
        MacroNode::Press { keys } => {
            *keys = split_keys(v.as_str());
        },
        MacroNode::KeyPress { name } => {
            *name = to_lowercase(trim(v.as_str()).as_str());
        },
        MacroNode::Click { button } => {
            *button = to_lowercase(trim(v.as_str()).as_str());
        },
        MacroNode::Raw { code } => {
            *code = v;
        },
        MacroNode::Paste | MacroNode::Stop | MacroNode::Try { .. } => {},
    }
}

// ── paths into the tree ─────────────────────────────────────────────────────────────────────────

/// The body that `arm` names in `node`, if `node` is a flow step with that arm.
pub open spec fn arm_body(node: MacroNode, arm: Seq<char>) -> Option<Vec<MacroNode>> {
    match node {
        MacroNode::Ask { yes, no, .. } => if arm == "yes"@ {
            Some(yes)
        } else if arm == "no"@ {
            Some(no)
        } else {
            None
        },
        MacroNode::If { then_, else_, .. } => if arm == "then"@ {
            Some(then_)
        } else if arm == "else"@ {
            Some(else_)
        } else {
            None
        },
        MacroNode::RepeatN { body, .. } => if arm == "body"@ {
            Some(body)
        } else {
            None
        },
        MacroNode::RepeatWhile { body, .. } => if arm == "body"@ {
            Some(body)
        } else {
            None
        },
        MacroNode::ForEach { body, .. } => if arm == "body"@ {
            Some(body)
        } else {
            None
        },
        MacroNode::Try { body, except_ } => if arm == "body"@ {
            Some(body)
        } else if arm == "error"@ {
            Some(except_)
        } else {
            None
        },
        _ => None,
    }
}

/// `node` with the body that `arm` names replaced by `b`; everything else as it was.
pub open spec fn with_arm(node: MacroNode, arm: Seq<char>, b: Vec<MacroNode>) -> MacroNode {
    match node {
        MacroNode::Ask { question, description, yes, no } => if arm == "yes"@ {
            MacroNode::Ask { question, description, yes: b, no }
        } else {
            MacroNode::Ask { question, description, yes, no: b }
        },
        MacroNode::If { cond, then_, else_ } => if arm == "then"@ {
            MacroNode::If { cond, then_: b, else_ }
        } else {
            MacroNode::If { cond, then_, else_: b }
        },
        MacroNode::RepeatN { count, .. } => MacroNode::RepeatN { count, body: b },
        MacroNode::RepeatWhile { cond, .. } => MacroNode::RepeatWhile { cond, body: b },
        MacroNode::ForEach { var, source, .. } => MacroNode::ForEach { var, source, body: b },
        MacroNode::Try { body, except_ } => if arm == "body"@ {
            MacroNode::Try { body: b, except_ }
        } else {
            MacroNode::Try { body, except_: b }
        },
        other => other,
    }
}

/// The segments of a dot-separated path; empty ones do not count.
pub open spec fn segments(path: Seq<char>) -> Seq<Seq<char>> {
    nonempty(split_on(path, seq!['.']))
}

/// An index segment of a path.
pub open spec fn index_of(seg: Seq<char>) -> Option<nat> {
    number(seg, 10, usize::MAX as nat)
}

/// The body that directly holds the node at `segs`, and the node's index in it.
pub open spec fn find_parent(tree: Seq<MacroNode>, segs: Seq<Seq<char>>) -> Option<
    (Seq<MacroNode>, nat),
>
    decreases segs.len(),
{
    if segs.len() == 0 {
        None
    } else {
        match index_of(segs[0]) {
            Some(idx) => if idx >= tree.len() {
                None
            } else if segs.len() == 1 {
                Some((tree, idx))
            } else {
                match arm_body(tree[idx as int], segs[1]) {
                    Some(b) => find_parent(b@, segs.skip(2)),
                    None => None,
                }
            },
            None => None,
        }
    }
}

/// The body that the insert context `segs` names: the root where it is empty.
pub open spec fn find_body(tree: Seq<MacroNode>, segs: Seq<Seq<char>>) -> Option<Seq<MacroNode>>
    decreases segs.len(),
{
    if segs.len() == 0 {
        Some(tree)
    } else if segs.len() == 1 {
        None
    } else {
        match index_of(segs[0]) {
            Some(idx) => if idx >= tree.len() {
                None
            } else {
                match arm_body(tree[idx as int], segs[1]) {
                    Some(b) => find_body(b@, segs.skip(2)),
                    None => None,
                }
            },
            None => None,
        }
    }
}

/// `new` is `tree` with the body that `segs` leads to replaced by `b`, and nothing else changed.
pub open spec fn rebuilt(
    tree: Seq<MacroNode>,
    new: Seq<MacroNode>,
    segs: Seq<Seq<char>>,
    b: Seq<MacroNode>,
) -> bool
    decreases segs.len(),
{
    if segs.len() < 2 {
        new == b
    } else {
        match index_of(segs[0]) {
            Some(idx) => {
                &&& idx < tree.len()
                &&& new.len() == tree.len()
                &&& new == tree.update(idx as int, new[idx as int])
                &&& arm_body(tree[idx as int], segs[1]) is Some
                &&& arm_body(new[idx as int], segs[1]) is Some
                &&& new[idx as int] == with_arm(
                    tree[idx as int],
                    segs[1],
                    arm_body(new[idx as int], segs[1])->0,
                )
                &&& rebuilt(
                    (arm_body(tree[idx as int], segs[1])->0)@,
                    (arm_body(new[idx as int], segs[1])->0)@,
                    segs.skip(2),
                    b,
                )
            },
            None => false,
        }
    }
}

/// The body that `arm` names in `node`, to change in place.
pub fn node_arm_body<'a>(node: &'a mut MacroNode, arm: &str) -> (r: Option<&'a mut Vec<MacroNode>>)
    ensures
        match r {
            Some(b) => arm_body(*old(node), arm@) == Some(*b) && *final(node) == with_arm(
                *old(node),
                arm@,
                *final(b),
            ),
            None => arm_body(*old(node), arm@) is None && *final(node) == *old(node),
        },
{
    match node {
        MacroNode::Ask { yes, no, .. } => if same_text(arm, "yes") {
            Some(yes)
        } else if same_text(arm, "no") {
            Some(no)
        } else {
            None
        },
        MacroNode::If { then_, else_, .. } => if same_text(arm, "then") {
            Some(then_)
        } else if same_text(arm, "else") {
            Some(else_)
        } else {
            None
        },
        MacroNode::RepeatN { body, .. } => if same_text(arm, "body") {
            Some(body)
        } else {
            None
        },
        MacroNode::RepeatWhile { body, .. } => if same_text(arm, "body") {
            Some(body)
        } else {
            None
        },
        MacroNode::ForEach { body, .. } => if same_text(arm, "body") {
            Some(body)
        } else {
            None
        },
        MacroNode::Try { body, except_ } => if same_text(arm, "body") {
            Some(body)
        } else if same_text(arm, "error") {
            Some(except_)
        } else {
            None
        },
        _ => None,
    }
}

/// The segments of a dot-separated path; empty ones do not count.
pub fn path_segments(path: &str) -> (r: Vec<String>)
    ensures
        texts(r@) == segments(path@),
{
    let dots: [char; 1] = ['.'];
    proof {
        assert(dots@ =~= seq!['.']);
    }
    drop_empty(split_chars(path, &dots))
}

/// The body that `arm` names in `node`, to look at.
pub fn lane_body<'a>(node: &'a MacroNode, arm: &str) -> (r: Option<&'a Vec<MacroNode>>)
    ensures
        match r {
            Some(b) => arm_body(*node, arm@) == Some(*b),
            None => arm_body(*node, arm@) is None,
        },
{
    match node {
        MacroNode::Ask { yes, no, .. } => if same_text(arm, "yes") {
            Some(yes)
        } else if same_text(arm, "no") {
            Some(no)
        } else {
            None
        },
        MacroNode::If { then_, else_, .. } => if same_text(arm, "then") {
            Some(then_)
        } else if same_text(arm, "else") {
            Some(else_)
        } else {
            None
        },
        MacroNode::RepeatN { body, .. } => if same_text(arm, "body") {
            Some(body)
        } else {
            None
        },
        MacroNode::RepeatWhile { body, .. } => if same_text(arm, "body") {
            Some(body)
        } else {
            None
        },
        MacroNode::ForEach { body, .. } => if same_text(arm, "body") {
            Some(body)
        } else {
            None
        },
        MacroNode::Try { body, except_ } => if same_text(arm, "body") {
            Some(body)
        } else if same_text(arm, "error") {
            Some(except_)
        } else {
            None
        },
        _ => None,
    }
}

fn read_index(seg: &str) -> (r: Option<usize>)
    ensures
        match r {
            Some(k) => index_of(seg@) == Some(k as nat),
            None => index_of(seg@) is None,
        },
{
    match parse_number(seg, 10, usize::MAX as u64) {
        Some(v) => Some(v as usize),
        None => None,
    }
}

/// Whether `segs[i..]` leads to a node of `tree`.
fn leads_to_node(tree: &Vec<MacroNode>, segs: &Vec<String>, i: usize) -> (r: bool)
    requires
        i <= segs@.len(),
    ensures
        r == find_parent(tree@, texts(segs@).skip(i as int)) is Some,
    decreases segs@.len() - i,
{
    let n = segs.len();
    if i >= n {
        return false;
    }
    proof {
        assert(texts(segs@).skip(i as int)[0] == segs@[i as int]@);
    }
    match read_index(segs[i].as_str()) {
        None => false,
        Some(idx) => {
            if idx >= tree.len() {
                false
            } else if i + 1 == n {
                true
            } else {
                proof {
                    assert(texts(segs@).skip(i as int)[1] == segs@[i + 1]@);
                    assert(texts(segs@).skip(i as int).skip(2) =~= texts(segs@).skip(i as int + 2));
                }
                match lane_body(&tree[idx], segs[i + 1].as_str()) {
                    Some(b) => leads_to_node(b, segs, i + 2),
                    None => false,
                }
            }
        },
    }
}

/// Whether `segs[i..]` leads to a body of `tree`.
fn leads_to_body(tree: &Vec<MacroNode>, segs: &Vec<String>, i: usize) -> (r: bool)
    requires
        i <= segs@.len(),
    ensures
        r == find_body(tree@, texts(segs@).skip(i as int)) is Some,
    decreases segs@.len() - i,
{
    let n = segs.len();
    if i >= n {
        return true;
    }
    if i + 1 == n {
        return false;
    }
    proof {
        assert(texts(segs@).skip(i as int)[0] == segs@[i as int]@);
        assert(texts(segs@).skip(i as int)[1] == segs@[i + 1]@);
        assert(texts(segs@).skip(i as int).skip(2) =~= texts(segs@).skip(i as int + 2));
    }
    match read_index(segs[i].as_str()) {
        None => false,
        Some(idx) => {
            if idx >= tree.len() {
                false
            } else {
                match lane_body(&tree[idx], segs[i + 1].as_str()) {
                    Some(b) => leads_to_body(b, segs, i + 2),
                    None => false,
                }
            }
        },
    }
}

fn parent_from<'a>(tree: &'a mut Vec<MacroNode>, segs: &Vec<String>, i: usize) -> (r: Option<
    (&'a mut Vec<MacroNode>, usize),
>)
    requires
        i <= segs@.len(),
        find_parent(old(tree)@, texts(segs@).skip(i as int)) is Some,
    ensures
        match r {
            Some((b, k)) => find_parent(old(tree)@, texts(segs@).skip(i as int)) == Some(
                (b@, k as nat),
            ) && k < b@.len() && rebuilt(
                old(tree)@,
                final(tree)@,
                texts(segs@).skip(i as int),
                final(b)@,
            ),
            None => false,
        },
    decreases segs@.len() - i,
{
    let n = segs.len();
    proof {
        assert(texts(segs@).skip(i as int)[0] == segs@[i as int]@);
    }
    let idx: usize = match read_index(segs[i].as_str()) {
        Some(v) => v,
        None => {
            return None;
        },
    };
    if i + 1 == n {
        return Some((tree, idx));
    }
    proof {
        assert(texts(segs@).skip(i as int)[1] == segs@[i + 1]@);
        assert(texts(segs@).skip(i as int).skip(2) =~= texts(segs@).skip(i as int + 2));
    }
    match node_arm_body(&mut tree[idx], segs[i + 1].as_str()) {
        Some(b) => parent_from(b, segs, i + 2),
        None => None,
    }
}

fn body_from<'a>(tree: &'a mut Vec<MacroNode>, segs: &Vec<String>, i: usize) -> (r: Option<
    &'a mut Vec<MacroNode>,
>)
    requires
        i <= segs@.len(),
        find_body(old(tree)@, texts(segs@).skip(i as int)) is Some,
    ensures
        match r {
            Some(b) => find_body(old(tree)@, texts(segs@).skip(i as int)) == Some(b@) && rebuilt(
                old(tree)@,
                final(tree)@,
                texts(segs@).skip(i as int),
                final(b)@,
            ),
            None => false,
        },
    decreases segs@.len() - i,
{
    let n = segs.len();
    if i >= n {
        return Some(tree);
    }
    proof {
        assert(texts(segs@).skip(i as int)[0] == segs@[i as int]@);
        assert(texts(segs@).skip(i as int)[1] == segs@[i + 1]@);
        assert(texts(segs@).skip(i as int).skip(2) =~= texts(segs@).skip(i as int + 2));
    }
    let idx: usize = match read_index(segs[i].as_str()) {
        Some(v) => v,
        None => {
            return None;
        },
    };
    match node_arm_body(&mut tree[idx], segs[i + 1].as_str()) {
        Some(b) => body_from(b, segs, i + 2),
        None => None,
    }
}

/// The body that directly holds the node at `path`, to change in place, and the node's index in it.
/// A number indexes the current body; the arm after it descends into that node's lane.
pub fn parent_body_and_index<'a>(tree: &'a mut Vec<MacroNode>, path: &str) -> (r: Option<
    (&'a mut Vec<MacroNode>, usize),
>)
    ensures
        match r {
            Some((b, k)) => find_parent(old(tree)@, segments(path@)) == Some((b@, k as nat)) && k
                < b@.len() && rebuilt(old(tree)@, final(tree)@, segments(path@), final(b)@),
            None => find_parent(old(tree)@, segments(path@)) is None && *final(tree) == *old(tree),
        },
{
    let segs = path_segments(path);
    proof {
        assert(texts(segs@).skip(0) =~= texts(segs@));
    }
    if !leads_to_node(tree, &segs, 0) {
        return None;
    }
    parent_from(tree, &segs, 0)
}

/// The node at `path`, to change in place.
pub fn node_at_path<'a>(tree: &'a mut Vec<MacroNode>, path: &str) -> (r: Option<&'a mut MacroNode>)
    ensures
        match r {
            Some(node) => match find_parent(old(tree)@, segments(path@)) {
                Some((b, k)) => b[k as int] == *node && rebuilt(
                    old(tree)@,
                    final(tree)@,
                    segments(path@),
                    b.update(k as int, *final(node)),
                ),
                None => false,
            },
            None => find_parent(old(tree)@, segments(path@)) is None && *final(tree) == *old(tree),
        },
{
    match parent_body_and_index(tree, path) {
        Some((body, idx)) => Some(&mut body[idx]),
        None => None,
    }
}

/// The body that the insert context `ctx` names, to change in place: the root where `ctx` is empty,
/// else the lane of a flow step.
pub fn body_at_context<'a>(tree: &'a mut Vec<MacroNode>, ctx: &str) -> (r: Option<
    &'a mut Vec<MacroNode>,
>)
    ensures
        match r {
            Some(b) => find_body(old(tree)@, segments(ctx@)) == Some(b@) && rebuilt(
                old(tree)@,
                final(tree)@,
                segments(ctx@),
                final(b)@,
            ),
            None => find_body(old(tree)@, segments(ctx@)) is None && *final(tree) == *old(tree),
        },
{
    let segs = path_segments(ctx);
    proof {
        assert(texts(segs@).skip(0) =~= texts(segs@));
    }
    if !leads_to_body(tree, &segs, 0) {
        return None;
    }
    body_from(tree, &segs, 0)
}

// ── the canvas operations ───────────────────────────────────────────────────────────────────────

/// Edits the field of the step at `path`; whether there is such a step.
pub fn edit_step(tree: &mut Vec<MacroNode>, path: &str, value: String) -> (done: bool)
    ensures
        done == find_parent(old(tree)@, segments(path@)) is Some,
        !done ==> *final(tree) == *old(tree),
        find_parent(old(tree)@, segments(path@)) matches Some((b, k)) ==> exists|new: MacroNode|
            edited(b[k as int], new, value@) && #[trigger] rebuilt(
                old(tree)@,
                final(tree)@,
                segments(path@),
                b.update(k as int, new),
            ),
{
    match node_at_path(tree, path) {
        Some(node) => {
            edit_node_value(node, value);
            true
        },
        None => false,
    }
}

/// The path of the `i`th step of the body that `ctx` names.
pub open spec fn child_path(ctx: Seq<char>, i: nat) -> Seq<char> {
    if ctx.len() == 0 {
        decimal(i)
    } else {
        ctx + "."@ + decimal(i)
    }
}

/// The path of the `i`th step of the body that `ctx` names.
pub fn path_of_child(ctx: &str, i: usize) -> (r: String)
    ensures
        r@ == child_path(ctx@, i as nat),
{
    if ctx.is_empty() {
        show_u64(i as u64)
    } else {
        let mut s = ctx.to_owned();
        s.append(".");
        s.append(show_u64(i as u64).as_str());
        s
    }
}

/// What adding a step did.
pub struct Added {
    /// The path of the new step.
    pub path: String,
    /// Whether the new step has a field to put the caret in; a raw code step has none.
    pub focus: bool,
}

/// Appends a fresh step of `kind` to the body that `ctx` names. `None`, and nothing changed, where
/// the kind is unknown or the context names no body.
pub fn add_step(tree: &mut Vec<MacroNode>, ctx: &str, kind: &str) -> (r: Option<Added>)
    ensures
        match r {
            Some(added) => known_kind(kind@) && match find_body(old(tree)@, segments(ctx@)) {
                Some(b) => {
                    &&& added.path@ == child_path(ctx@, b.len())
                    &&& added.focus == (kind@ != "raw"@)
                    &&& exists|node: MacroNode| #[trigger]
                        fresh(kind@, node) && rebuilt(
                            old(tree)@,
                            final(tree)@,
                            segments(ctx@),
                            b.push(node),
                        )
                },
                None => false,
            },
            None => *final(tree) == *old(tree) && (!known_kind(kind@) || find_body(
                old(tree)@,
                segments(ctx@),
            ) is None),
        },
{
    let node = match default_node(kind) {
        Some(node) => node,
        None => {
            return None;
        },
    };
    match body_at_context(tree, ctx) {
        Some(body) => {
            let at: usize = body.len();
            body.push(node);
            Some(Added { path: path_of_child(ctx, at), focus: !same_text(kind, "raw") })
        },
        None => None,
    }
}

/// Removes the step at `path`, its lanes with it; whether there was such a step.
pub fn delete_step(tree: &mut Vec<MacroNode>, path: &str) -> (done: bool)
    ensures
        match find_parent(old(tree)@, segments(path@)) {
            Some((b, k)) => done && rebuilt(
                old(tree)@,
                final(tree)@,
                segments(path@),
                b.remove(k as int),
            ),
            None => !done && *final(tree) == *old(tree),
        },
{
    match parent_body_and_index(tree, path) {
        Some((body, idx)) => {
            body.remove(idx);
            true
        },
        None => false,
    }
}

/// `s` with the elements at `i` and `j` exchanged.
pub open spec fn exchanged<T>(s: Seq<T>, i: int, j: int) -> Seq<T> {
    s.update(i, s[j]).update(j, s[i])
}

/// Exchanges two elements.
pub fn exchange<T>(v: &mut Vec<T>, i: usize, j: usize)
    requires
        i < old(v)@.len(),
        j < old(v)@.len(),
    ensures
        final(v)@ == exchanged(old(v)@, i as int, j as int),
{
    if i == j {
        proof {
            assert(exchanged(v@, i as int, j as int) =~= v@);
        }
        return;
    }
    let ghost v0 = v@;
    let (lo, hi): (usize, usize) = if i < j {
        (i, j)
    } else {
        (j, i)
    };
    let b = v.remove(hi);
    let a = v.remove(lo);
    v.insert(lo, b);
    v.insert(hi, a);
    proof {
        assert(v@ =~= exchanged(v0, i as int, j as int));
    }
}

/// Moves the step at `path` by `dir` places within its own body. Nothing changes where there is no
/// such step or the move would leave the body.
pub fn move_step(tree: &mut Vec<MacroNode>, path: &str, dir: i32) -> (done: bool)
    ensures
        match find_parent(old(tree)@, segments(path@)) {
            Some((b, k)) => {
                &&& done == (0 <= k + dir < b.len())
                &&& done ==> rebuilt(
                    old(tree)@,
                    final(tree)@,
                    segments(path@),
                    exchanged(b, k as int, k + dir),
                )
                &&& !done ==> rebuilt(old(tree)@, final(tree)@, segments(path@), b)
            },
            None => !done && *final(tree) == *old(tree),
        },
{
    match parent_body_and_index(tree, path) {
        Some((body, idx)) => {
            let target: i128 = idx as i128 + dir as i128;
            if target >= 0 && target < body.len() as i128 {
                exchange(body, idx, target as usize);
                true
            } else {
                false
            }
        },
        None => false,
    }
}

// ── laws of the tree ────────────────────────────────────────────────────────────────────────────

/// Every step's tag is one that a fresh step can be made from, and a fresh step carries the tag it
/// was made from.
pub proof fn law_kinds_agree(node: MacroNode, kind: Seq<char>)
    ensures
        known_kind(kind_of(node)),
        fresh(kind, node) ==> kind_of(node) == kind,
{
}

/// Every known kind has a verb to show, and nothing else has.
pub proof fn law_known_kinds_have_verbs(kind: Seq<char>)
    ensures
        known_kind(kind) <==> verb_of(kind).len() > 0,
{
    reveal_strlit("type");
    reveal_strlit("press");
    reveal_strlit("key");
    reveal_strlit("click");
    reveal_strlit("scroll");
    reveal_strlit("move");
    reveal_strlit("copy");
    reveal_strlit("paste");
    reveal_strlit("open");
    reveal_strlit("focus");
    reveal_strlit("wait");
    reveal_strlit("notify");
    reveal_strlit("ask");
    reveal_strlit("if");
    reveal_strlit("repeat");
    reveal_strlit("while");
    reveal_strlit("for each");
    reveal_strlit("set");
    reveal_strlit("stop");
    reveal_strlit("try");
    reveal_strlit("code");
}

/// A replaced lane is found again under its arm, and every other arm is as it was.
pub proof fn law_arm_replaced(node: MacroNode, arm: Seq<char>, b: Vec<MacroNode>, other: Seq<char>)
    requires
        arm_body(node, arm) is Some,
    ensures
        arm_body(with_arm(node, arm, b), arm) == Some(b),
        other != arm ==> arm_body(with_arm(node, arm, b), other) == arm_body(node, other),
        kind_of(with_arm(node, arm, b)) == kind_of(node),
{
}

/// After a change at a path, the path leads to the changed body.
pub proof fn law_change_is_found(
    tree: Seq<MacroNode>,
    new: Seq<MacroNode>,
    segs: Seq<Seq<char>>,
    b: Seq<MacroNode>,
)
    requires
        rebuilt(tree, new, segs, b),
    ensures
        find_body(tree, segs) is Some ==> find_body(new, segs) == Some(b),
        find_parent(tree, segs) matches Some((_, k)) ==> (k < b.len() ==> find_parent(new, segs)
            == Some((b, k))),
    decreases segs.len(),
{
    if segs.len() >= 2 {
        match index_of(segs[0]) {
            Some(idx) => {
                law_change_is_found(
                    (arm_body(tree[idx as int], segs[1])->0)@,
                    (arm_body(new[idx as int], segs[1])->0)@,
                    segs.skip(2),
                    b,
                );
            },
            None => {},
        }
    }
}

/// Two paths part ways: at some point they index different steps or enter different lanes, and
/// `segs` goes on into a lane from there.
pub open spec fn part_ways(segs: Seq<Seq<char>>, other: Seq<Seq<char>>) -> bool
    decreases segs.len(),
{
    &&& segs.len() >= 2
    &&& other.len() >= 1
    &&& {
        ||| index_of(other[0]) != index_of(segs[0])
        ||| other.len() >= 2 && other[1] != segs[1]
        ||| other.len() >= 2 && part_ways(segs.skip(2), other.skip(2))
    }
}

/// A change at one path leaves alone every step that another path finds, where the two paths part
/// ways.
pub proof fn law_change_is_local(
    tree: Seq<MacroNode>,
    new: Seq<MacroNode>,
    segs: Seq<Seq<char>>,
    b: Seq<MacroNode>,
    other: Seq<Seq<char>>,
)
    requires
        rebuilt(tree, new, segs, b),
        part_ways(segs, other),
    ensures
        find_parent(tree, other) is Some <==> find_parent(new, other) is Some,
        find_parent(tree, other) matches Some((x, k)) ==> find_parent(new, other) matches Some((y, j))
            && j == k && y.len() == x.len() && y[k as int] == x[k as int],
    decreases segs.len(),
{
    match index_of(segs[0]) {
        Some(idx) => {
            let old_lane = arm_body(tree[idx as int], segs[1])->0;
            let new_lane = arm_body(new[idx as int], segs[1])->0;
            if index_of(other[0]) == index_of(segs[0]) {
                if other.len() >= 2 {
                    law_arm_replaced(tree[idx as int], segs[1], new_lane, other[1]);
                    if other[1] == segs[1] {
                        law_change_is_local(old_lane@, new_lane@, segs.skip(2), b, other.skip(2));
                    }
                }
            } else {
                match index_of(other[0]) {
                    Some(o) => {
                        if o < tree.len() {
                            assert(new[o as int] == tree[o as int]);
                        }
                    },
                    None => {},
                }
            }
        },
        None => {},
    }
}

/// Of two changes at one place only the second shows.
pub proof fn law_later_change_wins(
    tree: Seq<MacroNode>,
    mid: Seq<MacroNode>,
    new: Seq<MacroNode>,
    segs: Seq<Seq<char>>,
    b: Seq<MacroNode>,
    c: Seq<MacroNode>,
)
    requires
        rebuilt(tree, mid, segs, b),
        rebuilt(mid, new, segs, c),
    ensures
        rebuilt(tree, new, segs, c),
    decreases segs.len(),
{
    if segs.len() >= 2 {
        match index_of(segs[0]) {
            Some(idx) => {
                law_later_change_wins(
                    (arm_body(tree[idx as int], segs[1])->0)@,
                    (arm_body(mid[idx as int], segs[1])->0)@,
                    (arm_body(new[idx as int], segs[1])->0)@,
                    segs.skip(2),
                    b,
                    c,
                );
                assert(new =~= tree.update(idx as int, new[idx as int]));
            },
            None => {},
        }
    }
}

/// Moving a step and moving it back leaves its body as it was.
pub proof fn law_move_there_and_back(b: Seq<MacroNode>, k: int, dir: int)
    requires
        0 <= k < b.len(),
        0 <= k + dir < b.len(),
    ensures
        exchanged(exchanged(b, k, k + dir), k + dir, k) == b,
        exchanged(b, k, k + dir).to_multiset() == b.to_multiset(),
{
    assert(exchanged(exchanged(b, k, k + dir), k + dir, k) =~= b);
    if dir == 0 {
        assert(exchanged(b, k, k + dir) =~= b);
    } else {
        broadcast use vstd::seq_lib::to_multiset_update;

        let once = b.update(k, b[k + dir]);
        assert(once.to_multiset() == b.to_multiset().insert(b[k + dir]).remove(b[k]));
        assert(once.update(k + dir, b[k]).to_multiset() == once.to_multiset().insert(b[k]).remove(
            once[k + dir],
        ));
        assert(exchanged(b, k, k + dir).to_multiset() =~= b.to_multiset());
    }
}

/// Deleting the step that was just added leaves the body as it was.
pub proof fn law_added_step_deletes(b: Seq<MacroNode>, node: MacroNode)
    ensures
        b.push(node).remove(b.len() as int) == b,
{
    assert(b.push(node).remove(b.len() as int) =~= b);
}

} // verus!
