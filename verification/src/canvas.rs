//! The constructor canvas: a macro tree laid out as a flat list of rows, each carrying its path
//! back into the tree.

use vstd::prelude::*;

use crate::macros::{
    arm_body, child_path, find_body, find_parent, index_of, kind_of, macro_kind, macro_verb,
    path_of_child, segments, verb_of, MacroNode, Value,
};
use crate::text::{
    decimal, join, joined, law_decimal_reads_back, lemma_decimal_digits, nonempty, split_on, texts,
};

verus! {

/// The lanes of a flow step, in order: the path segment that names the lane, and its body.
pub open spec fn lanes(node: MacroNode) -> Seq<(Seq<char>, Seq<MacroNode>)> {
    match node {
        MacroNode::Ask { yes, no, .. } => seq![("yes"@, yes@), ("no"@, no@)],
        MacroNode::If { then_, else_, .. } => seq![("then"@, then_@), ("else"@, else_@)],
        MacroNode::RepeatN { body, .. } => seq![("body"@, body@)],
        MacroNode::RepeatWhile { body, .. } => seq![("body"@, body@)],
        MacroNode::ForEach { body, .. } => seq![("body"@, body@)],
        MacroNode::Try { body, except_ } => seq![("body"@, body@), ("error"@, except_@)],
        _ => seq![],
    }
}

/// The expressions that a step shows in its own field, in order.
pub open spec fn own_values(node: MacroNode) -> Seq<Value> {
    match node {
        MacroNode::Type { text, .. } => seq![text],
        MacroNode::Copy { text } => seq![text],
        MacroNode::Notify { text } => seq![text],
        MacroNode::Scroll { amount } => seq![amount],
        MacroNode::Wait { ms } => seq![ms],
        MacroNode::Focus { window } => seq![window],
        MacroNode::Open { command, .. } => seq![command],
        MacroNode::MoveTo { x, y } => seq![x, y],
        MacroNode::Ask { question, .. } => seq![question],
        MacroNode::If { cond, .. } => seq![cond],
        MacroNode::RepeatWhile { cond, .. } => seq![cond],
        MacroNode::RepeatN { count, .. } => seq![count],
        MacroNode::ForEach { source, .. } => seq![source],
        MacroNode::SetVar { value, .. } => seq![value],
        _ => seq![],
    }
}

/// A lane is smaller than the step that owns it, and no step owns more than two.
pub proof fn lemma_lane_smaller(node: MacroNode, k: int)
    requires
        0 <= k < lanes(node).len(),
    ensures
        lanes(node).len() <= 2,
        decreases_to!(node => lanes(node)[k].1),
{
}

/// The expressions that a body shows, each step's own before those of its lanes.
pub open spec fn shown(nodes: Seq<MacroNode>) -> Seq<Value>
    decreases nodes, 0nat,
{
    if nodes.len() == 0 {
        Seq::empty()
    } else {
        shown(nodes.drop_last()) + step_shown(nodes.last())
    }
}

/// The expressions that a step and its lanes show.
pub open spec fn step_shown(node: MacroNode) -> Seq<Value>
    decreases node, 3nat,
{
    own_values(node) + lanes_shown(node, lanes(node).len())
}

/// The expressions that the first `k` lanes of a step show.
pub open spec fn lanes_shown(node: MacroNode, k: nat) -> Seq<Value>
    decreases node, k,
{
    if k == 0 || k > lanes(node).len() {
        Seq::empty()
    } else {
        proof {
            lemma_lane_smaller(node, k - 1);
        }
        lanes_shown(node, (k - 1) as nat) + shown(lanes(node)[k - 1].1)
    }
}

/// How many lanes lie within one another at most.
pub open spec fn height(nodes: Seq<MacroNode>) -> nat
    decreases nodes, 0nat,
{
    if nodes.len() == 0 {
        0
    } else {
        let rest = height(nodes.drop_last());
        let last = step_height(nodes.last());
        if rest > last {
            rest
        } else {
            last
        }
    }
}

/// The height of a step: one more than that of its tallest lane, nothing without lanes.
pub open spec fn step_height(node: MacroNode) -> nat
    decreases node, 3nat,
{
    lanes_height(node, lanes(node).len())
}

/// The height of the first `k` lanes of a step.
pub open spec fn lanes_height(node: MacroNode, k: nat) -> nat
    decreases node, k,
{
    if k == 0 || k > lanes(node).len() {
        0
    } else {
        proof {
            lemma_lane_smaller(node, k - 1);
        }
        let rest = lanes_height(node, (k - 1) as nat);
        let last = 1 + height(lanes(node)[k - 1].1);
        if rest > last {
            rest
        } else {
            last
        }
    }
}

proof fn lemma_height_bounds(nodes: Seq<MacroNode>, i: int)
    requires
        0 <= i < nodes.len(),
    ensures
        step_height(nodes[i]) <= height(nodes),
    decreases nodes.len(),
{
    if i < nodes.len() - 1 {
        lemma_height_bounds(nodes.drop_last(), i);
    }
}

proof fn lemma_lane_height_bounds(node: MacroNode, j: int, k: nat)
    requires
        0 <= j < k <= lanes(node).len(),
    ensures
        1 + height(lanes(node)[j].1) <= lanes_height(node, k),
    decreases k,
{
    if j < k - 1 {
        lemma_lane_height_bounds(node, j, (k - 1) as nat);
    }
}

// ── rows ────────────────────────────────────────────────────────────────────────────────────────

/// One row of the canvas: a step, the header of a lane, or an insert point.
#[derive(Debug, PartialEq)]
pub struct MacroBlock {
    /// "step", "lane" or "add".
    pub row: String,
    /// The path of the step, of the step that owns the lane, or of the body to append to.
    pub path: String,
    /// How far the row is indented.
    pub depth: i32,
    /// The kind of the step, or the name of the lane.
    pub kind: String,
    pub verb: String,
    pub value: String,
    /// Whether the step is the last of its body.
    pub last: bool,
}

/// What a row holds.
pub struct BlockView {
    pub row: Seq<char>,
    pub path: Seq<char>,
    pub depth: int,
    pub kind: Seq<char>,
    pub verb: Seq<char>,
    pub value: Seq<char>,
    pub last: bool,
}

impl View for MacroBlock {
    type V = BlockView;

    open spec fn view(&self) -> BlockView {
        BlockView {
            row: self.row@,
            path: self.path@,
            depth: self.depth as int,
            kind: self.kind@,
            verb: self.verb@,
            value: self.value@,
            last: self.last,
        }
    }
}

/// What a list of rows holds.
pub open spec fn rows(v: Seq<MacroBlock>) -> Seq<BlockView> {
    Seq::new(v.len(), |i: int| v[i]@)
}

proof fn lemma_rows_push(v: Seq<MacroBlock>, b: MacroBlock)
    ensures
        rows(v.push(b)) == rows(v).push(b@),
{
    assert(rows(v.push(b)) =~= rows(v).push(b@));
}

/// The text that a step shows in its field, given the source text of its own expressions.
pub open spec fn field_text(node: MacroNode, t: Seq<Seq<char>>) -> Seq<char> {
    match node {
        MacroNode::MoveTo { .. } => t[0] + ", "@ + t[1],
        MacroNode::Press { keys } => joined(texts(keys@), "+"@),
        MacroNode::KeyPress { name } => name@,
        MacroNode::Click { button } => button@,
        MacroNode::ForEach { var, .. } => var@ + " in "@ + t[0],
        MacroNode::SetVar { name, .. } => name@ + " = "@ + t[0],
        MacroNode::Raw { code } => code@,
        MacroNode::Paste | MacroNode::Stop | MacroNode::Try { .. } => Seq::empty(),
        _ => t[0],
    }
}

/// The row of a step.
pub open spec fn step_block(
    node: MacroNode,
    path: Seq<char>,
    depth: int,
    last: bool,
    t: Seq<Seq<char>>,
) -> BlockView {
    BlockView {
        row: "step"@,
        path,
        depth,
        kind: kind_of(node),
        verb: verb_of(kind_of(node)),
        value: field_text(node, t),
        last,
    }
}

/// The header row of a lane of the step at `path`.
pub open spec fn lane_block(arm: Seq<char>, path: Seq<char>, depth: int) -> BlockView {
    BlockView {
        row: "lane"@,
        path,
        depth,
        kind: arm,
        verb: Seq::empty(),
        value: Seq::empty(),
        last: false,
    }
}

/// The insert point of the body that `ctx` names.
pub open spec fn add_block(ctx: Seq<char>, depth: int) -> BlockView {
    BlockView {
        row: "add"@,
        path: ctx,
        depth,
        kind: Seq::empty(),
        verb: Seq::empty(),
        value: Seq::empty(),
        last: false,
    }
}

/// The context of the lane `arm` of the step at `path`.
pub open spec fn lane_path(path: Seq<char>, arm: Seq<char>) -> Seq<char> {
    path + "."@ + arm
}

/// The rows of the first `k` steps of the body that `ctx` names; `t` holds the source texts of the
/// expressions that the body shows.
pub open spec fn body_rows(
    nodes: Seq<MacroNode>,
    k: nat,
    depth: int,
    ctx: Seq<char>,
    t: Seq<Seq<char>>,
) -> Seq<BlockView>
    decreases nodes, k,
{
    if k == 0 || k > nodes.len() {
        Seq::empty()
    } else {
        let from = shown(nodes.take(k - 1)).len() as int;
        let node = nodes[k - 1];
        body_rows(nodes, (k - 1) as nat, depth, ctx, t) + step_rows(
            node,
            child_path(ctx, (k - 1) as nat),
            depth,
            k == nodes.len(),
            t.subrange(from, from + step_shown(node).len()),
        )
    }
}

/// The rows of the step at `path`: its own, then those of its lanes.
pub open spec fn step_rows(
    node: MacroNode,
    path: Seq<char>,
    depth: int,
    last: bool,
    t: Seq<Seq<char>>,
) -> Seq<BlockView>
    decreases node, 3nat,
{
    seq![step_block(node, path, depth, last, t)] + lane_rows(
        node,
        lanes(node).len(),
        depth,
        path,
        t,
    )
}

/// The rows of the first `k` lanes of the step at `path`: a header, the body one level in, and the
/// lane's own insert point.
pub open spec fn lane_rows(
    node: MacroNode,
    k: nat,
    depth: int,
    path: Seq<char>,
    t: Seq<Seq<char>>,
) -> Seq<BlockView>
    decreases node, k,
{
    if k == 0 || k > lanes(node).len() {
        Seq::empty()
    } else {
        proof {
            lemma_lane_smaller(node, k - 1);
        }
        let arm = lanes(node)[k - 1].0;
        let body = lanes(node)[k - 1].1;
        let from = (own_values(node).len() + lanes_shown(node, (k - 1) as nat).len()) as int;
        lane_rows(node, (k - 1) as nat, depth, path, t) + seq![lane_block(arm, path, depth + 1)]
            + body_rows(
            body,
            body.len(),
            depth + 2,
            lane_path(path, arm),
            t.subrange(from, from + shown(body).len()),
        ) + seq![add_block(lane_path(path, arm), depth + 2)]
    }
}

/// All rows of the body that `ctx` names, its insert point last.
pub open spec fn canvas(
    nodes: Seq<MacroNode>,
    depth: int,
    ctx: Seq<char>,
    t: Seq<Seq<char>>,
) -> Seq<BlockView> {
    body_rows(nodes, nodes.len(), depth, ctx, t) + seq![add_block(ctx, depth)]
}

// ── the executable side ─────────────────────────────────────────────────────────────────────────

/// The lanes of a flow step: label, path segment and body of each.
pub fn node_lanes<'a>(node: &'a MacroNode) -> (r: Vec<
    (&'static str, &'static str, &'a [MacroNode]),
>)
    ensures
        r@.len() == lanes(*node).len(),
        forall|i: int|
            0 <= i < r@.len() ==> (#[trigger] r@[i]).0@ == lanes(*node)[i].0 && r@[i].1@ == lanes(
                *node,
            )[i].0 && r@[i].2@ == lanes(*node)[i].1,
{
    let mut r: Vec<(&'static str, &'static str, &'a [MacroNode])> = Vec::new();
    match node {
        MacroNode::Ask { yes, no, .. } => {
            r.push(("yes", "yes", yes.as_slice()));
            r.push(("no", "no", no.as_slice()));
        },
        MacroNode::If { then_, else_, .. } => {
            r.push(("then", "then", then_.as_slice()));
            r.push(("else", "else", else_.as_slice()));
        },
        MacroNode::RepeatN { body, .. } => {
            r.push(("body", "body", body.as_slice()));
        },
        MacroNode::RepeatWhile { body, .. } => {
            r.push(("body", "body", body.as_slice()));
        },
        MacroNode::ForEach { body, .. } => {
            r.push(("body", "body", body.as_slice()));
        },
        MacroNode::Try { body, except_ } => {
            r.push(("body", "body", body.as_slice()));
            r.push(("error", "error", except_.as_slice()));
        },
        _ => {},
    }
    r
}

/// The expressions behind a list of references.
pub open spec fn values(v: Seq<&Value>) -> Seq<Value> {
    Seq::new(v.len(), |i: int| *v[i])
}

fn push_own<'a>(node: &'a MacroNode, out: &mut Vec<&'a Value>)
    ensures
        values(final(out)@) == values(old(out)@) + own_values(*node),
{
    let ghost before = values(out@);
    match node {
        MacroNode::Type { text, .. } => out.push(text),
        MacroNode::Copy { text } => out.push(text),
        MacroNode::Notify { text } => out.push(text),
        MacroNode::Scroll { amount } => out.push(amount),
        MacroNode::Wait { ms } => out.push(ms),
        MacroNode::Focus { window } => out.push(window),
        MacroNode::Open { command, .. } => out.push(command),
        MacroNode::MoveTo { x, y } => {
            out.push(x);
            out.push(y);
        },
        MacroNode::Ask { question, .. } => out.push(question),
        MacroNode::If { cond, .. } => out.push(cond),
        MacroNode::RepeatWhile { cond, .. } => out.push(cond),
        MacroNode::RepeatN { count, .. } => out.push(count),
        MacroNode::ForEach { source, .. } => out.push(source),
        MacroNode::SetVar { value, .. } => out.push(value),
        _ => {},
    }
    proof {
        assert(values(out@) =~= before + own_values(*node));
    }
}

fn push_shown<'a>(nodes: &'a [MacroNode], out: &mut Vec<&'a Value>)
    ensures
        values(final(out)@) == values(old(out)@) + shown(nodes@),
    decreases nodes@,
{
    let ghost before = values(out@);
    let mut i: usize = 0;
    proof {
        assert(nodes@.take(0) =~= Seq::<MacroNode>::empty());
        assert(before + shown(nodes@.take(0)) =~= before);
    }
    while i < nodes.len()
        invariant
            i <= nodes@.len(),
            values(out@) == before + shown(nodes@.take(i as int)),
        decreases nodes@.len() - i,
    {
        let node = &nodes[i];
        push_own(node, out);
        let ls = node_lanes(node);
        let mut j: usize = 0;
        proof {
            assert(before + shown(nodes@.take(i as int)) + own_values(*node) + lanes_shown(*node, 0)
                =~= before + shown(nodes@.take(i as int)) + own_values(*node));
        }
        while j < ls.len()
            invariant
                i < nodes@.len(),
                *node == nodes@[i as int],
                j <= ls@.len(),
                ls@.len() == lanes(*node).len(),
                forall|k: int|
                    0 <= k < ls@.len() ==> (#[trigger] ls@[k]).0@ == lanes(*node)[k].0
                        && ls@[k].1@ == lanes(*node)[k].0 && ls@[k].2@ == lanes(*node)[k].1,
                values(out@) == before + shown(nodes@.take(i as int)) + own_values(*node)
                    + lanes_shown(*node, j as nat),
            decreases ls@.len() - j,
        {
            proof {
                lemma_lane_smaller(*node, j as int);
                assert(decreases_to!(nodes@ => nodes@[i as int]));
            }
            push_shown(ls[j].2, out);
            proof {
                assert(before + shown(nodes@.take(i as int)) + own_values(*node) + lanes_shown(
                    *node,
                    (j + 1) as nat,
                ) =~= before + shown(nodes@.take(i as int)) + own_values(*node) + lanes_shown(
                    *node,
                    j as nat,
                ) + shown(lanes(*node)[j as int].1));
            }
            j = j + 1;
        }
        proof {
            let next = nodes@.take(i as int + 1);
            assert(next.drop_last() =~= nodes@.take(i as int));
            assert(next.last() == *node);
            assert(shown(next) == shown(nodes@.take(i as int)) + step_shown(*node));
            assert(step_shown(*node) == own_values(*node) + lanes_shown(*node, lanes(*node).len()));
            assert(before + shown(next) =~= before + shown(nodes@.take(i as int)) + own_values(
                *node,
            ) + lanes_shown(*node, lanes(*node).len()));
        }
        i = i + 1;
    }
    proof {
        assert(nodes@.take(nodes@.len() as int) =~= nodes@);
    }
}

/// The expressions whose source text the canvas needs, in the order in which `flatten_macro` takes
/// them.
pub fn shown_values<'a>(nodes: &'a [MacroNode]) -> (r: Vec<&'a Value>)
    ensures
        values(r@) == shown(nodes@),
{
    let mut out: Vec<&'a Value> = Vec::new();
    push_shown(nodes, &mut out);
    proof {
        assert(Seq::<Value>::empty() + shown(nodes@) =~= shown(nodes@));
        assert(values(Seq::<&Value>::empty()) =~= Seq::<Value>::empty());
    }
    out
}

/// The text of a step's field; `sources` holds the source texts of the shown expressions, those of
/// this step from `at` on.
pub fn macro_value(node: &MacroNode, sources: &Vec<String>, at: usize) -> (r: String)
    requires
        at + own_values(*node).len() <= sources@.len(),
    ensures
        r@ == field_text(*node, texts(sources@).skip(at as int)),
{
    let held: usize = sources.len();
    proof {
        assert(held == sources@.len());
        if own_values(*node).len() > 0 {
            assert(texts(sources@).skip(at as int)[0] == sources@[at as int]@);
        }
        if own_values(*node).len() > 1 {
            assert(texts(sources@).skip(at as int)[1] == sources@[at + 1]@);
        }
    }
    match node {
        MacroNode::MoveTo { .. } => {
            let mut s = sources[at].clone();
            s.append(", ");
            s.append(sources[at + 1].as_str());
            s
        },
        MacroNode::Press { keys } => join(keys, "+"),
        MacroNode::KeyPress { name } => name.clone(),
        MacroNode::Click { button } => button.clone(),
        MacroNode::ForEach { var, .. } => {
            let mut s = var.clone();
            s.append(" in ");
            s.append(sources[at].as_str());
            s
        },
        MacroNode::SetVar { name, .. } => {
            let mut s = name.clone();
            s.append(" = ");
            s.append(sources[at].as_str());
            s
        },
        MacroNode::Raw { code } => code.clone(),
        MacroNode::Paste | MacroNode::Stop | MacroNode::Try { .. } => String::new(),
        _ => sources[at].clone(),
    }
}

/// The insert point of the body that `ctx` names.
pub fn add_row(ctx: &str, depth: i32) -> (r: MacroBlock)
    ensures
        r@ == add_block(ctx@, depth as int),
{
    MacroBlock {
        row: "add".to_owned(),
        path: ctx.to_owned(),
        depth,
        kind: String::new(),
        verb: String::new(),
        value: String::new(),
        last: false,
    }
}

/// How many expressions a step shows in its own field.
fn own_count(node: &MacroNode) -> (r: usize)
    ensures
        r == own_values(*node).len(),
{
    match node {
        MacroNode::Press { .. } | MacroNode::KeyPress { .. } | MacroNode::Click { .. }
        | MacroNode::Paste | MacroNode::Stop | MacroNode::Try { .. } | MacroNode::Raw { .. } => 0,
        MacroNode::MoveTo { .. } => 2,
        _ => 1,
    }
}

proof fn lemma_shown_grows(nodes: Seq<MacroNode>, k: int)
    requires
        0 <= k < nodes.len(),
    ensures
        shown(nodes.take(k + 1)) == shown(nodes.take(k)) + step_shown(nodes[k]),
        shown(nodes.take(k + 1)).len() <= shown(nodes).len(),
    decreases nodes.len() - k,
{
    assert(nodes.take(k + 1).drop_last() =~= nodes.take(k));
    assert(nodes.take(k + 1).last() == nodes[k]);
    if k + 1 < nodes.len() {
        lemma_shown_grows(nodes, k + 1);
    } else {
        assert(nodes.take(k + 1) =~= nodes);
    }
}

proof fn lemma_lanes_shown_grow(node: MacroNode, k: nat)
    requires
        k < lanes(node).len(),
    ensures
        lanes_shown(node, k + 1) == lanes_shown(node, k) + shown(lanes(node)[k as int].1),
        lanes_shown(node, k + 1).len() <= lanes_shown(node, lanes(node).len()).len(),
    decreases lanes(node).len() - k,
{
    if k + 1 < lanes(node).len() {
        lemma_lanes_shown_grow(node, k + 1);
    }
}

/// The source texts that a step does not use do not matter to its own field.
pub(crate) proof fn lemma_field_text(node: MacroNode, a: Seq<Seq<char>>, b: Seq<Seq<char>>)
    requires
        own_values(node).len() <= a.len(),
        own_values(node).len() <= b.len(),
        forall|i: int| 0 <= i < own_values(node).len() ==> a[i] == b[i],
    ensures
        field_text(node, a) == field_text(node, b),
{
}

/// Emits the rows of a body without its insert point, appended to `out`; `prefix` is the context of
/// the body. The source texts of its expressions start at `at`; gives the index behind them.
pub fn emit_body(
    nodes: &[MacroNode],
    depth: i32,
    prefix: &str,
    sources: &Vec<String>,
    at: usize,
    out: &mut Vec<MacroBlock>,
) -> (next: usize)
    requires
        at + shown(nodes@).len() <= sources@.len(),
        depth + 2 * height(nodes@) <= i32::MAX,
    ensures
        next == at + shown(nodes@).len(),
        old(out)@.is_prefix_of(final(out)@),
        rows(final(out)@) == rows(old(out)@) + body_rows(
            nodes@,
            nodes@.len(),
            depth as int,
            prefix@,
            texts(sources@).subrange(at as int, at + shown(nodes@).len()),
        ),
    decreases nodes@,
{
    let ghost first = out@;
    let ghost before = rows(out@);
    let ghost t = texts(sources@).subrange(at as int, at + shown(nodes@).len());
    let ghost d = depth as int;
    let ghost ctx = prefix@;
    let held: usize = sources.len();
    let mut pos: usize = at;
    let mut i: usize = 0;
    proof {
        assert(nodes@.take(0) =~= Seq::<MacroNode>::empty());
        assert(before + body_rows(nodes@, 0, d, ctx, t) =~= before);
    }
    while i < nodes.len()
        invariant
            i <= nodes@.len(),
            d == depth,
            held == sources@.len(),
            ctx == prefix@,
            depth + 2 * height(nodes@) <= i32::MAX,
            at + shown(nodes@).len() <= sources@.len(),
            t == texts(sources@).subrange(at as int, at + shown(nodes@).len()),
            pos == at + shown(nodes@.take(i as int)).len(),
            first.is_prefix_of(out@),
            rows(out@) == before + body_rows(nodes@, i as nat, d, ctx, t),
        decreases nodes@.len() - i,
    {
        let node = &nodes[i];
        let total: usize = nodes.len();
        let ghost path = child_path(ctx, i as nat);
        let ghost done = before + body_rows(nodes@, i as nat, d, ctx, t);
        let ghost off = shown(nodes@.take(i as int)).len() as int;
        let ghost tt = t.subrange(off, off + step_shown(*node).len());
        proof {
            lemma_shown_grows(nodes@, i as int);
            lemma_height_bounds(nodes@, i as int);
            assert(step_shown(*node) == own_values(*node) + lanes_shown(*node, lanes(*node).len()));
            assert forall|q: int| 0 <= q < own_values(*node).len() implies texts(sources@).skip(
                pos as int,
            )[q] == tt[q] by {}
            lemma_field_text(*node, texts(sources@).skip(pos as int), tt);
        }
        let path_s = path_of_child(prefix, i);
        let kind = macro_kind(node);
        let block = MacroBlock {
            row: "step".to_owned(),
            path: path_s.clone(),
            depth,
            kind: kind.to_owned(),
            verb: macro_verb(kind).to_owned(),
            value: macro_value(node, sources, pos),
            last: i + 1 == total,
        };
        proof {
            lemma_rows_push(out@, block);
            assert(block@ == step_block(*node, path, d, i + 1 == nodes@.len(), tt));
        }
        out.push(block);
        let ghost head = done.push(block@);
        pos = pos + own_count(node);
        let ls = node_lanes(node);
        let mut j: usize = 0;
        proof {
            assert(head + lane_rows(*node, 0, d, path, tt) =~= head);
        }
        while j < ls.len()
            invariant
                i < nodes@.len(),
                *node == nodes@[i as int],
                d == depth,
                depth + 2 * height(nodes@) <= i32::MAX,
                step_height(*node) <= height(nodes@),
                j <= ls@.len(),
                ls@.len() == lanes(*node).len(),
                forall|k: int|
                    0 <= k < ls@.len() ==> (#[trigger] ls@[k]).0@ == lanes(*node)[k].0
                        && ls@[k].1@ == lanes(*node)[k].0 && ls@[k].2@ == lanes(*node)[k].1,
                path_s@ == path,
                at + shown(nodes@).len() <= sources@.len(),
                t == texts(sources@).subrange(at as int, at + shown(nodes@).len()),
                off == shown(nodes@.take(i as int)).len(),
                off + step_shown(*node).len() <= shown(nodes@).len(),
                tt == t.subrange(off, off + step_shown(*node).len()),
                step_shown(*node) == own_values(*node) + lanes_shown(*node, lanes(*node).len()),
                pos == at + off + own_values(*node).len() + lanes_shown(*node, j as nat).len(),
                first.is_prefix_of(out@),
                rows(out@) == head + lane_rows(*node, j as nat, d, path, tt),
            decreases ls@.len() - j,
        {
            let ghost arm = lanes(*node)[j as int].0;
            let ghost body = lanes(*node)[j as int].1;
            let ghost from = (own_values(*node).len() + lanes_shown(*node, j as nat).len()) as int;
            proof {
                lemma_lane_smaller(*node, j as int);
                assert(decreases_to!(nodes@ => nodes@[i as int]));
                lemma_lane_height_bounds(*node, j as int, lanes(*node).len());
                lemma_lanes_shown_grow(*node, j as nat);
                assert(texts(sources@).subrange(pos as int, pos + shown(body).len())
                    =~= tt.subrange(from, from + shown(body).len()));
            }
            let mut lane_ctx = path_s.clone();
            lane_ctx.append(".");
            lane_ctx.append(ls[j].1);
            let header = MacroBlock {
                row: "lane".to_owned(),
                path: path_s.clone(),
                depth: depth + 1,
                kind: ls[j].0.to_owned(),
                verb: String::new(),
                value: String::new(),
                last: false,
            };
            let ghost o0 = rows(out@);
            proof {
                lemma_rows_push(out@, header);
                assert(header@ == lane_block(arm, path, d + 1));
                assert(lane_ctx@ == lane_path(path, arm));
            }
            out.push(header);
            let ghost headed = out@;
            pos = emit_body(ls[j].2, depth + 2, lane_ctx.as_str(), sources, pos, out);
            let point = add_row(lane_ctx.as_str(), depth + 2);
            proof {
                assert(first =~= headed.take(first.len() as int));
                assert(headed =~= out@.take(headed.len() as int));
                assert(first =~= out@.take(first.len() as int));
                lemma_rows_push(out@, point);
            }
            out.push(point);
            proof {
                assert(rows(out@) =~= head + lane_rows(*node, (j + 1) as nat, d, path, tt));
            }
            j = j + 1;
        }
        proof {
            let all = lane_rows(*node, lanes(*node).len(), d, path, tt);
            let own = seq![step_block(*node, path, d, i + 1 == nodes@.len(), tt)];
            assert(step_rows(*node, path, d, i + 1 == nodes@.len(), tt) == own + all);
            assert(body_rows(nodes@, (i + 1) as nat, d, ctx, t) == body_rows(
                nodes@,
                i as nat,
                d,
                ctx,
                t,
            ) + (own + all));
            assert(rows(out@) =~= before + body_rows(nodes@, (i + 1) as nat, d, ctx, t));
        }
        i = i + 1;
    }
    proof {
        assert(nodes@.take(nodes@.len() as int) =~= nodes@);
    }
    pos
}

/// Lays a tree out as rows, appended to `out`; `prefix` is the context of the body and `sources`
/// holds the source text of each of `shown_values(nodes)`.
pub fn flatten_macro(
    nodes: &[MacroNode],
    depth: i32,
    prefix: &str,
    sources: &Vec<String>,
    out: &mut Vec<MacroBlock>,
)
    requires
        sources@.len() == shown(nodes@).len(),
        depth + 2 * height(nodes@) <= i32::MAX,
    ensures
        old(out)@.is_prefix_of(final(out)@),
        rows(final(out)@) == rows(old(out)@) + canvas(
            nodes@,
            depth as int,
            prefix@,
            texts(sources@),
        ),
{
    let ghost before = rows(out@);
    proof {
        assert(texts(sources@).subrange(0, shown(nodes@).len() as int) =~= texts(sources@));
    }
    let _ = emit_body(nodes, depth, prefix, sources, 0, out);
    let point = add_row(prefix, depth);
    proof {
        lemma_rows_push(out@, point);
    }
    out.push(point);
    proof {
        assert(rows(out@) =~= before + canvas(nodes@, depth as int, prefix@, texts(sources@)));
    }
}

// ── counting ────────────────────────────────────────────────────────────────────────────────────

/// How many steps a body holds, those in lanes counted in.
pub open spec fn node_count(nodes: Seq<MacroNode>) -> nat
    decreases nodes, 0nat,
{
    if nodes.len() == 0 {
        0
    } else {
        node_count(nodes.drop_last()) + 1 + lanes_count(nodes.last(), lanes(nodes.last()).len())
    }
}

/// How many steps the first `k` lanes of a step hold.
pub open spec fn lanes_count(node: MacroNode, k: nat) -> nat
    decreases node, k,
{
    if k == 0 || k > lanes(node).len() {
        0
    } else {
        proof {
            lemma_lane_smaller(node, k - 1);
        }
        lanes_count(node, (k - 1) as nat) + node_count(lanes(node)[k - 1].1)
    }
}

pub(crate) proof fn lemma_count_grows(nodes: Seq<MacroNode>, k: int)
    requires
        0 <= k < nodes.len(),
    ensures
        node_count(nodes.take(k + 1)) == node_count(nodes.take(k)) + 1 + lanes_count(
            nodes[k],
            lanes(nodes[k]).len(),
        ),
        node_count(nodes.take(k + 1)) <= node_count(nodes),
    decreases nodes.len() - k,
{
    assert(nodes.take(k + 1).drop_last() =~= nodes.take(k));
    assert(nodes.take(k + 1).last() == nodes[k]);
    if k + 1 < nodes.len() {
        lemma_count_grows(nodes, k + 1);
    } else {
        assert(nodes.take(k + 1) =~= nodes);
    }
}

proof fn lemma_lanes_count_grow(node: MacroNode, k: nat)
    requires
        k < lanes(node).len(),
    ensures
        lanes_count(node, k + 1) == lanes_count(node, k) + node_count(lanes(node)[k as int].1),
        lanes_count(node, k + 1) <= lanes_count(node, lanes(node).len()),
    decreases lanes(node).len() - k,
{
    if k + 1 < lanes(node).len() {
        lemma_lanes_count_grow(node, k + 1);
    }
}

/// How many steps a tree holds, those in lanes counted in.
pub fn count_macro_nodes(nodes: &[MacroNode]) -> (r: i32)
    requires
        node_count(nodes@) <= i32::MAX,
    ensures
        r == node_count(nodes@),
    decreases nodes@,
{
    let mut n: i32 = 0;
    let mut i: usize = 0;
    proof {
        assert(nodes@.take(0) =~= Seq::<MacroNode>::empty());
    }
    while i < nodes.len()
        invariant
            i <= nodes@.len(),
            n == node_count(nodes@.take(i as int)),
            node_count(nodes@) <= i32::MAX,
        decreases nodes@.len() - i,
    {
        let node = &nodes[i];
        proof {
            lemma_count_grows(nodes@, i as int);
        }
        n = n + 1;
        let ls = node_lanes(node);
        let mut j: usize = 0;
        while j < ls.len()
            invariant
                i < nodes@.len(),
                *node == nodes@[i as int],
                j <= ls@.len(),
                ls@.len() == lanes(*node).len(),
                forall|k: int|
                    0 <= k < ls@.len() ==> (#[trigger] ls@[k]).2@ == lanes(*node)[k].1,
                n == node_count(nodes@.take(i as int)) + 1 + lanes_count(*node, j as nat),
                node_count(nodes@.take(i as int)) + 1 + lanes_count(*node, lanes(*node).len())
                    <= i32::MAX,
            decreases ls@.len() - j,
        {
            proof {
                lemma_lane_smaller(*node, j as int);
                assert(decreases_to!(nodes@ => nodes@[i as int]));
                lemma_lanes_count_grow(*node, j as nat);
            }
            n = n + count_macro_nodes(ls[j].2);
            j = j + 1;
        }
        i = i + 1;
    }
    proof {
        assert(nodes@.take(nodes@.len() as int) =~= nodes@);
    }
    n
}

/// How many steps a tree holds, `cap` where they are as many or more.
fn capped_count(nodes: &[MacroNode], cap: u32) -> (r: u32)
    requires
        cap < u32::MAX,
    ensures
        r == if node_count(nodes@) <= cap {
            node_count(nodes@)
        } else {
            cap as nat
        },
    decreases nodes@,
{
    let mut n: u32 = 0;
    let mut i: usize = 0;
    proof {
        assert(nodes@.take(0) =~= Seq::<MacroNode>::empty());
    }
    while i < nodes.len()
        invariant
            i <= nodes@.len(),
            cap < u32::MAX,
            n <= cap,
            n == if node_count(nodes@.take(i as int)) <= cap {
                node_count(nodes@.take(i as int))
            } else {
                cap as nat
            },
        decreases nodes@.len() - i,
    {
        let node = &nodes[i];
        let ghost before = node_count(nodes@.take(i as int)) + 1;
        proof {
            lemma_count_grows(nodes@, i as int);
        }
        if n < cap {
            n = n + 1;
        }
        let ls = node_lanes(node);
        let mut j: usize = 0;
        while j < ls.len()
            invariant
                i < nodes@.len(),
                *node == nodes@[i as int],
                j <= ls@.len(),
                ls@.len() == lanes(*node).len(),
                forall|k: int|
                    0 <= k < ls@.len() ==> (#[trigger] ls@[k]).2@ == lanes(*node)[k].1,
                cap < u32::MAX,
                n <= cap,
                n == if before + lanes_count(*node, j as nat) <= cap {
                    before + lanes_count(*node, j as nat)
                } else {
                    cap as nat
                },
            decreases ls@.len() - j,
        {
            proof {
                lemma_lane_smaller(*node, j as int);
                assert(decreases_to!(nodes@ => nodes@[i as int]));
                lemma_lanes_count_grow(*node, j as nat);
            }
            let m: u32 = capped_count(ls[j].2, cap);
            n = if m < cap - n {
                n + m
            } else {
                cap
            };
            j = j + 1;
        }
        i = i + 1;
    }
    proof {
        assert(nodes@.take(nodes@.len() as int) =~= nodes@);
    }
    n
}

/// Whether the steps of a tree can be counted.
pub fn count_fits(nodes: &[MacroNode]) -> (r: bool)
    ensures
        r == (node_count(nodes@) <= i32::MAX),
{
    capped_count(nodes, 0x8000_0000) < 0x8000_0000
}

proof fn lemma_height_grows(nodes: Seq<MacroNode>, k: int)
    requires
        0 <= k < nodes.len(),
    ensures
        height(nodes.take(k + 1)) == if height(nodes.take(k)) > step_height(nodes[k]) {
            height(nodes.take(k))
        } else {
            step_height(nodes[k])
        },
{
    assert(nodes.take(k + 1).drop_last() =~= nodes.take(k));
    assert(nodes.take(k + 1).last() == nodes[k]);
}

/// The height of a tree, `cap` where it is as tall or taller.
fn capped_height(nodes: &[MacroNode], cap: u32) -> (r: u32)
    ensures
        r == if height(nodes@) <= cap {
            height(nodes@)
        } else {
            cap as nat
        },
    decreases nodes@,
{
    let mut tallest: u32 = 0;
    let mut i: usize = 0;
    proof {
        assert(nodes@.take(0) =~= Seq::<MacroNode>::empty());
    }
    while i < nodes.len()
        invariant
            i <= nodes@.len(),
            tallest == if height(nodes@.take(i as int)) <= cap {
                height(nodes@.take(i as int))
            } else {
                cap as nat
            },
        decreases nodes@.len() - i,
    {
        let node = &nodes[i];
        let ghost before = height(nodes@.take(i as int));
        proof {
            lemma_height_grows(nodes@, i as int);
        }
        let ls = node_lanes(node);
        let mut own: u32 = 0;
        let mut j: usize = 0;
        while j < ls.len()
            invariant
                i < nodes@.len(),
                *node == nodes@[i as int],
                j <= ls@.len(),
                ls@.len() == lanes(*node).len(),
                forall|k: int|
                    0 <= k < ls@.len() ==> (#[trigger] ls@[k]).2@ == lanes(*node)[k].1,
                own == if lanes_height(*node, j as nat) <= cap {
                    lanes_height(*node, j as nat)
                } else {
                    cap as nat
                },
            decreases ls@.len() - j,
        {
            proof {
                lemma_lane_smaller(*node, j as int);
                assert(decreases_to!(nodes@ => nodes@[i as int]));
            }
            let inner: u32 = capped_height(ls[j].2, cap);
            let lane: u32 = if inner < cap {
                inner + 1
            } else {
                cap
            };
            if lane > own {
                own = lane;
            }
            j = j + 1;
        }
        if own > tallest {
            tallest = own;
        }
        i = i + 1;
    }
    proof {
        assert(nodes@.take(nodes@.len() as int) =~= nodes@);
    }
    tallest
}

/// Whether a tree can be laid out: its innermost rows are indented by a number that fits.
pub fn canvas_fits(nodes: &[MacroNode]) -> (r: bool)
    ensures
        r == (2 * height(nodes@) <= i32::MAX),
{
    capped_height(nodes, 0x4000_0000) < 0x4000_0000
}

// ── laws of the canvas ──────────────────────────────────────────────────────────────────────────

/// What the path of a row leads to: a step row to a step of its kind, which is marked as the last
/// exactly where it is its body's final step; a lane header to a step with that lane; an insert point
/// to a body.
pub open spec fn leads_back(tree: Seq<MacroNode>, r: BlockView) -> bool {
    ||| r.row == "step"@ && (find_parent(tree, segments(r.path)) matches Some((b, k)) && kind_of(
        b[k as int],
    ) == r.kind && r.verb == verb_of(r.kind) && r.last == (k + 1 == b.len()))
    ||| r.row == "lane"@ && !r.last && (find_parent(tree, segments(r.path)) matches Some((b, k))
        && arm_body(b[k as int], r.kind) is Some)
    ||| r.row == "add"@ && !r.last && find_body(tree, segments(r.path)) is Some
}

pub(crate) proof fn lemma_split_appends(a: Seq<char>, s: Seq<char>, seps: Seq<char>)
    requires
        forall|i: int| 0 <= i < s.len() ==> !seps.contains(#[trigger] s[i]),
    ensures
        split_on(a, seps).len() > 0,
        split_on(a + s, seps) == split_on(a, seps).update(
            split_on(a, seps).len() - 1,
            split_on(a, seps).last() + s,
        ),
    decreases s.len(), a.len(),
{
    lemma_split_some(a, seps);
    let before = split_on(a, seps);
    if s.len() == 0 {
        assert(a + s =~= a);
        assert(before.last() + s =~= before.last());
        assert(before.update(before.len() - 1, before.last() + s) =~= before);
    } else {
        let t = s.drop_last();
        assert forall|i: int| 0 <= i < t.len() implies !seps.contains(#[trigger] t[i]) by {
            assert(t[i] == s[i]);
        }
        lemma_split_appends(a, t, seps);
        assert((a + s).drop_last() =~= a + t);
        assert((a + s).last() == s.last());
        assert(!seps.contains(s[s.len() - 1]));
        assert((before.last() + t).push(s.last()) =~= before.last() + s);
        assert(split_on(a + s, seps) =~= before.update(before.len() - 1, before.last() + s));
    }
}

proof fn lemma_split_some(a: Seq<char>, seps: Seq<char>)
    ensures
        split_on(a, seps).len() > 0,
    decreases a.len(),
{
    if a.len() > 0 {
        lemma_split_some(a.drop_last(), seps);
    }
}

/// A dot and a segment after a path add that one segment to it.
pub proof fn lemma_segment_added(a: Seq<char>, s: Seq<char>)
    requires
        s.len() > 0,
        forall|i: int| 0 <= i < s.len() ==> #[trigger] s[i] != '.',
    ensures
        segments(a + "."@ + s) == segments(a).push(s),
        segments(s) == seq![s],
        segments(Seq::<char>::empty()) == Seq::<Seq<char>>::empty(),
{
    let dots = seq!['.'];
    reveal_strlit(".");
    assert("."@ =~= dots);
    assert(dots[0] == '.');
    assert(dots.contains('.'));
    assert forall|i: int| 0 <= i < s.len() implies !dots.contains(#[trigger] s[i]) by {}
    // nothing, cut
    let none = Seq::<char>::empty();
    assert(split_on(none, dots) =~= seq![none]);
    assert(seq![none].drop_last() =~= Seq::<Seq<char>>::empty());
    assert(nonempty(seq![none]) == nonempty(Seq::<Seq<char>>::empty()));
    // the segment alone, cut
    lemma_split_appends(none, s, dots);
    assert(none + s =~= s);
    assert(split_on(s, dots) =~= seq![s]);
    assert(seq![s].drop_last() =~= Seq::<Seq<char>>::empty());
    assert(nonempty(seq![s]) =~= seq![s]);
    // the path, the dot and the segment, cut
    let head = split_on(a, dots);
    assert((a + dots).drop_last() =~= a);
    assert(split_on(a + dots, dots) == head.push(none));
    lemma_split_appends(a + dots, s, dots);
    assert(head.push(none).last() + s =~= s);
    assert(split_on(a + dots + s, dots) =~= head.push(s));
    assert(head.push(s).drop_last() =~= head);
}

pub(crate) proof fn lemma_child_found(
    tree: Seq<MacroNode>,
    segs: Seq<Seq<char>>,
    b: Seq<MacroNode>,
    i: nat,
    arm: Seq<char>,
)
    requires
        find_body(tree, segs) == Some(b),
        i < b.len() <= usize::MAX,
    ensures
        find_parent(tree, segs.push(decimal(i))) == Some((b, i)),
        arm_body(b[i as int], arm) matches Some(l) ==> find_body(
            tree,
            segs.push(decimal(i)).push(arm),
        ) == Some(l@),
    decreases segs.len(),
{
    let one = segs.push(decimal(i));
    let two = one.push(arm);
    law_decimal_reads_back(i, usize::MAX as nat);
    reveal_with_fuel(find_body, 3);
    if segs.len() == 0 {
        assert(one[0] == decimal(i));
        assert(two[0] == decimal(i));
        assert(two[1] == arm);
        assert(two.skip(2) =~= Seq::<Seq<char>>::empty());
    } else {
        let idx = index_of(segs[0])->0;
        let lane = arm_body(tree[idx as int], segs[1])->0;
        lemma_child_found(lane@, segs.skip(2), b, i, arm);
        assert(one[0] == segs[0] && one[1] == segs[1]);
        assert(two[0] == segs[0] && two[1] == segs[1]);
        assert(one.skip(2) =~= segs.skip(2).push(decimal(i)));
        assert(two.skip(2) =~= segs.skip(2).push(decimal(i)).push(arm));
    }
}

/// The lanes of a step are those that its arms name, under segments that a path can carry.
pub proof fn law_lanes_are_arms(node: MacroNode, k: int)
    requires
        0 <= k < lanes(node).len(),
    ensures
        arm_body(node, lanes(node)[k].0) matches Some(b) && b@ == lanes(node)[k].1 && b@.len()
            <= usize::MAX,
        lanes(node)[k].0.len() > 0,
        forall|i: int| 0 <= i < lanes(node)[k].0.len() ==> #[trigger] lanes(node)[k].0[i] != '.',
{
    reveal_strlit("yes");
    reveal_strlit("no");
    reveal_strlit("then");
    reveal_strlit("else");
    reveal_strlit("body");
    reveal_strlit("error");
    let b = arm_body(node, lanes(node)[k].0)->0;
    assert("yes"@.len() != "no"@.len());
    assert("then"@[0] != "else"@[0]);
    assert("body"@.len() != "error"@.len());
    assert(b.len() == b@.len());
}

pub(crate) proof fn lemma_child_segments(ctx: Seq<char>, i: nat)
    ensures
        segments(child_path(ctx, i)) == segments(ctx).push(decimal(i)),
{
    lemma_decimal_digits(i);
    lemma_segment_added(ctx, decimal(i));
    if ctx.len() == 0 {
        assert(ctx =~= Seq::<char>::empty());
        assert(seq![decimal(i)] =~= Seq::<Seq<char>>::empty().push(decimal(i)));
    }
}

proof fn lemma_body_leads_back(
    tree: Seq<MacroNode>,
    nodes: Seq<MacroNode>,
    k: nat,
    depth: int,
    ctx: Seq<char>,
    t: Seq<Seq<char>>,
    r: int,
)
    requires
        find_body(tree, segments(ctx)) == Some(nodes),
        nodes.len() <= usize::MAX,
        k <= nodes.len(),
        0 <= r < body_rows(nodes, k, depth, ctx, t).len(),
    ensures
        leads_back(tree, body_rows(nodes, k, depth, ctx, t)[r]),
    decreases nodes, k,
{
    if k > 0 {
        let from = shown(nodes.take(k - 1)).len() as int;
        let node = nodes[k - 1];
        let tt = t.subrange(from, from + step_shown(node).len());
        let head = body_rows(nodes, (k - 1) as nat, depth, ctx, t);
        let path = child_path(ctx, (k - 1) as nat);
        if r < head.len() {
            lemma_body_leads_back(tree, nodes, (k - 1) as nat, depth, ctx, t, r);
        } else {
            lemma_child_segments(ctx, (k - 1) as nat);
            lemma_child_found(tree, segments(ctx), nodes, (k - 1) as nat, ""@);
            let q = r - head.len();
            let all = lane_rows(node, lanes(node).len(), depth, path, tt);
            assert(step_rows(node, path, depth, k == nodes.len(), tt)[q] == if q == 0 {
                step_block(node, path, depth, k == nodes.len(), tt)
            } else {
                all[q - 1]
            });
            if q > 0 {
                assert(decreases_to!(nodes => nodes[k - 1]));
                lemma_lanes_lead_back(
                    tree,
                    nodes,
                    (k - 1) as nat,
                    lanes(node).len(),
                    depth,
                    ctx,
                    tt,
                    q - 1,
                );
            }
        }
    }
}

proof fn lemma_lanes_lead_back(
    tree: Seq<MacroNode>,
    nodes: Seq<MacroNode>,
    i: nat,
    k: nat,
    depth: int,
    ctx: Seq<char>,
    t: Seq<Seq<char>>,
    r: int,
)
    requires
        find_body(tree, segments(ctx)) == Some(nodes),
        i < nodes.len() <= usize::MAX,
        k <= lanes(nodes[i as int]).len(),
        0 <= r < lane_rows(nodes[i as int], k, depth, child_path(ctx, i), t).len(),
    ensures
        leads_back(tree, lane_rows(nodes[i as int], k, depth, child_path(ctx, i), t)[r]),
    decreases nodes[i as int], k,
{
    let node = nodes[i as int];
    let path = child_path(ctx, i);
    if k > 0 {
        let head = lane_rows(node, (k - 1) as nat, depth, path, t);
        if r < head.len() {
            lemma_lanes_lead_back(tree, nodes, i, (k - 1) as nat, depth, ctx, t, r);
        } else {
            let arm = lanes(node)[k - 1].0;
            let body = lanes(node)[k - 1].1;
            let from = (own_values(node).len() + lanes_shown(node, (k - 1) as nat).len()) as int;
            let tt = t.subrange(from, from + shown(body).len());
            let inner = body_rows(body, body.len(), depth + 2, lane_path(path, arm), tt);
            lemma_child_segments(ctx, i);
            lemma_child_found(tree, segments(ctx), nodes, i, arm);
            law_lanes_are_arms(node, k - 1);
            lemma_segment_added(path, arm);
            assert(find_body(tree, segments(lane_path(path, arm))) == Some(body));
            let q = r - head.len();
            assert(lane_rows(node, k, depth, path, t)[r] == if q == 0 {
                lane_block(arm, path, depth + 1)
            } else if q - 1 < inner.len() {
                inner[q - 1]
            } else {
                add_block(lane_path(path, arm), depth + 2)
            });
            if 0 < q && q - 1 < inner.len() {
                lemma_lane_smaller(node, k - 1);
                lemma_body_leads_back(
                    tree,
                    body,
                    body.len(),
                    depth + 2,
                    lane_path(path, arm),
                    tt,
                    q - 1,
                );
            }
        }
    }
}

/// The path of every row leads back into the tree that was laid out: a step row's to a step of its
/// kind, marked as the last exactly where it is its body's final step; a lane header's to a step with
/// that lane; an insert point's to a body to append to.
pub proof fn law_rows_lead_back(tree: Vec<MacroNode>, depth: int, t: Seq<Seq<char>>, r: int)
    requires
        0 <= r < canvas(tree@, depth, Seq::<char>::empty(), t).len(),
    ensures
        leads_back(tree@, canvas(tree@, depth, Seq::<char>::empty(), t)[r]),
{
    let none = Seq::<char>::empty();
    lemma_segment_added(none, seq!['0']);
    assert(tree.len() == tree@.len());
    let inner = body_rows(tree@, tree@.len(), depth, none, t);
    if r < inner.len() {
        lemma_body_leads_back(tree@, tree@, tree@.len(), depth, none, t, r);
    }
}

/// The same of the rows of one body alone, wherever in the tree it stands: `ctx` is its context.
pub proof fn law_body_rows_lead_back(
    tree: Seq<MacroNode>,
    body: Vec<MacroNode>,
    depth: int,
    ctx: Seq<char>,
    t: Seq<Seq<char>>,
    r: int,
)
    requires
        find_body(tree, segments(ctx)) == Some(body@),
        0 <= r < body_rows(body@, body@.len(), depth, ctx, t).len(),
    ensures
        leads_back(tree, body_rows(body@, body@.len(), depth, ctx, t)[r]),
{
    assert(body.len() == body@.len());
    lemma_body_leads_back(tree, body@, body@.len(), depth, ctx, t, r);
}

/// The empty context names the whole tree.
pub proof fn law_empty_context_is_the_tree(tree: Seq<MacroNode>)
    ensures
        find_body(tree, segments(Seq::<char>::empty())) == Some(tree),
        find_body(tree, segments(""@)) == Some(tree),
{
    lemma_segment_added(Seq::<char>::empty(), seq!['0']);
    reveal_strlit("");
    assert(""@ =~= Seq::<char>::empty());
}

/// A step row's path leads to that very step: the `i`th step of the body that a context names.
pub proof fn law_child_path_leads_to_child(tree: Seq<MacroNode>, ctx: Seq<char>, b: Vec<MacroNode>, i: nat)
    requires
        find_body(tree, segments(ctx)) == Some(b@),
        i < b@.len(),
    ensures
        find_parent(tree, segments(child_path(ctx, i))) == Some((b@, i)),
{
    assert(b.len() == b@.len());
    lemma_child_segments(ctx, i);
    lemma_child_found(tree, segments(ctx), b@, i, ""@);
}

} // verus!
