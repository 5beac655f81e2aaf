//! What holds of the rows of a canvas as a whole: each step row shows the step that its path leads
//! to, no two rows of one sort stand for the same thing, there are as many rows as the tree asks for,
//! and each lane is closed by an insert point.

use vstd::prelude::*;

use crate::canvas::{
    add_block, body_rows, canvas, field_text, lane_block, lane_path, lane_rows, lanes, lanes_count,
    lanes_shown, law_lanes_are_arms, lemma_child_found, lemma_child_segments, lemma_count_grows,
    lemma_field_text, lemma_lane_smaller, lemma_segment_added, node_count, own_values, shown,
    step_block, step_rows, step_shown, BlockView,
};
use crate::macros::{child_path, find_body, find_parent, segments, MacroNode, Value};
use crate::text::{decimal, law_decimal_reads_back};

verus! {

// ── a step row shows its step ───────────────────────────────────────────────────────────────────

/// The source texts of expressions, given the source text of each.
pub open spec fn sources_of(vs: Seq<Value>, src: spec_fn(Value) -> Seq<char>) -> Seq<Seq<char>> {
    Seq::new(vs.len(), |i: int| src(vs[i]))
}

/// What a step shows in its field, given the source text of each expression.
pub open spec fn value_text(node: MacroNode, src: spec_fn(Value) -> Seq<char>) -> Seq<char> {
    field_text(node, sources_of(own_values(node), src))
}

/// A step row shows, in its field, the step that its path leads to.
pub open spec fn shows_its_step(
    tree: Seq<MacroNode>,
    r: BlockView,
    src: spec_fn(Value) -> Seq<char>,
) -> bool {
    r.row == "step"@ ==> (find_parent(tree, segments(r.path)) matches Some((b, k)) && r.value
        == value_text(b[k as int], src))
}

proof fn lemma_shown_slice(nodes: Seq<MacroNode>, k: int)
    requires
        0 <= k < nodes.len(),
    ensures
        shown(nodes.take(k)).len() + step_shown(nodes[k]).len() <= shown(nodes).len(),
        shown(nodes).subrange(
            shown(nodes.take(k)).len() as int,
            (shown(nodes.take(k)).len() + step_shown(nodes[k]).len()) as int,
        ) == step_shown(nodes[k]),
    decreases nodes.len(),
{
    let rest = nodes.drop_last();
    let from = shown(nodes.take(k)).len() as int;
    let to = from + step_shown(nodes[k]).len();
    assert(shown(nodes) == shown(rest) + step_shown(nodes.last()));
    if k == nodes.len() - 1 {
        assert(nodes.take(k) =~= rest);
        assert(shown(nodes).subrange(from, to) =~= step_shown(nodes[k]));
    } else {
        lemma_shown_slice(rest, k);
        assert(rest.take(k) =~= nodes.take(k));
        assert(rest[k] == nodes[k]);
        assert(shown(nodes).subrange(from, to) =~= shown(rest).subrange(from, to));
    }
}

proof fn lemma_lanes_slice(node: MacroNode, k: int, n: nat)
    requires
        0 <= k < n <= lanes(node).len(),
    ensures
        lanes_shown(node, k as nat).len() + shown(lanes(node)[k].1).len() <= lanes_shown(
            node,
            n,
        ).len(),
        lanes_shown(node, n).subrange(
            lanes_shown(node, k as nat).len() as int,
            (lanes_shown(node, k as nat).len() + shown(lanes(node)[k].1).len()) as int,
        ) == shown(lanes(node)[k].1),
    decreases n,
{
    let from = lanes_shown(node, k as nat).len() as int;
    let to = from + shown(lanes(node)[k].1).len();
    let before = lanes_shown(node, (n - 1) as nat);
    assert(lanes_shown(node, n) == before + shown(lanes(node)[n - 1].1));
    if k == n - 1 {
        assert(lanes_shown(node, n).subrange(from, to) =~= shown(lanes(node)[k].1));
    } else {
        lemma_lanes_slice(node, k, (n - 1) as nat);
        assert(lanes_shown(node, n).subrange(from, to) =~= before.subrange(from, to));
    }
}

proof fn lemma_body_shows(
    tree: Seq<MacroNode>,
    nodes: Seq<MacroNode>,
    k: nat,
    depth: int,
    ctx: Seq<char>,
    t: Seq<Seq<char>>,
    r: int,
    src: spec_fn(Value) -> Seq<char>,
)
    requires
        find_body(tree, segments(ctx)) == Some(nodes),
        nodes.len() <= usize::MAX,
        k <= nodes.len(),
        t == sources_of(shown(nodes), src),
        0 <= r < body_rows(nodes, k, depth, ctx, t).len(),
    ensures
        shows_its_step(tree, body_rows(nodes, k, depth, ctx, t)[r], src),
    decreases nodes, k,
{
    if k > 0 {
        let from = shown(nodes.take(k - 1)).len() as int;
        let node = nodes[k - 1];
        let tt = t.subrange(from, from + step_shown(node).len());
        let head = body_rows(nodes, (k - 1) as nat, depth, ctx, t);
        let path = child_path(ctx, (k - 1) as nat);
        if r < head.len() {
            lemma_body_shows(tree, nodes, (k - 1) as nat, depth, ctx, t, r, src);
        } else {
            lemma_child_segments(ctx, (k - 1) as nat);
            lemma_child_found(tree, segments(ctx), nodes, (k - 1) as nat, ""@);
            lemma_shown_slice(nodes, k - 1);
            assert(tt =~= sources_of(step_shown(node), src)) by {
                assert forall|i: int| 0 <= i < tt.len() implies tt[i] == sources_of(
                    step_shown(node),
                    src,
                )[i] by {
                    assert(step_shown(node)[i] == shown(nodes)[from + i]);
                }
            }
            let q = r - head.len();
            let all = lane_rows(node, lanes(node).len(), depth, path, tt);
            assert(step_rows(node, path, depth, k == nodes.len(), tt)[q] == if q == 0 {
                step_block(node, path, depth, k == nodes.len(), tt)
            } else {
                all[q - 1]
            });
            if q == 0 {
                let own = sources_of(own_values(node), src);
                assert(step_shown(node) == own_values(node) + lanes_shown(node, lanes(node).len()));
                assert forall|i: int| 0 <= i < own_values(node).len() implies tt[i] == own[i] by {
                    assert(step_shown(node)[i] == own_values(node)[i]);
                }
                lemma_field_text(node, tt, own);
            } else {
                assert(decreases_to!(nodes => nodes[k - 1]));
                lemma_lanes_show(
                    tree,
                    nodes,
                    (k - 1) as nat,
                    lanes(node).len(),
                    depth,
                    ctx,
                    tt,
                    q - 1,
                    src,
                );
            }
        }
    }
}

proof fn lemma_lanes_show(
    tree: Seq<MacroNode>,
    nodes: Seq<MacroNode>,
    i: nat,
    k: nat,
    depth: int,
    ctx: Seq<char>,
    t: Seq<Seq<char>>,
    r: int,
    src: spec_fn(Value) -> Seq<char>,
)
    requires
        find_body(tree, segments(ctx)) == Some(nodes),
        i < nodes.len() <= usize::MAX,
        k <= lanes(nodes[i as int]).len(),
        t == sources_of(step_shown(nodes[i as int]), src),
        0 <= r < lane_rows(nodes[i as int], k, depth, child_path(ctx, i), t).len(),
    ensures
        shows_its_step(tree, lane_rows(nodes[i as int], k, depth, child_path(ctx, i), t)[r], src),
    decreases nodes[i as int], k,
{
    let node = nodes[i as int];
    let path = child_path(ctx, i);
    if k > 0 {
        let head = lane_rows(node, (k - 1) as nat, depth, path, t);
        if r < head.len() {
            lemma_lanes_show(tree, nodes, i, (k - 1) as nat, depth, ctx, t, r, src);
        } else {
            let arm = lanes(node)[k - 1].0;
            let body = lanes(node)[k - 1].1;
            let at = lanes_shown(node, (k - 1) as nat).len() as int;
            let from = own_values(node).len() + at;
            let tt = t.subrange(from, from + shown(body).len());
            let inner = body_rows(body, body.len(), depth + 2, lane_path(path, arm), tt);
            lemma_child_segments(ctx, i);
            lemma_child_found(tree, segments(ctx), nodes, i, arm);
            law_lanes_are_arms(node, k - 1);
            lemma_segment_added(path, arm);
            lemma_lanes_slice(node, k - 1, lanes(node).len());
            assert(step_shown(node) == own_values(node) + lanes_shown(node, lanes(node).len()));
            assert(tt =~= sources_of(shown(body), src)) by {
                assert forall|j: int| 0 <= j < tt.len() implies tt[j] == sources_of(
                    shown(body),
                    src,
                )[j] by {
                    assert(shown(body)[j] == lanes_shown(node, lanes(node).len())[at + j]);
                    assert(step_shown(node)[from + j] == lanes_shown(node, lanes(node).len())[at
                        + j]);
                }
            }
            let q = r - head.len();
            assert(lane_rows(node, k, depth, path, t)[r] == if q == 0 {
                lane_block(arm, path, depth + 1)
            } else if q - 1 < inner.len() {
                inner[q - 1]
            } else {
                add_block(lane_path(path, arm), depth + 2)
            });
            lemma_sorts_differ();
            if 0 < q && q - 1 < inner.len() {
                lemma_lane_smaller(node, k - 1);
                lemma_body_shows(
                    tree,
                    body,
                    body.len(),
                    depth + 2,
                    lane_path(path, arm),
                    tt,
                    q - 1,
                    src,
                );
            }
        }
    }
}

proof fn lemma_sorts_differ()
    ensures
        "step"@ != "lane"@,
        "step"@ != "add"@,
        "lane"@ != "add"@,
{
    reveal_strlit("step");
    reveal_strlit("lane");
    reveal_strlit("add");
    assert("step"@[0] != "lane"@[0]);
    assert("step"@.len() != "add"@.len());
}

/// Every step row shows, in its field, the text of the very step that its path leads to, where the
/// rows were laid out with the source text `src` of each expression.
pub proof fn law_step_rows_show_their_step(
    tree: Vec<MacroNode>,
    depth: int,
    src: spec_fn(Value) -> Seq<char>,
    r: int,
)
    requires
        0 <= r < canvas(tree@, depth, Seq::<char>::empty(), sources_of(shown(tree@), src)).len(),
    ensures
        shows_its_step(
            tree@,
            canvas(tree@, depth, Seq::<char>::empty(), sources_of(shown(tree@), src))[r],
            src,
        ),
{
    let none = Seq::<char>::empty();
    let t = sources_of(shown(tree@), src);
    lemma_segment_added(none, seq!['0']);
    assert(tree.len() == tree@.len());
    lemma_sorts_differ();
    let inner = body_rows(tree@, tree@.len(), depth, none, t);
    if r < inner.len() {
        lemma_body_shows(tree@, tree@, tree@.len(), depth, none, t, r, src);
    }
}

/// The same of the rows of one body alone, wherever in the tree it stands: `ctx` is its context.
pub proof fn law_body_rows_show_their_step(
    tree: Seq<MacroNode>,
    body: Vec<MacroNode>,
    depth: int,
    ctx: Seq<char>,
    src: spec_fn(Value) -> Seq<char>,
    r: int,
)
    requires
        find_body(tree, segments(ctx)) == Some(body@),
        0 <= r < body_rows(body@, body@.len(), depth, ctx, sources_of(shown(body@), src)).len(),
    ensures
        shows_its_step(
            tree,
            body_rows(body@, body@.len(), depth, ctx, sources_of(shown(body@), src))[r],
            src,
        ),
{
    assert(body.len() == body@.len());
    let t = sources_of(shown(body@), src);
    lemma_body_shows(tree, body@, body@.len(), depth, ctx, t, r, src);
}

// ── no two rows of one sort stand for the same thing ────────────────────────────────────────────

/// What a row stands for, as segments: the step, the lane, or the body to append to.
pub open spec fn stands_for(r: BlockView) -> Seq<Seq<char>> {
    if r.row == "lane"@ {
        segments(r.path).push(r.kind)
    } else {
        segments(r.path)
    }
}

/// `q` begins with `p`.
pub open spec fn begins(p: Seq<Seq<char>>, q: Seq<Seq<char>>) -> bool {
    &&& p.len() <= q.len()
    &&& forall|j: int| 0 <= j < p.len() ==> #[trigger] q[j] == p[j]
}

/// No two rows of one sort stand for the same thing.
pub open spec fn rows_apart(rows: Seq<BlockView>) -> bool {
    forall|a: int, b: int|
        0 <= a < b < rows.len() && (#[trigger] rows[a]).row == (#[trigger] rows[b]).row
            ==> stands_for(rows[a]) != stands_for(rows[b])
}

proof fn lemma_decimals_differ(i: nat, j: nat)
    requires
        i != j,
    ensures
        decimal(i) != decimal(j),
{
    law_decimal_reads_back(i, i + j);
    law_decimal_reads_back(j, i + j);
}

proof fn lemma_arms_differ(node: MacroNode, i: int, j: int)
    requires
        0 <= i < j < lanes(node).len(),
    ensures
        lanes(node)[i].0 != lanes(node)[j].0,
{
    reveal_strlit("yes");
    reveal_strlit("no");
    reveal_strlit("then");
    reveal_strlit("else");
    reveal_strlit("body");
    reveal_strlit("error");
    assert("yes"@.len() != "no"@.len());
    assert("then"@[0] != "else"@[0]);
    assert("body"@.len() != "error"@.len());
}

/// Every row of a body stands for something under one of its steps.
proof fn lemma_body_under(
    nodes: Seq<MacroNode>,
    k: nat,
    depth: int,
    ctx: Seq<char>,
    t: Seq<Seq<char>>,
    r: int,
) -> (i: nat)
    requires
        k <= nodes.len(),
        0 <= r < body_rows(nodes, k, depth, ctx, t).len(),
    ensures
        i < k,
        begins(segments(ctx).push(decimal(i)), stands_for(body_rows(nodes, k, depth, ctx, t)[r])),
    decreases nodes, k,
{
    let from = shown(nodes.take(k - 1)).len() as int;
    let node = nodes[k - 1];
    let tt = t.subrange(from, from + step_shown(node).len());
    let head = body_rows(nodes, (k - 1) as nat, depth, ctx, t);
    let path = child_path(ctx, (k - 1) as nat);
    if r < head.len() {
        lemma_body_under(nodes, (k - 1) as nat, depth, ctx, t, r)
    } else {
        lemma_child_segments(ctx, (k - 1) as nat);
        lemma_sorts_differ();
        let q = r - head.len();
        let all = lane_rows(node, lanes(node).len(), depth, path, tt);
        let own = step_block(node, path, depth, k == nodes.len(), tt);
        assert(step_rows(node, path, depth, k == nodes.len(), tt) == seq![own] + all);
        if q > 0 {
            assert(decreases_to!(nodes => nodes[k - 1]));
            let l = lemma_lanes_under(node, lanes(node).len(), depth, path, tt, q - 1);
            lemma_begins_shorter(segments(path), lanes(node)[l as int].0, stands_for(all[q - 1]));
        }
        (k - 1) as nat
    }
}

/// Every row of the lanes of a step stands for something under one of those lanes.
proof fn lemma_lanes_under(
    node: MacroNode,
    k: nat,
    depth: int,
    path: Seq<char>,
    t: Seq<Seq<char>>,
    r: int,
) -> (l: nat)
    requires
        k <= lanes(node).len(),
        0 <= r < lane_rows(node, k, depth, path, t).len(),
    ensures
        l < k,
        begins(
            segments(path).push(lanes(node)[l as int].0),
            stands_for(lane_rows(node, k, depth, path, t)[r]),
        ),
    decreases node, k,
{
    let head = lane_rows(node, (k - 1) as nat, depth, path, t);
    if r < head.len() {
        lemma_lanes_under(node, (k - 1) as nat, depth, path, t, r)
    } else {
        let arm = lanes(node)[k - 1].0;
        let body = lanes(node)[k - 1].1;
        let from = (own_values(node).len() + lanes_shown(node, (k - 1) as nat).len()) as int;
        let tt = t.subrange(from, from + shown(body).len());
        let ctx = lane_path(path, arm);
        let inner = body_rows(body, body.len(), depth + 2, ctx, tt);
        law_lanes_are_arms(node, k - 1);
        lemma_segment_added(path, arm);
        lemma_sorts_differ();
        let q = r - head.len();
        assert(lane_rows(node, k, depth, path, t)[r] == if q == 0 {
            lane_block(arm, path, depth + 1)
        } else if q - 1 < inner.len() {
            inner[q - 1]
        } else {
            add_block(ctx, depth + 2)
        });
        if 0 < q && q - 1 < inner.len() {
            lemma_lane_smaller(node, k - 1);
            let i = lemma_body_under(body, body.len(), depth + 2, ctx, tt, q - 1);
            lemma_begins_shorter(segments(ctx), decimal(i), stands_for(inner[q - 1]));
        }
        (k - 1) as nat
    }
}

proof fn lemma_begins_shorter(p: Seq<Seq<char>>, s: Seq<char>, q: Seq<Seq<char>>)
    requires
        begins(p.push(s), q),
    ensures
        begins(p, q),
        p.len() < q.len(),
        q[p.len() as int] == s,
{
    assert(q[p.len() as int] == p.push(s)[p.len() as int]);
    assert forall|j: int| 0 <= j < p.len() implies #[trigger] q[j] == p[j] by {
        assert(q[j] == p.push(s)[j]);
    }
}

proof fn lemma_body_apart(
    nodes: Seq<MacroNode>,
    k: nat,
    depth: int,
    ctx: Seq<char>,
    t: Seq<Seq<char>>,
)
    requires
        k <= nodes.len(),
    ensures
        rows_apart(body_rows(nodes, k, depth, ctx, t)),
    decreases nodes, k,
{
    if k > 0 {
        let from = shown(nodes.take(k - 1)).len() as int;
        let node = nodes[k - 1];
        let tt = t.subrange(from, from + step_shown(node).len());
        let head = body_rows(nodes, (k - 1) as nat, depth, ctx, t);
        let path = child_path(ctx, (k - 1) as nat);
        let own = step_block(node, path, depth, k == nodes.len(), tt);
        let inner = lane_rows(node, lanes(node).len(), depth, path, tt);
        let all = body_rows(nodes, k, depth, ctx, t);
        lemma_body_apart(nodes, (k - 1) as nat, depth, ctx, t);
        assert(decreases_to!(nodes => nodes[k - 1]));
        lemma_lanes_apart(node, lanes(node).len(), depth, path, tt);
        lemma_child_segments(ctx, (k - 1) as nat);
        lemma_sorts_differ();
        assert(step_rows(node, path, depth, k == nodes.len(), tt) == seq![own] + inner);
        assert forall|a: int, b: int|
            0 <= a < b < all.len() && (#[trigger] all[a]).row == (#[trigger] all[b]).row
            implies stands_for(all[a]) != stands_for(all[b]) by {
            if b < head.len() {
                assert(all[a] == head[a] && all[b] == head[b]);
            } else if a < head.len() {
                assert(all[a] == head[a]);
                let i = lemma_body_under(nodes, (k - 1) as nat, depth, ctx, t, a);
                lemma_begins_shorter(segments(ctx), decimal(i), stands_for(head[a]));
                lemma_decimals_differ(i, (k - 1) as nat);
                let p = segments(ctx).push(decimal((k - 1) as nat));
                if b > head.len() {
                    let x = b - head.len() - 1;
                    assert(all[b] == inner[x]);
                    let l = lemma_lanes_under(node, lanes(node).len(), depth, path, tt, x);
                    lemma_begins_shorter(
                        segments(path),
                        lanes(node)[l as int].0,
                        stands_for(inner[x]),
                    );
                }
                assert(begins(p, stands_for(all[b])));
                lemma_begins_shorter(segments(ctx), decimal((k - 1) as nat), stands_for(all[b]));
            } else {
                let y = b - head.len() - 1;
                assert(all[b] == inner[y]);
                if a == head.len() {
                    let l = lemma_lanes_under(node, lanes(node).len(), depth, path, tt, y);
                    lemma_begins_shorter(
                        segments(path),
                        lanes(node)[l as int].0,
                        stands_for(inner[y]),
                    );
                    assert(stands_for(own).len() < stands_for(inner[y]).len());
                } else {
                    assert(all[a] == inner[a - head.len() - 1]);
                }
            }
        }
    }
}

proof fn lemma_lanes_apart(
    node: MacroNode,
    k: nat,
    depth: int,
    path: Seq<char>,
    t: Seq<Seq<char>>,
)
    requires
        k <= lanes(node).len(),
    ensures
        rows_apart(lane_rows(node, k, depth, path, t)),
    decreases node, k,
{
    if k > 0 {
        let arm = lanes(node)[k - 1].0;
        let body = lanes(node)[k - 1].1;
        let from = (own_values(node).len() + lanes_shown(node, (k - 1) as nat).len()) as int;
        let tt = t.subrange(from, from + shown(body).len());
        let ctx = lane_path(path, arm);
        let head = lane_rows(node, (k - 1) as nat, depth, path, t);
        let header = lane_block(arm, path, depth + 1);
        let inner = body_rows(body, body.len(), depth + 2, ctx, tt);
        let point = add_block(ctx, depth + 2);
        let all = lane_rows(node, k, depth, path, t);
        lemma_lanes_apart(node, (k - 1) as nat, depth, path, t);
        lemma_lane_smaller(node, k - 1);
        lemma_body_apart(body, body.len(), depth + 2, ctx, tt);
        law_lanes_are_arms(node, k - 1);
        lemma_segment_added(path, arm);
        lemma_sorts_differ();
        assert(all =~= head + seq![header] + inner + seq![point]);
        assert(stands_for(header) == segments(ctx));
        assert(stands_for(point) == segments(ctx));
        // what stands in this lane stands for something at or below it
        assert forall|b: int| head.len() <= b < all.len() implies begins(
            segments(path).push(arm),
            stands_for(#[trigger] all[b]),
        ) by {
            let x = b - head.len() - 1;
            if 0 <= x < inner.len() {
                assert(all[b] == inner[x]);
                let i = lemma_body_under(body, body.len(), depth + 2, ctx, tt, x);
                lemma_begins_shorter(segments(ctx), decimal(i), stands_for(inner[x]));
            }
        }
        assert forall|x: int| 0 <= x < inner.len() implies segments(ctx).len() < stands_for(
            #[trigger] inner[x],
        ).len() by {
            let i = lemma_body_under(body, body.len(), depth + 2, ctx, tt, x);
            lemma_begins_shorter(segments(ctx), decimal(i), stands_for(inner[x]));
        }
        assert forall|a: int, b: int|
            0 <= a < b < all.len() && (#[trigger] all[a]).row == (#[trigger] all[b]).row
            implies stands_for(all[a]) != stands_for(all[b]) by {
            let x = a - head.len() - 1;
            let y = b - head.len() - 1;
            if b < head.len() {
                assert(all[a] == head[a] && all[b] == head[b]);
            } else if a < head.len() {
                assert(all[a] == head[a]);
                let l = lemma_lanes_under(node, (k - 1) as nat, depth, path, t, a);
                lemma_begins_shorter(segments(path), lanes(node)[l as int].0, stands_for(head[a]));
                lemma_begins_shorter(segments(path), arm, stands_for(all[b]));
                lemma_arms_differ(node, l as int, k - 1);
            } else if 0 <= x < inner.len() && y < inner.len() {
                assert(all[a] == inner[x] && all[b] == inner[y]);
            } else if 0 <= x < inner.len() {
                assert(all[a] == inner[x] && all[b] == point);
            } else if y < inner.len() {
                assert(all[a] == header && all[b] == inner[y]);
            } else {
                assert(all[a] == header && all[b] == point);
            }
        }
    }
}

/// No two step rows have one path, no two insert points have one path, and no two lane headers name
/// one lane of one step.
pub proof fn law_rows_are_apart(
    tree: Seq<MacroNode>,
    depth: int,
    ctx: Seq<char>,
    t: Seq<Seq<char>>,
    a: int,
    b: int,
)
    requires
        0 <= a < canvas(tree, depth, ctx, t).len(),
        0 <= b < canvas(tree, depth, ctx, t).len(),
        a != b,
        canvas(tree, depth, ctx, t)[a].row == canvas(tree, depth, ctx, t)[b].row,
    ensures
        ({
            let rows = canvas(tree, depth, ctx, t);
            rows[a].path == rows[b].path ==> rows[a].row == "lane"@ && rows[a].kind != rows[b].kind
        }),
{
    let inner = body_rows(tree, tree.len(), depth, ctx, t);
    let all = canvas(tree, depth, ctx, t);
    let point = add_block(ctx, depth);
    lemma_body_apart(tree, tree.len(), depth, ctx, t);
    lemma_sorts_differ();
    let (x, y) = if a < b {
        (a, b)
    } else {
        (b, a)
    };
    assert(all[x] == inner[x]);
    if y < inner.len() {
        assert(all[y] == inner[y]);
        assert(stands_for(inner[x]) != stands_for(inner[y]));
    } else {
        assert(all[y] == point);
        let i = lemma_body_under(tree, tree.len(), depth, ctx, t, x);
        lemma_begins_shorter(segments(ctx), decimal(i), stands_for(inner[x]));
        assert(stands_for(point) == segments(ctx));
    }
}

/// The same of the rows of one body alone.
pub proof fn law_body_rows_are_apart(
    nodes: Seq<MacroNode>,
    depth: int,
    ctx: Seq<char>,
    t: Seq<Seq<char>>,
    a: int,
    b: int,
)
    requires
        0 <= a < body_rows(nodes, nodes.len(), depth, ctx, t).len(),
        0 <= b < body_rows(nodes, nodes.len(), depth, ctx, t).len(),
        a != b,
        body_rows(nodes, nodes.len(), depth, ctx, t)[a].row == body_rows(
            nodes,
            nodes.len(),
            depth,
            ctx,
            t,
        )[b].row,
    ensures
        ({
            let rows = body_rows(nodes, nodes.len(), depth, ctx, t);
            rows[a].path == rows[b].path ==> rows[a].row == "lane"@ && rows[a].kind != rows[b].kind
        }),
{
    let inner = body_rows(nodes, nodes.len(), depth, ctx, t);
    let all = canvas(nodes, depth, ctx, t);
    assert(all[a] == inner[a] && all[b] == inner[b]);
    law_rows_are_apart(nodes, depth, ctx, t, a, b);
}

// ── how many rows there are, and where they stand ───────────────────────────────────────────────

/// How many of the rows are of a sort.
pub open spec fn tally(rows: Seq<BlockView>, sort: Seq<char>) -> nat
    decreases rows.len(),
{
    if rows.len() == 0 {
        0
    } else {
        tally(rows.drop_last(), sort) + (if rows.last().row == sort {
            1nat
        } else {
            0
        })
    }
}

proof fn lemma_tally_joins(a: Seq<BlockView>, b: Seq<BlockView>, sort: Seq<char>)
    ensures
        tally(a + b, sort) == tally(a, sort) + tally(b, sort),
    decreases b.len(),
{
    if b.len() == 0 {
        assert(a + b =~= a);
    } else {
        lemma_tally_joins(a, b.drop_last(), sort);
        assert((a + b).drop_last() =~= a + b.drop_last());
        assert((a + b).last() == b.last());
    }
}

proof fn lemma_tally_one(r: BlockView, sort: Seq<char>)
    ensures
        tally(seq![r], sort) == (if r.row == sort {
            1nat
        } else {
            0
        }),
{
    assert(seq![r].drop_last() =~= Seq::<BlockView>::empty());
    assert(tally(Seq::<BlockView>::empty(), sort) == 0);
}

/// How many lanes the steps of a body have, those in lanes counted in.
pub open spec fn lane_count(nodes: Seq<MacroNode>) -> nat
    decreases nodes, 0nat,
{
    if nodes.len() == 0 {
        0
    } else {
        lane_count(nodes.drop_last()) + lane_counts(nodes.last(), lanes(nodes.last()).len())
    }
}

/// How many lanes the first `k` lanes of a step make, with those of the steps in them.
pub open spec fn lane_counts(node: MacroNode, k: nat) -> nat
    decreases node, k,
{
    if k == 0 || k > lanes(node).len() {
        0
    } else {
        proof {
            lemma_lane_smaller(node, k - 1);
        }
        lane_counts(node, (k - 1) as nat) + 1 + lane_count(lanes(node)[k - 1].1)
    }
}

proof fn lemma_body_tally(
    nodes: Seq<MacroNode>,
    k: nat,
    depth: int,
    ctx: Seq<char>,
    t: Seq<Seq<char>>,
)
    requires
        k <= nodes.len(),
    ensures
        tally(body_rows(nodes, k, depth, ctx, t), "step"@) == node_count(nodes.take(k as int)),
        tally(body_rows(nodes, k, depth, ctx, t), "lane"@) == lane_count(nodes.take(k as int)),
        tally(body_rows(nodes, k, depth, ctx, t), "add"@) == lane_count(nodes.take(k as int)),
    decreases nodes, k,
{
    if k == 0 {
        assert(nodes.take(0) =~= Seq::<MacroNode>::empty());
    } else {
        let from = shown(nodes.take(k - 1)).len() as int;
        let node = nodes[k - 1];
        let tt = t.subrange(from, from + step_shown(node).len());
        let head = body_rows(nodes, (k - 1) as nat, depth, ctx, t);
        let path = child_path(ctx, (k - 1) as nat);
        let own = step_block(node, path, depth, k == nodes.len(), tt);
        let inner = lane_rows(node, lanes(node).len(), depth, path, tt);
        lemma_body_tally(nodes, (k - 1) as nat, depth, ctx, t);
        assert(decreases_to!(nodes => nodes[k - 1]));
        lemma_lanes_tally(node, lanes(node).len(), depth, path, tt);
        lemma_sorts_differ();
        lemma_count_grows(nodes, k - 1);
        assert(nodes.take(k as int).drop_last() =~= nodes.take(k - 1));
        assert(nodes.take(k as int).last() == node);
        assert(step_rows(node, path, depth, k == nodes.len(), tt) == seq![own] + inner);
        lemma_joined_tally(head, own, inner, "step"@);
        lemma_joined_tally(head, own, inner, "lane"@);
        lemma_joined_tally(head, own, inner, "add"@);
    }
}

proof fn lemma_joined_tally(
    head: Seq<BlockView>,
    own: BlockView,
    inner: Seq<BlockView>,
    sort: Seq<char>,
)
    ensures
        tally(head + (seq![own] + inner), sort) == tally(head, sort) + (if own.row == sort {
            1nat
        } else {
            0
        }) + tally(inner, sort),
{
    lemma_tally_joins(head, seq![own] + inner, sort);
    lemma_tally_joins(seq![own], inner, sort);
    lemma_tally_one(own, sort);
}

proof fn lemma_lanes_tally(
    node: MacroNode,
    k: nat,
    depth: int,
    path: Seq<char>,
    t: Seq<Seq<char>>,
)
    requires
        k <= lanes(node).len(),
    ensures
        tally(lane_rows(node, k, depth, path, t), "step"@) == lanes_count(node, k),
        tally(lane_rows(node, k, depth, path, t), "lane"@) == lane_counts(node, k),
        tally(lane_rows(node, k, depth, path, t), "add"@) == lane_counts(node, k),
    decreases node, k,
{
    if k > 0 {
        let arm = lanes(node)[k - 1].0;
        let body = lanes(node)[k - 1].1;
        let from = (own_values(node).len() + lanes_shown(node, (k - 1) as nat).len()) as int;
        let tt = t.subrange(from, from + shown(body).len());
        let ctx = lane_path(path, arm);
        let head = lane_rows(node, (k - 1) as nat, depth, path, t);
        let header = lane_block(arm, path, depth + 1);
        let inner = body_rows(body, body.len(), depth + 2, ctx, tt);
        let point = add_block(ctx, depth + 2);
        lemma_lanes_tally(node, (k - 1) as nat, depth, path, t);
        lemma_lane_smaller(node, k - 1);
        lemma_body_tally(body, body.len(), depth + 2, ctx, tt);
        assert(body.take(body.len() as int) =~= body);
        lemma_sorts_differ();
        lemma_lane_tally(head, header, inner, point, "step"@);
        lemma_lane_tally(head, header, inner, point, "lane"@);
        lemma_lane_tally(head, header, inner, point, "add"@);
    }
}

proof fn lemma_lane_tally(
    head: Seq<BlockView>,
    header: BlockView,
    inner: Seq<BlockView>,
    point: BlockView,
    sort: Seq<char>,
)
    ensures
        tally(head + seq![header] + inner + seq![point], sort) == tally(head, sort) + (if header.row
            == sort {
            1nat
        } else {
            0
        }) + tally(inner, sort) + (if point.row == sort {
            1nat
        } else {
            0
        }),
{
    lemma_tally_joins(head + seq![header] + inner, seq![point], sort);
    lemma_tally_joins(head + seq![header], inner, sort);
    lemma_tally_joins(head, seq![header], sort);
    lemma_tally_one(header, sort);
    lemma_tally_one(point, sort);
}

/// There are as many step rows as the tree holds steps, one lane header for each lane of each step,
/// one insert point for each lane, and one insert point more for the whole.
pub proof fn law_rows_are_counted(
    tree: Seq<MacroNode>,
    depth: int,
    ctx: Seq<char>,
    t: Seq<Seq<char>>,
)
    ensures
        tally(canvas(tree, depth, ctx, t), "step"@) == node_count(tree),
        tally(canvas(tree, depth, ctx, t), "lane"@) == lane_count(tree),
        tally(canvas(tree, depth, ctx, t), "add"@) == lane_count(tree) + 1,
{
    let inner = body_rows(tree, tree.len(), depth, ctx, t);
    let point = add_block(ctx, depth);
    lemma_body_tally(tree, tree.len(), depth, ctx, t);
    assert(tree.take(tree.len() as int) =~= tree);
    lemma_sorts_differ();
    lemma_tally_joins(inner, seq![point], "step"@);
    lemma_tally_joins(inner, seq![point], "lane"@);
    lemma_tally_joins(inner, seq![point], "add"@);
    lemma_tally_one(point, "step"@);
    lemma_tally_one(point, "lane"@);
    lemma_tally_one(point, "add"@);
}

/// The rows of one body alone: as many step rows as it holds steps, and one lane header and one insert
/// point for each lane of each step.
pub proof fn law_body_rows_are_counted(
    nodes: Seq<MacroNode>,
    depth: int,
    ctx: Seq<char>,
    t: Seq<Seq<char>>,
)
    ensures
        tally(body_rows(nodes, nodes.len(), depth, ctx, t), "step"@) == node_count(nodes),
        tally(body_rows(nodes, nodes.len(), depth, ctx, t), "lane"@) == lane_count(nodes),
        tally(body_rows(nodes, nodes.len(), depth, ctx, t), "add"@) == lane_count(nodes),
{
    lemma_body_tally(nodes, nodes.len(), depth, ctx, t);
    assert(nodes.take(nodes.len() as int) =~= nodes);
}

/// The row at `b` is the insert point of the lane whose header is `r`: it appends to that lane, one
/// level further in.
pub open spec fn closes_lane(rows: Seq<BlockView>, r: BlockView, b: int) -> bool {
    &&& 0 <= b < rows.len()
    &&& rows[b].row == "add"@
    &&& rows[b].path == lane_path(r.path, r.kind)
    &&& rows[b].depth == r.depth + 1
}

/// The rows lie no higher than `depth`, and the insert point of each lane comes after its header.
pub open spec fn well_nested(rows: Seq<BlockView>, depth: int) -> bool {
    &&& forall|a: int| 0 <= a < rows.len() ==> (#[trigger] rows[a]).depth >= depth
    &&& forall|a: int|
        0 <= a < rows.len() && (#[trigger] rows[a]).row == "lane"@ ==> exists|b: int|
            a < b && #[trigger] closes_lane(rows, rows[a], b)
}

proof fn lemma_nested_joins(a: Seq<BlockView>, b: Seq<BlockView>, depth: int)
    requires
        well_nested(a, depth),
        well_nested(b, depth),
    ensures
        well_nested(a + b, depth),
{
    let all = a + b;
    assert forall|i: int| 0 <= i < all.len() implies (#[trigger] all[i]).depth >= depth by {
        if i < a.len() {
            assert(all[i] == a[i]);
        } else {
            assert(all[i] == b[i - a.len()]);
        }
    }
    assert forall|i: int| 0 <= i < all.len() && (#[trigger] all[i]).row == "lane"@ implies exists|
        j: int,
    |
        i < j && #[trigger] closes_lane(all, all[i], j) by {
        if i < a.len() {
            assert(all[i] == a[i]);
            let j = choose|j: int| i < j && #[trigger] closes_lane(a, a[i], j);
            assert(all[j] == a[j]);
            assert(closes_lane(all, all[i], j));
        } else {
            let x = i - a.len();
            assert(all[i] == b[x]);
            let j = choose|j: int| x < j && #[trigger] closes_lane(b, b[x], j);
            assert(all[a.len() + j] == b[j]);
            assert(closes_lane(all, all[i], a.len() + j));
        }
    }
}

proof fn lemma_nested_deeper(rows: Seq<BlockView>, deep: int, depth: int)
    requires
        well_nested(rows, deep),
        depth <= deep,
    ensures
        well_nested(rows, depth),
{
    assert forall|a: int| 0 <= a < rows.len() implies (#[trigger] rows[a]).depth >= depth by {
        assert(rows[a].depth >= deep);
    }
}

proof fn lemma_body_nested(
    nodes: Seq<MacroNode>,
    k: nat,
    depth: int,
    ctx: Seq<char>,
    t: Seq<Seq<char>>,
)
    requires
        k <= nodes.len(),
    ensures
        well_nested(body_rows(nodes, k, depth, ctx, t), depth),
    decreases nodes, k,
{
    lemma_sorts_differ();
    if k > 0 {
        let from = shown(nodes.take(k - 1)).len() as int;
        let node = nodes[k - 1];
        let tt = t.subrange(from, from + step_shown(node).len());
        let head = body_rows(nodes, (k - 1) as nat, depth, ctx, t);
        let path = child_path(ctx, (k - 1) as nat);
        let own = seq![step_block(node, path, depth, k == nodes.len(), tt)];
        let inner = lane_rows(node, lanes(node).len(), depth, path, tt);
        lemma_body_nested(nodes, (k - 1) as nat, depth, ctx, t);
        assert(decreases_to!(nodes => nodes[k - 1]));
        lemma_lanes_nested(node, lanes(node).len(), depth, path, tt);
        assert(step_rows(node, path, depth, k == nodes.len(), tt) == own + inner);
        assert(well_nested(own, depth));
        lemma_nested_deeper(inner, depth + 1, depth);
        lemma_nested_joins(own, inner, depth);
        lemma_nested_joins(head, own + inner, depth);
    }
}

proof fn lemma_lanes_nested(
    node: MacroNode,
    k: nat,
    depth: int,
    path: Seq<char>,
    t: Seq<Seq<char>>,
)
    requires
        k <= lanes(node).len(),
    ensures
        well_nested(lane_rows(node, k, depth, path, t), depth + 1),
    decreases node, k,
{
    lemma_sorts_differ();
    if k > 0 {
        let arm = lanes(node)[k - 1].0;
        let body = lanes(node)[k - 1].1;
        let from = (own_values(node).len() + lanes_shown(node, (k - 1) as nat).len()) as int;
        let tt = t.subrange(from, from + shown(body).len());
        let ctx = lane_path(path, arm);
        let head = lane_rows(node, (k - 1) as nat, depth, path, t);
        let header = lane_block(arm, path, depth + 1);
        let inner = body_rows(body, body.len(), depth + 2, ctx, tt);
        let point = add_block(ctx, depth + 2);
        let lane = seq![header] + inner + seq![point];
        lemma_lanes_nested(node, (k - 1) as nat, depth, path, t);
        lemma_lane_smaller(node, k - 1);
        lemma_body_nested(body, body.len(), depth + 2, ctx, tt);
        assert(well_nested(seq![point], depth + 2));
        lemma_nested_joins(inner, seq![point], depth + 2);
        let rest = inner + seq![point];
        assert(lane =~= seq![header] + rest);
        assert forall|a: int| 0 <= a < lane.len() implies (#[trigger] lane[a]).depth >= depth
            + 1 by {
            if a > 0 {
                assert(lane[a] == rest[a - 1]);
            }
        }
        assert forall|a: int|
            0 <= a < lane.len() && (#[trigger] lane[a]).row == "lane"@ implies exists|b: int|
            a < b && #[trigger] closes_lane(lane, lane[a], b) by {
            if a == 0 {
                assert(lane[lane.len() - 1] == point);
                assert(closes_lane(lane, lane[a], lane.len() - 1));
            } else {
                assert(lane[a] == rest[a - 1]);
                let b = choose|b: int| a - 1 < b && #[trigger] closes_lane(rest, rest[a - 1], b);
                assert(lane[b + 1] == rest[b]);
                assert(closes_lane(lane, lane[a], b + 1));
            }
        }
        assert(well_nested(lane, depth + 1));
        lemma_nested_joins(head, lane, depth + 1);
        assert(lane_rows(node, k, depth, path, t) =~= head + lane);
    }
}

/// No row lies above the depth that the canvas was laid out at, and each lane header is followed by
/// the insert point of that lane, one level further in.
pub proof fn law_rows_are_nested(
    tree: Seq<MacroNode>,
    depth: int,
    ctx: Seq<char>,
    t: Seq<Seq<char>>,
)
    ensures
        well_nested(canvas(tree, depth, ctx, t), depth),
{
    let inner = body_rows(tree, tree.len(), depth, ctx, t);
    let point = seq![add_block(ctx, depth)];
    lemma_sorts_differ();
    lemma_body_nested(tree, tree.len(), depth, ctx, t);
    assert(well_nested(point, depth));
    lemma_nested_joins(inner, point, depth);
}

/// The same of the rows of one body alone.
pub proof fn law_body_rows_are_nested(
    nodes: Seq<MacroNode>,
    depth: int,
    ctx: Seq<char>,
    t: Seq<Seq<char>>,
)
    ensures
        well_nested(body_rows(nodes, nodes.len(), depth, ctx, t), depth),
{
    lemma_body_nested(nodes, nodes.len(), depth, ctx, t);
}

// ── which step closes its body ──────────────────────────────────────────────────────────────────

/// The row at `b` is a later step of the body that the row at `a` stands in: it lies as deep, and no
/// row between the two lies higher.
pub open spec fn later_step(rows: Seq<BlockView>, a: int, b: int) -> bool {
    &&& a < b < rows.len()
    &&& rows[b].row == "step"@
    &&& rows[b].depth == rows[a].depth
    &&& forall|c: int| a < c < b ==> (#[trigger] rows[c]).depth >= rows[a].depth
}

/// No step of its body follows the step row at `a`.
pub open spec fn closes_body(rows: Seq<BlockView>, a: int) -> bool {
    rows[a].row == "step"@ && forall|b: int| !#[trigger] later_step(rows, a, b)
}

/// The rows marked as the last are those of the steps that close their bodies.
pub open spec fn last_steps_marked(rows: Seq<BlockView>) -> bool {
    forall|a: int| 0 <= a < rows.len() ==> (#[trigger] rows[a]).last == closes_body(rows, a)
}

/// Of the rows of a body that goes on below: its own steps are not closed yet.
spec fn marked_so_far(rows: Seq<BlockView>, depth: int, more: bool) -> bool {
    forall|a: int|
        0 <= a < rows.len() ==> (#[trigger] rows[a]).last == (closes_body(rows, a) && !(more
            && rows[a].depth == depth))
}

proof fn lemma_closes_before(a: Seq<BlockView>, b: Seq<BlockView>, i: int)
    requires
        0 <= i < a.len(),
        b.len() > 0,
        b[0].depth < a[i].depth || (b.len() == 1 && b[0].row != "step"@),
    ensures
        closes_body(a + b, i) == closes_body(a, i),
{
    let all = a + b;
    assert(all[i] == a[i]);
    assert(all[a.len() as int] == b[0]);
    assert forall|j: int| later_step(all, i, j) == #[trigger] later_step(a, i, j) by {
        if later_step(a, i, j) {
            assert(all[j] == a[j]);
            assert forall|c: int| i < c < j implies (#[trigger] all[c]).depth >= all[i].depth by {
                assert(all[c] == a[c]);
            }
        }
        if later_step(all, i, j) {
            if j > a.len() {
                assert(all[a.len() as int].depth >= all[i].depth);
            }
            assert(j < a.len());
            assert(all[j] == a[j]);
            assert forall|c: int| i < c < j implies (#[trigger] a[c]).depth >= a[i].depth by {
                assert(all[c] == a[c]);
            }
        }
    }
    if closes_body(a, i) {
        assert forall|j: int| !#[trigger] later_step(all, i, j) by {
            assert(!later_step(a, i, j));
        }
    }
    if closes_body(all, i) {
        assert forall|j: int| !#[trigger] later_step(a, i, j) by {
            assert(!later_step(all, i, j));
        }
    }
}

proof fn lemma_closes_after(a: Seq<BlockView>, b: Seq<BlockView>, i: int)
    requires
        0 <= i < b.len(),
    ensures
        closes_body(a + b, a.len() + i) == closes_body(b, i),
{
    let all = a + b;
    let n = a.len() as int;
    assert(all[n + i] == b[i]);
    if closes_body(b, i) {
        assert forall|j: int| !#[trigger] later_step(all, n + i, j) by {
            if later_step(all, n + i, j) {
                assert(all[j] == b[j - n]);
                assert forall|c: int| i < c < j - n implies (#[trigger] b[c]).depth
                    >= b[i].depth by {
                    assert(all[n + c] == b[c]);
                }
                assert(later_step(b, i, j - n));
            }
        }
    }
    if closes_body(all, n + i) {
        assert forall|j: int| !#[trigger] later_step(b, i, j) by {
            if later_step(b, i, j) {
                assert(all[n + j] == b[j]);
                assert forall|c: int| n + i < c < n + j implies (#[trigger] all[c]).depth
                    >= all[n + i].depth by {
                    assert(all[c] == b[c - n]);
                }
                assert(later_step(all, n + i, n + j));
            }
        }
    }
}

proof fn lemma_body_marked(
    nodes: Seq<MacroNode>,
    k: nat,
    depth: int,
    ctx: Seq<char>,
    t: Seq<Seq<char>>,
)
    requires
        k <= nodes.len(),
    ensures
        marked_so_far(body_rows(nodes, k, depth, ctx, t), depth, k < nodes.len()),
    decreases nodes, k,
{
    if k > 0 {
        let from = shown(nodes.take(k - 1)).len() as int;
        let node = nodes[k - 1];
        let tt = t.subrange(from, from + step_shown(node).len());
        let head = body_rows(nodes, (k - 1) as nat, depth, ctx, t);
        let path = child_path(ctx, (k - 1) as nat);
        let own = step_block(node, path, depth, k == nodes.len(), tt);
        let inner = lane_rows(node, lanes(node).len(), depth, path, tt);
        let step = seq![own] + inner;
        let all = body_rows(nodes, k, depth, ctx, t);
        lemma_body_marked(nodes, (k - 1) as nat, depth, ctx, t);
        lemma_body_nested(nodes, (k - 1) as nat, depth, ctx, t);
        assert(decreases_to!(nodes => nodes[k - 1]));
        lemma_lanes_marked(node, lanes(node).len(), depth, path, tt);
        lemma_lanes_nested(node, lanes(node).len(), depth, path, tt);
        assert(step_rows(node, path, depth, k == nodes.len(), tt) == step);
        assert(all == head + step);
        assert forall|a: int| 0 <= a < all.len() implies (#[trigger] all[a]).last == (closes_body(
            all,
            a,
        ) && !(k < nodes.len() && all[a].depth == depth)) by {
            let n = head.len() as int;
            if a < n {
                assert(all[a] == head[a]);
                assert(head[a].depth >= depth);
                if head[a].depth > depth {
                    lemma_closes_before(head, step, a);
                } else {
                    assert(!head[a].last);
                    assert(all[n] == own);
                    assert forall|c: int| a < c < n implies (#[trigger] all[c]).depth
                        >= all[a].depth by {
                        assert(all[c] == head[c]);
                    }
                    assert(later_step(all, a, n));
                }
            } else if a == n {
                assert(all[a] == own);
                assert forall|b: int| !#[trigger] later_step(all, a, b) by {
                    if a < b < all.len() {
                        assert(all[b] == inner[b - n - 1]);
                    }
                }
            } else {
                assert(all[a] == inner[a - n - 1]);
                assert(all =~= (head + seq![own]) + inner);
                lemma_closes_after(head + seq![own], inner, a - n - 1);
            }
        }
    }
}

proof fn lemma_lanes_marked(
    node: MacroNode,
    k: nat,
    depth: int,
    path: Seq<char>,
    t: Seq<Seq<char>>,
)
    requires
        k <= lanes(node).len(),
    ensures
        last_steps_marked(lane_rows(node, k, depth, path, t)),
        forall|a: int|
            0 <= a < lane_rows(node, k, depth, path, t).len() && (#[trigger] lane_rows(
                node,
                k,
                depth,
                path,
                t,
            )[a]).row == "step"@ ==> lane_rows(node, k, depth, path, t)[a].depth >= depth + 2,
    decreases node, k,
{
    lemma_sorts_differ();
    if k > 0 {
        let arm = lanes(node)[k - 1].0;
        let body = lanes(node)[k - 1].1;
        let from = (own_values(node).len() + lanes_shown(node, (k - 1) as nat).len()) as int;
        let tt = t.subrange(from, from + shown(body).len());
        let ctx = lane_path(path, arm);
        let head = lane_rows(node, (k - 1) as nat, depth, path, t);
        let header = lane_block(arm, path, depth + 1);
        let inner = body_rows(body, body.len(), depth + 2, ctx, tt);
        let point = add_block(ctx, depth + 2);
        let lane = seq![header] + inner + seq![point];
        let all = lane_rows(node, k, depth, path, t);
        lemma_lanes_marked(node, (k - 1) as nat, depth, path, t);
        lemma_lane_smaller(node, k - 1);
        lemma_body_marked(body, body.len(), depth + 2, ctx, tt);
        lemma_body_nested(body, body.len(), depth + 2, ctx, tt);
        assert(all =~= head + lane);
        let n = head.len() as int;
        assert forall|a: int| 0 <= a < all.len() implies (#[trigger] all[a]).last == closes_body(
            all,
            a,
        ) && (all[a].row == "step"@ ==> all[a].depth >= depth + 2) by {
            let x = a - n - 1;
            if a < n {
                assert(all[a] == head[a]);
                if head[a].row == "step"@ {
                    lemma_closes_before(head, lane, a);
                }
            } else if 0 <= x < inner.len() {
                let ahead = head + seq![header];
                assert(all[a] == inner[x]);
                assert(all =~= ahead + (inner + seq![point]));
                lemma_closes_after(ahead, inner + seq![point], x);
                lemma_closes_before(inner, seq![point], x);
            } else {
                assert(all[a] == header || all[a] == point);
            }
        }
    }
}

/// Within each body, the row of the final step and no other is marked as the last, whatever the body
/// and its lanes hold.
pub proof fn law_last_steps_are_marked(
    nodes: Seq<MacroNode>,
    depth: int,
    ctx: Seq<char>,
    t: Seq<Seq<char>>,
)
    ensures
        last_steps_marked(body_rows(nodes, nodes.len(), depth, ctx, t)),
        last_steps_marked(canvas(nodes, depth, ctx, t)),
{
    let inner = body_rows(nodes, nodes.len(), depth, ctx, t);
    let point = add_block(ctx, depth);
    let all = canvas(nodes, depth, ctx, t);
    lemma_sorts_differ();
    lemma_body_marked(nodes, nodes.len(), depth, ctx, t);
    assert forall|a: int| 0 <= a < all.len() implies (#[trigger] all[a]).last == closes_body(
        all,
        a,
    ) by {
        if a < inner.len() {
            assert(all[a] == inner[a]);
            lemma_closes_before(inner, seq![point], a);
        } else {
            assert(all[a] == point);
        }
    }
}

} // verus!
