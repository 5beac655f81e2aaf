//! The macro editor as it is shown: the source text, the canvas, and which of the two an edit
//! rebuilds.

use vstd::prelude::*;

use crate::canvas::{
    add_block, body_rows, canvas, flatten_macro, height, lane_block, lane_path, lane_rows, lanes,
    lanes_shown, lemma_lane_smaller, own_values, rows, shown, step_block, step_rows, step_shown,
    BlockView, MacroBlock,
};
use crate::macros::{
    arm_body, child_path, edited, find_parent, index_of, kind_of, rebuilt, with_arm, MacroNode,
};
use crate::source_scan::has_ask;
use crate::text::{has_text, texts, trimmed};
use crate::workshop::{
    macro_loaded, parse_error_shown, parse_error_text, refresh_macro_blocks, BlocksStep, ParseError,
};

verus! {

/// The macro editor.
pub struct Editor {
    pub name: String,
    pub source: String,
    pub status: String,
    /// Whether the source asks through the host.
    pub has_ask: bool,
    /// Whether the next change of the source text is one that a tree edit made.
    pub source_dirty: bool,
    /// Whether the source text is shown in place of the canvas.
    pub code_view: bool,
    pub blocks: Vec<MacroBlock>,
    /// Whether the source is being parsed.
    pub parsing: bool,
    /// What is wrong with the source.
    pub parse_error: String,
}

impl Editor {
    /// Shows a tree after a change of its structure: its source, and its rows laid out anew.
    /// `sources` holds the source text of each of `shown_values(tree)`. The dirty mark is set in the
    /// code view alone, where the source text is mounted.
    pub fn regenerate_from_tree(
        &mut self,
        tree: &[MacroNode],
        source: String,
        sources: &Vec<String>,
    )
        requires
            sources@.len() == shown(tree@).len(),
            2 * height(tree@) <= i32::MAX,
        ensures
            final(self).source == source,
            final(self).has_ask == has_text(source@, "neuron.ask"@),
            final(self).source_dirty == (old(self).source_dirty || old(self).code_view),
            rows(final(self).blocks@) == canvas(tree@, 0, ""@, texts(sources@)),
            final(self).code_view == old(self).code_view,
            final(self).name == old(self).name,
            final(self).status == old(self).status,
            final(self).parsing == old(self).parsing,
            final(self).parse_error == old(self).parse_error,
    {
        self.regenerate_source_only(source);
        let mut blocks: Vec<MacroBlock> = Vec::new();
        flatten_macro(tree, 0, "", sources, &mut blocks);
        proof {
            let none: Seq<MacroBlock> = Seq::empty();
            assert(rows(none) + canvas(tree@, 0, ""@, texts(sources@)) =~= canvas(
                tree@,
                0,
                ""@,
                texts(sources@),
            ));
        }
        self.blocks = blocks;
    }

    /// Shows a tree after an edit of one field: its source alone. The rows stay as they are, so the
    /// field being typed in keeps its caret.
    pub fn regenerate_source_only(&mut self, source: String)
        ensures
            final(self).source == source,
            final(self).has_ask == has_text(source@, "neuron.ask"@),
            final(self).source_dirty == (old(self).source_dirty || old(self).code_view),
            final(self).blocks == old(self).blocks,
            final(self).code_view == old(self).code_view,
            final(self).name == old(self).name,
            final(self).status == old(self).status,
            final(self).parsing == old(self).parsing,
            final(self).parse_error == old(self).parse_error,
    {
        self.has_ask = has_ask(source.as_str());
        if self.code_view {
            self.source_dirty = true;
        }
        self.source = source;
    }

    /// The source text was edited: whether it asks is known at once.
    pub fn note_macro_source(&mut self, source: &str)
        ensures
            *final(self) == (Editor { has_ask: has_text(source@, "neuron.ask"@), ..*old(self) }),
    {
        self.has_ask = has_ask(source);
    }

    /// The canvas is to follow the source. A blank source empties the tree at once, leaving the
    /// invitation to add a first step; any other is to be parsed, one parse at a time.
    pub fn refresh_macro_blocks(&mut self, tree: &mut Vec<MacroNode>, source: &str) -> (r: BlocksStep)
        ensures
            r == (if trimmed(source@).len() == 0 {
                BlocksStep::Clear
            } else if old(self).parsing {
                BlocksStep::Wait
            } else {
                BlocksStep::Parse
            }),
            r == BlocksStep::Clear ==> {
                &&& final(tree)@.len() == 0
                &&& rows(final(self).blocks@) == seq![add_block(""@, 0)]
                &&& final(self).parse_error@.len() == 0
                &&& !final(self).parsing
            },
            r != BlocksStep::Clear ==> {
                &&& *final(tree) == *old(tree)
                &&& *final(self) == (Editor { parsing: true, ..*old(self) })
            },
            final(self).source == old(self).source,
            final(self).name == old(self).name,
            final(self).status == old(self).status,
            final(self).has_ask == old(self).has_ask,
            final(self).source_dirty == old(self).source_dirty,
            final(self).code_view == old(self).code_view,
    {
        let step = refresh_macro_blocks(source, self.parsing);
        match step {
            BlocksStep::Clear => {
                let none: Vec<MacroNode> = Vec::new();
                let sources: Vec<String> = Vec::new();
                let mut blocks: Vec<MacroBlock> = Vec::new();
                flatten_macro(none.as_slice(), 0, "", &sources, &mut blocks);
                proof {
                    law_empty_canvas_invites(0, ""@, texts(sources@));
                    let empty: Seq<MacroBlock> = Seq::empty();
                    assert(none@ =~= Seq::<MacroNode>::empty());
                    assert(rows(empty) + seq![add_block(""@, 0)] =~= seq![add_block(""@, 0)]);
                }
                *tree = none;
                self.blocks = blocks;
                self.parse_error = String::new();
                self.parsing = false;
            },
            BlocksStep::Wait => {},
            BlocksStep::Parse => {
                self.parsing = true;
            },
        }
        step
    }

    /// A parse is over. Its tree takes the place of the one at hand, and its rows are laid out;
    /// `sources` holds the source text of each of `shown_values` of that tree. A source that cannot be
    /// parsed is told so, and the last good tree and rows stay.
    pub fn blocks_parsed(
        &mut self,
        tree: &mut Vec<MacroNode>,
        result: Result<Vec<MacroNode>, ParseError>,
        sources: &Vec<String>,
    )
        requires
            result matches Ok(nodes) ==> sources@.len() == shown(nodes@).len() && 2 * height(nodes@)
                <= i32::MAX,
        ensures
            !final(self).parsing,
            match result {
                Ok(nodes) => {
                    &&& *final(tree) == nodes
                    &&& rows(final(self).blocks@) == canvas(nodes@, 0, ""@, texts(sources@))
                    &&& final(self).parse_error@.len() == 0
                },
                Err(e) => {
                    &&& *final(tree) == *old(tree)
                    &&& final(self).blocks == old(self).blocks
                    &&& final(self).parse_error@ == parse_error_shown(e)
                },
            },
            final(self).source == old(self).source,
            final(self).name == old(self).name,
            final(self).status == old(self).status,
            final(self).has_ask == old(self).has_ask,
            final(self).source_dirty == old(self).source_dirty,
            final(self).code_view == old(self).code_view,
    {
        self.parsing = false;
        match result {
            Ok(nodes) => {
                let mut blocks: Vec<MacroBlock> = Vec::new();
                flatten_macro(nodes.as_slice(), 0, "", sources, &mut blocks);
                proof {
                    let empty: Seq<MacroBlock> = Seq::empty();
                    assert(rows(empty) + canvas(nodes@, 0, ""@, texts(sources@)) =~= canvas(
                        nodes@,
                        0,
                        ""@,
                        texts(sources@),
                    ));
                }
                self.blocks = blocks;
                self.parse_error = String::new();
                *tree = nodes;
            },
            Err(e) => {
                self.parse_error = parse_error_text(&e);
            },
        }
    }

    /// Opens a saved macro; gives whether its source is to be parsed into the canvas. One that is not
    /// there changes nothing.
    pub fn load_macro_into_editor(&mut self, id: &str, saved: Option<String>) -> (parse: bool)
        ensures
            parse == saved is Some,
            final(self).blocks == old(self).blocks,
            final(self).parsing == old(self).parsing,
            final(self).parse_error == old(self).parse_error,
            final(self).source_dirty == old(self).source_dirty,
            final(self).code_view == old(self).code_view,
            match saved {
                Some(src) => {
                    &&& final(self).name@ == id@
                    &&& final(self).source == src
                    &&& final(self).has_ask == has_text(src@, "neuron.ask"@)
                    &&& final(self).status@ == "loaded '"@ + id@ + "' — edit it, then save"@
                },
                None => *final(self) == *old(self),
            },
    {
        match saved {
            Some(src) => {
                self.name = id.to_owned();
                self.has_ask = has_ask(src.as_str());
                self.status = macro_loaded(id);
                self.source = src;
                true
            },
            None => false,
        }
    }
}

/// An empty tree is laid out as the one invitation to add a first step.
pub proof fn law_empty_canvas_invites(depth: int, ctx: Seq<char>, t: Seq<Seq<char>>)
    ensures
        canvas(Seq::<MacroNode>::empty(), depth, ctx, t) == seq![add_block(ctx, depth)],
        shown(Seq::<MacroNode>::empty()).len() == 0,
        height(Seq::<MacroNode>::empty()) == 0,
{
    let none = Seq::<MacroNode>::empty();
    assert(body_rows(none, 0, depth, ctx, t) =~= Seq::empty());
    assert(canvas(none, depth, ctx, t) =~= seq![add_block(ctx, depth)]);
}

// ── a field edit leaves the layout alone ────────────────────────────────────────────────────────

/// Two rows stand at one place: they differ in nothing but the text of their field.
pub open spec fn same_place(a: BlockView, b: BlockView) -> bool {
    &&& a.row == b.row
    &&& a.path == b.path
    &&& a.depth == b.depth
    &&& a.kind == b.kind
    &&& a.verb == b.verb
    &&& a.last == b.last
}

/// Two lists of rows have one layout.
pub open spec fn same_layout(a: Seq<BlockView>, b: Seq<BlockView>) -> bool {
    &&& a.len() == b.len()
    &&& forall|i: int| 0 <= i < a.len() ==> same_place(#[trigger] a[i], b[i])
}

/// Two bodies hold steps of the same kinds, lane by lane.
pub open spec fn same_shape(a: Seq<MacroNode>, b: Seq<MacroNode>) -> bool
    decreases a, 0nat,
{
    &&& a.len() == b.len()
    &&& a.len() > 0 ==> same_shape(a.drop_last(), b.drop_last()) && step_alike(a.last(), b.last())
}

/// Two steps are of one kind, and so are the steps in their lanes.
pub open spec fn step_alike(x: MacroNode, y: MacroNode) -> bool
    decreases x, 3nat,
{
    &&& kind_of(x) == kind_of(y)
    &&& lanes(x).len() == lanes(y).len()
    &&& lanes_alike(x, y, lanes(x).len())
}

/// The first `k` lanes of two steps have the same names and shapes.
pub open spec fn lanes_alike(x: MacroNode, y: MacroNode, k: nat) -> bool
    decreases x, k,
{
    if k == 0 || k > lanes(x).len() {
        true
    } else {
        proof {
            lemma_lane_smaller(x, k - 1);
        }
        &&& lanes_alike(x, y, (k - 1) as nat)
        &&& lanes(x)[k - 1].0 == lanes(y)[k - 1].0
        &&& same_shape(lanes(x)[k - 1].1, lanes(y)[k - 1].1)
    }
}

proof fn lemma_alike_at(a: Seq<MacroNode>, b: Seq<MacroNode>, i: int)
    requires
        same_shape(a, b),
        0 <= i < a.len(),
    ensures
        step_alike(a[i], b[i]),
    decreases a.len(),
{
    if i < a.len() - 1 {
        lemma_alike_at(a.drop_last(), b.drop_last(), i);
    }
}

proof fn lemma_alike_all(a: Seq<MacroNode>, b: Seq<MacroNode>)
    requires
        a.len() == b.len(),
        forall|i: int| 0 <= i < a.len() ==> step_alike(#[trigger] a[i], b[i]),
    ensures
        same_shape(a, b),
    decreases a.len(),
{
    if a.len() > 0 {
        let x = a.drop_last();
        let y = b.drop_last();
        assert forall|i: int| 0 <= i < x.len() implies step_alike(#[trigger] x[i], y[i]) by {
            assert(step_alike(a[i], b[i]));
        }
        lemma_alike_all(x, y);
        assert(step_alike(a[a.len() - 1], b[b.len() - 1]));
    }
}

proof fn lemma_alike_itself(a: Seq<MacroNode>)
    ensures
        same_shape(a, a),
    decreases a, 0nat,
{
    if a.len() > 0 {
        lemma_alike_itself(a.drop_last());
        lemma_step_alike_itself(a.last());
    }
}

proof fn lemma_step_alike_itself(x: MacroNode)
    ensures
        step_alike(x, x),
    decreases x, 3nat,
{
    lemma_lanes_alike_themselves(x, lanes(x).len());
}

proof fn lemma_lanes_alike_themselves(x: MacroNode, k: nat)
    requires
        k <= lanes(x).len() <= 2,
    ensures
        lanes_alike(x, x, k),
    decreases x, k,
{
    if k > 0 {
        lemma_lane_smaller(x, k - 1);
        lemma_lanes_alike_themselves(x, (k - 1) as nat);
        lemma_alike_itself(lanes(x)[k - 1].1);
    }
}

/// Steps with the same lanes are alike, lane by lane.
proof fn lemma_lanes_kept(x: MacroNode, y: MacroNode, k: nat)
    requires
        lanes(x) == lanes(y),
        k <= lanes(x).len(),
    ensures
        lanes_alike(x, y, k),
    decreases k,
{
    if k > 0 {
        lemma_lanes_kept(x, y, (k - 1) as nat);
        lemma_alike_itself(lanes(x)[k - 1].1);
    }
}

/// Bodies of one shape are laid out alike, whatever their fields say.
proof fn lemma_shape_fixes_body(
    a: Seq<MacroNode>,
    b: Seq<MacroNode>,
    k: nat,
    depth: int,
    ctx: Seq<char>,
    t: Seq<Seq<char>>,
    u: Seq<Seq<char>>,
)
    requires
        same_shape(a, b),
        k <= a.len(),
    ensures
        same_layout(body_rows(a, k, depth, ctx, t), body_rows(b, k, depth, ctx, u)),
    decreases a, k,
{
    if k > 0 {
        let x = a[k - 1];
        let y = b[k - 1];
        let path = child_path(ctx, (k - 1) as nat);
        let last = k == a.len();
        let from = shown(a.take(k - 1)).len() as int;
        let at = shown(b.take(k - 1)).len() as int;
        let tx = t.subrange(from, from + step_shown(x).len());
        let uy = u.subrange(at, at + step_shown(y).len());
        lemma_alike_at(a, b, k - 1);
        lemma_shape_fixes_body(a, b, (k - 1) as nat, depth, ctx, t, u);
        assert(decreases_to!(a => a[k - 1]));
        lemma_shape_fixes_lanes(x, y, lanes(x).len(), depth, path, tx, uy);
        let head = body_rows(a, (k - 1) as nat, depth, ctx, t);
        let other = body_rows(b, (k - 1) as nat, depth, ctx, u);
        let mine = step_rows(x, path, depth, last, tx);
        let theirs = step_rows(y, path, depth, last, uy);
        lemma_layouts_join(
            seq![step_block(x, path, depth, last, tx)],
            seq![step_block(y, path, depth, last, uy)],
            lane_rows(x, lanes(x).len(), depth, path, tx),
            lane_rows(y, lanes(y).len(), depth, path, uy),
        );
        lemma_layouts_join(head, other, mine, theirs);
    }
}

/// Steps of one shape are laid out alike, lane by lane.
proof fn lemma_shape_fixes_lanes(
    x: MacroNode,
    y: MacroNode,
    k: nat,
    depth: int,
    path: Seq<char>,
    t: Seq<Seq<char>>,
    u: Seq<Seq<char>>,
)
    requires
        lanes_alike(x, y, k),
        k <= lanes(x).len(),
        lanes(x).len() == lanes(y).len(),
    ensures
        same_layout(lane_rows(x, k, depth, path, t), lane_rows(y, k, depth, path, u)),
    decreases x, k,
{
    if k > 0 {
        lemma_lane_smaller(x, k - 1);
        lemma_shape_fixes_lanes(x, y, (k - 1) as nat, depth, path, t, u);
        let arm = lanes(x)[k - 1].0;
        let p = lanes(x)[k - 1].1;
        let q = lanes(y)[k - 1].1;
        let from = (own_values(x).len() + lanes_shown(
            x,
            (k - 1) as nat,
        ).len()) as int;
        let at = (own_values(y).len() + lanes_shown(
            y,
            (k - 1) as nat,
        ).len()) as int;
        let tp = t.subrange(from, from + shown(p).len());
        let uq = u.subrange(at, at + shown(q).len());
        let ctx = lane_path(path, arm);
        assert(same_shape(p, q));
        lemma_shape_fixes_body(p, q, p.len(), depth + 2, ctx, tp, uq);
        let head = seq![lane_block(arm, path, depth + 1)];
        let tail = seq![add_block(ctx, depth + 2)];
        lemma_layouts_join(
            lane_rows(x, (k - 1) as nat, depth, path, t),
            lane_rows(y, (k - 1) as nat, depth, path, u),
            head,
            head,
        );
        lemma_layouts_join(
            lane_rows(x, (k - 1) as nat, depth, path, t) + head,
            lane_rows(y, (k - 1) as nat, depth, path, u) + head,
            body_rows(p, p.len(), depth + 2, ctx, tp),
            body_rows(q, q.len(), depth + 2, ctx, uq),
        );
        lemma_layouts_join(
            lane_rows(x, (k - 1) as nat, depth, path, t) + head + body_rows(
                p,
                p.len(),
                depth + 2,
                ctx,
                tp,
            ),
            lane_rows(y, (k - 1) as nat, depth, path, u) + head + body_rows(
                q,
                q.len(),
                depth + 2,
                ctx,
                uq,
            ),
            tail,
            tail,
        );
    }
}

proof fn lemma_layouts_join(
    a: Seq<BlockView>,
    b: Seq<BlockView>,
    c: Seq<BlockView>,
    d: Seq<BlockView>,
)
    requires
        same_layout(a, b),
        same_layout(c, d),
    ensures
        same_layout(a + c, b + d),
{
    assert forall|i: int| 0 <= i < (a + c).len() implies same_place(
        #[trigger] (a + c)[i],
        (b + d)[i],
    ) by {
        if i < a.len() {
            assert(same_place(a[i], b[i]));
        } else {
            assert(same_place(c[i - a.len()], d[i - a.len()]));
        }
    }
}

/// What the fields of a tree say does not move its rows.
pub proof fn law_texts_do_not_move_rows(
    tree: Seq<MacroNode>,
    depth: int,
    ctx: Seq<char>,
    t: Seq<Seq<char>>,
    u: Seq<Seq<char>>,
)
    ensures
        same_layout(canvas(tree, depth, ctx, t), canvas(tree, depth, ctx, u)),
{
    lemma_alike_itself(tree);
    lemma_shape_fixes_body(tree, tree, tree.len(), depth, ctx, t, u);
    let point = seq![add_block(ctx, depth)];
    lemma_layouts_join(
        body_rows(tree, tree.len(), depth, ctx, t),
        body_rows(tree, tree.len(), depth, ctx, u),
        point,
        point,
    );
}

/// A step whose field was edited keeps its kind and its lanes.
pub proof fn law_edit_keeps_kind(node: MacroNode, new: MacroNode, v: Seq<char>)
    requires
        edited(node, new, v),
    ensures
        kind_of(new) == kind_of(node),
        lanes(new) == lanes(node),
{
    assert(lanes(new) =~= lanes(node));
}

proof fn lemma_edit_keeps_shape(
    tree: Seq<MacroNode>,
    new: Seq<MacroNode>,
    segs: Seq<Seq<char>>,
    b: Seq<MacroNode>,
    k: nat,
    node: MacroNode,
    v: Seq<char>,
)
    requires
        find_parent(tree, segs) == Some((b, k)),
        edited(b[k as int], node, v),
        rebuilt(tree, new, segs, b.update(k as int, node)),
    ensures
        same_shape(tree, new),
    decreases segs.len(),
{
    let idx = index_of(segs[0])->0;
    if segs.len() >= 2 {
        let x = tree[idx as int];
        let y = new[idx as int];
        let p = arm_body(x, segs[1])->0;
        let q = arm_body(y, segs[1])->0;
        lemma_edit_keeps_shape(p@, q@, segs.skip(2), b, k, node, v);
        lemma_lane_changed(x, segs[1], p, q);
    } else {
        law_edit_keeps_kind(tree[idx as int], new[idx as int], v);
        lemma_lanes_kept(tree[idx as int], new[idx as int], lanes(tree[idx as int]).len());
    }
    assert forall|i: int| 0 <= i < tree.len() implies step_alike(#[trigger] tree[i], new[i]) by {
        if i != idx {
            assert(new[i] == tree[i]);
            lemma_step_alike_itself(tree[i]);
        }
    }
    lemma_alike_all(tree, new);
}

/// A step is alike to itself with one lane replaced by a lane of the same shape.
proof fn lemma_lane_changed(x: MacroNode, arm: Seq<char>, p: Vec<MacroNode>, q: Vec<MacroNode>)
    requires
        arm_body(x, arm) == Some(p),
        same_shape(p@, q@),
    ensures
        step_alike(x, with_arm(x, arm, q)),
{
    let y = with_arm(x, arm, q);
    assert(lanes(x).len() == lanes(y).len() <= 2);
    assert(lanes_alike(x, y, 0));
    if lanes(x).len() >= 1 {
        lemma_alike_itself(lanes(x)[0].1);
        assert(same_shape(lanes(x)[0].1, lanes(y)[0].1));
        assert(lanes_alike(x, y, 1));
        if lanes(x).len() == 2 {
            lemma_alike_itself(lanes(x)[1].1);
            assert(same_shape(lanes(x)[1].1, lanes(y)[1].1));
            assert(lanes_alike(x, y, 2));
        }
    }
}

/// An edit of a step's field leaves the layout of the canvas as it is: the same rows at the same
/// places, whatever their fields now say. So the rows need not be laid out anew.
pub proof fn law_field_edit_keeps_layout(
    tree: Seq<MacroNode>,
    new: Seq<MacroNode>,
    segs: Seq<Seq<char>>,
    b: Seq<MacroNode>,
    k: nat,
    node: MacroNode,
    v: Seq<char>,
    depth: int,
    ctx: Seq<char>,
    t: Seq<Seq<char>>,
    u: Seq<Seq<char>>,
)
    requires
        find_parent(tree, segs) == Some((b, k)),
        edited(b[k as int], node, v),
        rebuilt(tree, new, segs, b.update(k as int, node)),
    ensures
        same_layout(canvas(tree, depth, ctx, t), canvas(new, depth, ctx, u)),
{
    lemma_edit_keeps_shape(tree, new, segs, b, k, node, v);
    lemma_shape_fixes_body(tree, new, tree.len(), depth, ctx, t, u);
    let point = seq![add_block(ctx, depth)];
    lemma_layouts_join(
        body_rows(tree, tree.len(), depth, ctx, t),
        body_rows(new, new.len(), depth, ctx, u),
        point,
        point,
    );
}

} // verus!
