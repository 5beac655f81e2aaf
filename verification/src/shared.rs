//! What the pages share: the lighting stack, the macro being built, and an import between reading it
//! and applying it.

use vstd::prelude::*;

use crate::canvas::{
    add_block, canvas, height, law_rows_lead_back, leads_back, rows, shown, BlockView,
};
use crate::constructor::{
    law_empty_canvas_invites, law_field_edit_keeps_layout, law_texts_do_not_move_rows, same_layout,
    same_place, Editor,
};
use crate::light_session::LightSaver;
use crate::light_stack::LightStack;
use crate::macros::{edit_step, edited, find_parent, rebuilt, segments, MacroNode};
use crate::text::{has_text, texts, trimmed};
use crate::workshop::{parse_error_shown, BlocksStep, ParseError};

verus! {

/// What the pages share. `I` is an import, `L` and `F` what a layer and a frame of it hold.
pub struct Shared<I, L, F> {
    /// An import that was read and not applied yet.
    pub pending_import: Option<I>,
    pub light: LightStack<L, F>,
    pub saver: LightSaver<L, F>,
    /// The macro being built; its source text and its rows follow it.
    pub macro_tree: Vec<MacroNode>,
    pub editor: Editor,
}

/// What the pages share at the start. The stack is empty: nothing is claimed to show on a board that
/// the app does not drive. Nothing is saved before what was saved is restored. The canvas invites a
/// first step.
pub fn install<I, L, F>() -> (r: Shared<I, L, F>)
    ensures
        r.pending_import is None,
        r.light.layers@.len() == 0,
        r.light.selected == 0,
        r.light.active_frame == 0,
        r.light.rev == 0,
        !r.saver.ready,
        r.saver.pending is None,
        r.macro_tree@.len() == 0,
        rows(r.editor.blocks@) == seq![add_block(""@, 0)],
        r.editor.source@.len() == 0,
        !r.editor.has_ask,
        !r.editor.source_dirty,
        !r.editor.code_view,
        !r.editor.parsing,
        r.editor.parse_error@.len() == 0,
        r.in_step(),
{
    let mut macro_tree: Vec<MacroNode> = Vec::new();
    let mut editor = Editor {
        name: String::new(),
        source: String::new(),
        status: String::new(),
        has_ask: false,
        source_dirty: false,
        code_view: false,
        blocks: Vec::new(),
        parsing: false,
        parse_error: String::new(),
    };
    proof {
        reveal_strlit("");
        assert(trimmed(""@).len() == 0);
        law_empty_canvas_invites(0, ""@, Seq::empty());
    }
    let _ = editor.refresh_macro_blocks(&mut macro_tree, "");
    proof {
        assert(macro_tree@ =~= Seq::<MacroNode>::empty());
    }
    Shared {
        pending_import: None,
        light: LightStack::new(),
        saver: LightSaver::new(),
        macro_tree,
        editor,
    }
}

impl<I, L, F> Shared<I, L, F> {
    /// The rows that are shown stand where the rows of the tree stand; only the text of a field may be
    /// older than the tree.
    pub open spec fn in_step(self) -> bool {
        same_layout(
            rows(self.editor.blocks@),
            canvas(self.macro_tree@, 0, ""@, Seq::<Seq<char>>::empty()),
        )
    }

    /// Edits the field of the step at `path`. The rows that are shown stay in step with the tree.
    pub fn edit_step(&mut self, path: &str, value: String) -> (done: bool)
        requires
            old(self).in_step(),
        ensures
            final(self).in_step(),
            done == find_parent(old(self).macro_tree@, segments(path@)) is Some,
            !done ==> *final(self) == *old(self),
            find_parent(old(self).macro_tree@, segments(path@)) matches Some((b, k)) ==> exists|
                new: MacroNode,
            |
                edited(b[k as int], new, value@) && #[trigger] rebuilt(
                    old(self).macro_tree@,
                    final(self).macro_tree@,
                    segments(path@),
                    b.update(k as int, new),
                ),
            final(self).editor == old(self).editor,
            final(self).light == old(self).light,
            final(self).saver == old(self).saver,
            final(self).pending_import == old(self).pending_import,
    {
        let ghost before = self.macro_tree@;
        let ghost v = value@;
        let done = edit_step(&mut self.macro_tree, path, value);
        proof {
            match find_parent(before, segments(path@)) {
                Some((b, k)) => {
                    let new = choose|new: MacroNode|
                        edited(b[k as int], new, v) && #[trigger] rebuilt(
                            before,
                            self.macro_tree@,
                            segments(path@),
                            b.update(k as int, new),
                        );
                    law_field_edit_keeps_layout(
                        before,
                        self.macro_tree@,
                        segments(path@),
                        b,
                        k,
                        new,
                        v,
                        0,
                        ""@,
                        Seq::empty(),
                        Seq::empty(),
                    );
                    lemma_layouts_chain(
                        rows(self.editor.blocks@),
                        canvas(before, 0, ""@, Seq::empty()),
                        canvas(self.macro_tree@, 0, ""@, Seq::empty()),
                    );
                },
                None => {},
            }
        }
        done
    }

    /// Shows the tree after a field edit: its source alone.
    pub fn show_source(&mut self, source: String)
        requires
            old(self).in_step(),
        ensures
            final(self).in_step(),
            final(self).macro_tree == old(self).macro_tree,
            final(self).editor.source == source,
            final(self).editor.has_ask == has_text(source@, "neuron.ask"@),
            final(self).editor.source_dirty == (old(self).editor.source_dirty || old(
                self).editor.code_view),
            final(self).editor.blocks == old(self).editor.blocks,
            final(self).editor.code_view == old(self).editor.code_view,
            final(self).editor.name == old(self).editor.name,
            final(self).editor.status == old(self).editor.status,
            final(self).editor.parsing == old(self).editor.parsing,
            final(self).editor.parse_error == old(self).editor.parse_error,
            final(self).light == old(self).light,
            final(self).saver == old(self).saver,
            final(self).pending_import == old(self).pending_import,
    {
        self.editor.regenerate_source_only(source);
    }

    /// Shows the tree after a change of its structure: its source, and its rows laid out anew. From
    /// here on the rows are in step with it.
    pub fn show_tree(&mut self, source: String, sources: &Vec<String>)
        requires
            sources@.len() == shown(old(self).macro_tree@).len(),
            2 * height(old(self).macro_tree@) <= i32::MAX,
        ensures
            final(self).in_step(),
            final(self).macro_tree == old(self).macro_tree,
            final(self).editor.source == source,
            final(self).editor.has_ask == has_text(source@, "neuron.ask"@),
            final(self).editor.source_dirty == (old(self).editor.source_dirty || old(
                self).editor.code_view),
            rows(final(self).editor.blocks@) == canvas(
                old(self).macro_tree@,
                0,
                ""@,
                texts(sources@),
            ),
            final(self).editor.code_view == old(self).editor.code_view,
            final(self).editor.name == old(self).editor.name,
            final(self).editor.status == old(self).editor.status,
            final(self).editor.parsing == old(self).editor.parsing,
            final(self).editor.parse_error == old(self).editor.parse_error,
            final(self).light == old(self).light,
            final(self).saver == old(self).saver,
            final(self).pending_import == old(self).pending_import,
    {
        self.editor.regenerate_from_tree(self.macro_tree.as_slice(), source, sources);
        proof {
            law_texts_do_not_move_rows(self.macro_tree@, 0, ""@, texts(sources@), Seq::empty());
        }
    }

    /// The canvas is to follow the source.
    pub fn refresh_macro_blocks(&mut self, source: &str) -> (r: BlocksStep)
        requires
            old(self).in_step(),
        ensures
            final(self).in_step(),
            r == (if trimmed(source@).len() == 0 {
                BlocksStep::Clear
            } else if old(self).editor.parsing {
                BlocksStep::Wait
            } else {
                BlocksStep::Parse
            }),
            r == BlocksStep::Clear ==> {
                &&& final(self).macro_tree@.len() == 0
                &&& rows(final(self).editor.blocks@) == seq![add_block(""@, 0)]
                &&& !final(self).editor.parsing
                &&& final(self).editor.parse_error@.len() == 0
            },
            r != BlocksStep::Clear ==> final(self).macro_tree == old(self).macro_tree
                && final(self).editor == (Editor { parsing: true, ..old(self).editor }),
            final(self).editor.name == old(self).editor.name,
            final(self).editor.status == old(self).editor.status,
            final(self).editor.has_ask == old(self).editor.has_ask,
            final(self).editor.source_dirty == old(self).editor.source_dirty,
            final(self).editor.code_view == old(self).editor.code_view,
            final(self).editor.source == old(self).editor.source,
            final(self).light == old(self).light,
            final(self).saver == old(self).saver,
            final(self).pending_import == old(self).pending_import,
    {
        let r = self.editor.refresh_macro_blocks(&mut self.macro_tree, source);
        proof {
            if r == BlocksStep::Clear {
                assert(self.macro_tree@ =~= Seq::<MacroNode>::empty());
                law_empty_canvas_invites(0, ""@, Seq::empty());
            }
        }
        r
    }

    /// A parse of the source is over: its tree is shown, or the last good one stays.
    pub fn blocks_parsed(
        &mut self,
        result: Result<Vec<MacroNode>, ParseError>,
        sources: &Vec<String>,
    )
        requires
            old(self).in_step(),
            result matches Ok(nodes) ==> sources@.len() == shown(nodes@).len() && 2 * height(nodes@)
                <= i32::MAX,
        ensures
            final(self).in_step(),
            !final(self).editor.parsing,
            match result {
                Ok(nodes) => final(self).macro_tree == nodes && rows(final(self).editor.blocks@)
                    == canvas(nodes@, 0, ""@, texts(sources@)) && final(self).editor.parse_error@.len()
                    == 0,
                Err(e) => final(self).macro_tree == old(self).macro_tree
                    && final(self).editor.blocks == old(self).editor.blocks
                    && final(self).editor.parse_error@ == parse_error_shown(e),
            },
            final(self).editor.source == old(self).editor.source,
            final(self).editor.name == old(self).editor.name,
            final(self).editor.status == old(self).editor.status,
            final(self).editor.has_ask == old(self).editor.has_ask,
            final(self).editor.source_dirty == old(self).editor.source_dirty,
            final(self).editor.code_view == old(self).editor.code_view,
            final(self).light == old(self).light,
            final(self).saver == old(self).saver,
            final(self).pending_import == old(self).pending_import,
    {
        self.editor.blocks_parsed(&mut self.macro_tree, result, sources);
        proof {
            if result is Ok {
                law_texts_do_not_move_rows(self.macro_tree@, 0, ""@, texts(sources@), Seq::empty());
            }
        }
    }

    /// An import was read: it waits to be applied, in place of one read before. One that could not be
    /// read leaves nothing waiting.
    pub fn parse_import(&mut self, imported: Option<I>)
        ensures
            *final(self) == (Shared { pending_import: imported, ..*old(self) }),
    {
        self.pending_import = imported;
    }

    /// The import to apply.
    pub fn apply_import(&self) -> (r: Result<&I, &'static str>)
        ensures
            match r {
                Ok(i) => self.pending_import == Some(*i),
                Err(e) => self.pending_import is None && e@ == "nothing parsed"@,
            },
    {
        match &self.pending_import {
            Some(i) => Ok(i),
            None => Err("nothing parsed"),
        }
    }

    /// Applying ended: an import that was applied is used up, one that was not waits to be tried again.
    pub fn import_applied(&mut self, ok: bool)
        ensures
            *final(self) == if ok {
                Shared { pending_import: None, ..*old(self) }
            } else {
                *old(self)
            },
    {
        if ok {
            self.pending_import = None;
        }
    }
}

proof fn lemma_layouts_chain(a: Seq<BlockView>, b: Seq<BlockView>, c: Seq<BlockView>)
    requires
        same_layout(a, b),
        same_layout(b, c),
    ensures
        same_layout(a, c),
{
    assert forall|i: int| 0 <= i < a.len() implies same_place(#[trigger] a[i], c[i]) by {
        assert(same_place(a[i], b[i]));
        assert(same_place(b[i], c[i]));
    }
}

/// Every row that is shown leads back into the tree, whatever was typed into its field since: a step
/// row to a step of its kind, a lane header to a step with that lane, an insert point to a body.
pub proof fn law_shown_rows_lead_back<I, L, F>(s: Shared<I, L, F>, r: int)
    requires
        s.in_step(),
        0 <= r < s.editor.blocks@.len(),
    ensures
        leads_back(s.macro_tree@, s.editor.blocks@[r]@),
{
    let all = canvas(s.macro_tree@, 0, ""@, Seq::<Seq<char>>::empty());
    reveal_strlit("");
    assert(""@ =~= Seq::<char>::empty());
    assert(rows(s.editor.blocks@)[r] == s.editor.blocks@[r]@);
    assert(same_place(rows(s.editor.blocks@)[r], all[r]));
    law_rows_lead_back(s.macro_tree, 0, Seq::empty(), r);
}

} // verus!
