//! The lighting stack of the selected board: its layers from bottom to top, which of them is being
//! edited and which frame of that layer's color sequence, and every edit of the stack.
//!
//! What a layer looks like (`L`) and what a frame of its sequence holds (`F`) do not matter here.

use vstd::prelude::*;

use crate::macros::{exchange, exchanged};

verus! {

/// How a layer is laid over what is beneath it.
#[derive(Clone, Copy, Debug, PartialEq, Eq, Structural)]
pub enum LayerBlend {
    Over,
    Add,
    Multiply,
    Screen,
    /// Shows what is beneath wherever the layer itself is idle.
    Cut,
}

/// One layer.
pub struct Layer<L, F> {
    pub pattern: String,
    pub look: L,
    pub blend: LayerBlend,
    pub enabled: bool,
    /// The cells that the layer fills; none means the whole board.
    pub region: Vec<u32>,
    /// The painted cells of a `custom` layer.
    pub cells: Vec<(u8, u8, u8)>,
    /// The color sequence.
    pub seq: Vec<F>,
}

/// The stack, and what of it is being edited.
pub struct LightStack<L, F> {
    pub layers: Vec<Layer<L, F>>,
    pub selected: usize,
    pub active_frame: usize,
    /// Goes up with every change, so that a rendering knows that it is stale.
    pub rev: u64,
}

/// The last index of a sequence of `n`; zero for an empty one.
pub open spec fn last_index(n: nat) -> nat {
    if n == 0 {
        0
    } else {
        (n - 1) as nat
    }
}

/// `i`, no further than the last index of a sequence of `n`.
pub open spec fn at_most_last(i: nat, n: nat) -> nat {
    if i > last_index(n) {
        last_index(n)
    } else {
        i
    }
}

/// `i`, no further than the last index of a sequence of `n`.
pub fn clamp_last(i: usize, n: usize) -> (r: usize)
    ensures
        r == at_most_last(i as nat, n as nat),
        n > 0 ==> r < n,
{
    if n == 0 {
        0
    } else if i >= n {
        n - 1
    } else {
        i
    }
}

/// The selection after the layer at `i` was removed and `n` layers are left: it stays on its layer, or
/// moves to the nearest one.
pub open spec fn selection_left(i: nat, selected: nat, n: nat) -> nat {
    at_most_last(
        if i < selected {
            (selected - 1) as nat
        } else {
            selected
        },
        n,
    )
}

/// The selection after the layer at `i` was removed and `n` layers are left.
pub fn selection_after_remove(i: usize, selected: usize, n: usize) -> (r: usize)
    ensures
        r == selection_left(i as nat, selected as nat, n as nat),
{
    if i < selected {
        clamp_last(selected - 1, n)
    } else {
        clamp_last(selected, n)
    }
}

/// The number of frames of the layer at `sel`; one where there is no such layer.
pub open spec fn frames_at<L, F>(layers: Seq<Layer<L, F>>, sel: nat) -> nat {
    if sel < layers.len() {
        layers[sel as int].seq@.len()
    } else {
        1
    }
}

/// `v` is `d` but for its color sequence.
pub open spec fn same_but_seq<L, F>(d: Layer<L, F>, v: Layer<L, F>) -> bool {
    &&& v.pattern == d.pattern
    &&& v.look == d.look
    &&& v.blend == d.blend
    &&& v.enabled == d.enabled
    &&& v.region == d.region
    &&& v.cells == d.cells
}

/// `new` is `layers` with only the color sequence of the layer at `sel` changed, to `seq`.
pub open spec fn seq_changed<L, F>(
    layers: Seq<Layer<L, F>>,
    new: Seq<Layer<L, F>>,
    sel: nat,
    seq: Seq<F>,
) -> bool {
    &&& new.len() == layers.len()
    &&& forall|i: int| 0 <= i < layers.len() && i != sel ==> #[trigger] new[i] == layers[i]
    &&& sel < layers.len() ==> same_but_seq(layers[sel as int], new[sel as int])
        && new[sel as int].seq@ == seq
}

/// The layer that picking a preset leaves in place of `was`: the preset's look, on the same cells and
/// as enabled as before. The blend stays too, unless the preset is a readout, which needs its own.
pub open spec fn reskinned<L, F>(was: Layer<L, F>, preset: Layer<L, F>, readout: bool) -> Layer<L, F> {
    Layer {
        pattern: preset.pattern,
        look: preset.look,
        blend: if readout {
            preset.blend
        } else {
            was.blend
        },
        enabled: was.enabled,
        region: was.region,
        cells: preset.cells,
        seq: preset.seq,
    }
}

impl<L, F> LightStack<L, F> {
    /// An empty stack: nothing is claimed to show on the board.
    pub fn new() -> (r: Self)
        ensures
            r.layers@.len() == 0,
            r.selected == 0,
            r.active_frame == 0,
            r.rev == 0,
    {
        LightStack { layers: Vec::new(), selected: 0, active_frame: 0, rev: 0 }
    }

    /// Puts a saved stack in place, with its top layer and that layer's first frame selected, so that
    /// nothing of another board stays; whether it holds any layer.
    pub fn load(&mut self, layers: Vec<Layer<L, F>>) -> (some: bool)
        requires
            old(self).rev < u64::MAX,
        ensures
            final(self).layers == layers,
            final(self).selected == last_index(layers@.len()),
            final(self).active_frame == 0,
            final(self).rev == old(self).rev + 1,
            some == (layers@.len() > 0),
    {
        let n: usize = layers.len();
        self.selected = clamp_last(n, n);
        self.layers = layers;
        self.active_frame = 0;
        self.rev = self.rev + 1;
        n > 0
    }

    /// Puts the stack back that streamed before, with its top layer selected; the frame stays.
    pub fn bring_back(&mut self, layers: Vec<Layer<L, F>>)
        requires
            old(self).rev < u64::MAX,
        ensures
            final(self).layers == layers,
            final(self).selected == last_index(layers@.len()),
            final(self).active_frame == old(self).active_frame,
            final(self).rev == old(self).rev + 1,
    {
        let n: usize = layers.len();
        self.selected = clamp_last(n, n);
        self.layers = layers;
        self.rev = self.rev + 1;
    }

    /// Puts an imported stack in place, with its top layer and that layer's first frame selected.
    pub fn import(&mut self, layers: Vec<Layer<L, F>>)
        requires
            old(self).rev < u64::MAX,
        ensures
            final(self).layers == layers,
            final(self).selected == last_index(layers@.len()),
            final(self).active_frame == 0,
            final(self).rev == old(self).rev + 1,
    {
        let n: usize = layers.len();
        self.selected = clamp_last(n, n);
        self.layers = layers;
        self.active_frame = 0;
        self.rev = self.rev + 1;
    }

    /// Makes a painted frame the whole stack: it covers every cell, so nothing beneath it could show.
    /// `blank` is a layer with nothing set.
    pub fn commit_custom_layer(&mut self, blank: Layer<L, F>, cells: Vec<(u8, u8, u8)>)
        requires
            old(self).rev < u64::MAX,
        ensures
            final(self).layers@.len() == 1,
            final(self).layers@[0].pattern@ == "custom"@,
            final(self).layers@[0].cells == cells,
            final(self).layers@[0].look == blank.look,
            final(self).layers@[0].blend == blank.blend,
            final(self).layers@[0].enabled == blank.enabled,
            final(self).layers@[0].region == blank.region,
            final(self).layers@[0].seq == blank.seq,
            final(self).selected == 0,
            final(self).active_frame == old(self).active_frame,
            final(self).rev == old(self).rev + 1,
    {
        let mut layers: Vec<Layer<L, F>> = Vec::new();
        layers.push(
            Layer {
                pattern: "custom".to_owned(),
                look: blank.look,
                blend: blank.blend,
                enabled: blank.enabled,
                region: blank.region,
                cells,
                seq: blank.seq,
            },
        );
        self.layers = layers;
        self.selected = 0;
        self.rev = self.rev + 1;
    }

    /// Picks a preset: it becomes the one layer of an empty stack, or the new look of the selected
    /// layer.
    pub fn pick_tile(&mut self, preset: Layer<L, F>, readout: bool)
        requires
            old(self).rev < u64::MAX,
        ensures
            final(self).active_frame == 0,
            final(self).rev == old(self).rev + 1,
            final(self).selected == at_most_last(old(self).selected as nat, old(self).layers@.len()),
            old(self).layers@.len() == 0 ==> final(self).layers@ == seq![preset],
            old(self).layers@.len() > 0 ==> final(self).layers@ == old(self).layers@.update(
                final(self).selected as int,
                reskinned(old(self).layers@[final(self).selected as int], preset, readout),
            ),
    {
        let n: usize = self.layers.len();
        if n == 0 {
            self.layers.push(preset);
            self.selected = 0;
            proof {
                assert(self.layers@ =~= seq![preset]);
            }
        } else {
            let sel: usize = clamp_last(self.selected, n);
            let ghost before = self.layers@;
            let was = self.layers.remove(sel);
            let blend = if readout {
                preset.blend
            } else {
                was.blend
            };
            let next = Layer {
                pattern: preset.pattern,
                look: preset.look,
                blend,
                enabled: was.enabled,
                region: was.region,
                cells: preset.cells,
                seq: preset.seq,
            };
            self.layers.insert(sel, next);
            self.selected = sel;
            proof {
                assert(self.layers@ =~= before.update(
                    sel as int,
                    reskinned(before[sel as int], preset, readout),
                ));
            }
        }
        self.active_frame = 0;
        self.rev = self.rev + 1;
    }

    /// Selects a layer; whether that is another one than before. A newly selected layer starts at its
    /// first frame.
    pub fn select_stack(&mut self, i: i32) -> (changed: bool)
        ensures
            changed == (0 <= i < old(self).layers@.len() && i != old(self).selected),
            final(self).layers == old(self).layers,
            final(self).rev == old(self).rev,
            final(self).selected == if changed {
                i as int
            } else {
                old(self).selected as int
            },
            final(self).active_frame == if changed {
                0
            } else {
                old(self).active_frame as int
            },
    {
        if i < 0 {
            return false;
        }
        let at: usize = i as usize;
        if at < self.layers.len() && at != self.selected {
            self.selected = at;
            self.active_frame = 0;
            true
        } else {
            false
        }
    }

    /// Removes a layer; the selection stays on its layer where it can.
    pub fn remove_stack(&mut self, i: i32)
        requires
            old(self).rev < u64::MAX,
        ensures
            final(self).rev == old(self).rev + 1,
            final(self).active_frame == old(self).active_frame,
            0 <= i < old(self).layers@.len() ==> final(self).layers@ == old(self).layers@.remove(
                i as int,
            ) && final(self).selected == selection_left(
                i as nat,
                old(self).selected as nat,
                (old(self).layers@.len() - 1) as nat,
            ),
            !(0 <= i < old(self).layers@.len()) ==> final(self).layers == old(self).layers
                && final(self).selected == old(self).selected,
    {
        if i >= 0 && (i as usize) < self.layers.len() {
            let at: usize = i as usize;
            self.layers.remove(at);
            self.selected = selection_after_remove(at, self.selected, self.layers.len());
        }
        self.rev = self.rev + 1;
    }

    /// Places the selected layer on a region; an empty one is the whole board. False, and nothing
    /// changed, where no layer is selected or the board has no cells.
    pub fn set_layer_region(&mut self, region: Vec<u32>, rows: u8, cols: u8) -> (done: bool)
        requires
            old(self).rev < u64::MAX,
        ensures
            done == (rows != 0 && cols != 0 && old(self).selected < old(self).layers@.len()),
            final(self).selected == old(self).selected,
            final(self).active_frame == old(self).active_frame,
            !done ==> final(self).layers == old(self).layers && final(self).rev == old(self).rev,
            done ==> final(self).rev == old(self).rev + 1 && final(self).layers@
                == old(self).layers@.update(
                old(self).selected as int,
                Layer { region, ..old(self).layers@[old(self).selected as int] },
            ),
    {
        let sel: usize = self.selected;
        if rows == 0 || cols == 0 || sel >= self.layers.len() {
            return false;
        }
        let ghost before = self.layers@;
        let layer = &mut self.layers[sel];
        layer.region = region;
        self.rev = self.rev + 1;
        proof {
            assert(self.layers@ =~= before.update(
                sel as int,
                Layer { region, ..before[sel as int] },
            ));
        }
        true
    }

    /// Puts the selected layer back on the whole board; whether it was on a region.
    pub fn reset_layer_region(&mut self) -> (done: bool)
        requires
            old(self).rev < u64::MAX,
        ensures
            done == (old(self).selected < old(self).layers@.len()
                && old(self).layers@[old(self).selected as int].region@.len() > 0),
            final(self).selected == old(self).selected,
            final(self).active_frame == old(self).active_frame,
            final(self).layers@.len() == old(self).layers@.len(),
            !done ==> final(self).layers == old(self).layers && final(self).rev == old(self).rev,
            done ==> final(self).rev == old(self).rev + 1,
            done ==> final(self).layers@[old(self).selected as int].region@.len() == 0,
            done ==> final(self).layers@ == old(self).layers@.update(
                old(self).selected as int,
                Layer {
                    region: final(self).layers@[old(self).selected as int].region,
                    ..old(self).layers@[old(self).selected as int]
                },
            ),
    {
        let sel: usize = self.selected;
        if sel >= self.layers.len() || self.layers[sel].region.len() == 0 {
            return false;
        }
        let ghost before = self.layers@;
        let none: Vec<u32> = Vec::new();
        let layer = &mut self.layers[sel];
        layer.region = none;
        self.rev = self.rev + 1;
        proof {
            assert(self.layers@ =~= before.update(
                sel as int,
                Layer { region: none, ..before[sel as int] },
            ));
        }
        true
    }

    /// Removes a frame of the selected layer's sequence; the last one stays.
    pub fn remove_frame(&mut self, idx: i32)
        requires
            old(self).rev < u64::MAX,
        ensures
            final(self).rev == old(self).rev + 1,
            final(self).selected == old(self).selected,
            final(self).active_frame == at_most_last(
                old(self).active_frame as nat,
                frames_at(final(self).layers@, old(self).selected as nat),
            ),
            ({
                let sel = old(self).selected as nat;
                let i = if idx < 0 {
                    0
                } else {
                    idx as int
                };
                if sel < old(self).layers@.len() {
                    let seq = old(self).layers@[sel as int].seq@;
                    seq_changed(
                        old(self).layers@,
                        final(self).layers@,
                        sel,
                        if seq.len() > 1 && i < seq.len() {
                            seq.remove(i)
                        } else {
                            seq
                        },
                    )
                } else {
                    final(self).layers == old(self).layers
                }
            }),
    {
        let sel: usize = self.selected;
        let i: usize = if idx < 0 {
            0
        } else {
            idx as usize
        };
        let mut frames: usize = 1;
        if sel < self.layers.len() {
            let layer = &mut self.layers[sel];
            if layer.seq.len() > 1 && i < layer.seq.len() {
                layer.seq.remove(i);
            }
            frames = layer.seq.len();
        }
        self.active_frame = clamp_last(self.active_frame, frames);
        self.rev = self.rev + 1;
    }

    /// Moves a frame of the selected layer's sequence one place, back where `dir` is negative, and
    /// makes it the active one; nothing moves past either end.
    pub fn move_frame(&mut self, idx: i32, dir: i32)
        requires
            old(self).rev < u64::MAX,
        ensures
            final(self).rev == old(self).rev + 1,
            final(self).selected == old(self).selected,
            ({
                let sel = old(self).selected as nat;
                let i = if idx < 0 {
                    0
                } else {
                    idx as int
                };
                let j = if dir < 0 {
                    i - 1
                } else {
                    i + 1
                };
                if sel < old(self).layers@.len() && i < old(self).layers@[sel as int].seq@.len()
                    && 0 <= j < old(self).layers@[sel as int].seq@.len() {
                    &&& final(self).active_frame == j
                    &&& seq_changed(
                        old(self).layers@,
                        final(self).layers@,
                        sel,
                        exchanged(old(self).layers@[sel as int].seq@, i, j),
                    )
                } else {
                    &&& final(self).active_frame == old(self).active_frame
                    &&& final(self).layers@ == old(self).layers@
                }
            }),
    {
        let sel: usize = self.selected;
        let i: usize = if idx < 0 {
            0
        } else {
            idx as usize
        };
        if sel < self.layers.len() {
            let n: usize = self.layers[sel].seq.len();
            if i < n && (if dir < 0 {
                i > 0
            } else {
                i + 1 < n
            }) {
                let j: usize = if dir < 0 {
                    i - 1
                } else {
                    i + 1
                };
                let layer = &mut self.layers[sel];
                exchange(&mut layer.seq, i, j);
                self.active_frame = j;
            }
        }
        self.rev = self.rev + 1;
    }

    /// Makes a frame of the selected layer's sequence the active one.
    pub fn select_frame(&mut self, idx: i32)
        ensures
            final(self).layers == old(self).layers,
            final(self).selected == old(self).selected,
            final(self).rev == old(self).rev,
            final(self).active_frame == at_most_last(
                if idx < 0 {
                    0
                } else {
                    idx as nat
                },
                frames_at(old(self).layers@, old(self).selected as nat),
            ),
    {
        let frames: usize = if self.selected < self.layers.len() {
            self.layers[self.selected].seq.len()
        } else {
            1
        };
        let i: usize = if idx < 0 {
            0
        } else {
            idx as usize
        };
        self.active_frame = clamp_last(i, frames);
    }

    /// The layer that the knobs are shown for; -1 in an empty stack.
    pub fn shown_layer(&self) -> (r: i32)
        requires
            self.layers@.len() <= i32::MAX,
        ensures
            r == if self.layers@.len() == 0 {
                -1
            } else {
                at_most_last(self.selected as nat, self.layers@.len()) as int
            },
    {
        if self.layers.len() == 0 {
            -1
        } else {
            clamp_last(self.selected, self.layers.len()) as i32
        }
    }

    /// The active frame within the selected layer's sequence, where it has any frame.
    pub fn shown_frame(&self) -> (r: Option<usize>)
        ensures
            match r {
                Some(f) => self.selected < self.layers@.len() && f == at_most_last(
                    self.active_frame as nat,
                    self.layers@[self.selected as int].seq@.len(),
                ) && f < self.layers@[self.selected as int].seq@.len(),
                None => self.selected >= self.layers@.len()
                    || self.layers@[self.selected as int].seq@.len() == 0,
            },
    {
        if self.selected >= self.layers.len() {
            return None;
        }
        let n: usize = self.layers[self.selected].seq.len();
        if n == 0 {
            None
        } else {
            Some(clamp_last(self.active_frame, n))
        }
    }
}

impl<L, F> LightStack<L, F> {
    /// The layer whose knob a turn changes, where one is selected. The stack counts as changed either
    /// way.
    pub fn turn_knob(&mut self) -> (r: Option<usize>)
        requires
            old(self).rev < u64::MAX,
        ensures
            r == if old(self).selected < old(self).layers@.len() {
                Some(old(self).selected)
            } else {
                None
            },
            final(self).rev == old(self).rev + 1,
            final(self).layers == old(self).layers,
            final(self).selected == old(self).selected,
            final(self).active_frame == old(self).active_frame,
    {
        self.rev = self.rev + 1;
        if self.selected < self.layers.len() {
            Some(self.selected)
        } else {
            None
        }
    }

    /// The layer and the frame whose timing changes: the frame at `idx`, which counts from zero where
    /// it is negative.
    pub fn retime_frame(&mut self, idx: i32) -> (r: Option<(usize, usize)>)
        requires
            old(self).rev < u64::MAX,
        ensures
            match r {
                Some((l, f)) => l == old(self).selected < old(self).layers@.len() && f
                    < old(self).layers@[l as int].seq@.len() && f == (if idx < 0 {
                    0
                } else {
                    idx as int
                }),
                None => old(self).selected >= old(self).layers@.len() || (if idx < 0 {
                    0
                } else {
                    idx as int
                }) >= old(self).layers@[old(self).selected as int].seq@.len(),
            },
            final(self).rev == old(self).rev + 1,
            final(self).layers == old(self).layers,
            final(self).selected == old(self).selected,
            final(self).active_frame == old(self).active_frame,
    {
        let i: usize = if idx < 0 {
            0
        } else {
            idx as usize
        };
        match self.turn_knob() {
            Some(l) => if i < self.layers[l].seq.len() {
                Some((l, i))
            } else {
                None
            },
            None => None,
        }
    }

    /// The layer and the frame that an edit of the color sequence goes to, where there is a layer
    /// selected. The stack counts as changed either way.
    pub fn edit_active_spectrum(&mut self) -> (r: Option<(usize, usize)>)
        requires
            old(self).rev < u64::MAX,
        ensures
            r == if old(self).selected < old(self).layers@.len() {
                Some(
                    (
                        old(self).selected,
                        at_most_last(
                            old(self).active_frame as nat,
                            old(self).layers@[old(self).selected as int].seq@.len(),
                        ) as usize,
                    ),
                )
            } else {
                None
            },
            final(self).rev == old(self).rev + 1,
            final(self).layers == old(self).layers,
            final(self).selected == old(self).selected,
            final(self).active_frame == old(self).active_frame,
    {
        self.rev = self.rev + 1;
        if self.selected < self.layers.len() {
            let frames: usize = self.layers[self.selected].seq.len();
            Some((self.selected, clamp_last(self.active_frame, frames)))
        } else {
            None
        }
    }

    /// The layer and the frame whose palette an edit changes: none where the sequence is empty.
    pub fn edit_active_palette(&mut self) -> (r: Option<(usize, usize)>)
        requires
            old(self).rev < u64::MAX,
        ensures
            match r {
                Some((l, f)) => l == old(self).selected < old(self).layers@.len() && f
                    < old(self).layers@[l as int].seq@.len() && f == at_most_last(
                    old(self).active_frame as nat,
                    old(self).layers@[l as int].seq@.len(),
                ),
                None => old(self).selected >= old(self).layers@.len()
                    || old(self).layers@[old(self).selected as int].seq@.len() == 0,
            },
            final(self).rev == old(self).rev + 1,
            final(self).layers == old(self).layers,
            final(self).selected == old(self).selected,
            final(self).active_frame == old(self).active_frame,
    {
        match self.edit_active_spectrum() {
            Some((l, f)) => if f < self.layers[l].seq.len() {
                Some((l, f))
            } else {
                None
            },
            None => None,
        }
    }
}

impl<L: Clone, F: Clone> LightStack<L, F> {
    /// Lays a copy of the selected layer on top, blended so that it adds light, and selects it.
    /// Nothing happens to an empty stack.
    pub fn stack_current(&mut self)
        requires
            old(self).rev < u64::MAX,
        ensures
            final(self).active_frame == old(self).active_frame,
            old(self).layers@.len() == 0 ==> *final(self) == *old(self),
            old(self).layers@.len() > 0 ==> {
                let sel = at_most_last(old(self).selected as nat, old(self).layers@.len());
                let was = old(self).layers@[sel as int];
                let top = final(self).layers@.last();
                &&& final(self).rev == old(self).rev + 1
                &&& final(self).layers@.len() == old(self).layers@.len() + 1
                &&& final(self).layers@.drop_last() == old(self).layers@
                &&& final(self).selected == old(self).layers@.len()
                &&& top.blend == LayerBlend::Screen
                &&& top.pattern@ == was.pattern@
                &&& cloned(was.look, top.look)
                &&& top.enabled == was.enabled
                &&& top.region@ == was.region@
                &&& top.cells@ == was.cells@
                &&& top.seq@.len() == was.seq@.len()
                &&& forall|i: int|
                    0 <= i < was.seq@.len() ==> cloned(was.seq@[i], #[trigger] top.seq@[i])
            },
    {
        let n: usize = self.layers.len();
        if n == 0 {
            return;
        }
        let sel: usize = clamp_last(self.selected, n);
        let was = &self.layers[sel];
        let top = Layer {
            pattern: was.pattern.clone(),
            look: was.look.clone(),
            blend: LayerBlend::Screen,
            enabled: was.enabled,
            region: was.region.clone(),
            cells: copy_cells(&was.cells),
            seq: was.seq.clone(),
        };
        proof {
            assert(top.region@ =~= was.region@);
        }
        let ghost before = self.layers@;
        self.layers.push(top);
        self.selected = n;
        self.rev = self.rev + 1;
        proof {
            assert(self.layers@.drop_last() =~= before);
        }
    }

    /// Adds a copy of the active frame behind it, and makes that the active one.
    pub fn add_frame(&mut self)
        requires
            old(self).rev < u64::MAX,
            old(self).active_frame < usize::MAX,
        ensures
            final(self).rev == old(self).rev + 1,
            final(self).selected == old(self).selected,
            final(self).active_frame == at_most_last(
                (old(self).active_frame + 1) as nat,
                frames_at(final(self).layers@, old(self).selected as nat),
            ),
            ({
                let sel = old(self).selected as nat;
                if sel < old(self).layers@.len() && old(self).layers@[sel as int].seq@.len() > 0 {
                    let seq = old(self).layers@[sel as int].seq@;
                    let fr = at_most_last(old(self).active_frame as nat, seq.len());
                    exists|f: F| #[trigger]
                        cloned(seq[fr as int], f) && seq_changed(
                            old(self).layers@,
                            final(self).layers@,
                            sel,
                            seq.insert(fr as int + 1, f),
                        )
                } else {
                    final(self).layers@ == old(self).layers@
                }
            }),
    {
        let sel: usize = self.selected;
        let mut frames: usize = 1;
        if sel < self.layers.len() {
            let n: usize = self.layers[sel].seq.len();
            if n > 0 {
                let fr: usize = clamp_last(self.active_frame, n);
                let copy = self.layers[sel].seq[fr].clone();
                let ghost seq = self.layers@[sel as int].seq@;
                let layer = &mut self.layers[sel];
                layer.seq.insert(fr + 1, copy);
                proof {
                    assert(cloned(seq[fr as int], copy));
                }
            }
            frames = self.layers[sel].seq.len();
        }
        self.active_frame = clamp_last(self.active_frame + 1, frames);
        self.rev = self.rev + 1;
    }
}

fn copy_cells(v: &Vec<(u8, u8, u8)>) -> (r: Vec<(u8, u8, u8)>)
    ensures
        r@ == v@,
{
    let mut out: Vec<(u8, u8, u8)> = Vec::new();
    let mut i: usize = 0;
    while i < v.len()
        invariant
            i <= v@.len(),
            out@ == v@.take(i as int),
        decreases v@.len() - i,
    {
        out.push(v[i]);
        proof {
            assert(v@.take(i as int).push(v@[i as int]) =~= v@.take(i as int + 1));
        }
        i = i + 1;
    }
    proof {
        assert(v@.take(v@.len() as int) =~= v@);
    }
    out
}

// ── laws ────────────────────────────────────────────────────────────────────────────────────────

/// A removal keeps the selection on the layer that it was on, unless that very layer was removed.
pub proof fn law_removal_keeps_selected_layer<T>(layers: Seq<T>, i: nat, selected: nat)
    requires
        i < layers.len(),
        selected < layers.len(),
        i != selected,
    ensures
        layers.remove(i as int)[selection_left(i, selected, (layers.len() - 1) as nat) as int]
            == layers[selected as int],
{
}

/// After a removal the selection is on a layer, as long as one is left.
pub proof fn law_selection_stays_in_stack(i: nat, selected: nat, n: nat)
    ensures
        n > 0 ==> selection_left(i, selected, n) < n,
        n == 0 ==> selection_left(i, selected, n) == 0,
{
}

/// Picking a preset never changes where a layer is placed or whether it is enabled.
pub proof fn law_pick_keeps_placement<L, F>(was: Layer<L, F>, preset: Layer<L, F>, readout: bool)
    ensures
        reskinned(was, preset, readout).region == was.region,
        reskinned(was, preset, readout).enabled == was.enabled,
        readout ==> reskinned(was, preset, readout).blend == preset.blend,
        !readout ==> reskinned(was, preset, readout).blend == was.blend,
{
}

} // verus!
