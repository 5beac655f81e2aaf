//! The lighting page around the stack: the painted grid and its preview, placement and tile labels,
//! the gates of saving and streaming, and what is streamed to which board.

use vstd::prelude::*;

use crate::light_stack::Layer;
use crate::status::BoardOwner;
use crate::text::{decimal, lemma_texts_push, list_has, same_text, show_u64, texts};

verus! {

// ── the grid ────────────────────────────────────────────────────────────────────────────────────

/// The color of a cell that is off.
pub open spec fn grid_off() -> (u8, u8, u8) {
    (0x0c, 0x0d, 0x10)
}

fn off_color() -> (r: (u8, u8, u8))
    ensures
        r == grid_off(),
{
    (0x0c, 0x0d, 0x10)
}

/// Paints one cell; one outside the grid is left alone.
pub fn paint_cell(px: &mut Vec<(u8, u8, u8)>, idx: i32, color: (u8, u8, u8))
    ensures
        final(px)@ == if 0 <= idx < old(px)@.len() {
            old(px)@.update(idx as int, color)
        } else {
            old(px)@
        },
{
    if idx >= 0 && (idx as usize) < px.len() {
        px.set(idx as usize, color);
    }
}

/// Turns one cell off.
pub fn erase_cell(px: &mut Vec<(u8, u8, u8)>, idx: i32)
    ensures
        final(px)@ == if 0 <= idx < old(px)@.len() {
            old(px)@.update(idx as int, grid_off())
        } else {
            old(px)@
        },
{
    paint_cell(px, idx, off_color());
}

/// A grid of `n` cells of one color.
pub fn fill_grid(n: usize, color: (u8, u8, u8)) -> (r: Vec<(u8, u8, u8)>)
    ensures
        r@ == Seq::new(n as nat, |i: int| color),
{
    let mut out: Vec<(u8, u8, u8)> = Vec::new();
    let mut i: usize = 0;
    while i < n
        invariant
            i <= n,
            out@ == Seq::new(i as nat, |i: int| color),
        decreases n - i,
    {
        out.push(color);
        proof {
            assert(out@ =~= Seq::new((i + 1) as nat, |i: int| color));
        }
        i = i + 1;
    }
    out
}

/// A grid of `n` cells that are off.
pub fn clear_grid(n: usize) -> (r: Vec<(u8, u8, u8)>)
    ensures
        r@ == Seq::new(n as nat, |i: int| grid_off()),
{
    let r = fill_grid(n, off_color());
    proof {
        assert(r@ =~= Seq::new(n as nat, |i: int| grid_off()));
    }
    r
}

/// The cells of an imported frame on a grid of `rows` by `cols`: what is missing is off, what is too
/// much is dropped.
pub open spec fn cells_on_grid(cells: Seq<(u8, u8, u8)>, n: nat) -> Seq<(u8, u8, u8)> {
    Seq::new(
        n,
        |i: int|
            if i < cells.len() {
                cells[i]
            } else {
                grid_off()
            },
    )
}

/// The number of cells of a grid; none where a side is not positive.
pub open spec fn cell_count(rows: int, cols: int) -> nat {
    if rows <= 0 || cols <= 0 {
        0
    } else {
        (rows * cols) as nat
    }
}

fn cells_of(rows: i32, cols: i32) -> (r: usize)
    requires
        cell_count(rows as int, cols as int) <= i32::MAX,
    ensures
        r == cell_count(rows as int, cols as int),
{
    if rows <= 0 || cols <= 0 {
        0
    } else {
        proof {
            assert(rows * cols >= 0) by (nonlinear_arith)
                requires
                    rows > 0,
                    cols > 0,
            ;
        }
        (rows * cols) as usize
    }
}

/// The cells of an imported frame on a grid.
pub fn canvas_from_cells(cells: &Vec<(u8, u8, u8)>, rows: i32, cols: i32) -> (r: Vec<(u8, u8, u8)>)
    requires
        cell_count(rows as int, cols as int) <= i32::MAX,
    ensures
        r@ == cells_on_grid(cells@, cell_count(rows as int, cols as int)),
{
    let n: usize = cells_of(rows, cols);
    let mut out: Vec<(u8, u8, u8)> = Vec::new();
    let mut i: usize = 0;
    while i < n
        invariant
            i <= n,
            out@ == cells_on_grid(cells@, i as nat),
        decreases n - i,
    {
        let c = if i < cells.len() {
            cells[i]
        } else {
            off_color()
        };
        out.push(c);
        proof {
            assert(out@ =~= cells_on_grid(cells@, (i + 1) as nat));
        }
        i = i + 1;
    }
    out
}

/// What is said of an imported file, given how many layers it brought and the first note of the import.
pub open spec fn import_says(layers: nat, note: Option<String>) -> Seq<char> {
    if layers > 0 {
        "imported "@ + decimal(layers) + " layer(s)"@
    } else {
        match note {
            Some(n) => if n@.len() > 0 {
                "no lighting in that export — "@ + n@
            } else {
                "no lighting in that export"@
            },
            None => "no lighting in that export"@,
        }
    }
}

/// What is said of an imported file.
pub fn import_text(layers: usize, note: &Option<String>) -> (r: String)
    ensures
        r@ == import_says(layers as nat, *note),
{
    if layers > 0 {
        let mut s = "imported ".to_owned();
        s.append(show_u64(layers as u64).as_str());
        s.append(" layer(s)");
        return s;
    }
    let mut s = "no lighting in that export".to_owned();
    match note {
        Some(n) => {
            proof {
                reveal_strlit("");
                if n@.len() == 0 {
                    assert(n@ =~= ""@);
                }
            }
            if !same_text(n.as_str(), "") {
                s.append(" — ");
                s.append(n.as_str());
                proof {
                    reveal_strlit("no lighting in that export");
                    reveal_strlit(" — ");
                    reveal_strlit("no lighting in that export — ");
                    assert("no lighting in that export"@ + " — "@
                        =~= "no lighting in that export — "@);
                }
            }
        },
        None => {},
    }
    s
}

/// The cells of the first painted layer among those of an import from `from` on: it is put on the grid
/// to be edited.
pub open spec fn painted_layer<L, F>(layers: Seq<Layer<L, F>>, from: nat) -> Option<nat>
    decreases layers.len() - from,
{
    if from >= layers.len() {
        None
    } else if layers[from as int].pattern@ == "custom"@ {
        Some(from)
    } else {
        painted_layer(layers, from + 1)
    }
}

/// The first painted layer of an import.
pub fn first_painted<L, F>(layers: &Vec<Layer<L, F>>) -> (r: Option<usize>)
    ensures
        match r {
            Some(i) => i < layers@.len() && painted_layer(layers@, 0) == Some(i as nat),
            None => painted_layer(layers@, 0) is None,
        },
{
    let mut i: usize = 0;
    while i < layers.len()
        invariant
            i <= layers@.len(),
            painted_layer(layers@, 0) == painted_layer(layers@, i as nat),
        decreases layers@.len() - i,
    {
        if same_text(layers[i].pattern.as_str(), "custom") {
            return Some(i);
        }
        i = i + 1;
    }
    None
}

// ── the preview ─────────────────────────────────────────────────────────────────────────────────

/// Whether this tick looks up who owns the board, and the tick count after it: the first of every
/// twenty-four.
pub fn foreign_tick(tick: u32) -> (r: (u32, bool))
    requires
        tick < u32::MAX,
    ensures
        r.0 == tick + 1,
        r.1 == ((tick + 1) % 24 == 1),
{
    let t: u32 = tick + 1;
    (t, t % 24 == 1)
}

/// The owner strip: whether a client paints, whether one is suppressed, and its name.
pub fn foreign_strip(owner: &BoardOwner) -> (r: (bool, bool, String))
    ensures
        match *owner {
            BoardOwner::Yours => !r.0 && !r.1 && r.2@ == Seq::<char>::empty(),
            BoardOwner::Painting(s) => r.0 && !r.1 && r.2@ == s@,
            BoardOwner::Suppressed(s) => !r.0 && r.1 && r.2@ == s@,
        },
{
    match owner {
        BoardOwner::Yours => (false, false, String::new()),
        BoardOwner::Painting(s) => (true, false, s.clone()),
        BoardOwner::Suppressed(s) => (false, true, s.clone()),
    }
}

/// What a tick of the preview does.
#[derive(Clone, Copy, Debug, PartialEq, Eq, Structural)]
pub enum PreviewStep {
    /// Nothing is drawn, and the rendering is dropped: the brush owns the grid, or there is none.
    Drop,
    /// So many dark cells are drawn, and the rendering is dropped.
    Dark(usize),
    /// The stack is rendered, from a fresh rendering where the kept one is stale.
    Render { rebuild: bool },
}

/// The kept rendering, made for this revision and these sides, is not the one that is needed.
pub open spec fn is_stale(kept: Option<(u64, i32, i32)>, rev: u64, rows: i32, cols: i32) -> bool {
    kept != Some((rev, rows, cols))
}

/// What a tick of the preview does.
pub fn preview_step(
    brush: bool,
    rows: i32,
    cols: i32,
    empty: bool,
    kept: Option<(u64, i32, i32)>,
    rev: u64,
) -> (r: PreviewStep)
    requires
        cell_count(rows as int, cols as int) <= i32::MAX,
    ensures
        r == if brush || rows <= 0 || cols <= 0 {
            PreviewStep::Drop
        } else if empty {
            PreviewStep::Dark(cell_count(rows as int, cols as int) as usize)
        } else {
            PreviewStep::Render { rebuild: is_stale(kept, rev, rows, cols) }
        },
{
    if brush || rows <= 0 || cols <= 0 {
        return PreviewStep::Drop;
    }
    if empty {
        return PreviewStep::Dark(cells_of(rows, cols));
    }
    let rebuild = match kept {
        Some((r, kr, kc)) => r != rev || kr != rows || kc != cols,
        None => true,
    };
    PreviewStep::Render { rebuild }
}

// ── a tile's picture ────────────────────────────────────────────────────────────────────────────

/// The side of a picture with `n` cells along it: nine pixels each, two between, four around.
pub open spec fn picture_side(n: nat) -> nat {
    8 + n * 9 + (if n == 0 {
        0
    } else {
        ((n - 1) * 2) as nat
    })
}

/// The cell that a pixel falls on along one side; none on the ground between and around the cells.
pub open spec fn cell_at(x: nat, n: nat) -> Option<nat> {
    if x >= 4 && (x - 4) / 11 < n && (x - 4) % 11 < 9 {
        Some(((x - 4) / 11) as nat)
    } else {
        None
    }
}

/// The color of a pixel: that of its cell, black where the frame has no such cell, and the ground's
/// elsewhere.
pub open spec fn picture_pixel(
    frame: Seq<(u8, u8, u8)>,
    rows: nat,
    cols: nat,
    x: nat,
    y: nat,
) -> (u8, u8, u8) {
    match (cell_at(y, rows), cell_at(x, cols)) {
        (Some(r), Some(c)) => if r * cols + c < frame.len() {
            frame[(r * cols + c) as int]
        } else {
            (0, 0, 0)
        },
        _ => (4, 5, 6),
    }
}

/// The pixels of a picture, row by row.
pub open spec fn picture(frame: Seq<(u8, u8, u8)>, rows: nat, cols: nat) -> Seq<(u8, u8, u8)> {
    let w = picture_side(cols);
    Seq::new(
        w * picture_side(rows),
        |i: int|
            picture_pixel(frame, rows, cols, (i % (w as int)) as nat, (i / (w as int)) as nat),
    )
}

fn side_of(n: u8) -> (r: usize)
    ensures
        r == picture_side(n as nat),
        8 <= r <= 2811,
{
    let k: usize = n as usize;
    if k == 0 {
        8
    } else {
        8 + k * 9 + (k - 1) * 2
    }
}

fn cell_index(x: usize, n: u8) -> (r: Option<usize>)
    ensures
        match r {
            Some(c) => cell_at(x as nat, n as nat) == Some(c as nat) && c < n,
            None => cell_at(x as nat, n as nat) is None,
        },
{
    if x >= 4 && (x - 4) / 11 < n as usize && (x - 4) % 11 < 9 {
        Some((x - 4) / 11)
    } else {
        None
    }
}

fn pixel_color(frame: &[(u8, u8, u8)], rows: u8, cols: u8, x: usize, y: usize) -> (r: (u8, u8, u8))
    ensures
        r == picture_pixel(frame@, rows as nat, cols as nat, x as nat, y as nat),
{
    match (cell_index(y, rows), cell_index(x, cols)) {
        (Some(r), Some(c)) => {
            proof {
                assert(r * (cols as usize) <= 255 * 255) by (nonlinear_arith)
                    requires
                        r < rows,
                        rows <= 255,
                        cols <= 255,
                ;
            }
            let i: usize = r * (cols as usize) + c;
            if i < frame.len() {
                frame[i]
            } else {
                (0, 0, 0)
            }
        },
        _ => (4, 5, 6),
    }
}

/// The pixels of a frame's picture, row by row, with its width and height.
pub fn frame_to_preview(frame: &[(u8, u8, u8)], rows: u8, cols: u8) -> (r: (
    usize,
    usize,
    Vec<(u8, u8, u8)>,
))
    ensures
        r.0 == picture_side(cols as nat),
        r.1 == picture_side(rows as nat),
        r.2@ == picture(frame@, rows as nat, cols as nat),
{
    let w: usize = side_of(cols);
    let h: usize = side_of(rows);
    let ghost all = picture(frame@, rows as nat, cols as nat);
    let mut out: Vec<(u8, u8, u8)> = Vec::new();
    let mut y: usize = 0;
    while y < h
        invariant
            y <= h,
            w == picture_side(cols as nat),
            h == picture_side(rows as nat),
            8 <= w <= 2811,
            8 <= h <= 2811,
            all == picture(frame@, rows as nat, cols as nat),
            out@.len() == y * w,
            forall|i: int| 0 <= i < out@.len() ==> #[trigger] out@[i] == all[i],
        decreases h - y,
    {
        let mut x: usize = 0;
        while x < w
            invariant
                y < h,
                x <= w,
                w == picture_side(cols as nat),
                h == picture_side(rows as nat),
                8 <= w <= 2811,
                all == picture(frame@, rows as nat, cols as nat),
                out@.len() == y * w + x,
                forall|i: int| 0 <= i < out@.len() ==> #[trigger] out@[i] == all[i],
            decreases w - x,
        {
            let ghost before = out@;
            out.push(pixel_color(frame, rows, cols, x, y));
            proof {
                let i = y * w + x;
                assert(i % (w as int) == x && i / (w as int) == y) by {
                    vstd::arithmetic::div_mod::lemma_fundamental_div_mod_converse(
                        i,
                        w as int,
                        y as int,
                        x as int,
                    );
                }
                assert(i < w * h) by (nonlinear_arith)
                    requires
                        i == y * w + x,
                        y < h,
                        x < w,
                ;
                assert(all.len() == w * h);
                assert(out@[i] == all[i]);
                assert forall|k: int| 0 <= k < out@.len() implies #[trigger] out@[k] == all[k] by {
                    if k < before.len() {
                        assert(out@[k] == before[k]);
                    }
                }
            }
            x = x + 1;
        }
        proof {
            assert((y + 1) * w == y * w + w) by (nonlinear_arith);
        }
        y = y + 1;
    }
    proof {
        assert(all.len() == w * h);
        assert(h * w == w * h) by (nonlinear_arith);
        assert(out@ =~= all);
    }
    (w, h, out)
}

// ── pace ────────────────────────────────────────────────────────────────────────────────────────

/// A frame rate within what the slider allows.
pub open spec fn slider_fps(v: int) -> int {
    if v < 1 {
        1
    } else if v > 30 {
        30
    } else {
        v
    }
}

/// A frame rate within what the slider allows.
pub fn set_light_fps(v: i64) -> (r: u32)
    ensures
        r == slider_fps(v as int),
{
    if v < 1 {
        1
    } else if v > 30 {
        30
    } else {
        v as u32
    }
}

/// The frame rate after a saved state was loaded: the saved one, or what was there where none is
/// saved.
pub open spec fn loaded_fps(saved: u32, now: u32) -> int {
    if saved >= 1 {
        slider_fps(saved as int)
    } else {
        now as int
    }
}

/// The frame rate after a saved state was loaded.
pub fn fps_after_load(saved: u32, now: u32) -> (r: u32)
    ensures
        r == loaded_fps(saved, now),
{
    if saved >= 1 {
        set_light_fps(saved as i64)
    } else {
        now
    }
}

// ── the pointer tools ───────────────────────────────────────────────────────────────────────────

/// Which of the two pointer tools is up; never both.
#[derive(Clone, Copy, Debug, PartialEq, Eq, Structural)]
pub struct Tools {
    pub brush: bool,
    pub place: bool,
}

impl Tools {
    /// At most one tool is up.
    pub open spec fn wf(self) -> bool {
        !(self.brush && self.place)
    }

    /// Picks the brush up or puts it down; picking it up puts the other tool down. What the status
    /// line says.
    pub fn toggle_brush(&mut self) -> (r: &'static str)
        ensures
            old(self).wf() ==> final(self).wf(),
            final(self).brush == !old(self).brush,
            final(self).place == (old(self).place && old(self).brush),
            r@ == if final(self).brush {
                "brush picked up — paint on the render"@
            } else {
                "brush down — back to the effect preview"@
            },
    {
        self.brush = !self.brush;
        if self.brush {
            self.place = false;
            "brush picked up — paint on the render"
        } else {
            "brush down — back to the effect preview"
        }
    }

    /// Starts or ends placing; starting puts the brush down. What the status line says.
    pub fn toggle_place(&mut self) -> (r: &'static str)
        ensures
            old(self).wf() ==> final(self).wf(),
            final(self).place == !old(self).place,
            final(self).brush == (old(self).brush && old(self).place),
            r@ == if final(self).place {
                "place mode — drag a rectangle to set this layer's area"@
            } else {
                "done placing"@
            },
    {
        self.place = !self.place;
        if self.place {
            self.brush = false;
            "place mode — drag a rectangle to set this layer's area"
        } else {
            "done placing"
        }
    }
}

// ── placement ───────────────────────────────────────────────────────────────────────────────────

/// The bounding box of a region.
#[derive(Clone, Copy, Debug, PartialEq, Eq, Structural)]
pub struct Bounds {
    pub row0: u8,
    pub col0: u8,
    pub rows: u8,
    pub cols: u8,
}

/// The placement badge and the corners of the outline, which are -1 on the whole board.
pub struct Placement {
    pub placed: bool,
    pub label: String,
    pub r0: i32,
    pub c0: i32,
    pub r1: i32,
    pub c1: i32,
}

/// The size of a block in words.
pub open spec fn block_text(b: Bounds) -> Seq<char> {
    decimal(b.rows as nat) + "×"@ + decimal(b.cols as nat) + " block"@
}

fn block_words(b: Bounds) -> (r: String)
    ensures
        r@ == block_text(b),
{
    let mut s = show_u64(b.rows as u64);
    s.append("×");
    s.append(show_u64(b.cols as u64).as_str());
    s.append(" block");
    s
}

/// The badge and the outline say where a layer with that bounding box stands.
pub open spec fn shows_placement(p: Placement, bounds: Option<Bounds>) -> bool {
    match bounds {
        None => !p.placed && p.label@ == "full board"@ && p.r0 == -1 && p.c0 == -1 && p.r1 == -1
            && p.c1 == -1,
        Some(b) => p.placed && p.label@ == block_text(b) && p.r0 == b.row0 && p.c0 == b.col0
            && p.r1 == b.row0 + b.rows - 1 && p.c1 == b.col0 + b.cols - 1,
    }
}

/// The placement badge of a layer, given the bounding box of its region, or none where it fills the
/// whole board.
pub fn project_placement(bounds: Option<Bounds>) -> (r: Placement)
    ensures
        shows_placement(r, bounds),
{
    match bounds {
        None => Placement {
            placed: false,
            label: "full board".to_owned(),
            r0: -1,
            c0: -1,
            r1: -1,
            c1: -1,
        },
        Some(b) => Placement {
            placed: true,
            label: block_words(b),
            r0: b.row0 as i32,
            c0: b.col0 as i32,
            r1: b.row0 as i32 + b.rows as i32 - 1,
            c1: b.col0 as i32 + b.cols as i32 - 1,
        },
    }
}

/// What the status line says once a layer was placed.
pub fn placed_text(bounds: Option<Bounds>) -> (r: String)
    ensures
        r@ == match bounds {
            None => "layer placed on the full board"@,
            Some(b) => "layer placed · "@ + block_text(b),
        },
{
    match bounds {
        None => "layer placed on the full board".to_owned(),
        Some(b) => {
            let mut s = "layer placed · ".to_owned();
            s.append(block_words(b).as_str());
            s
        },
    }
}

// ── tiles ───────────────────────────────────────────────────────────────────────────────────────

/// A preset.
pub struct Preset {
    pub slug: String,
    pub label: String,
    pub pattern: String,
    /// Whether it shows a state of the device rather than an effect.
    pub readout: bool,
}

/// The first preset from `from` on with this pattern.
pub open spec fn preset_with_pattern(ps: Seq<Preset>, pattern: Seq<char>, from: nat) -> Option<nat>
    decreases ps.len() - from,
{
    if from >= ps.len() {
        None
    } else if ps[from as int].pattern@ == pattern {
        Some(from)
    } else {
        preset_with_pattern(ps, pattern, from + 1)
    }
}

/// The first preset from `from` on with this slug.
pub open spec fn preset_with_slug(ps: Seq<Preset>, slug: Seq<char>, from: nat) -> Option<nat>
    decreases ps.len() - from,
{
    if from >= ps.len() {
        None
    } else if ps[from as int].slug@ == slug {
        Some(from)
    } else {
        preset_with_slug(ps, slug, from + 1)
    }
}

/// The tile that stands for a layer: a painted one is its own; else the preset that it exactly is,
/// else the first preset of its pattern, else "static".
pub open spec fn tile_slug(
    ps: Seq<Preset>,
    pattern: Seq<char>,
    exact: Option<String>,
) -> Seq<char> {
    if pattern == "custom"@ {
        "custom"@
    } else {
        match exact {
            Some(s) => s@,
            None => match preset_with_pattern(ps, pattern, 0) {
                Some(i) => ps[i as int].slug@,
                None => "static"@,
            },
        }
    }
}

/// The preset behind a layer: the one that it exactly is, else the first of its pattern.
pub open spec fn preset_behind(
    ps: Seq<Preset>,
    pattern: Seq<char>,
    exact: Option<String>,
) -> Option<nat> {
    match exact {
        Some(s) => preset_with_slug(ps, s@, 0),
        None => preset_with_pattern(ps, pattern, 0),
    }
}

/// What a layer is called: "Painted", the label of the preset behind it, else that of its pattern,
/// else the pattern itself.
pub open spec fn label_of_layer(
    ps: Seq<Preset>,
    pattern: Seq<char>,
    exact: Option<String>,
    pattern_label: Option<String>,
) -> Seq<char> {
    if pattern == "custom"@ {
        "Painted"@
    } else {
        match preset_behind(ps, pattern, exact) {
            Some(i) => ps[i as int].label@,
            None => match pattern_label {
                Some(l) => l@,
                None => pattern,
            },
        }
    }
}

fn find_pattern(ps: &Vec<Preset>, pattern: &str) -> (r: Option<usize>)
    ensures
        match r {
            Some(i) => i < ps@.len() && preset_with_pattern(ps@, pattern@, 0) == Some(i as nat),
            None => preset_with_pattern(ps@, pattern@, 0) is None,
        },
{
    let mut i: usize = 0;
    while i < ps.len()
        invariant
            i <= ps@.len(),
            preset_with_pattern(ps@, pattern@, 0) == preset_with_pattern(ps@, pattern@, i as nat),
        decreases ps@.len() - i,
    {
        if same_text(ps[i].pattern.as_str(), pattern) {
            return Some(i);
        }
        i = i + 1;
    }
    None
}

fn find_slug(ps: &Vec<Preset>, slug: &str) -> (r: Option<usize>)
    ensures
        match r {
            Some(i) => i < ps@.len() && preset_with_slug(ps@, slug@, 0) == Some(i as nat),
            None => preset_with_slug(ps@, slug@, 0) is None,
        },
{
    let mut i: usize = 0;
    while i < ps.len()
        invariant
            i <= ps@.len(),
            preset_with_slug(ps@, slug@, 0) == preset_with_slug(ps@, slug@, i as nat),
        decreases ps@.len() - i,
    {
        if same_text(ps[i].slug.as_str(), slug) {
            return Some(i);
        }
        i = i + 1;
    }
    None
}

/// The tile that stands for a layer. `exact` is the preset that the layer exactly is.
pub fn tile_slug_for_layer(ps: &Vec<Preset>, pattern: &str, exact: &Option<String>) -> (r: String)
    ensures
        r@ == tile_slug(ps@, pattern@, *exact),
{
    if same_text(pattern, "custom") {
        return "custom".to_owned();
    }
    match exact {
        Some(s) => s.clone(),
        None => match find_pattern(ps, pattern) {
            Some(i) => ps[i].slug.clone(),
            None => "static".to_owned(),
        },
    }
}

/// What a layer is called. `pattern_label` is what its pattern is called.
pub fn layer_label(
    ps: &Vec<Preset>,
    pattern: &str,
    exact: &Option<String>,
    pattern_label: &Option<String>,
) -> (r: String)
    ensures
        r@ == label_of_layer(ps@, pattern@, *exact, *pattern_label),
{
    if same_text(pattern, "custom") {
        return "Painted".to_owned();
    }
    let behind: Option<usize> = match exact {
        Some(s) => find_slug(ps, s.as_str()),
        None => find_pattern(ps, pattern),
    };
    match behind {
        Some(i) => ps[i].label.clone(),
        None => match pattern_label {
            Some(l) => l.clone(),
            None => pattern.to_owned(),
        },
    }
}

/// A tile: slug, name, and "data" for a readout or "effect" for anything else.
pub fn light_tile_catalog(ps: &Vec<Preset>) -> (r: Vec<(String, String, &'static str)>)
    ensures
        r@.len() == ps@.len(),
        forall|i: int|
            0 <= i < r@.len() ==> (#[trigger] r@[i]).0@ == ps@[i].slug@ && r@[i].1@ == ps@[i].label@
                && r@[i].2@ == (if ps@[i].readout {
                "data"@
            } else {
                "effect"@
            }),
{
    let mut out: Vec<(String, String, &'static str)> = Vec::new();
    let mut i: usize = 0;
    while i < ps.len()
        invariant
            i <= ps@.len(),
            out@.len() == i,
            forall|j: int|
                0 <= j < i ==> (#[trigger] out@[j]).0@ == ps@[j].slug@ && out@[j].1@ == ps@[j].label@
                    && out@[j].2@ == (if ps@[j].readout {
                    "data"@
                } else {
                    "effect"@
                }),
        decreases ps@.len() - i,
    {
        let kind: &'static str = if ps[i].readout {
            "data"
        } else {
            "effect"
        };
        out.push((ps[i].slug.clone(), ps[i].label.clone(), kind));
        i = i + 1;
    }
    out
}

/// How a tile's thumbnail is drawn.
#[derive(Clone, Copy, Debug, PartialEq, Eq, Structural)]
pub enum Thumbnail {
    /// The readout of a made-up device.
    Vitals,
    /// The colors of the preset at full strength.
    Spectrum,
    /// The running meter, on the configured source.
    Meter,
    /// A still of typing.
    Typing,
    /// A still of a screen.
    Screen,
    /// The running effect.
    Running,
}

/// How the thumbnail of a tile is drawn: only the selected screen mirror may capture the screen, and
/// what shows a state or reacts to keys is a still.
pub open spec fn thumbnail(slug: Seq<char>, selected: Seq<char>) -> Thumbnail {
    if slug == "vitals"@ {
        Thumbnail::Vitals
    } else if slug == "onair"@ || slug == "miclight"@ || slug == "modeheld"@ || slug == "signal"@ {
        Thumbnail::Spectrum
    } else if slug == "audiometer"@ {
        Thumbnail::Meter
    } else if slug == "typingheat"@ {
        Thumbnail::Typing
    } else if slug == "ambient"@ && selected != "ambient"@ {
        Thumbnail::Screen
    } else {
        Thumbnail::Running
    }
}

/// How the thumbnail of a tile is drawn.
pub fn tile_thumbnail(slug: &str, selected: &str) -> (r: Thumbnail)
    ensures
        r == thumbnail(slug@, selected@),
{
    if same_text(slug, "vitals") {
        Thumbnail::Vitals
    } else if same_text(slug, "onair") || same_text(slug, "miclight") || same_text(slug, "modeheld")
        || same_text(slug, "signal") {
        Thumbnail::Spectrum
    } else if same_text(slug, "audiometer") {
        Thumbnail::Meter
    } else if same_text(slug, "typingheat") {
        Thumbnail::Typing
    } else if same_text(slug, "ambient") && !same_text(selected, "ambient") {
        Thumbnail::Screen
    } else {
        Thumbnail::Running
    }
}

// ── a pass over the tiles ───────────────────────────────────────────────────────────────────────

/// The renderings that are kept for the tiles: the sides they were made for, and the tiles that have
/// one.
pub struct TileCache {
    pub rows: u8,
    pub cols: u8,
    pub kept: Vec<String>,
}

/// A tile to draw.
pub struct Tile {
    pub slug: String,
    pub name: String,
    pub kind: &'static str,
    pub thumbnail: Thumbnail,
    /// Whether its rendering is to be made anew before it is drawn.
    pub fresh: bool,
}

/// The thumbnail runs on a kept rendering.
pub open spec fn is_rendered(t: Thumbnail) -> bool {
    t == Thumbnail::Meter || t == Thumbnail::Running
}

/// A list without one text.
pub open spec fn without(kept: Seq<Seq<char>>, slug: Seq<char>) -> Seq<Seq<char>>
    decreases kept.len(),
{
    if kept.len() == 0 {
        kept
    } else {
        let front = without(kept.drop_last(), slug);
        if kept.last() == slug {
            front
        } else {
            front.push(kept.last())
        }
    }
}

/// The renderings that can be used on a grid of these sides: none that were made for others.
pub open spec fn usable(c: (u8, u8, Seq<Seq<char>>), rows: u8, cols: u8) -> Seq<Seq<char>> {
    if c.0 != rows || c.1 != cols {
        Seq::empty()
    } else {
        c.2
    }
}

/// The cache once the first `k` tiles were drawn.
pub open spec fn cache_after(
    ps: Seq<Preset>,
    selected: Seq<char>,
    rows: u8,
    cols: u8,
    c: (u8, u8, Seq<Seq<char>>),
    k: nat,
) -> (u8, u8, Seq<Seq<char>>)
    decreases k,
{
    if k == 0 || k > ps.len() {
        c
    } else {
        let before = cache_after(ps, selected, rows, cols, c, (k - 1) as nat);
        let slug = ps[k - 1].slug@;
        if is_rendered(thumbnail(slug, selected)) {
            let kept = usable(before, rows, cols);
            (
                rows,
                cols,
                if kept.contains(slug) {
                    kept
                } else {
                    kept.push(slug)
                },
            )
        } else {
            before
        }
    }
}

/// What is drawn of the tile `k`.
pub open spec fn tile_shows(
    t: Tile,
    ps: Seq<Preset>,
    selected: Seq<char>,
    rows: u8,
    cols: u8,
    c: (u8, u8, Seq<Seq<char>>),
    k: int,
) -> bool {
    let before = cache_after(ps, selected, rows, cols, c, k as nat);
    &&& t.slug@ == ps[k].slug@
    &&& t.name@ == ps[k].label@
    &&& t.kind@ == (if ps[k].readout {
        "data"@
    } else {
        "effect"@
    })
    &&& t.thumbnail == thumbnail(ps[k].slug@, selected)
    &&& t.fresh == (is_rendered(t.thumbnail) && !usable(before, rows, cols).contains(ps[k].slug@))
}

impl TileCache {
    /// The sides and the tiles, as plain values.
    pub open spec fn contents(self) -> (u8, u8, Seq<Seq<char>>) {
        (self.rows, self.cols, texts(self.kept@))
    }

    /// What a pass starts from: the meter's rendering is dropped where its knobs were turned.
    pub open spec fn at_start(self, turned: bool) -> (u8, u8, Seq<Seq<char>>) {
        if turned {
            (self.rows, self.cols, without(texts(self.kept@), "audiometer"@))
        } else {
            self.contents()
        }
    }

    fn forget(&mut self, slug: &str)
        ensures
            final(self).contents() == (
                old(self).rows,
                old(self).cols,
                without(texts(old(self).kept@), slug@),
            ),
    {
        let ghost all = texts(self.kept@);
        let mut out: Vec<String> = Vec::new();
        let mut i: usize = 0;
        proof {
            assert(all.take(0) =~= Seq::empty());
            assert(texts(out@) =~= without(all.take(0), slug@));
        }
        while i < self.kept.len()
            invariant
                i <= self.kept@.len(),
                all == texts(self.kept@),
                self.rows == old(self).rows,
                self.cols == old(self).cols,
                texts(out@) == without(all.take(i as int), slug@),
            decreases self.kept@.len() - i,
        {
            proof {
                assert(all.take(i + 1).drop_last() =~= all.take(i as int));
                assert(all.take(i + 1).last() == self.kept@[i as int]@);
            }
            if !same_text(self.kept[i].as_str(), slug) {
                proof {
                    lemma_texts_push(out@, self.kept@[i as int]);
                }
                out.push(self.kept[i].clone());
            }
            i = i + 1;
        }
        proof {
            assert(all.take(all.len() as int) =~= all);
        }
        self.kept = out;
    }

    /// Makes the tile's rendering a kept one; whether it was none before.
    fn keep(&mut self, slug: &str, rows: u8, cols: u8) -> (fresh: bool)
        ensures
            fresh == !usable(old(self).contents(), rows, cols).contains(slug@),
            final(self).contents() == (
                rows,
                cols,
                if fresh {
                    usable(old(self).contents(), rows, cols).push(slug@)
                } else {
                    usable(old(self).contents(), rows, cols)
                },
            ),
    {
        if self.rows != rows || self.cols != cols {
            self.rows = rows;
            self.cols = cols;
            self.kept = Vec::new();
            proof {
                assert(texts(self.kept@) =~= Seq::empty());
            }
        }
        if list_has(&self.kept, slug) {
            return false;
        }
        let s: String = slug.to_owned();
        proof {
            lemma_texts_push(self.kept@, s);
        }
        self.kept.push(s);
        true
    }

    /// The tiles of a pass, in the order of the catalog: how each is drawn, and whether its rendering
    /// is to be made anew. None on a board without a grid. `turned` says that the meter's knobs were
    /// turned since the last pass.
    pub fn render_light_tiles(
        &mut self,
        ps: &Vec<Preset>,
        selected: &str,
        rows: u8,
        cols: u8,
        turned: bool,
    ) -> (r: Vec<Tile>)
        ensures
            rows == 0 || cols == 0 ==> r@.len() == 0 && final(self).contents() == old(self).contents(),
            rows != 0 && cols != 0 ==> r@.len() == ps@.len() && final(self).contents()
                == cache_after(
                ps@,
                selected@,
                rows,
                cols,
                old(self).at_start(turned),
                ps@.len(),
            ),
            forall|i: int|
                0 <= i < r@.len() ==> tile_shows(
                    #[trigger] r@[i],
                    ps@,
                    selected@,
                    rows,
                    cols,
                    old(self).at_start(turned),
                    i,
                ),
    {
        let mut out: Vec<Tile> = Vec::new();
        if rows == 0 || cols == 0 {
            return out;
        }
        if turned {
            self.forget("audiometer");
        }
        let ghost start = old(self).at_start(turned);
        let mut i: usize = 0;
        while i < ps.len()
            invariant
                i <= ps@.len(),
                out@.len() == i,
                start == old(self).at_start(turned),
                self.contents() == cache_after(ps@, selected@, rows, cols, start, i as nat),
                forall|j: int|
                    0 <= j < i ==> tile_shows(
                        #[trigger] out@[j],
                        ps@,
                        selected@,
                        rows,
                        cols,
                        start,
                        j,
                    ),
            decreases ps@.len() - i,
        {
            let slug = ps[i].slug.as_str();
            let thumbnail = tile_thumbnail(slug, selected);
            let fresh = match thumbnail {
                Thumbnail::Meter | Thumbnail::Running => self.keep(slug, rows, cols),
                _ => false,
            };
            let kind: &'static str = if ps[i].readout {
                "data"
            } else {
                "effect"
            };
            out.push(Tile { slug: ps[i].slug.clone(), name: ps[i].label.clone(), kind, thumbnail, fresh });
            i = i + 1;
        }
        out
    }
}

/// Whether the shown tiles are updated in place, which keeps what the pointer hovers over: their
/// number is the same.
pub fn tiles_in_place(shown: Option<usize>, tiles: usize) -> (r: bool)
    ensures
        r == (shown == Some(tiles)),
{
    match shown {
        Some(n) => n == tiles,
        None => false,
    }
}

// ── knobs ───────────────────────────────────────────────────────────────────────────────────────

/// What sort of knob it is.
#[derive(Clone, Copy, Debug, PartialEq, Eq, Structural)]
pub enum KnobKind {
    /// Not a knob but part of the color sequence.
    Color,
    Range,
    Choice,
    Toggle,
}

/// A knob that a pattern declares. A gated one is shown only while another knob stands at one of the
/// allowed values.
pub struct Knob {
    pub key: String,
    pub label: String,
    pub kind: KnobKind,
    /// What the layer holds under this key, as a choice is counted.
    pub held: Option<u8>,
    /// What stands where the layer holds nothing.
    pub default: u8,
    /// The key of the gating knob and the values of it at which this one is shown.
    pub gate: Option<(String, Vec<u8>)>,
}

/// A row of the inspector: which of the declared knobs it shows, as what, and where a choice stands.
#[derive(Clone, Copy, Debug, PartialEq, Eq)]
pub struct KnobRow {
    pub index: usize,
    pub kind: &'static str,
    pub choice: u8,
}

/// Where a knob stands: what the layer holds, else the declared default.
pub open spec fn knob_value(k: Knob) -> u8 {
    match k.held {
        Some(v) => v,
        None => k.default,
    }
}

/// The first knob from `from` on with this key.
pub open spec fn knob_with_key(ks: Seq<Knob>, key: Seq<char>, from: nat) -> Option<nat>
    decreases ks.len() - from,
{
    if from >= ks.len() {
        None
    } else if ks[from as int].key@ == key {
        Some(from)
    } else {
        knob_with_key(ks, key, from + 1)
    }
}

/// Where the knob with this key stands; at 0 where none is declared.
pub open spec fn value_of_key(ks: Seq<Knob>, key: Seq<char>) -> u8 {
    match knob_with_key(ks, key, 0) {
        Some(i) => knob_value(ks[i as int]),
        None => 0,
    }
}

/// The word for a kind of knob.
pub open spec fn knob_word(k: KnobKind) -> Seq<char> {
    match k {
        KnobKind::Color => ""@,
        KnobKind::Range => "range"@,
        KnobKind::Choice => "enum"@,
        KnobKind::Toggle => "toggle"@,
    }
}

/// The knob is shown.
pub open spec fn knob_shown(ks: Seq<Knob>, k: Knob) -> bool {
    k.kind != KnobKind::Color && (k.gate matches Some((key, allowed)) ==> allowed@.contains(
        value_of_key(ks, key@),
    ))
}

/// The indices of those of the first `n` knobs that are shown.
pub open spec fn knobs_shown(ks: Seq<Knob>, n: nat) -> Seq<int>
    decreases n,
{
    if n == 0 || n > ks.len() {
        Seq::empty()
    } else {
        let before = knobs_shown(ks, (n - 1) as nat);
        if knob_shown(ks, ks[n - 1]) {
            before.push(n - 1)
        } else {
            before
        }
    }
}

fn allows(v: &Vec<u8>, x: u8) -> (r: bool)
    ensures
        r == v@.contains(x),
{
    let mut i: usize = 0;
    while i < v.len()
        invariant
            i <= v@.len(),
            forall|j: int| 0 <= j < i ==> v@[j] != x,
        decreases v@.len() - i,
    {
        if v[i] == x {
            return true;
        }
        i = i + 1;
    }
    false
}

fn knob_stands(k: &Knob) -> (r: u8)
    ensures
        r == knob_value(*k),
{
    match k.held {
        Some(v) => v,
        None => k.default,
    }
}

fn key_stands(ks: &Vec<Knob>, key: &str) -> (r: u8)
    ensures
        r == value_of_key(ks@, key@),
{
    let mut i: usize = 0;
    while i < ks.len()
        invariant
            i <= ks@.len(),
            knob_with_key(ks@, key@, 0) == knob_with_key(ks@, key@, i as nat),
        decreases ks@.len() - i,
    {
        if same_text(ks[i].key.as_str(), key) {
            return knob_stands(&ks[i]);
        }
        i = i + 1;
    }
    0
}

/// The row shows the knob.
pub open spec fn row_shows(r: KnobRow, k: Knob) -> bool {
    r.kind@ == knob_word(k.kind) && r.choice == if k.kind == KnobKind::Choice {
        knob_value(k)
    } else {
        0
    }
}

/// The rows show the knobs that are shown, in the order of the declaration.
pub open spec fn shows_knobs(rows: Seq<KnobRow>, ks: Seq<Knob>) -> bool {
    &&& rows.len() == knobs_shown(ks, ks.len()).len()
    &&& forall|i: int|
        0 <= i < rows.len() ==> (#[trigger] rows[i]).index == knobs_shown(ks, ks.len())[i]
            && rows[i].index < ks.len() && row_shows(rows[i], ks[rows[i].index as int])
}

/// The knobs that are shown, in the order of the declaration.
pub fn params_for(ks: &Vec<Knob>) -> (r: Vec<KnobRow>)
    ensures
        shows_knobs(r@, ks@),
{
    let mut out: Vec<KnobRow> = Vec::new();
    let mut i: usize = 0;
    while i < ks.len()
        invariant
            i <= ks@.len(),
            out@.len() == knobs_shown(ks@, i as nat).len(),
            forall|j: int|
                0 <= j < out@.len() ==> (#[trigger] out@[j]).index == knobs_shown(ks@, i as nat)[j]
                    && out@[j].index < ks@.len() && row_shows(out@[j], ks@[out@[j].index as int]),
        decreases ks@.len() - i,
    {
        let open = match &ks[i].gate {
            Some((key, allowed)) => allows(allowed, key_stands(ks, key.as_str())),
            None => true,
        };
        if open {
            match ks[i].kind {
                KnobKind::Color => {},
                KnobKind::Range => {
                    out.push(KnobRow { index: i, kind: "range", choice: 0 });
                },
                KnobKind::Choice => {
                    out.push(KnobRow { index: i, kind: "enum", choice: knob_stands(&ks[i]) });
                },
                KnobKind::Toggle => {
                    out.push(KnobRow { index: i, kind: "toggle", choice: 0 });
                },
            }
        }
        i = i + 1;
    }
    out
}

// ── saving ──────────────────────────────────────────────────────────────────────────────────────

/// What is waiting to be written: product, frame rate and stack of one board.
pub struct LightSave<L, F> {
    pub pid: u16,
    pub fps: u32,
    pub layers: Vec<Layer<L, F>>,
}

/// The debounced saving of the lighting.
pub struct LightSaver<L, F> {
    /// Whether what was saved has been restored; nothing is saved before that.
    pub ready: bool,
    pub pending: Option<LightSave<L, F>>,
}

impl<L, F> LightSaver<L, F> {
    /// Nothing restored, nothing waiting.
    pub fn new() -> (r: Self)
        ensures
            !r.ready,
            r.pending is None,
    {
        LightSaver { ready: false, pending: None }
    }

    /// Puts a state in wait for writing, in place of what waited; whether the timer is to be started.
    pub fn save_lighting(&mut self, s: LightSave<L, F>) -> (armed: bool)
        ensures
            armed == (old(self).ready && s.pid != 0),
            final(self).ready == old(self).ready,
            final(self).pending == if armed {
                Some(s)
            } else {
                old(self).pending
            },
    {
        if !self.ready || s.pid == 0 {
            return false;
        }
        self.pending = Some(s);
        true
    }

    /// Takes what waits for writing; a second call finds nothing.
    pub fn flush_lighting_save(&mut self) -> (r: Option<LightSave<L, F>>)
        ensures
            r == old(self).pending,
            final(self).pending is None,
            final(self).ready == old(self).ready,
    {
        self.pending.take()
    }

    /// What was saved has been restored: from here on edits are saved. What the status line says
    /// where a stack was resumed on the board.
    pub fn restore_lighting(&mut self, resumed: bool, message: &str) -> (r: Option<String>)
        ensures
            final(self).ready,
            final(self).pending == old(self).pending,
            match r {
                Some(s) => resumed && s@ == "lighting resumed — "@ + message@,
                None => !resumed,
            },
    {
        self.ready = true;
        if resumed {
            let mut s = "lighting resumed — ".to_owned();
            s.append(message);
            Some(s)
        } else {
            None
        }
    }
}

// ── streaming ───────────────────────────────────────────────────────────────────────────────────

/// What was the case before streaming was held back, and what is the case from there on.
pub open spec fn held_back(flag: bool) -> (bool, bool) {
    (flag, true)
}

/// Holds automatic streaming back while a stack is put in place by a path that streams by itself.
pub struct SuppressApply {
    /// Whether it was held back before.
    pub prior: bool,
}

impl SuppressApply {
    /// Holds streaming back.
    pub fn new(flag: &mut bool) -> (r: Self)
        ensures
            (r.prior, *final(flag)) == held_back(*old(flag)),
    {
        let prior = *flag;
        *flag = true;
        SuppressApply { prior }
    }

    /// Lets it be as it was.
    pub fn release(self, flag: &mut bool)
        ensures
            *final(flag) == self.prior,
    {
        *flag = self.prior;
    }
}

/// Holding streaming back twice and letting go twice leaves it as it was: an inner hold never lets go
/// of an outer one.
pub proof fn law_holds_nest(flag: bool)
    ensures
        ({
            let (outer, held) = held_back(flag);
            let (inner, still) = held_back(held);
            // letting go of the inner hold, then of the outer one
            held && still && inner && outer == flag
        }),
{
}

/// Whether an edit starts the timer of automatic streaming.
pub fn schedule_lighting_apply(ready: bool, suppressed: bool, paused: bool) -> (r: bool)
    ensures
        r == (ready && !suppressed && !paused),
{
    ready && !suppressed && !paused
}

/// Why the stack is not streamed; nothing where it is.
pub fn apply_current_lighting(paused: bool, empty: bool) -> (r: Option<&'static str>)
    ensures
        match r {
            Some(s) => (paused || empty) && s@ == (if paused {
                "writes paused — composite not applied"@
            } else {
                "nothing to apply"@
            }),
            None => !paused && !empty,
        },
{
    if paused {
        Some("writes paused — composite not applied")
    } else if empty {
        Some("nothing to apply")
    } else {
        None
    }
}

/// What the end of a stream does: nothing where another one took over; else what the status line
/// says, and whether the indicator of the board in view goes out.
pub fn stream_ended(current: bool, viewed: bool, reason: &Option<String>) -> (r: Option<
    (String, bool),
>)
    ensures
        match r {
            None => !current,
            Some((s, off)) => current && off == viewed && s@ == match *reason {
                Some(w) => "composite ended: "@ + w@,
                None => "composite finished"@,
            },
        },
{
    if !current {
        return None;
    }
    let s: String = match reason {
        Some(w) => {
            let mut s = "composite ended: ".to_owned();
            s.append(w.as_str());
            s
        },
        None => "composite finished".to_owned(),
    };
    Some((s, viewed))
}

/// What is saved for a board.
#[derive(Clone, Copy, Debug, PartialEq, Eq, Structural)]
pub struct SavedBoard {
    pub fps: u32,
    pub has_layers: bool,
}

/// A board to stream from what is saved for it: its index, and the frame rate to stream at.
#[derive(Clone, Copy, Debug, PartialEq, Eq, Structural)]
pub struct Restream {
    pub index: usize,
    pub fps: u32,
}

/// The board `i` is streamed from what is saved: it is not the selected one, and something is saved.
pub open spec fn restreamed(
    units: Seq<(u16, String)>,
    saved: Seq<SavedBoard>,
    selected: Seq<char>,
    i: int,
) -> bool {
    units[i].1@ != selected && saved[i].has_layers
}

/// The pace that is set once the first `k` boards were streamed.
pub open spec fn pace_after(
    units: Seq<(u16, String)>,
    saved: Seq<SavedBoard>,
    selected: Seq<char>,
    fps: u32,
    k: nat,
) -> int
    decreases k,
{
    if k == 0 || k > units.len() {
        fps as int
    } else {
        let before = pace_after(units, saved, selected, fps, (k - 1) as nat);
        if restreamed(units, saved, selected, k - 1) && saved[k - 1].fps >= 1 {
            slider_fps(saved[k - 1].fps as int)
        } else {
            before
        }
    }
}

/// The boards among the first `k` that are streamed from what is saved, by index, each at the pace
/// that is set by then.
pub open spec fn restreams(
    units: Seq<(u16, String)>,
    saved: Seq<SavedBoard>,
    selected: Seq<char>,
    fps: u32,
    k: nat,
) -> Seq<(int, int)>
    decreases k,
{
    if k == 0 || k > units.len() {
        Seq::empty()
    } else {
        let before = restreams(units, saved, selected, fps, (k - 1) as nat);
        if restreamed(units, saved, selected, k - 1) {
            before.push((k - 1, pace_after(units, saved, selected, fps, k)))
        } else {
            before
        }
    }
}

/// The boards to stream from what is saved, besides the selected one, whose own stack streams. None
/// while writes are paused. The selected board's pace is to be set again afterwards.
pub fn reapply_all_boards(
    paused: bool,
    units: &Vec<(u16, String)>,
    saved: &Vec<SavedBoard>,
    selected: &str,
    fps: u32,
) -> (r: Option<Vec<Restream>>)
    requires
        saved@.len() == units@.len(),
    ensures
        match r {
            None => paused,
            Some(v) => !paused && v@.len() == restreams(
                units@,
                saved@,
                selected@,
                fps,
                units@.len(),
            ).len() && forall|i: int|
                0 <= i < v@.len() ==> ((#[trigger] v@[i]).index as int, v@[i].fps as int)
                    == restreams(units@, saved@, selected@, fps, units@.len())[i],
        },
{
    if paused {
        return None;
    }
    let mut out: Vec<Restream> = Vec::new();
    let mut pace: u32 = fps;
    let mut i: usize = 0;
    while i < units.len()
        invariant
            i <= units@.len(),
            saved@.len() == units@.len(),
            pace == pace_after(units@, saved@, selected@, fps, i as nat),
            out@.len() == restreams(units@, saved@, selected@, fps, i as nat).len(),
            forall|j: int|
                0 <= j < out@.len() ==> ((#[trigger] out@[j]).index as int, out@[j].fps as int)
                    == restreams(units@, saved@, selected@, fps, i as nat)[j],
        decreases units@.len() - i,
    {
        if !same_text(units[i].1.as_str(), selected) && saved[i].has_layers {
            if saved[i].fps >= 1 {
                pace = set_light_fps(saved[i].fps as i64);
            }
            out.push(Restream { index: i, fps: pace });
        }
        i = i + 1;
    }
    Some(out)
}

// ── laws ────────────────────────────────────────────────────────────────────────────────────────

/// Every cell of a picture's frame is drawn: the pixel in its middle has its color.
pub proof fn law_every_cell_is_drawn(frame: Seq<(u8, u8, u8)>, rows: nat, cols: nat, r: nat, c: nat)
    requires
        r < rows,
        c < cols,
        r * cols + c < frame.len(),
    ensures
        picture_pixel(frame, rows, cols, 4 + 11 * c + 4, 4 + 11 * r + 4) == frame[(r * cols + c) as int],
        4 + 11 * c + 4 < picture_side(cols),
        4 + 11 * r + 4 < picture_side(rows),
{
    let x = 4 + 11 * c + 4;
    let y = 4 + 11 * r + 4;
    assert((x - 4) / 11 == c && (x - 4) % 11 == 4);
    assert((y - 4) / 11 == r && (y - 4) % 11 == 4);
}

/// A second pass over the same tiles on the same board makes nothing anew.
pub proof fn law_second_pass_keeps_renderings(
    ps: Seq<Preset>,
    selected: Seq<char>,
    rows: u8,
    cols: u8,
    c: (u8, u8, Seq<Seq<char>>),
    i: int,
)
    requires
        0 <= i < ps.len(),
        is_rendered(thumbnail(ps[i].slug@, selected)),
    ensures
        ({
            let once = cache_after(ps, selected, rows, cols, c, ps.len());
            usable(
                cache_after(ps, selected, rows, cols, once, i as nat),
                rows,
                cols,
            ).contains(ps[i].slug@)
        }),
{
    lemma_tile_is_kept(ps, selected, rows, cols, c, ps.len(), i);
    let once = cache_after(ps, selected, rows, cols, c, ps.len());
    lemma_kept_stays(ps, selected, rows, cols, once, i as nat, ps[i].slug@);
}

proof fn lemma_kept_stays(
    ps: Seq<Preset>,
    selected: Seq<char>,
    rows: u8,
    cols: u8,
    c: (u8, u8, Seq<Seq<char>>),
    k: nat,
    slug: Seq<char>,
)
    requires
        usable(c, rows, cols).contains(slug),
    ensures
        usable(cache_after(ps, selected, rows, cols, c, k), rows, cols).contains(slug),
    decreases k,
{
    if 0 < k <= ps.len() {
        lemma_kept_stays(ps, selected, rows, cols, c, (k - 1) as nat, slug);
        let kept = usable(cache_after(ps, selected, rows, cols, c, (k - 1) as nat), rows, cols);
        let more = kept.push(ps[k - 1].slug@);
        let i = choose|i: int| 0 <= i < kept.len() && kept[i] == slug;
        assert(more[i] == slug);
    }
}

proof fn lemma_tile_is_kept(
    ps: Seq<Preset>,
    selected: Seq<char>,
    rows: u8,
    cols: u8,
    c: (u8, u8, Seq<Seq<char>>),
    k: nat,
    i: int,
)
    requires
        0 <= i < k <= ps.len(),
        is_rendered(thumbnail(ps[i].slug@, selected)),
    ensures
        usable(cache_after(ps, selected, rows, cols, c, k), rows, cols).contains(ps[i].slug@),
    decreases k,
{
    let kept = usable(cache_after(ps, selected, rows, cols, c, (k - 1) as nat), rows, cols);
    let more = kept.push(ps[k - 1].slug@);
    if i == k - 1 {
        assert(more[kept.len() as int] == ps[i].slug@);
    } else {
        lemma_tile_is_kept(ps, selected, rows, cols, c, (k - 1) as nat, i);
        let j = choose|j: int| 0 <= j < kept.len() && kept[j] == ps[i].slug@;
        assert(more[j] == ps[i].slug@);
    }
}

/// The selected board is never streamed from what is saved for it: its own stack may hold edits.
pub proof fn law_selected_board_keeps_live_stack(
    units: Seq<(u16, String)>,
    saved: Seq<SavedBoard>,
    selected: Seq<char>,
    fps: u32,
    k: nat,
    i: int,
)
    requires
        k <= units.len(),
        0 <= i < restreams(units, saved, selected, fps, k).len(),
    ensures
        0 <= restreams(units, saved, selected, fps, k)[i].0 < k,
        units[restreams(units, saved, selected, fps, k)[i].0].1@ != selected,
    decreases k,
{
    if k > 0 {
        if i < restreams(units, saved, selected, fps, (k - 1) as nat).len() {
            law_selected_board_keeps_live_stack(units, saved, selected, fps, (k - 1) as nat, i);
        }
    }
}

} // verus!
