//! What the stack, its tools, its pictures and its page have to do with one another.

use vstd::prelude::*;

use crate::light_session::{
    apply_current_lighting, canvas_from_cells, clear_grid, erase_cell, fill_grid, first_painted,
    foreign_strip, foreign_tick, fps_after_load, frame_to_preview, import_text, knob_shown,
    knob_value, knob_with_key, knobs_shown, layer_label, light_tile_catalog, paint_cell,
    painted_layer, params_for, picture, picture_pixel, placed_text, preset_with_pattern,
    preset_with_slug, preview_step, project_placement, reapply_all_boards, restreams,
    schedule_lighting_apply, set_light_fps, stream_ended, tile_slug_for_layer, tile_thumbnail,
    tiles_in_place, without, Bounds, Knob, KnobRow, LightSave, LightSaver, Placement, Preset,
    PreviewStep, Restream, SavedBoard, SuppressApply, Thumbnail, Tile, TileCache, Tools,
};
use crate::light_stack::{
    clamp_last, selection_after_remove, seq_changed, Layer, LayerBlend, LightStack,
};
use crate::light_surface::{
    apply_effect, countable, effect_applied, init_grid, load_lighting_into_state, motion_parts,
    tile_picked, tile_refused, EffectStep, Frame, GridState, LayerFacts, LightSurface, Motion,
    SpectrumSurface,
};
use crate::status::BoardOwner;
use crate::text::{decimal, lowercase};

verus! {

// ── the stack ───────────────────────────────────────────────────────────────────────────────────

/// A stack that was put in place is there as it was given, with its top layer selected, and is a new
/// revision.
pub proof fn law_stack_is_put_in_place<L, F>(
    s: &mut LightStack<L, F>,
    t: &mut LightStack<L, F>,
    u: &mut LightStack<L, F>,
    layers: Vec<Layer<L, F>>,
    some: bool,
)
    requires
        call_ensures(LightStack::<L, F>::load, (s, layers), some),
        call_ensures(LightStack::<L, F>::import, (t, layers), ()),
        call_ensures(LightStack::<L, F>::bring_back, (u, layers), ()),
        old(s).rev < u64::MAX,
        old(t).rev < u64::MAX,
        old(u).rev < u64::MAX,
    ensures
        final(s).layers == layers && final(t).layers == layers && final(u).layers == layers,
        some <==> layers@.len() > 0,
        layers@.len() > 0 ==> final(s).selected + 1 == layers@.len() && final(t).selected + 1
            == layers@.len() && final(u).selected + 1 == layers@.len(),
        layers@.len() == 0 ==> final(s).selected == 0,
        final(s).active_frame == 0 && final(t).active_frame == 0,
        final(u).active_frame == old(u).active_frame,
        final(s).rev > old(s).rev && final(t).rev > old(t).rev && final(u).rev > old(u).rev,
{
}

/// A tile that is picked replaces what the selected layer shows and keeps where it stands: its place and
/// whether it is on, and its blend unless a readout brings its own. No other layer changes.
pub proof fn law_picked_tile_keeps_the_place<L, F>(
    s: &mut LightStack<L, F>,
    preset: Layer<L, F>,
    readout: bool,
    i: int,
)
    requires
        call_ensures(LightStack::<L, F>::pick_tile, (s, preset, readout), ()),
        old(s).rev < u64::MAX,
        old(s).selected < old(s).layers@.len(),
        0 <= i < old(s).layers@.len(),
    ensures
        final(s).layers@.len() == old(s).layers@.len(),
        final(s).selected == old(s).selected,
        i != old(s).selected ==> final(s).layers@[i] == old(s).layers@[i],
        i == old(s).selected ==> final(s).layers@[i].pattern == preset.pattern && final(s).layers@[i].look
            == preset.look && final(s).layers@[i].seq == preset.seq && final(s).layers@[i].region == old(
            s).layers@[i].region && final(s).layers@[i].enabled == old(s).layers@[i].enabled && (readout
            ==> final(s).layers@[i].blend == preset.blend) && (!readout ==> final(s).layers@[i].blend
            == old(s).layers@[i].blend),
{
}

/// Into an empty stack a tile comes as it is.
pub proof fn law_first_tile_comes_as_it_is<L, F>(s: &mut LightStack<L, F>, preset: Layer<L, F>, readout: bool)
    requires
        call_ensures(LightStack::<L, F>::pick_tile, (s, preset, readout), ()),
        old(s).rev < u64::MAX,
        old(s).layers@.len() == 0,
    ensures
        final(s).layers@.len() == 1 && final(s).layers@[0] == preset && final(s).selected == 0,
{
}

/// A layer that is removed is gone and the others keep their order; the layer that was selected stays
/// selected, where it is still there.
pub proof fn law_removed_layer_is_gone<L, F>(s: &mut LightStack<L, F>, i: i32, j: int)
    requires
        call_ensures(LightStack::<L, F>::remove_stack, (s, i), ()),
        old(s).rev < u64::MAX,
        0 <= i < old(s).layers@.len(),
        0 <= j < old(s).layers@.len() - 1,
        old(s).selected < old(s).layers@.len(),
    ensures
        final(s).layers@.len() == old(s).layers@.len() - 1,
        final(s).layers@[j] == (if j < i {
            old(s).layers@[j]
        } else {
            old(s).layers@[j + 1]
        }),
        old(s).selected != i ==> final(s).layers@[final(s).selected as int] == old(
            s).layers@[old(s).selected as int],
        final(s).selected < final(s).layers@.len(),
{
}

/// Selecting a layer shows its first frame and changes nothing else; one that is not there, or is
/// selected already, changes nothing at all.
pub proof fn law_selecting_changes_the_selection_alone<L, F>(s: &mut LightStack<L, F>, i: i32, changed: bool)
    requires
        call_ensures(LightStack::<L, F>::select_stack, (s, i), changed),
    ensures
        final(s).layers == old(s).layers && final(s).rev == old(s).rev,
        changed ==> final(s).selected == i && final(s).active_frame == 0,
        !changed ==> final(s).selected == old(s).selected && final(s).active_frame == old(s).active_frame,
        0 <= i < old(s).layers@.len() ==> final(s).selected == i,
{
}

/// A layer's place is the one that was dragged, until it is reset; every other layer keeps its own.
pub proof fn law_place_is_set_and_reset<L, F>(
    s: &mut LightStack<L, F>,
    t: &mut LightStack<L, F>,
    region: Vec<u32>,
    rows: u8,
    cols: u8,
    set: bool,
    reset: bool,
    i: int,
)
    requires
        call_ensures(LightStack::<L, F>::set_layer_region, (s, region, rows, cols), set),
        old(s).rev < u64::MAX,
        *old(t) == *final(s),
        call_ensures(LightStack::<L, F>::reset_layer_region, (t,), reset),
        old(t).rev < u64::MAX,
        old(s).selected < old(s).layers@.len(),
        rows > 0 && cols > 0,
        region@.len() > 0,
        0 <= i < old(s).layers@.len(),
    ensures
        set && reset,
        final(s).layers@[old(s).selected as int].region == region,
        final(t).layers@[old(s).selected as int].region@.len() == 0,
        i != old(s).selected ==> final(s).layers@[i] == old(s).layers@[i] && final(t).layers@[i] == old(
            s).layers@[i],
        final(t).layers@[old(s).selected as int].pattern == old(s).layers@[old(
            s).selected as int].pattern,
{
}

/// A painted frame becomes the one layer of the stack, cell for cell.
pub proof fn law_painted_frame_is_the_stack<L, F>(
    s: &mut LightStack<L, F>,
    blank: Layer<L, F>,
    cells: Vec<(u8, u8, u8)>,
)
    requires
        call_ensures(LightStack::<L, F>::commit_custom_layer, (s, blank, cells), ()),
        old(s).rev < u64::MAX,
    ensures
        final(s).layers@.len() == 1,
        final(s).layers@[0].cells == cells,
        final(s).layers@[0].pattern@ == "custom"@,
        final(s).selected == 0,
        final(s).rev > old(s).rev,
{
}

/// A frame that is removed is gone, unless it is the last one; a frame that is moved changes places with
/// its neighbour and stays the active one.
pub proof fn law_frames_are_removed_and_moved<L, F>(
    s: &mut LightStack<L, F>,
    t: &mut LightStack<L, F>,
    i: i32,
    dir: i32,
)
    requires
        call_ensures(LightStack::<L, F>::remove_frame, (s, i), ()),
        call_ensures(LightStack::<L, F>::move_frame, (t, i, dir), ()),
        old(s).rev < u64::MAX,
        old(t).rev < u64::MAX,
        old(s).selected < old(s).layers@.len(),
        old(t).selected < old(t).layers@.len(),
        dir == 1 || dir == -1,
        i >= 0,
    ensures
        ({
            let was = old(s).layers@[old(s).selected as int].seq@;
            let now = final(s).layers@[old(s).selected as int].seq@;
            &&& was.len() > 1 && i < was.len() ==> now == was.remove(i as int)
            &&& was.len() <= 1 ==> now == was
        }),
        ({
            let was = old(t).layers@[old(t).selected as int].seq@;
            let now = final(t).layers@[old(t).selected as int].seq@;
            0 <= i < was.len() && 0 <= i + dir < was.len() ==> now[i + dir] == was[i as int] && now[i as int]
                == was[i + dir] && final(t).active_frame == i + dir && now.len() == was.len()
        }),
{
}

/// An index is kept within a list, and a selection follows what is removed before it.
pub proof fn law_indices_stay_within(i: usize, selected: usize, n: usize, a: usize, b: usize)
    requires
        call_ensures(clamp_last, (i, n), a),
        call_ensures(selection_after_remove, (i, selected, n), b),
        n > 0,
    ensures
        a < n,
        i < n ==> a == i,
        i >= n ==> a == n - 1,
        b < n,
        i < selected && selected <= n ==> b == selected - 1,
        i >= selected && selected < n ==> b == selected,
{
}

// ── the painted grid ────────────────────────────────────────────────────────────────────────────

/// Painting colors one cell and erasing turns it off; no other cell changes, and outside the grid none.
pub proof fn law_brush_touches_one_cell(
    a: &mut Vec<(u8, u8, u8)>,
    b: &mut Vec<(u8, u8, u8)>,
    idx: i32,
    color: (u8, u8, u8),
    i: int,
)
    requires
        call_ensures(paint_cell, (a, idx, color), ()),
        call_ensures(erase_cell, (b, idx), ()),
    ensures
        final(a)@.len() == old(a)@.len() && final(b)@.len() == old(b)@.len(),
        0 <= idx < old(a)@.len() ==> final(a)@[idx as int] == color,
        0 <= idx < old(b)@.len() ==> final(b)@[idx as int] == (0x0cu8, 0x0du8, 0x10u8),
        0 <= i < old(a)@.len() && i != idx ==> final(a)@[i] == old(a)@[i],
        0 <= i < old(b)@.len() && i != idx ==> final(b)@[i] == old(b)@[i],
{
}

/// A filled grid is of one color, a cleared one is off, all over.
pub proof fn law_whole_grid(n: usize, color: (u8, u8, u8), a: Vec<(u8, u8, u8)>, b: Vec<(u8, u8, u8)>, i: int)
    requires
        call_ensures(fill_grid, (n, color), a),
        call_ensures(clear_grid, (n,), b),
        0 <= i < n,
    ensures
        a@.len() == n && b@.len() == n,
        a@[i] == color,
        b@[i] == (0x0cu8, 0x0du8, 0x10u8),
{
}

/// Cells that are put on a grid stand where they stood; what they do not fill is off.
pub proof fn law_cells_stand_where_they_stood(
    cells: &Vec<(u8, u8, u8)>,
    rows: i32,
    cols: i32,
    r: Vec<(u8, u8, u8)>,
    i: int,
)
    requires
        call_ensures(canvas_from_cells, (cells, rows, cols), r),
        rows > 0 && cols > 0,
        rows * cols <= i32::MAX,
        0 <= i < rows * cols,
    ensures
        r@.len() == rows * cols,
        i < cells@.len() ==> r@[i] == cells@[i],
        i >= cells@.len() ==> r@[i] == (0x0cu8, 0x0du8, 0x10u8),
{
}

/// The brush and the placing tool are never both in hand; either is put down by taking it again.
pub proof fn law_one_tool_in_hand(t: &mut Tools, u: &mut Tools, v: &mut Tools, a: &'static str, b: &'static str, c: &'static str)
    requires
        call_ensures(Tools::toggle_brush, (t,), a),
        *old(u) == *final(t),
        call_ensures(Tools::toggle_place, (u,), b),
        *old(v) == *final(t),
        call_ensures(Tools::toggle_brush, (v,), c),
        !old(t).brush,
    ensures
        final(t).brush && !final(t).place,
        final(u).place && !final(u).brush,
        !final(v).brush && !final(v).place,
{
}

/// The first painted layer is the one whose cells the grid shows.
pub proof fn law_first_painted_layer<L, F>(layers: &Vec<Layer<L, F>>, r: Option<usize>)
    requires
        call_ensures(first_painted::<L, F>, (layers,), r),
    ensures
        r matches Some(i) ==> i < layers@.len() && layers@[i as int].pattern@ == "custom"@,
        r is None ==> forall|i: int| 0 <= i < layers@.len() ==> (#[trigger] layers@[i]).pattern@
            != "custom"@,
{
    lemma_painted(layers@, 0);
}

proof fn lemma_painted<L, F>(layers: Seq<Layer<L, F>>, from: nat)
    ensures
        match painted_layer(layers, from) {
            Some(i) => from <= i < layers.len() && layers[i as int].pattern@ == "custom"@,
            None => forall|i: int| from <= i < layers.len() ==> (#[trigger] layers[i]).pattern@ != "custom"@,
        },
    decreases layers.len() - from,
{
    if from < layers.len() && layers[from as int].pattern@ != "custom"@ {
        lemma_painted(layers, from + 1);
    }
}

// ── pictures ────────────────────────────────────────────────────────────────────────────────────

/// A picture has nine pixels for each cell, two between cells and four around.
pub proof fn law_picture_size(frame: &[(u8, u8, u8)], rows: u8, cols: u8, r: (usize, usize, Vec<(u8, u8, u8)>))
    requires
        call_ensures(frame_to_preview, (frame, rows, cols), r),
        rows > 0 && cols > 0,
    ensures
        r.0 == 4 + 9 * cols + 2 * (cols - 1) + 4,
        r.1 == 4 + 9 * rows + 2 * (rows - 1) + 4,
        r.2@.len() == r.0 * r.1,
{
}

/// Every pixel of a cell has the color of the cell, row by row and column by column; the ground between
/// and around the cells is of one other color.
pub proof fn law_pixels_of_a_cell(
    frame: Seq<(u8, u8, u8)>,
    rows: nat,
    cols: nat,
    row: nat,
    col: nat,
    dx: nat,
    dy: nat,
)
    requires
        row < rows,
        col < cols,
        dx < 11,
        dy < 11,
        row * cols + col < frame.len(),
    ensures
        dx < 9 && dy < 9 ==> picture_pixel(frame, rows, cols, 4 + 11 * col + dx, 4 + 11 * row + dy)
            == frame[(row * cols + col) as int],
        dx >= 9 || dy >= 9 ==> picture_pixel(frame, rows, cols, 4 + 11 * col + dx, 4 + 11 * row + dy) == (
            4u8,
            5u8,
            6u8,
        ),
        picture_pixel(frame, rows, cols, 0, 4 + 11 * row) == (4u8, 5u8, 6u8),
{
    assert((11 * col + dx) / 11 == col && (11 * col + dx) % 11 == dx);
    assert((11 * row + dy) / 11 == row && (11 * row + dy) % 11 == dy);
}

/// The preview stands still while the brush is out, is dark for an empty stack, and is made anew exactly
/// where the stack or the grid changed.
pub proof fn law_preview_follows_the_stack(
    brush: bool,
    rows: i32,
    cols: i32,
    empty: bool,
    kept: Option<(u64, i32, i32)>,
    rev: u64,
    r: PreviewStep,
)
    requires
        call_ensures(preview_step, (brush, rows, cols, empty, kept, rev), r),
        rows > 0 && cols > 0 && rows * cols <= i32::MAX,
    ensures
        brush <==> r is Drop,
        !brush && empty ==> r == PreviewStep::Dark((rows * cols) as usize),
        !brush && !empty ==> (r matches PreviewStep::Render { rebuild } && (rebuild <==> kept != Some(
            (rev, rows, cols),
        ))),
{
}

/// The owner is looked up on the first tick and on every twenty-fourth after it; the strip names a client
/// that paints or is suppressed.
pub proof fn law_owner_strip(tick: u32, t: (u32, bool), owner: &BoardOwner, r: (bool, bool, String))
    requires
        call_ensures(foreign_tick, (tick,), t),
        tick < u32::MAX,
        call_ensures(foreign_strip, (owner,), r),
    ensures
        t.0 == tick + 1,
        t.1 <==> tick % 24 == 0,
        r.0 <==> *owner is Painting,
        r.1 <==> *owner is Suppressed,
        *owner matches BoardOwner::Painting(s) ==> r.2@ == s@,
        *owner matches BoardOwner::Suppressed(s) ==> r.2@ == s@,
        *owner is Yours ==> r.2@.len() == 0,
{
}

// ── tiles ───────────────────────────────────────────────────────────────────────────────────────

/// Every preset has its tile, in order: its slug, its name and whether it shows data.
pub proof fn law_tiles_show_their_presets(
    c: &mut TileCache,
    ps: &Vec<Preset>,
    selected: &str,
    rows: u8,
    cols: u8,
    turned: bool,
    r: Vec<Tile>,
    cat: Vec<(String, String, &'static str)>,
    i: int,
)
    requires
        call_ensures(TileCache::render_light_tiles, (c, ps, selected, rows, cols, turned), r),
        call_ensures(light_tile_catalog, (ps,), cat),
        rows > 0 && cols > 0,
        0 <= i < ps@.len(),
    ensures
        r@.len() == ps@.len() && cat@.len() == ps@.len(),
        r@[i].slug@ == ps@[i].slug@ && r@[i].name@ == ps@[i].label@,
        cat@[i].0@ == ps@[i].slug@ && cat@[i].1@ == ps@[i].label@,
        r@[i].kind@ == "data"@ <==> ps@[i].readout,
        cat@[i].2@ == "data"@ <==> ps@[i].readout,
        r@[i].kind@ == "effect"@ <==> !ps@[i].readout,
        r@[i].fresh ==> r@[i].thumbnail == Thumbnail::Meter || r@[i].thumbnail == Thumbnail::Running,
{
    reveal_strlit("data");
    reveal_strlit("effect");
    assert("data"@.len() != "effect"@.len());
}

/// Only the mirror of the screen that is selected runs; what shows a state or reacts to keys is a still.
pub proof fn law_thumbnails_are_stills(slug: &str, selected: &str, r: Thumbnail)
    requires
        call_ensures(tile_thumbnail, (slug, selected), r),
    ensures
        slug@ == "ambient"@ ==> (r == Thumbnail::Running <==> selected@ == "ambient"@),
        slug@ == "vitals"@ ==> r == Thumbnail::Vitals,
        slug@ == "audiometer"@ ==> r == Thumbnail::Meter,
        slug@ == "typingheat"@ ==> r == Thumbnail::Typing,
        slug@ == "onair"@ || slug@ == "signal"@ || slug@ == "miclight"@ || slug@ == "modeheld"@ ==> r
            == Thumbnail::Spectrum,
{
    reveal_strlit("ambient");
    reveal_strlit("vitals");
    reveal_strlit("audiometer");
    reveal_strlit("typingheat");
    reveal_strlit("onair");
    reveal_strlit("signal");
    reveal_strlit("miclight");
    reveal_strlit("modeheld");
    assert("ambient"@.len() == 7 && "vitals"@.len() == 6 && "audiometer"@.len() == 10
        && "typingheat"@.len() == 10 && "onair"@.len() == 5 && "signal"@.len() == 6 && "miclight"@.len()
        == 8 && "modeheld"@.len() == 8);
    assert("vitals"@[0] == 'v' && "signal"@[0] == 's' && "audiometer"@[0] == 'a' && "typingheat"@[0]
        == 't');
}

/// Turning the meter's knobs drops the meter's rendering and no other.
pub proof fn law_turned_meter_is_rendered_anew(kept: Seq<Seq<char>>, slug: Seq<char>, other: Seq<char>)
    requires
        other != slug,
    ensures
        !without(kept, slug).contains(slug),
        kept.contains(other) <==> without(kept, slug).contains(other),
    decreases kept.len(),
{
    if kept.len() > 0 {
        law_turned_meter_is_rendered_anew(kept.drop_last(), slug, other);
        let front = without(kept.drop_last(), slug);
        let all = without(kept, slug);
        assert(kept =~= kept.drop_last().push(kept.last()));
        if kept.drop_last().contains(other) {
            let x = choose|x: int| 0 <= x < front.len() && front[x] == other;
            assert(all[x] == other);
            let y = choose|y: int| 0 <= y < kept.drop_last().len() && kept.drop_last()[y] == other;
            assert(kept[y] == other);
        }
        if kept.last() == other {
            assert(all[front.len() as int] == other);
            assert(kept[kept.len() - 1] == other);
        }
        if all.contains(other) {
            let x = choose|x: int| 0 <= x < all.len() && all[x] == other;
            if x < front.len() {
                assert(front[x] == other);
                assert(front.contains(other));
            }
        }
        if kept.contains(other) {
            let y = choose|y: int| 0 <= y < kept.len() && kept[y] == other;
            if y < kept.len() - 1 {
                assert(kept.drop_last()[y] == other);
            }
        }
        assert(!all.contains(slug)) by {
            if all.contains(slug) {
                let x = choose|x: int| 0 <= x < all.len() && all[x] == slug;
                if x < front.len() {
                    assert(front[x] == slug);
                    assert(front.contains(slug));
                }
            }
        }
    }
}

/// A layer's tile is its exact preset, else the first preset of its pattern; its label is that preset's,
/// else the pattern's own, else the pattern itself.
pub proof fn law_layer_is_named_by_its_preset(
    ps: &Vec<Preset>,
    pattern: &str,
    exact: &Option<String>,
    own: &Option<String>,
    slug: String,
    label: String,
)
    requires
        call_ensures(tile_slug_for_layer, (ps, pattern, exact), slug),
        call_ensures(layer_label, (ps, pattern, exact, own), label),
    ensures
        pattern@ == "custom"@ ==> slug@ == "custom"@ && label@ == "Painted"@,
        pattern@ != "custom"@ ==> (*exact matches Some(s) ==> slug@ == s@),
        pattern@ != "custom"@ && *exact is None ==> (preset_with_pattern(ps@, pattern@, 0) matches Some(i)
            ==> slug@ == ps@[i as int].slug@ && label@ == ps@[i as int].label@),
        pattern@ != "custom"@ && *exact is None && preset_with_pattern(ps@, pattern@, 0) is None ==> slug@
            == "static"@ && label@ == (match *own {
            Some(l) => l@,
            None => pattern@,
        }),
{
}

/// The preset of a pattern is the first that has it.
pub proof fn law_first_preset_of_a_pattern(ps: Seq<Preset>, key: Seq<char>, from: nat)
    ensures
        match preset_with_pattern(ps, key, from) {
            Some(i) => from <= i < ps.len() && ps[i as int].pattern@ == key,
            None => forall|j: int| from <= j < ps.len() ==> (#[trigger] ps[j]).pattern@ != key,
        },
        match preset_with_slug(ps, key, from) {
            Some(i) => from <= i < ps.len() && ps[i as int].slug@ == key,
            None => forall|j: int| from <= j < ps.len() ==> (#[trigger] ps[j]).slug@ != key,
        },
    decreases ps.len() - from,
{
    if from < ps.len() {
        law_first_preset_of_a_pattern(ps, key, from + 1);
    }
}

// ── knobs, placement, pace ──────────────────────────────────────────────────────────────────────

/// A knob stands at what is held, else at its default; it is shown where its gate allows the value of the
/// knob that it hangs on, and colors are no knobs.
pub proof fn law_gated_knobs(ks: Seq<Knob>, i: int, j: int)
    requires
        0 <= i < ks.len(),
        0 <= j < ks.len(),
        forall|k: int| 0 <= k < j ==> (#[trigger] ks[k]).key@ != ks[j].key@,
        ks[i].gate matches Some((key, _)) && key@ == ks[j].key@,
    ensures
        knob_value(ks[j]) == (match ks[j].held {
            Some(v) => v,
            None => ks[j].default,
        }),
        knob_shown(ks, ks[i]) <==> !(ks[i].kind is Color) && ((ks[i].gate->0).1)@.contains(knob_value(ks[j])),
{
    lemma_knob_found(ks, ks[j].key@, 0, j);
}

proof fn lemma_knob_found(ks: Seq<Knob>, key: Seq<char>, from: nat, j: int)
    requires
        from <= j < ks.len(),
        ks[j].key@ == key,
        forall|k: int| 0 <= k < j ==> (#[trigger] ks[k]).key@ != key,
    ensures
        knob_with_key(ks, key, from) == Some(j as nat),
    decreases j - from,
{
    if from < j {
        assert(ks[from as int].key@ != key);
        lemma_knob_found(ks, key, from + 1, j);
    }
}

/// A knob without a gate is always shown, unless it is a color.
pub proof fn law_ungated_knob_is_shown(ks: Seq<Knob>, k: Knob)
    requires
        k.gate is None,
    ensures
        knob_shown(ks, k) <==> !(k.kind is Color),
{
}

/// The rows of the knobs are those that are shown, in order, each with its own sort and choice.
pub proof fn law_knob_rows(ks: &Vec<Knob>, r: Vec<KnobRow>, i: int)
    requires
        call_ensures(params_for, (ks,), r),
        0 <= i < r@.len(),
    ensures
        r@[i].index < ks@.len(),
        knob_shown(ks@, ks@[r@[i].index as int]),
        r@[i].kind@ == "range"@ <==> ks@[r@[i].index as int].kind is Range,
        r@[i].kind@ == "enum"@ <==> ks@[r@[i].index as int].kind is Choice,
        r@[i].kind@ == "toggle"@ <==> ks@[r@[i].index as int].kind is Toggle,
        ks@[r@[i].index as int].kind is Choice ==> r@[i].choice == knob_value(ks@[r@[i].index as int]),
{
    reveal_strlit("range");
    reveal_strlit("enum");
    reveal_strlit("toggle");
    reveal_strlit("");
    assert("range"@.len() == 5 && "enum"@.len() == 4 && "toggle"@.len() == 6 && ""@.len() == 0);
    lemma_shown_knobs(ks@, ks@.len());
}

proof fn lemma_shown_knobs(ks: Seq<Knob>, n: nat)
    requires
        n <= ks.len(),
    ensures
        forall|q: int|
            0 <= q < knobs_shown(ks, n).len() ==> 0 <= #[trigger] knobs_shown(ks, n)[q] < n && knob_shown(
                ks,
                ks[knobs_shown(ks, n)[q]],
            ),
        forall|i: int|
            0 <= i < n && knob_shown(ks, #[trigger] ks[i]) ==> knobs_shown(ks, n).contains(i),
    decreases n,
{
    if n > 0 {
        lemma_shown_knobs(ks, (n - 1) as nat);
        let before = knobs_shown(ks, (n - 1) as nat);
        let all = knobs_shown(ks, n);
        assert forall|i: int| 0 <= i < n && knob_shown(ks, #[trigger] ks[i]) implies all.contains(i) by {
            if i < n - 1 {
                let x = choose|x: int| 0 <= x < before.len() && before[x] == i;
                assert(all[x] == i);
            } else {
                assert(all[before.len() as int] == i);
            }
        }
    }
}

/// No knob that is to be shown is left out.
pub proof fn law_every_shown_knob_has_a_row(ks: Seq<Knob>, i: int)
    requires
        0 <= i < ks.len(),
        knob_shown(ks, ks[i]),
    ensures
        knobs_shown(ks, ks.len()).contains(i),
{
    lemma_shown_knobs(ks, ks.len());
}

/// A block is drawn from its first cell to its last, both counted in; its label has its rows before its
/// columns.
pub proof fn law_placement_is_drawn(b: Bounds, p: Placement, whole: Placement, line: String)
    requires
        call_ensures(project_placement, (Some(b),), p),
        call_ensures(project_placement, (None::<Bounds>,), whole),
        call_ensures(placed_text, (Some(b),), line),
        b.rows > 0 && b.cols > 0,
    ensures
        p.placed && !whole.placed,
        p.r0 == b.row0 && p.c0 == b.col0,
        p.r1 - p.r0 + 1 == b.rows && p.c1 - p.c0 + 1 == b.cols,
        p.label@ == decimal(b.rows as nat) + "×"@ + decimal(b.cols as nat) + " block"@,
        line@ == "layer placed · "@ + p.label@,
        whole.label@ == "full board"@,
{
}

/// A frame rate is kept between one and thirty; one that was saved is what a board runs at.
pub proof fn law_pace_is_kept_in_bounds(v: i64, saved: u32, now: u32, a: u32, b: u32)
    requires
        call_ensures(set_light_fps, (v,), a),
        call_ensures(fps_after_load, (saved, now), b),
    ensures
        1 <= a <= 30,
        1 <= v <= 30 ==> a == v,
        v > 30 ==> a == 30,
        v < 1 ==> a == 1,
        saved == 0 ==> b == now,
        1 <= saved <= 30 ==> b == saved,
        saved > 30 ==> b == 30,
{
}

// ── saving and streaming ────────────────────────────────────────────────────────────────────────

/// What is saved last is what is written, once; nothing is saved before what was saved is restored.
pub proof fn law_last_save_is_written_once<L, F>(
    s: &mut LightSaver<L, F>,
    t: &mut LightSaver<L, F>,
    u: &mut LightSaver<L, F>,
    save: LightSave<L, F>,
    armed: bool,
    first: Option<LightSave<L, F>>,
    second: Option<LightSave<L, F>>,
)
    requires
        call_ensures(LightSaver::<L, F>::save_lighting, (s, save), armed),
        *old(t) == *final(s),
        call_ensures(LightSaver::<L, F>::flush_lighting_save, (t,), first),
        *old(u) == *final(t),
        call_ensures(LightSaver::<L, F>::flush_lighting_save, (u,), second),
    ensures
        old(s).ready && save.pid != 0 ==> armed && first == Some(save),
        !old(s).ready ==> !armed && first == old(s).pending,
        second is None,
        final(u).ready == old(s).ready,
{
}

/// Saving begins with the restore, whether or not anything was resumed.
pub proof fn law_restore_begins_saving<L, F>(s: &mut LightSaver<L, F>, resumed: bool, message: &str, r: Option<String>)
    requires
        call_ensures(LightSaver::<L, F>::restore_lighting, (s, resumed, message), r),
    ensures
        final(s).ready,
        r is Some <==> resumed,
        r matches Some(line) ==> line@ == "lighting resumed — "@ + message@,
{
}

/// What holds streams back sets the flag and puts it back as it was.
pub proof fn law_hold_is_put_back(a: &mut bool, b: &mut bool, h: SuppressApply)
    requires
        call_ensures(SuppressApply::new, (a,), h),
        *old(b) == *final(a),
        call_ensures(SuppressApply::release, (h, b), ()),
    ensures
        *final(a),
        *final(b) == *old(a),
{
}

/// A stream goes out only once lighting was restored, while nothing holds it back and writes are not
/// paused; and only where there is a stack.
pub proof fn law_stream_needs_leave(
    ready: bool,
    suppressed: bool,
    paused: bool,
    empty: bool,
    a: bool,
    b: Option<&'static str>,
)
    requires
        call_ensures(schedule_lighting_apply, (ready, suppressed, paused), a),
        call_ensures(apply_current_lighting, (paused, empty), b),
    ensures
        a <==> ready && !suppressed && !paused,
        b is None <==> !paused && !empty,
{
}

/// The end of a stream is told with its reason where it is the current one; the lamp goes out where that
/// board is shown.
pub proof fn law_end_of_a_stream(current: bool, viewed: bool, reason: &Option<String>, r: Option<(String, bool)>)
    requires
        call_ensures(stream_ended, (current, viewed, reason), r),
    ensures
        r is Some <==> current,
        r matches Some((line, off)) ==> (off <==> viewed) && (*reason matches Some(w) ==> line@
            == "composite ended: "@ + w@),
{
}

/// Every board but the selected one streams again what was saved for it, at the pace that was saved with
/// it; a board without a stack does not.
pub proof fn law_other_boards_stream_again(
    units: Seq<(u16, String)>,
    saved: Seq<SavedBoard>,
    selected: Seq<char>,
    fps: u32,
    k: nat,
    i: int,
)
    requires
        k <= units.len(),
        saved.len() == units.len(),
        0 <= i < k,
        units[i].1@ != selected,
        saved[i].has_layers,
        1 <= saved[i].fps <= 30,
    ensures
        restreams(units, saved, selected, fps, k).contains((i, saved[i].fps as int)),
    decreases k,
{
    let before = restreams(units, saved, selected, fps, (k - 1) as nat);
    let all = restreams(units, saved, selected, fps, k);
    if i < k - 1 {
        law_other_boards_stream_again(units, saved, selected, fps, (k - 1) as nat, i);
        let x = choose|x: int| 0 <= x < before.len() && before[x] == (i, saved[i].fps as int);
        assert(all[x] == (i, saved[i].fps as int));
    } else {
        assert(all[before.len() as int] == (i, saved[i].fps as int));
    }
}

/// While writes are paused no board streams.
pub proof fn law_no_board_streams_while_paused(
    paused: bool,
    units: &Vec<(u16, String)>,
    saved: &Vec<SavedBoard>,
    selected: &str,
    fps: u32,
    r: Option<Vec<Restream>>,
)
    requires
        call_ensures(reapply_all_boards, (paused, units, saved, selected, fps), r),
        saved@.len() == units@.len(),
    ensures
        r is None <==> paused,
{
}

// ── the page ────────────────────────────────────────────────────────────────────────────────────

/// The page shows the selected layer of the stack and counts all of them; without a layer it shows none.
pub proof fn law_page_shows_the_selected_layer<N: Copy>(
    s: &mut LightSurface<N>,
    ps: &Vec<Preset>,
    layers: &Vec<LayerFacts<N>>,
    selected: usize,
    frame: usize,
    one: N,
    half: N,
)
    requires
        call_ensures(
            LightSurface::<N>::refresh_light_unified,
            (s, ps, layers, selected, frame, one, half),
            (),
        ),
        countable(layers@),
    ensures
        final(s).count == layers@.len(),
        final(s).labels@.len() == layers@.len(),
        selected < layers@.len() ==> final(s).readout == layers@[selected as int].readout && final(
            s).has_spectrum == layers@[selected as int].has_spectrum,
        selected < layers@.len() && layers@[selected as int].has_spectrum && frame
            < layers@[selected as int].frames@.len() ==> final(s).spectrum.active_frame == frame && final(
            s).spectrum.seq@.len() == layers@[selected as int].frames@.len() && final(
            s).spectrum.stops@.len() == layers@[selected as int].frames@[frame as int].stops@.len(),
        layers@.len() == 0 ==> !final(s).readout && final(s).spectrum.stops@.len() == 0
            && !final(s).placement.placed,
{
}

/// The colors of the active frame are shown in order, each where it stands, and its timing beside it.
pub proof fn law_spectrum_shows_the_active_frame<N: Copy>(
    s: &mut SpectrumSurface<N>,
    frames: &Vec<Frame<N>>,
    play: &str,
    active: usize,
    one: N,
    half: N,
    i: int,
    j: int,
)
    requires
        call_ensures(SpectrumSurface::<N>::project_spectrum, (s, frames, play, active, one, half), ()),
        frames@.len() <= i32::MAX,
        forall|k: int| 0 <= k < frames@.len() ==> (#[trigger] frames@[k]).stops@.len() <= i32::MAX,
        active < frames@.len(),
        0 <= i < frames@[active as int].stops@.len(),
        0 <= j < frames@.len(),
    ensures
        final(s).stops@.len() == frames@[active as int].stops@.len(),
        final(s).stops@[i].idx == i && final(s).stops@[i].color == frames@[active as int].stops@[i].color
            && final(s).stops@[i].at == frames@[active as int].stops@[i].at && final(s).stops@[i].hex@
            == lowercase(frames@[active as int].stops@[i].hex@),
        final(s).seq@.len() == frames@.len(),
        final(s).seq@[j].hold == frames@[j].hold && final(s).seq@[j].fade == frames@[j].fade && final(
            s).seq@[j].ease@ == frames@[j].ease@,
        final(s).play@ == play@,
        final(s).interp@ == frames@[active as int].interp@,
{
}

/// Each motion shows its own numbers; a number that it has not is the stock one.
pub proof fn law_motions_show_their_numbers<N>(m: Motion<N>, one: N, half: N)
    ensures
        m matches Motion::Drift { speed } ==> motion_parts(m, one, half).1 == speed,
        m matches Motion::Cycle { speed } ==> motion_parts(m, one, half).1 == speed,
        m matches Motion::Breathe { speed, depth } ==> motion_parts(m, one, half).1 == speed
            && motion_parts(m, one, half).2 == depth,
        m matches Motion::Flow { speed, chaos } ==> motion_parts(m, one, half).1 == speed
            && motion_parts(m, one, half).3 == chaos,
        m is Hold ==> motion_parts(m, one, half).1 == one && motion_parts(m, one, half).0 == "hold"@,
        !(m is Breathe) ==> motion_parts(m, one, half).2 == half,
        !(m is Flow) ==> motion_parts(m, one, half).3 == half,
        m is Drift ==> motion_parts(m, one, half).0 == "drift"@,
        m is Cycle ==> motion_parts(m, one, half).0 == "cycle"@,
        m is Breathe ==> motion_parts(m, one, half).0 == "breathe"@,
        m is Flow ==> motion_parts(m, one, half).0 == "flow"@,
{
}

/// A board starts dark, with the sides and the pace that it has.
pub proof fn law_board_starts_dark(rows: u8, cols: u8, protocol: Option<(u32, bool)>, r: GridState, i: int)
    requires
        call_ensures(init_grid, (rows, cols, protocol), r),
        0 <= i < rows * cols,
    ensures
        r.rows == rows && r.cols == cols && r.px@.len() == rows * cols,
        r.px@[i] == (0x0cu8, 0x0du8, 0x10u8),
        protocol matches Some((fps, legacy)) ==> r.fps == fps && r.legacy == legacy,
        protocol is None ==> r.fps == 30 && !r.legacy,
{
}

/// What was saved for a board is what it shows, from its first frame and at its own pace.
pub proof fn law_saved_lighting_is_loaded<L, F>(
    s: &mut LightStack<L, F>,
    saved: Vec<Layer<L, F>>,
    saved_fps: u32,
    fps: u32,
    r: (bool, u32),
)
    requires
        call_ensures(load_lighting_into_state::<L, F>, (s, saved, saved_fps, fps), r),
        old(s).rev < u64::MAX,
    ensures
        final(s).layers == saved && final(s).active_frame == 0,
        r.0 <==> saved@.len() > 0,
        1 <= saved_fps <= 30 ==> r.1 == saved_fps,
        saved_fps == 0 ==> r.1 == fps,
{
}

/// An effect is run by its number in the list, unless writes are paused; one that the board took is the
/// one that is marked.
pub proof fn law_effect_is_run_by_number(
    paused: bool,
    valid: bool,
    effects: &Vec<String>,
    idx: i32,
    r: (EffectStep, Option<&'static str>),
)
    requires
        call_ensures(apply_effect, (paused, valid, effects, idx), r),
    ensures
        r.0 is Refused <==> paused,
        r.0 matches EffectStep::Apply(name) ==> 0 <= idx < effects@.len() && name@ == effects@[idx as int]@,
        !paused && 0 <= idx < effects@.len() ==> r.0 is Apply,
        r.1 is Some <==> !paused && !valid,
{
}

/// A tile that is picked is named; the one that is not made yet is refused.
pub proof fn law_tile_is_named(slug: &str, r: Option<&'static str>, line: String)
    requires
        call_ensures(tile_refused, (slug,), r),
        call_ensures(tile_picked, (slug,), line),
    ensures
        r is Some <==> slug@ == "notifications"@,
        line@ == "lighting → "@ + slug@,
{
}

// ── frames and what is edited ───────────────────────────────────────────────────────────────────

/// What is edited is the selected layer and its active frame; an edit changes neither, and is a new
/// revision.
pub proof fn law_edits_touch_the_selected_layer<L, F>(
    a: &mut LightStack<L, F>,
    b: &mut LightStack<L, F>,
    c: &mut LightStack<L, F>,
    d: &mut LightStack<L, F>,
    idx: i32,
    knob: Option<usize>,
    spectrum: Option<(usize, usize)>,
    palette: Option<(usize, usize)>,
    timed: Option<(usize, usize)>,
)
    requires
        old(a).rev < u64::MAX,
        *old(b) == *old(a),
        *old(c) == *old(a),
        *old(d) == *old(a),
        old(a).selected < old(a).layers@.len(),
        old(a).active_frame < old(a).layers@[old(a).selected as int].seq@.len(),
        0 <= idx,
        call_ensures(LightStack::<L, F>::turn_knob, (a,), knob),
        call_ensures(LightStack::<L, F>::edit_active_spectrum, (b,), spectrum),
        call_ensures(LightStack::<L, F>::edit_active_palette, (c,), palette),
        call_ensures(LightStack::<L, F>::retime_frame, (d, idx), timed),
    ensures
        knob == Some(old(a).selected),
        spectrum == Some((old(a).selected, old(a).active_frame)),
        palette == Some((old(a).selected, old(a).active_frame)),
        idx < old(a).layers@[old(a).selected as int].seq@.len() ==> timed == Some((old(a).selected, idx as usize)),
        idx >= old(a).layers@[old(a).selected as int].seq@.len() ==> timed is None,
        final(a).layers == old(a).layers && final(b).layers == old(a).layers && final(c).layers == old(a).layers
            && final(d).layers == old(a).layers,
        final(a).rev == old(a).rev + 1 && final(b).rev == old(a).rev + 1 && final(c).rev == old(a).rev + 1
            && final(d).rev == old(a).rev + 1,
{
}

/// Where nothing is selected nothing is edited and no frame is shown.
pub proof fn law_nothing_selected_nothing_edited<L, F>(
    a: &mut LightStack<L, F>,
    b: &mut LightStack<L, F>,
    knob: Option<usize>,
    spectrum: Option<(usize, usize)>,
    frame: Option<usize>,
    layer: i32,
)
    requires
        old(a).rev < u64::MAX,
        *old(b) == *old(a),
        old(a).layers@.len() == 0,
        call_ensures(LightStack::<L, F>::turn_knob, (a,), knob),
        call_ensures(LightStack::<L, F>::edit_active_spectrum, (b,), spectrum),
        call_ensures(LightStack::<L, F>::shown_frame, (&*old(a),), frame),
        call_ensures(LightStack::<L, F>::shown_layer, (&*old(a),), layer),
    ensures
        knob is None && spectrum is None && frame is None && layer == -1,
{
}

/// The selected layer and frame are shown where they are; a frame beyond the last is the last.
pub proof fn law_selected_frame_is_shown<L, F>(
    s: &mut LightStack<L, F>,
    idx: i32,
    frame: Option<usize>,
    layer: i32,
)
    requires
        old(s).layers@.len() <= i32::MAX,
        old(s).selected < old(s).layers@.len(),
        old(s).layers@[old(s).selected as int].seq@.len() > 0,
        call_ensures(LightStack::<L, F>::select_frame, (s, idx), ()),
        call_ensures(LightStack::<L, F>::shown_frame, (&*final(s),), frame),
        call_ensures(LightStack::<L, F>::shown_layer, (&*final(s),), layer),
    ensures
        layer == old(s).selected,
        final(s).layers == old(s).layers && final(s).rev == old(s).rev,
        0 <= idx < old(s).layers@[old(s).selected as int].seq@.len() ==> frame == Some(idx as usize),
        idx < 0 ==> frame == Some(0usize),
        idx >= old(s).layers@[old(s).selected as int].seq@.len() ==> (frame matches Some(f) && f + 1
            == old(s).layers@[old(s).selected as int].seq@.len()),
{
}

/// A layer that is stacked once more lies on top, selected and screened, over the layers as they were.
pub proof fn law_stacked_layer_lies_on_top<L: Clone, F: Clone>(s: &mut LightStack<L, F>, i: int)
    requires
        old(s).rev < u64::MAX,
        old(s).selected < old(s).layers@.len(),
        call_ensures(LightStack::<L, F>::stack_current, (s,), ()),
        0 <= i < old(s).layers@.len(),
    ensures
        final(s).layers@.len() == old(s).layers@.len() + 1,
        final(s).layers@[i] == old(s).layers@[i],
        final(s).selected == old(s).layers@.len(),
        final(s).layers@.last().pattern@ == old(s).layers@[old(s).selected as int].pattern@,
        final(s).layers@.last().region@ == old(s).layers@[old(s).selected as int].region@,
        final(s).layers@.last().cells@ == old(s).layers@[old(s).selected as int].cells@,
        final(s).layers@.last().enabled == old(s).layers@[old(s).selected as int].enabled,
        final(s).layers@.last().blend == LayerBlend::Screen,
        final(s).layers@.last().seq@.len() == old(s).layers@[old(s).selected as int].seq@.len(),
{
    assert(final(s).layers@.drop_last()[i] == final(s).layers@[i]);
}

/// A frame is added behind the active one and becomes the active one; the frames around it stay in order.
pub proof fn law_frame_is_added_behind<L: Clone, F: Clone>(s: &mut LightStack<L, F>, i: int)
    requires
        old(s).rev < u64::MAX,
        old(s).selected < old(s).layers@.len(),
        old(s).active_frame < old(s).layers@[old(s).selected as int].seq@.len(),
        old(s).active_frame < usize::MAX,
        call_ensures(LightStack::<L, F>::add_frame, (s,), ()),
        0 <= i < old(s).layers@[old(s).selected as int].seq@.len(),
    ensures
        final(s).selected == old(s).selected && final(s).layers@.len() == old(s).layers@.len(),
        final(s).active_frame == old(s).active_frame + 1,
        ({
            let before = old(s).layers@[old(s).selected as int].seq@;
            let after = final(s).layers@[old(s).selected as int].seq@;
            &&& after.len() == before.len() + 1
            &&& i <= old(s).active_frame ==> after[i] == before[i]
            &&& i > old(s).active_frame ==> after[i + 1] == before[i]
            &&& cloned(before[old(s).active_frame as int], after[old(s).active_frame + 1])
        }),
{
    let sel = old(s).selected as nat;
    let seq = old(s).layers@[sel as int].seq@;
    let fr = old(s).active_frame as nat;
    let f = choose|f: F| #[trigger]
        cloned(seq[fr as int], f) && seq_changed(
            old(s).layers@,
            final(s).layers@,
            sel,
            seq.insert(fr as int + 1, f),
        );
    assert(final(s).layers@[sel as int].seq@ == seq.insert(fr as int + 1, f));
}

/// What an import brought is told by how many layers it has, or why it has none.
pub proof fn law_import_is_told(n: usize, note: &Option<String>, r: String)
    requires
        call_ensures(import_text, (n, note), r),
    ensures
        n > 0 ==> r@ == "imported "@ + decimal(n as nat) + " layer(s)"@,
        n == 0 ==> (*note matches Some(t) ==> (t@.len() > 0 ==> r@ == "no lighting in that export — "@ + t@)),
        n == 0 && *note is None ==> r@ == "no lighting in that export"@,
{
}

/// An effect is applied where the answer says so; otherwise what was applied stays.
pub proof fn law_applied_effect_is_kept(answer: &str, idx: i32, applied: i32, r: i32, tail: Seq<char>, shown: Option<usize>, tiles: usize, placed: bool)
    requires
        call_ensures(effect_applied, (answer, idx, applied), r),
        call_ensures(tiles_in_place, (shown, tiles), placed),
    ensures
        answer@ == "effect ->"@ + tail ==> r == idx,
        answer@.len() == 0 ==> r == applied,
        placed <==> shown == Some(tiles),
{
    reveal_strlit("effect ->");
    if answer@ == "effect ->"@ + tail {
        assert(answer@.take("effect ->"@.len() as int) =~= "effect ->"@);
    }
}

/// A cleared spectrum has no stops and no frames, and keeps its numbers.
pub proof fn law_cleared_spectrum_is_empty<N: Copy>(s: &mut SpectrumSurface<N>)
    requires
        call_ensures(SpectrumSurface::<N>::clear_spectrum_surface, (s,), ()),
    ensures
        final(s).stops@.len() == 0 && final(s).seq@.len() == 0 && final(s).active_frame == 0,
        final(s).motion@ == "hold"@ && final(s).interp@ == "rgb"@,
        final(s).speed == old(s).speed && final(s).depth == old(s).depth && final(s).chaos == old(s).chaos
            && final(s).play == old(s).play,
{
}

/// Showing the stack saves it where saving has begun and a board is shown, and streams it where nothing
/// holds it back.
pub proof fn law_shown_stack_is_saved_and_streamed<N: Copy, L, F>(
    s: &mut LightSurface<N>,
    ps: &Vec<Preset>,
    layers: &Vec<LayerFacts<N>>,
    selected: usize,
    active: usize,
    one: N,
    half: N,
    saver: &mut LightSaver<L, F>,
    save: LightSave<L, F>,
    suppressed: bool,
    paused: bool,
    r: (bool, bool),
)
    requires
        call_ensures(
            LightSurface::<N>::refresh_layers::<L, F>,
            (s, ps, layers, selected, active, one, half, saver, save, suppressed, paused),
            r,
        ),
    ensures
        r.0 <==> old(saver).ready && save.pid != 0,
        r.0 ==> final(saver).pending == Some(save),
        !r.0 ==> final(saver).pending == old(saver).pending,
        r.1 <==> old(saver).ready && !suppressed && !paused,
        final(saver).ready == old(saver).ready,
        layers@.len() == 0 ==> final(s).selected == -1,
        selected < layers@.len() ==> final(s).selected == selected,
{
}

/// A stack begins empty; a reset that has nothing to reset changes nothing, and an edit moves no frame.
pub proof fn law_stack_begins_empty<L, F>(
    fresh: LightStack<L, F>,
    a: &mut LightStack<L, F>,
    b: &mut LightStack<L, F>,
    c: &mut LightStack<L, F>,
    d: &mut LightStack<L, F>,
    e: &mut LightStack<L, F>,
    idx: i32,
    done: bool,
    p: Option<(usize, usize)>,
    s: Option<(usize, usize)>,
    k: Option<usize>,
    t: Option<(usize, usize)>,
)
    requires
        call_ensures(LightStack::<L, F>::new, (), fresh),
        call_ensures(LightStack::<L, F>::reset_layer_region, (a,), done),
        call_ensures(LightStack::<L, F>::edit_active_palette, (b,), p),
        call_ensures(LightStack::<L, F>::edit_active_spectrum, (c,), s),
        call_ensures(LightStack::<L, F>::turn_knob, (d,), k),
        call_ensures(LightStack::<L, F>::retime_frame, (e, idx), t),
    ensures
        fresh.layers@.len() == 0 && fresh.selected == 0 && fresh.active_frame == 0 && fresh.rev == 0,
        !done ==> final(a).layers == old(a).layers && final(a).rev == old(a).rev,
        final(b).active_frame == old(b).active_frame && final(b).selected == old(b).selected,
        final(c).active_frame == old(c).active_frame && final(c).selected == old(c).selected,
        final(d).active_frame == old(d).active_frame && final(d).selected == old(d).selected,
        final(e).active_frame == old(e).active_frame && final(e).selected == old(e).selected,
{
}

/// A board without layers shows none of what a layer has.
pub proof fn law_empty_stack_shows_nothing<N: Copy, L, F>(
    s: &mut LightSurface<N>,
    ps: &Vec<Preset>,
    layers: &Vec<LayerFacts<N>>,
    one: N,
    half: N,
    saver: &mut LightSaver<L, F>,
    save: LightSave<L, F>,
    r: (bool, bool),
    whole: Placement,
)
    requires
        layers@.len() == 0,
        call_ensures(
            LightSurface::<N>::refresh_layers::<L, F>,
            (s, ps, layers, 0usize, 0usize, one, half, saver, save, false, false),
            r,
        ),
        call_ensures(project_placement, (None::<Bounds>,), whole),
    ensures
        final(s).effect@.len() == 0 && final(s).params@.len() == 0 && final(s).labels@.len() == 0,
        !final(s).has_spectrum && !final(s).readout && final(s).count == 0 && final(s).selected == -1,
        final(s).spectrum.stops@.len() == 0,
        whole.r0 == -1 && whole.c0 == -1 && whole.r1 == -1 && whole.c1 == -1,
        final(s).placement.r0 == -1 && final(s).placement.c1 == -1 && !final(s).placement.placed,
{
}

/// A place that is set is a new revision and moves no selection; without a size nothing is set.
pub proof fn law_set_place_is_a_revision<L, F>(s: &mut LightStack<L, F>, region: Vec<u32>, rows: u8, cols: u8, set: bool)
    requires
        old(s).rev < u64::MAX,
        call_ensures(LightStack::<L, F>::set_layer_region, (s, region, rows, cols), set),
    ensures
        set ==> final(s).rev == old(s).rev + 1,
        !set ==> final(s).rev == old(s).rev && final(s).layers == old(s).layers,
        rows == 0 || cols == 0 ==> !set,
        final(s).selected == old(s).selected && final(s).active_frame == old(s).active_frame,
{
}

/// Every change of the stack is one new revision.
pub proof fn law_changes_are_revisions<L, F>(
    a: &mut LightStack<L, F>,
    b: &mut LightStack<L, F>,
    c: &mut LightStack<L, F>,
    d: &mut LightStack<L, F>,
    e: &mut LightStack<L, F>,
    f: &mut LightStack<L, F>,
    g: &mut LightStack<L, F>,
    h: &mut LightStack<L, F>,
    preset: Layer<L, F>,
    layers: Vec<Layer<L, F>>,
    cells: Vec<(u8, u8, u8)>,
    readout: bool,
    some: bool,
    i: i32,
    dir: i32,
)
    requires
        call_ensures(LightStack::<L, F>::pick_tile, (a, preset, readout), ()),
        call_ensures(LightStack::<L, F>::load, (b, layers), some),
        call_ensures(LightStack::<L, F>::bring_back, (c, layers), ()),
        call_ensures(LightStack::<L, F>::import, (d, layers), ()),
        call_ensures(LightStack::<L, F>::commit_custom_layer, (e, preset, cells), ()),
        call_ensures(LightStack::<L, F>::remove_stack, (f, i), ()),
        call_ensures(LightStack::<L, F>::remove_frame, (g, i), ()),
        call_ensures(LightStack::<L, F>::move_frame, (h, i, dir), ()),
    ensures
        final(a).rev == old(a).rev + 1 && final(b).rev == old(b).rev + 1 && final(c).rev == old(c).rev + 1
            && final(d).rev == old(d).rev + 1 && final(e).rev == old(e).rev + 1 && final(f).rev == old(f).rev + 1
            && final(g).rev == old(g).rev + 1 && final(h).rev == old(h).rev + 1,
{
}

} // verus!
