//! The lighting page as a projection of the stack: which tile is lit, the knobs, the placement badge
//! and the color editor, all read off the selected layer.
//!
//! Speeds, depths and positions are numbers of the caller's own kind (`N`); they are carried through.

use vstd::prelude::*;

use crate::light_session::{
    clear_grid, fps_after_load, grid_off, label_of_layer, layer_label, loaded_fps, params_for,
    project_placement, schedule_lighting_apply, shows_knobs, shows_placement, tile_slug,
    tile_slug_for_layer, Bounds, Knob, KnobRow, LightSave, LightSaver, Placement, Preset,
};
use crate::light_stack::{at_most_last, clamp_last, last_index, Layer, LightStack};
use crate::text::{begins_with, lowercase, same_text, starts_with, texts, to_lowercase};

verus! {

// ── the color editor ────────────────────────────────────────────────────────────────────────────

/// How a palette moves.
pub enum Motion<N> {
    Hold,
    Drift { speed: N },
    Cycle { speed: N },
    Breathe { speed: N, depth: N },
    Flow { speed: N, chaos: N },
}

/// A color of a palette: itself, its hex digits, and where it stands.
pub struct Stop<N> {
    pub color: (u8, u8, u8),
    pub hex: String,
    pub at: N,
}

/// A frame of a color sequence.
pub struct Frame<N> {
    pub stops: Vec<Stop<N>>,
    pub motion: Motion<N>,
    pub interp: String,
    pub hold: N,
    pub fade: N,
    pub ease: String,
}

/// A color as the editor shows it.
pub struct SpectrumStop<N> {
    pub idx: i32,
    pub hex: String,
    pub color: (u8, u8, u8),
    pub at: N,
}

/// A frame as a chip of the timeline.
pub struct SpectrumFrame<N> {
    pub idx: i32,
    pub hold: N,
    pub fade: N,
    pub ease: String,
}

/// The color editor.
pub struct SpectrumSurface<N> {
    pub stops: Vec<SpectrumStop<N>>,
    pub seq: Vec<SpectrumFrame<N>>,
    pub active_frame: i32,
    pub motion: &'static str,
    pub speed: N,
    pub depth: N,
    pub chaos: N,
    pub interp: String,
    pub play: String,
}

/// The word for a motion, and its speed, depth and chaos; what it does not have stands at `one` or in
/// the middle.
pub open spec fn motion_parts<N>(m: Motion<N>, one: N, half: N) -> (Seq<char>, N, N, N) {
    match m {
        Motion::Hold => ("hold"@, one, half, half),
        Motion::Drift { speed } => ("drift"@, speed, half, half),
        Motion::Cycle { speed } => ("cycle"@, speed, half, half),
        Motion::Breathe { speed, depth } => ("breathe"@, speed, depth, half),
        Motion::Flow { speed, chaos } => ("flow"@, speed, half, chaos),
    }
}

fn motion_row<N: Copy>(m: &Motion<N>, one: N, half: N) -> (r: (&'static str, N, N, N))
    ensures
        (r.0@, r.1, r.2, r.3) == motion_parts(*m, one, half),
{
    match m {
        Motion::Hold => ("hold", one, half, half),
        Motion::Drift { speed } => ("drift", *speed, half, half),
        Motion::Cycle { speed } => ("cycle", *speed, half, half),
        Motion::Breathe { speed, depth } => ("breathe", *speed, *depth, half),
        Motion::Flow { speed, chaos } => ("flow", *speed, half, *chaos),
    }
}

/// The editor's stops are those of a palette, in order.
pub open spec fn shows_stops<N>(shown: Seq<SpectrumStop<N>>, stops: Seq<Stop<N>>) -> bool {
    &&& shown.len() == stops.len()
    &&& forall|i: int|
        0 <= i < shown.len() ==> (#[trigger] shown[i]).idx == i && shown[i].hex@ == lowercase(
            stops[i].hex@,
        ) && shown[i].color == stops[i].color && shown[i].at == stops[i].at
}

/// The timeline's chips are the frames of a sequence, in order.
pub open spec fn shows_frames<N>(shown: Seq<SpectrumFrame<N>>, frames: Seq<Frame<N>>) -> bool {
    &&& shown.len() == frames.len()
    &&& forall|i: int|
        0 <= i < shown.len() ==> (#[trigger] shown[i]).idx == i && shown[i].hold == frames[i].hold
            && shown[i].fade == frames[i].fade && shown[i].ease@ == frames[i].ease@
}

/// The editor is empty; what it does not show stays as it was.
pub open spec fn cleared<N>(s: SpectrumSurface<N>, before: SpectrumSurface<N>) -> bool {
    &&& s.stops@.len() == 0
    &&& s.seq@.len() == 0
    &&& s.active_frame == 0
    &&& s.motion@ == "hold"@
    &&& s.interp@ == "rgb"@
    &&& s.speed == before.speed
    &&& s.depth == before.depth
    &&& s.chaos == before.chaos
    &&& s.play == before.play
}

/// The editor shows a sequence with one of its frames open.
pub open spec fn shows_spectrum<N>(
    s: SpectrumSurface<N>,
    frames: Seq<Frame<N>>,
    play: Seq<char>,
    active: nat,
    one: N,
    half: N,
) -> bool {
    let open = frames[at_most_last(active, frames.len()) as int];
    &&& shows_stops(s.stops@, open.stops@)
    &&& shows_frames(s.seq@, frames)
    &&& s.active_frame == at_most_last(active, frames.len())
    &&& (s.motion@, s.speed, s.depth, s.chaos) == motion_parts(open.motion, one, half)
    &&& s.interp@ == open.interp@
    &&& s.play@ == play
}

fn stop_rows<N: Copy>(stops: &Vec<Stop<N>>) -> (r: Vec<SpectrumStop<N>>)
    requires
        stops@.len() <= i32::MAX,
    ensures
        shows_stops(r@, stops@),
{
    let mut out: Vec<SpectrumStop<N>> = Vec::new();
    let mut i: usize = 0;
    while i < stops.len()
        invariant
            i <= stops@.len() <= i32::MAX,
            shows_stops(out@, stops@.take(i as int)),
        decreases stops@.len() - i,
    {
        let s = &stops[i];
        out.push(
            SpectrumStop {
                idx: i as i32,
                hex: to_lowercase(s.hex.as_str()),
                color: s.color,
                at: s.at,
            },
        );
        i = i + 1;
    }
    proof {
        assert(stops@.take(i as int) =~= stops@);
    }
    out
}

fn frame_chips<N: Copy>(frames: &Vec<Frame<N>>) -> (r: Vec<SpectrumFrame<N>>)
    requires
        frames@.len() <= i32::MAX,
    ensures
        shows_frames(r@, frames@),
{
    let mut out: Vec<SpectrumFrame<N>> = Vec::new();
    let mut i: usize = 0;
    while i < frames.len()
        invariant
            i <= frames@.len() <= i32::MAX,
            shows_frames(out@, frames@.take(i as int)),
        decreases frames@.len() - i,
    {
        let f = &frames[i];
        out.push(SpectrumFrame { idx: i as i32, hold: f.hold, fade: f.fade, ease: f.ease.clone() });
        i = i + 1;
    }
    proof {
        assert(frames@.take(i as int) =~= frames@);
    }
    out
}

impl<N: Copy> SpectrumSurface<N> {
    /// Empties the editor, for a layer that owns its pixels directly.
    pub fn clear_spectrum_surface(&mut self)
        ensures
            cleared(*final(self), *old(self)),
    {
        self.stops = Vec::new();
        self.seq = Vec::new();
        self.active_frame = 0;
        self.motion = "hold";
        self.interp = "rgb".to_owned();
    }

    /// Shows a color sequence: the open frame's stops and motion, and every frame as a chip. An empty
    /// sequence empties the editor.
    pub fn project_spectrum(
        &mut self,
        frames: &Vec<Frame<N>>,
        play: &str,
        active: usize,
        one: N,
        half: N,
    )
        requires
            frames@.len() <= i32::MAX,
            forall|i: int| 0 <= i < frames@.len() ==> (#[trigger] frames@[i]).stops@.len() <= i32::MAX,
        ensures
            if frames@.len() == 0 {
                cleared(*final(self), *old(self))
            } else {
                shows_spectrum(*final(self), frames@, play@, active as nat, one, half)
            },
    {
        if frames.len() == 0 {
            self.clear_spectrum_surface();
            return;
        }
        let fr = clamp_last(active, frames.len());
        let open = &frames[fr];
        self.stops = stop_rows(&open.stops);
        let (kind, speed, depth, chaos) = motion_row(&open.motion, one, half);
        self.motion = kind;
        self.speed = speed;
        self.depth = depth;
        self.chaos = chaos;
        self.interp = open.interp.clone();
        self.seq = frame_chips(frames);
        self.active_frame = fr as i32;
        self.play = play.to_owned();
    }
}

// ── the page ────────────────────────────────────────────────────────────────────────────────────

/// What the page reads off a layer.
pub struct LayerFacts<N> {
    pub pattern: String,
    /// The preset that the layer exactly is.
    pub exact: Option<String>,
    /// What its pattern is called.
    pub pattern_label: Option<String>,
    /// Whether it shows a state of the device rather than an effect.
    pub readout: bool,
    /// Whether its colors come from a color sequence.
    pub has_spectrum: bool,
    pub knobs: Vec<Knob>,
    /// The bounding box of its region; none on the whole board.
    pub bounds: Option<Bounds>,
    pub frames: Vec<Frame<N>>,
    pub play: String,
}

/// The lighting page.
pub struct LightSurface<N> {
    /// The tile that is lit.
    pub effect: String,
    pub params: Vec<KnobRow>,
    pub has_spectrum: bool,
    pub readout: bool,
    pub count: i32,
    /// What the layers are called, from bottom to top.
    pub labels: Vec<String>,
    pub selected: i32,
    pub placement: Placement,
    pub spectrum: SpectrumSurface<N>,
}

/// The lengths that the page shows as 32-bit numbers fit in them.
pub open spec fn countable<N>(layers: Seq<LayerFacts<N>>) -> bool {
    &&& layers.len() <= i32::MAX
    &&& forall|i: int| 0 <= i < layers.len() ==> (#[trigger] layers[i]).frames@.len() <= i32::MAX
    &&& forall|i: int, j: int|
        0 <= i < layers.len() && 0 <= j < layers[i].frames@.len() ==> (
        #[trigger] layers[i].frames@[j]).stops@.len() <= i32::MAX
}

/// The labels are what the layers are called.
pub open spec fn shows_labels<N>(
    labels: Seq<String>,
    ps: Seq<Preset>,
    layers: Seq<LayerFacts<N>>,
) -> bool {
    &&& labels.len() == layers.len()
    &&& forall|i: int|
        0 <= i < labels.len() ==> (#[trigger] labels[i])@ == label_of_layer(
            ps,
            layers[i].pattern@,
            layers[i].exact,
            layers[i].pattern_label,
        )
}

/// The page shows a stack with one of its layers selected.
pub open spec fn shows_stack<N>(
    s: LightSurface<N>,
    before: LightSurface<N>,
    ps: Seq<Preset>,
    layers: Seq<LayerFacts<N>>,
    selected: nat,
    active_frame: nat,
    one: N,
    half: N,
) -> bool {
    if layers.len() == 0 {
        &&& s.effect@.len() == 0
        &&& s.params@.len() == 0
        &&& !s.has_spectrum
        &&& !s.readout
        &&& s.count == 0
        &&& s.labels@.len() == 0
        &&& shows_placement(s.placement, None)
        &&& cleared(s.spectrum, before.spectrum)
    } else {
        let l = layers[at_most_last(selected, layers.len()) as int];
        &&& s.effect@ == tile_slug(ps, l.pattern@, l.exact)
        &&& shows_knobs(s.params@, l.knobs@)
        &&& s.has_spectrum == l.has_spectrum
        &&& s.readout == l.readout
        &&& s.count == layers.len()
        &&& shows_labels(s.labels@, ps, layers)
        &&& shows_placement(s.placement, l.bounds)
        &&& if l.has_spectrum && l.frames@.len() > 0 {
            shows_spectrum(s.spectrum, l.frames@, l.play@, active_frame, one, half)
        } else {
            cleared(s.spectrum, before.spectrum)
        }
    }
}

impl<N: Copy> LightSurface<N> {
    /// Reads the page off the stack.
    pub fn refresh_light_unified(
        &mut self,
        ps: &Vec<Preset>,
        layers: &Vec<LayerFacts<N>>,
        selected: usize,
        active_frame: usize,
        one: N,
        half: N,
    )
        requires
            countable(layers@),
        ensures
            shows_stack(
                *final(self),
                *old(self),
                ps@,
                layers@,
                selected as nat,
                active_frame as nat,
                one,
                half,
            ),
            final(self).selected == old(self).selected,
    {
        if layers.len() == 0 {
            self.effect = String::new();
            self.params = Vec::new();
            self.has_spectrum = false;
            self.readout = false;
            self.count = 0;
            self.labels = Vec::new();
            self.placement = project_placement(None);
            self.spectrum.clear_spectrum_surface();
            return;
        }
        let sel = clamp_last(selected, layers.len());
        let active = &layers[sel];
        self.effect = tile_slug_for_layer(ps, active.pattern.as_str(), &active.exact);
        self.readout = active.readout;
        self.params = params_for(&active.knobs);
        self.count = layers.len() as i32;
        let mut labels: Vec<String> = Vec::new();
        let mut i: usize = 0;
        while i < layers.len()
            invariant
                i <= layers@.len(),
                shows_labels(labels@, ps@, layers@.take(i as int)),
            decreases layers@.len() - i,
        {
            let d = &layers[i];
            labels.push(layer_label(ps, d.pattern.as_str(), &d.exact, &d.pattern_label));
            i = i + 1;
        }
        proof {
            assert(layers@.take(i as int) =~= layers@);
        }
        self.labels = labels;
        self.placement = project_placement(active.bounds);
        self.has_spectrum = active.has_spectrum;
        if active.has_spectrum {
            proof {
                assert forall|j: int| 0 <= j < active.frames@.len() implies (
                #[trigger] active.frames@[j]).stops@.len() <= i32::MAX by {
                    assert(layers@[sel as int].frames@[j].stops@.len() <= i32::MAX);
                }
            }
            self.spectrum.project_spectrum(
                &active.frames,
                active.play.as_str(),
                active_frame,
                one,
                half,
            );
        } else {
            self.spectrum.clear_spectrum_surface();
        }
    }

    /// What every edit of the stack ends in: the selection is shown within the stack, the page is read
    /// off the stack, the stack is put in wait for writing, and the board is to be streamed anew.
    /// Whether the writing and the streaming timers are to be started.
    pub fn refresh_layers<L, F>(
        &mut self,
        ps: &Vec<Preset>,
        layers: &Vec<LayerFacts<N>>,
        selected: usize,
        active_frame: usize,
        one: N,
        half: N,
        saver: &mut LightSaver<L, F>,
        save: LightSave<L, F>,
        suppressed: bool,
        paused: bool,
    ) -> (r: (bool, bool))
        requires
            countable(layers@),
        ensures
            final(self).selected == if layers@.len() == 0 {
                -1
            } else {
                at_most_last(selected as nat, layers@.len()) as int
            },
            shows_stack(
                *final(self),
                *old(self),
                ps@,
                layers@,
                selected as nat,
                active_frame as nat,
                one,
                half,
            ),
            r.0 == (old(saver).ready && save.pid != 0),
            final(saver).ready == old(saver).ready,
            final(saver).pending == if r.0 {
                Some(save)
            } else {
                old(saver).pending
            },
            r.1 == (old(saver).ready && !suppressed && !paused),
    {
        self.selected = if layers.len() == 0 {
            -1
        } else {
            clamp_last(selected, layers.len()) as i32
        };
        self.refresh_light_unified(ps, layers, selected, active_frame, one, half);
        let ready = saver.ready;
        let writing = saver.save_lighting(save);
        (writing, schedule_lighting_apply(ready, suppressed, paused))
    }
}

// ── a board comes up ────────────────────────────────────────────────────────────────────────────

/// The grid of a board that was just selected.
pub struct GridState {
    pub rows: i32,
    pub cols: i32,
    pub px: Vec<(u8, u8, u8)>,
    pub fps: u32,
    /// Whether the board speaks the older protocol.
    pub legacy: bool,
}

/// The grid of a board: every cell off, at the frame rate of its protocol, or 30 where none is known.
pub fn init_grid(rows: u8, cols: u8, protocol: Option<(u32, bool)>) -> (r: GridState)
    ensures
        r.rows == rows,
        r.cols == cols,
        r.px@ == Seq::new((rows * cols) as nat, |i: int| grid_off()),
        (r.fps, r.legacy) == match protocol {
            Some(p) => p,
            None => (30u32, false),
        },
{
    let (fps, legacy) = match protocol {
        Some(p) => p,
        None => (30, false),
    };
    proof {
        assert(rows * cols <= 255 * 255) by (nonlinear_arith)
            requires
                rows <= 255,
                cols <= 255,
        ;
        assert(0 <= rows * cols) by (nonlinear_arith);
    }
    let n: usize = rows as usize * cols as usize;
    GridState { rows: rows as i32, cols: cols as i32, px: clear_grid(n), fps, legacy }
}

/// Puts a saved stack and its frame rate in place, without streaming. Whether there is a stack to
/// resume, and the frame rate from here on; a board with nothing saved gets an empty stack.
pub fn load_lighting_into_state<L, F>(
    stack: &mut LightStack<L, F>,
    saved: Vec<Layer<L, F>>,
    saved_fps: u32,
    fps: u32,
) -> (r: (bool, u32))
    requires
        old(stack).rev < u64::MAX,
    ensures
        r.0 == (saved@.len() > 0),
        r.1 == loaded_fps(saved_fps, fps),
        final(stack).layers == saved,
        final(stack).selected == last_index(saved@.len()),
        final(stack).active_frame == 0,
        final(stack).rev == old(stack).rev + 1,
{
    let has_surface = stack.load(saved);
    (has_surface, fps_after_load(saved_fps, fps))
}

// ── picks ───────────────────────────────────────────────────────────────────────────────────────

/// Why a tile cannot be picked; nothing where it can.
pub fn tile_refused(slug: &str) -> (r: Option<&'static str>)
    ensures
        match r {
            Some(s) => slug@ == "notifications"@ && s@
                == "notifications is a future data tile — not wired yet"@,
            None => slug@ != "notifications"@,
        },
{
    if same_text(slug, "notifications") {
        Some("notifications is a future data tile — not wired yet")
    } else {
        None
    }
}

/// What the status line says once a tile was picked.
pub fn tile_picked(slug: &str) -> (r: String)
    ensures
        r@ == "lighting → "@ + slug@,
{
    let mut s = "lighting → ".to_owned();
    s.append(slug);
    s
}

/// What picking an effect of the board itself does.
pub enum EffectStep {
    /// Nothing is written.
    Refused(&'static str),
    /// The board's stream is stopped, and there is no such effect.
    Unknown(&'static str),
    /// The board's stream is stopped and this effect is written.
    Apply(String),
}

/// What picking the effect at `idx` does, and what is said before that where the color typed in is
/// not one.
pub fn apply_effect(paused: bool, color_valid: bool, effects: &Vec<String>, idx: i32) -> (r: (
    EffectStep,
    Option<&'static str>,
))
    ensures
        match r.0 {
            EffectStep::Refused(s) => paused && s@ == "writes paused — effect not applied"@,
            EffectStep::Unknown(s) => !paused && !(0 <= idx < effects@.len()) && s@ == "no effect"@,
            EffectStep::Apply(name) => !paused && 0 <= idx < effects@.len() && name@
                == effects@[idx as int]@,
        },
        match r.1 {
            Some(s) => !paused && !color_valid && s@
                == "colour must be hex like 4af2b0 — using last valid swatch"@,
            None => paused || color_valid,
        },
{
    if paused {
        return (EffectStep::Refused("writes paused — effect not applied"), None);
    }
    let note: Option<&'static str> = if color_valid {
        None
    } else {
        Some("colour must be hex like 4af2b0 — using last valid swatch")
    };
    if idx >= 0 && (idx as usize) < effects.len() {
        (EffectStep::Apply(effects[idx as usize].clone()), note)
    } else {
        (EffectStep::Unknown("no effect"), note)
    }
}

/// Which effect is marked as running once the board answered: the picked one where it took it, else
/// the one that was.
pub fn effect_applied(answer: &str, idx: i32, applied: i32) -> (r: i32)
    ensures
        r == if begins_with(answer@, "effect ->"@) {
            idx
        } else {
            applied
        },
{
    if starts_with(answer, "effect ->") {
        idx
    } else {
        applied
    }
}

// ── laws ────────────────────────────────────────────────────────────────────────────────────────

/// Read a second time off the same stack, the page shows what it showed.
pub proof fn law_projection_forgets<N>(
    a: LightSurface<N>,
    b: LightSurface<N>,
    c: LightSurface<N>,
    ps: Seq<Preset>,
    layers: Seq<LayerFacts<N>>,
    selected: nat,
    active_frame: nat,
    one: N,
    half: N,
)
    requires
        shows_stack(b, a, ps, layers, selected, active_frame, one, half),
        shows_stack(c, b, ps, layers, selected, active_frame, one, half),
    ensures
        c.effect@ == b.effect@,
        c.count == b.count,
        c.readout == b.readout,
        c.has_spectrum == b.has_spectrum,
        texts(c.labels@) == texts(b.labels@),
        c.params@.len() == b.params@.len(),
        forall|i: int|
            0 <= i < c.params@.len() ==> (#[trigger] c.params@[i]).index == b.params@[i].index
                && c.params@[i].kind@ == b.params@[i].kind@,
        c.placement.placed == b.placement.placed,
        c.placement.label@ == b.placement.label@,
        (c.placement.r0, c.placement.c0, c.placement.r1, c.placement.c1) == (
            b.placement.r0,
            b.placement.c0,
            b.placement.r1,
            b.placement.c1,
        ),
        c.spectrum.active_frame == b.spectrum.active_frame,
        c.spectrum.motion@ == b.spectrum.motion@,
        c.spectrum.speed == b.spectrum.speed,
        c.spectrum.depth == b.spectrum.depth,
        c.spectrum.chaos == b.spectrum.chaos,
        c.spectrum.interp@ == b.spectrum.interp@,
        c.spectrum.play@ == b.spectrum.play@,
        c.spectrum.stops@.len() == b.spectrum.stops@.len(),
        forall|i: int|
            0 <= i < c.spectrum.stops@.len() ==> (#[trigger] c.spectrum.stops@[i]).hex@
                == b.spectrum.stops@[i].hex@ && c.spectrum.stops@[i].at == b.spectrum.stops@[i].at
                && c.spectrum.stops@[i].color == b.spectrum.stops@[i].color,
        c.spectrum.seq@.len() == b.spectrum.seq@.len(),
        forall|i: int|
            0 <= i < c.spectrum.seq@.len() ==> (#[trigger] c.spectrum.seq@[i]).hold
                == b.spectrum.seq@[i].hold && c.spectrum.seq@[i].fade == b.spectrum.seq@[i].fade
                && c.spectrum.seq@[i].ease@ == b.spectrum.seq@[i].ease@,
{
    if layers.len() == 0 {
        assert(c.effect@ =~= b.effect@);
    }
    assert(texts(c.labels@) =~= texts(b.labels@));
}

/// The color editor shows something exactly where the selected layer has a color sequence with a
/// frame in it: a layer that owns its pixels never shows another layer's colors.
pub proof fn law_no_foreign_spectrum<N>(
    a: LightSurface<N>,
    b: LightSurface<N>,
    ps: Seq<Preset>,
    layers: Seq<LayerFacts<N>>,
    selected: nat,
    active_frame: nat,
    one: N,
    half: N,
)
    requires
        shows_stack(b, a, ps, layers, selected, active_frame, one, half),
    ensures
        b.spectrum.seq@.len() > 0 <==> layers.len() > 0 && ({
            let l = layers[at_most_last(selected, layers.len()) as int];
            l.has_spectrum && l.frames@.len() > 0
        }),
        b.has_spectrum ==> layers.len() > 0,
{
}

} // verus!
