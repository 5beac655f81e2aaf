use neuron_app::base_lighting::{
    base_layers, heartbeat, set_fps, set_lighting, HostModel, LightingRun,
};
use neuron_app::bindings::{bindings_reloaded, commit_step, CommitStep};
use neuron_app::bridge::{Bridge, Surface, SurfaceKind};
use neuron_app::canvas::{shown_values, MacroBlock};
use neuron_app::constructor::Editor;
use neuron_app::editors::init_perf_controls;
use neuron_app::host_card::seeded_password;
use neuron_app::light_session::{
    project_placement, Bounds, Knob, KnobKind, LightSave, LightSaver, Preset, SuppressApply, Tools,
};
use neuron_app::light_stack::{Layer, LayerBlend, LightStack};
use neuron_app::light_surface::{
    apply_effect, effect_applied, init_grid, load_lighting_into_state, tile_picked, tile_refused,
    EffectStep, Frame, LayerFacts, LightSurface, Motion, SpectrumSurface, Stop,
};
use neuron_app::macros::{edit_step, node_at_path, MacroNode, Value};
use neuron_app::shared::{install, Shared};
use neuron_app::system::{endpoint_toggled, gain_set};
use neuron_app::textmap::TextMap;
use neuron_app::weave::{assist_set, cast_trigger_captured, rhythm_recorded};
use neuron_app::workshop::{reopened_macro, BlocksStep, ParseError};

// ── the macro editor ────────────────────────────────────────────────────────────────────────────

fn editor(code_view: bool) -> Editor {
    Editor {
        name: String::new(),
        source: String::new(),
        status: String::new(),
        has_ask: false,
        source_dirty: false,
        code_view,
        blocks: Vec::new(),
        parsing: false,
        parse_error: String::new(),
    }
}

fn sources(tree: &[MacroNode]) -> Vec<String> {
    shown_values(tree)
        .into_iter()
        .map(|v| match v {
            Value::Str { s } => s.clone(),
            Value::Raw { src } => src.clone(),
            _ => String::new(),
        })
        .collect()
}

fn asking() -> Vec<MacroNode> {
    vec![MacroNode::Ask {
        question: Value::str("go?"),
        description: Value::empty_str(),
        yes: vec![MacroNode::Wait { ms: Value::Raw { src: "5".to_string() } }],
        no: Vec::new(),
    }]
}

fn places(blocks: &[MacroBlock]) -> Vec<(String, String, i32, String)> {
    blocks
        .iter()
        .map(|b| (b.row.clone(), b.path.clone(), b.depth, b.kind.clone()))
        .collect()
}

#[test]
fn a_structural_edit_lays_the_rows_out_and_a_field_edit_does_not() {
    let mut tree = asking();
    let mut e = editor(false);
    e.regenerate_from_tree(&tree, "neuron.ask(\"go?\")".to_string(), &sources(&tree));
    assert!(e.has_ask);
    assert!(!e.source_dirty);
    let before = places(&e.blocks);
    assert_eq!(before.len(), 7);
    assert!(edit_step(&mut tree, "0.yes.0", "250".to_string()));
    e.regenerate_source_only("neuron.sleep(250)".to_string());
    assert!(!e.has_ask);
    assert_eq!(places(&e.blocks), before);
    // the rows laid out anew stand where they stood
    e.regenerate_from_tree(&tree, "neuron.sleep(250)".to_string(), &sources(&tree));
    assert_eq!(places(&e.blocks), before);
    assert!(e.blocks.iter().any(|b| b.value == "250"));
}

#[test]
fn the_dirty_mark_is_set_in_the_code_view_alone() {
    let mut e = editor(true);
    e.regenerate_source_only("x".to_string());
    assert!(e.source_dirty);
}

#[test]
fn a_blank_source_leaves_the_invitation() {
    let mut tree = asking();
    let mut e = editor(false);
    assert_eq!(e.refresh_macro_blocks(&mut tree, "  \n"), BlocksStep::Clear);
    assert!(tree.is_empty());
    assert_eq!(e.blocks.len(), 1);
    assert_eq!(e.blocks[0].row, "add");
    assert_eq!(e.blocks[0].path, "");
}

#[test]
fn a_source_with_an_error_keeps_the_last_good_rows() {
    let mut tree = Vec::new();
    let mut e = editor(false);
    assert_eq!(e.refresh_macro_blocks(&mut tree, "x"), BlocksStep::Parse);
    assert_eq!(e.refresh_macro_blocks(&mut tree, "x"), BlocksStep::Wait);
    let nodes = asking();
    let s = sources(&nodes);
    e.blocks_parsed(&mut tree, Ok(nodes), &s);
    assert!(!e.parsing);
    let before = places(&e.blocks);
    e.blocks_parsed(
        &mut tree,
        Err(ParseError::Syntax { line: 3, msg: "bad\nmore".to_string() }),
        &Vec::new(),
    );
    assert_eq!(e.parse_error, "line 3: bad");
    assert_eq!(places(&e.blocks), before);
    assert_eq!(tree.len(), 1);
    e.blocks_parsed(&mut tree, Err(ParseError::Host { msg: "gone".to_string() }), &Vec::new());
    assert_eq!(e.parse_error, "couldn't read the blocks: gone");
}

#[test]
fn a_macro_that_is_not_there_opens_nothing() {
    let mut e = editor(false);
    assert!(!e.load_macro_into_editor("a", None));
    assert_eq!(e.name, "");
    assert!(e.load_macro_into_editor("a", Some("neuron.ask()".to_string())));
    assert!(e.has_ask);
    assert_eq!(e.status, "loaded 'a' — edit it, then save");
    e.note_macro_source("pass");
    assert!(!e.has_ask);
    assert_eq!(reopened_macro(" a ", true), Some("a".to_string()));
    assert_eq!(reopened_macro(" ", true), None);
    assert_eq!(reopened_macro("a", false), None);
}

#[test]
fn the_rows_stay_in_step_with_the_tree() {
    let mut s: Shared<(), (), ()> = install();
    assert_eq!(s.editor.blocks.len(), 1);
    assert!(s.light.layers.is_empty() && !s.saver.ready);
    assert_eq!(s.refresh_macro_blocks("x"), BlocksStep::Parse);
    let nodes = asking();
    let texts = sources(&nodes);
    s.blocks_parsed(Ok(nodes), &texts);
    let before = places(&s.editor.blocks);
    assert!(s.edit_step("0", "really?".to_string()));
    s.show_source("pass".to_string());
    assert_eq!(places(&s.editor.blocks), before);
    assert!(!s.edit_step("7", "nowhere".to_string()));
    let texts = sources(&s.macro_tree);
    s.show_tree("pass".to_string(), &texts);
    assert_eq!(places(&s.editor.blocks), before);
    assert!(s.editor.blocks[0].value == "really?");
    for b in &s.editor.blocks {
        if b.row == "step" {
            assert!(node_at_path(&mut s.macro_tree, &b.path).is_some());
        }
    }
    assert_eq!(s.refresh_macro_blocks(""), BlocksStep::Clear);
    assert!(s.macro_tree.is_empty());
}

#[test]
fn an_import_is_used_up_once_applied() {
    let mut s: Shared<u8, (), ()> = install();
    assert_eq!(s.apply_import(), Err("nothing parsed"));
    s.parse_import(Some(4));
    assert_eq!(s.apply_import(), Ok(&4));
    s.import_applied(false);
    assert_eq!(s.apply_import(), Ok(&4));
    s.import_applied(true);
    assert_eq!(s.apply_import(), Err("nothing parsed"));
}

// ── the lighting page ───────────────────────────────────────────────────────────────────────────

fn presets() -> Vec<Preset> {
    vec![
        Preset {
            slug: "wave".to_string(),
            label: "Wave".to_string(),
            pattern: "wave".to_string(),
            readout: false,
        },
        Preset {
            slug: "vitals".to_string(),
            label: "Vitals".to_string(),
            pattern: "vitals".to_string(),
            readout: true,
        },
    ]
}

fn wave() -> LayerFacts<i32> {
    LayerFacts {
        pattern: "wave".to_string(),
        exact: None,
        pattern_label: None,
        readout: false,
        has_spectrum: true,
        knobs: vec![Knob {
            key: "speed".to_string(),
            label: "Speed".to_string(),
            kind: KnobKind::Range,
            held: None,
            default: 0,
            gate: None,
        }],
        bounds: None,
        frames: vec![Frame {
            stops: vec![Stop { color: (1, 2, 3), hex: "01AAFF".to_string(), at: 7 }],
            motion: Motion::Breathe { speed: 4, depth: 9 },
            interp: "hsv".to_string(),
            hold: 11,
            fade: 12,
            ease: "linear".to_string(),
        }],
        play: "loop".to_string(),
    }
}

fn vitals() -> LayerFacts<i32> {
    LayerFacts {
        pattern: "vitals".to_string(),
        exact: Some("vitals".to_string()),
        pattern_label: None,
        readout: true,
        has_spectrum: false,
        knobs: Vec::new(),
        bounds: Some(Bounds { row0: 1, col0: 2, rows: 2, cols: 3 }),
        frames: Vec::new(),
        play: String::new(),
    }
}

fn page() -> LightSurface<i32> {
    LightSurface {
        effect: String::new(),
        params: Vec::new(),
        has_spectrum: false,
        readout: false,
        count: 0,
        labels: Vec::new(),
        selected: -1,
        placement: project_placement(None),
        spectrum: SpectrumSurface {
            stops: Vec::new(),
            seq: Vec::new(),
            active_frame: 0,
            motion: "hold",
            speed: 0,
            depth: 0,
            chaos: 0,
            interp: "rgb".to_string(),
            play: String::new(),
        },
    }
}

#[test]
fn the_page_is_read_off_the_selected_layer() {
    let mut p = page();
    let layers = vec![wave(), vitals()];
    p.refresh_light_unified(&presets(), &layers, 0, 5, 100, 50);
    assert_eq!(p.effect, "wave");
    assert_eq!(p.labels, vec!["Wave", "Vitals"]);
    assert_eq!(p.params.len(), 1);
    assert!(p.has_spectrum && !p.readout && !p.placement.placed);
    assert_eq!(p.spectrum.stops[0].hex, "01aaff");
    assert_eq!(p.spectrum.motion, "breathe");
    assert_eq!((p.spectrum.speed, p.spectrum.depth, p.spectrum.chaos), (4, 9, 50));
    assert_eq!(p.spectrum.active_frame, 0);
    assert_eq!(p.spectrum.seq[0].hold, 11);
    assert_eq!(p.spectrum.play, "loop");
    // a layer that owns its pixels shows no colors of another
    p.refresh_light_unified(&presets(), &layers, 9, 0, 100, 50);
    assert_eq!(p.effect, "vitals");
    assert!(p.readout && !p.has_spectrum);
    assert!(p.spectrum.stops.is_empty() && p.spectrum.seq.is_empty());
    assert_eq!(p.spectrum.interp, "rgb");
    assert_eq!(p.placement.label, "2×3 block");
    assert_eq!((p.placement.r1, p.placement.c1), (2, 4));
    p.refresh_light_unified(&presets(), &Vec::new(), 0, 0, 100, 50);
    assert_eq!((p.effect.as_str(), p.count), ("", 0));
}

#[test]
fn an_edit_saves_and_streams_once_restored() {
    let mut p = page();
    let mut saver: LightSaver<(), ()> = LightSaver::new();
    let layers = vec![wave()];
    let early = p.refresh_layers(
        &presets(), &layers, 3, 0, 100, 50, &mut saver,
        LightSave { pid: 7, fps: 30, layers: Vec::new() }, false, false,
    );
    assert_eq!(early, (false, false));
    assert_eq!(p.selected, 0);
    let _ = saver.restore_lighting(false, "");
    let later = p.refresh_layers(
        &presets(), &layers, 3, 0, 100, 50, &mut saver,
        LightSave { pid: 7, fps: 30, layers: Vec::new() }, false, true,
    );
    assert_eq!(later, (true, false));
    assert_eq!(saver.flush_lighting_save().map(|s| s.pid), Some(7));
    let empty = p.refresh_layers(
        &presets(), &Vec::new(), 3, 0, 100, 50, &mut saver,
        LightSave { pid: 0, fps: 30, layers: Vec::new() }, false, false,
    );
    assert_eq!(empty, (false, true));
    assert_eq!(p.selected, -1);
}

#[test]
fn every_motion_has_its_word() {
    let mut s = page().spectrum;
    let words = [
        (Motion::Hold, "hold", (100, 50, 50)),
        (Motion::Drift { speed: 2 }, "drift", (2, 50, 50)),
        (Motion::Cycle { speed: 3 }, "cycle", (3, 50, 50)),
        (Motion::Flow { speed: 4, chaos: 5 }, "flow", (4, 50, 5)),
    ];
    for (m, word, parts) in words {
        let mut f = wave().frames;
        f[0].motion = m;
        s.project_spectrum(&f, "once", 0, 100, 50);
        assert_eq!(s.motion, word);
        assert_eq!((s.speed, s.depth, s.chaos), parts);
    }
    s.project_spectrum(&Vec::new(), "x", 0, 100, 50);
    assert_eq!(s.play, "once");
    assert_eq!(s.motion, "hold");
}

#[test]
fn a_board_comes_up_dark() {
    let g = init_grid(2, 3, None);
    assert_eq!((g.rows, g.cols, g.fps, g.legacy), (2, 3, 30, false));
    assert_eq!(g.px, vec![(0x0c, 0x0d, 0x10); 6]);
    assert_eq!(init_grid(1, 1, Some((12, true))).fps, 12);
    let mut stack: LightStack<(), u8> = LightStack::new();
    assert_eq!(load_lighting_into_state(&mut stack, Vec::new(), 0, 24), (false, 24));
    stack.active_frame = 3;
    assert_eq!(load_lighting_into_state(&mut stack, vec![layer(), layer()], 99, 24), (true, 30));
    assert_eq!(stack.selected, 1);
    assert_eq!(stack.active_frame, 0);
}

fn layer() -> Layer<(), u8> {
    Layer {
        pattern: "wave".to_string(),
        look: (),
        blend: LayerBlend::Over,
        enabled: true,
        region: Vec::new(),
        cells: Vec::new(),
        seq: vec![1, 2],
    }
}

#[test]
fn edits_go_to_the_selected_layer() {
    let mut s: LightStack<(), u8> = LightStack::new();
    assert_eq!(s.turn_knob(), None);
    assert_eq!(s.edit_active_spectrum(), None);
    s.import(vec![layer()]);
    s.active_frame = 9;
    let rev = s.rev;
    assert_eq!(s.turn_knob(), Some(0));
    assert_eq!(s.edit_active_spectrum(), Some((0, 1)));
    assert_eq!(s.edit_active_palette(), Some((0, 1)));
    assert_eq!(s.retime_frame(-4), Some((0, 0)));
    assert_eq!(s.retime_frame(2), None);
    assert_eq!(s.rev, rev + 5);
    s.layers[0].seq.clear();
    assert_eq!(s.edit_active_spectrum(), Some((0, 0)));
    assert_eq!(s.edit_active_palette(), None);
}

#[test]
fn picks_are_told() {
    assert!(tile_refused("notifications").is_some());
    assert_eq!(tile_refused("wave"), None);
    assert_eq!(tile_picked("wave"), "lighting → wave");
    let effects = vec!["static".to_string()];
    assert!(matches!(apply_effect(true, false, &effects, 0), (EffectStep::Refused(_), None)));
    assert!(matches!(apply_effect(false, false, &effects, 0), (EffectStep::Apply(_), Some(_))));
    assert!(matches!(apply_effect(false, true, &effects, -1), (EffectStep::Unknown("no effect"), None)));
    assert_eq!(effect_applied("effect -> static", 4, 2), 4);
    assert_eq!(effect_applied("refused", 4, 2), 2);
}

#[test]
fn an_inner_hold_does_not_let_go_of_an_outer_one() {
    let mut flag = false;
    let outer = SuppressApply::new(&mut flag);
    let inner = SuppressApply::new(&mut flag);
    inner.release(&mut flag);
    assert!(flag);
    outer.release(&mut flag);
    assert!(!flag);
    let mut t = Tools { brush: false, place: true };
    let _ = t.toggle_brush();
    assert!(t.brush && !t.place);
}

// ── the base layers ─────────────────────────────────────────────────────────────────────────────

fn model() -> Option<HostModel<u32>> {
    let surface = |k: &str| Surface {
        key: k.to_string(),
        name: k.to_string(),
        kind: SurfaceKind::Mouse,
        leds: 1,
    };
    let bridge = Bridge {
        surfaces: vec![surface("a"), surface("b")],
        units: vec![
            ("ua".to_string(), "a".to_string()),
            ("ub".to_string(), "b".to_string()),
        ],
        pids: vec![(7, vec!["a".to_string(), "b".to_string()])],
    };
    Some(HostModel { bridge, base_owner: 1, base: TextMap::new() })
}

#[test]
fn a_stack_lands_if_one_surface_takes_it() {
    let host = model();
    let mut run: LightingRun = set_lighting(&host, 7, "", true, 9, 1).unwrap();
    assert_eq!(run.band, 9);
    assert_eq!(run.surface(), Some("a"));
    run.finished(false);
    assert!(!run.landed_somewhere());
    assert_eq!(run.surface(), Some("b"));
    run.finished(true);
    assert_eq!(run.surface(), None);
    assert!(run.landed_somewhere());
    assert!(set_lighting(&host, 8, "", false, 9, 1).is_none());
    assert!(set_lighting(&None::<HostModel<u32>>, 7, "", false, 9, 1).is_none());
    assert_eq!(set_fps(&host, 7, "ub"), vec!["b"]);
    assert!(set_fps(&None::<HostModel<u32>>, 7, "").is_empty());
}

#[test]
fn lost_layers_are_claimed_anew_with_what_was_kept() {
    let mut host = model();
    {
        let h = host.as_mut().unwrap();
        assert!(h.claimed("a", 5, 100, Some(1)));
        assert!(h.claimed("b", 6, 200, Some(2)));
        assert_eq!(base_layers(h), vec![1, 2]);
    }
    let lost = heartbeat(&mut host, &vec![true, false]);
    assert_eq!(lost.len(), 1);
    assert_eq!(lost[0].0, "b");
    assert_eq!((lost[0].1.band, lost[0].1.defs), (6, 200));
    let h = host.as_mut().unwrap();
    assert!(!h.base.contains("b"));
    assert!(h.claimed("b", lost[0].1.band, lost[0].1.defs, Some(3)));
    assert_eq!(h.base.get("b").map(|b| (b.layer, b.band, b.defs)), Some((3, 6, 200)));
    assert!(heartbeat(&mut host, &vec![true, true]).is_empty());
    assert!(heartbeat(&mut None::<HostModel<u32>>, &Vec::new()).is_empty());
}

// ── words ───────────────────────────────────────────────────────────────────────────────────────

#[test]
fn commits_are_checked_first() {
    assert!(matches!(commit_step(false, &Some("bad".to_string())), CommitStep::Nothing));
    assert!(matches!(commit_step(true, &Some("bad".to_string())), CommitStep::Refused(s) if s == "bad"));
    assert!(matches!(commit_step(true, &None), CommitStep::Write));
    assert_eq!(bindings_reloaded(12), "bindings reloaded (12 spine rules)");
}

#[test]
fn the_panel_starts_with_readings_only() {
    let p = init_perf_controls(Some(300), &Some(("Button 4".to_string(), 0)), &vec![400, 800]);
    assert_eq!(p.idle_readout, "300s");
    assert_eq!(p.idle_text, Some("300".to_string()));
    assert_eq!((p.sniper_button.as_str(), p.sniper_dpi), ("Button 4", None));
    assert_eq!(p.dpi_stages, Some("400/800".to_string()));
    let none = init_perf_controls(None, &None, &Vec::new());
    assert_eq!((none.idle_readout.as_str(), none.sniper_button.as_str()), ("—", "—"));
    assert!(none.idle_text.is_none() && none.dpi_stages.is_none());
    let bound = init_perf_controls(None, &Some(("x".to_string(), 450)), &Vec::new());
    assert_eq!(bound.sniper_dpi, Some(450));
}

#[test]
fn levels_and_rhythms_are_told() {
    assert_eq!(endpoint_toggled(true), "endpoint muted");
    assert_eq!(endpoint_toggled(false), "endpoint unmuted");
    assert_eq!(gain_set(false, Some(40)), "mic gain 40%");
    assert_eq!(gain_set(true, Some(7)), "output vol 7%");
    assert_eq!(gain_set(true, None), "no output device — volume unchanged");
    assert_eq!(gain_set(false, None), "no capture device — gain unchanged");
    assert_eq!(assist_set(true, 0, &None), "spell assist off — strict recognition only");
    assert_eq!(
        assist_set(false, 25, &None),
        "spell forgiveness → 25% (near-misses snap to a clear-winner spell)"
    );
    assert_eq!(assist_set(false, 25, &Some("io".to_string())), "assist not saved: io");
    assert_eq!(cast_trigger_captured(0, "x", &None), "cast trigger capture cancelled");
    assert_eq!(cast_trigger_captured(4, "Mouse 4", &None), "cast trigger -> Mouse 4");
    assert_eq!(
        cast_trigger_captured(4, "Mouse 4", &Some("io".to_string())),
        "cast trigger save failed: io"
    );
    assert_eq!(rhythm_recorded(&None, &None), "no rhythm recorded");
    assert_eq!(
        rhythm_recorded(&Some("tap".to_string()), &None),
        "rhythm recorded — weave opens on [tap]"
    );
    assert_eq!(
        rhythm_recorded(&Some("tap".to_string()), &Some("io".to_string())),
        "rhythm not saved: io"
    );
    assert_eq!(seeded_password("", "s"), Some("s".to_string()));
    assert_eq!(seeded_password("typed", "s"), None);
    assert_eq!(seeded_password("", ""), None);
}
