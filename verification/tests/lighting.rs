use neuron_app::light_session::{
    apply_current_lighting, canvas_from_cells, clear_grid, erase_cell, fill_grid, first_painted,
    foreign_strip, foreign_tick, fps_after_load, frame_to_preview, import_text, layer_label,
    light_tile_catalog, paint_cell, params_for, placed_text, preview_step, project_placement,
    reapply_all_boards, schedule_lighting_apply, set_light_fps, stream_ended, tile_slug_for_layer,
    tile_thumbnail, tiles_in_place, Bounds, Knob, KnobKind, LightSave, LightSaver, Preset,
    PreviewStep, SavedBoard, SuppressApply, Thumbnail, TileCache, Tools,
};
use neuron_app::light_stack::{selection_after_remove, Layer, LayerBlend, LightStack};
use neuron_app::status::BoardOwner;

fn layer(pattern: &str, frames: usize) -> Layer<u8, u8> {
    Layer {
        pattern: pattern.to_string(),
        look: 7,
        blend: LayerBlend::Over,
        enabled: true,
        region: vec![],
        cells: vec![],
        seq: (0..frames as u8).collect(),
    }
}

fn stack(n: usize) -> LightStack<u8, u8> {
    let mut s = LightStack::new();
    assert!(s.load((0..n).map(|_| layer("wave", 3)).collect()));
    s
}

#[test]
fn a_loaded_stack_selects_its_top() {
    let mut s: LightStack<u8, u8> = LightStack::new();
    assert_eq!(s.shown_layer(), -1);
    assert!(!s.load(vec![]));
    let s = stack(3);
    assert_eq!(s.selected, 2);
    assert_eq!(s.shown_layer(), 2);
    assert_eq!(s.shown_frame(), Some(0));
}

#[test]
fn a_painted_frame_becomes_the_whole_stack() {
    let mut s = stack(3);
    s.commit_custom_layer(layer("", 1), vec![(1, 2, 3)]);
    assert_eq!(s.layers.len(), 1);
    assert_eq!(s.layers[0].pattern, "custom");
    assert_eq!(s.layers[0].cells, vec![(1, 2, 3)]);
    assert_eq!(s.selected, 0);
}

#[test]
fn a_tile_re_skins_the_selected_layer() {
    let mut s = stack(2);
    s.layers[1].region = vec![4, 5];
    s.layers[1].enabled = false;
    s.layers[1].blend = LayerBlend::Add;
    s.pick_tile(layer("heat", 1), false);
    assert_eq!(s.layers[1].pattern, "heat");
    assert_eq!(s.layers[1].region, vec![4, 5]);
    assert!(!s.layers[1].enabled);
    assert_eq!(s.layers[1].blend, LayerBlend::Add);
    // a readout brings its own blend
    let mut readout = layer("vitals", 1);
    readout.blend = LayerBlend::Cut;
    s.pick_tile(readout, true);
    assert_eq!(s.layers[1].blend, LayerBlend::Cut);
    assert_eq!(s.layers[1].region, vec![4, 5]);
    assert_eq!(s.active_frame, 0);
}

#[test]
fn a_removal_keeps_the_selected_layer() {
    assert_eq!(selection_after_remove(0, 2, 2), 1);
    assert_eq!(selection_after_remove(2, 2, 2), 1);
    assert_eq!(selection_after_remove(2, 0, 2), 0);
    assert_eq!(selection_after_remove(0, 0, 0), 0);
    let mut s = stack(3);
    s.layers[2].pattern = "top".to_string();
    s.remove_stack(0);
    assert_eq!(s.layers[s.selected].pattern, "top");
    let rev = s.rev;
    s.remove_stack(-1);
    assert_eq!(s.layers.len(), 2);
    assert!(s.rev > rev);
}

#[test]
fn stacking_selecting_and_placing() {
    let mut s = stack(1);
    s.stack_current();
    assert_eq!(s.layers.len(), 2);
    assert_eq!(s.layers[1].blend, LayerBlend::Screen);
    assert_eq!(s.selected, 1);
    assert!(s.select_stack(0));
    assert!(!s.select_stack(0));
    assert!(!s.select_stack(9));
    assert!(s.set_layer_region(vec![1, 2], 6, 22));
    assert_eq!(s.layers[0].region, vec![1, 2]);
    assert!(!s.set_layer_region(vec![1], 0, 22));
    assert!(s.reset_layer_region());
    assert!(!s.reset_layer_region());
    let mut empty: LightStack<u8, u8> = LightStack::new();
    empty.stack_current();
    assert!(empty.layers.is_empty());
}

#[test]
fn frames_are_added_moved_and_removed() {
    let mut s = stack(1);
    s.select_frame(1);
    s.add_frame();
    assert_eq!(s.layers[0].seq, vec![0, 1, 1, 2]);
    assert_eq!(s.active_frame, 2);
    s.move_frame(0, 1);
    assert_eq!(s.layers[0].seq, vec![1, 0, 1, 2]);
    assert_eq!(s.active_frame, 1);
    s.move_frame(0, -1);
    assert_eq!(s.layers[0].seq, vec![1, 0, 1, 2]);
    s.remove_frame(3);
    s.remove_frame(2);
    s.remove_frame(1);
    s.remove_frame(0);
    // the last frame stays
    assert_eq!(s.layers[0].seq, vec![1]);
    assert_eq!(s.active_frame, 0);
    s.select_frame(99);
    assert_eq!(s.active_frame, 0);
}

#[test]
fn an_import_replaces_the_stack() {
    let mut s = stack(1);
    s.active_frame = 2;
    let layers = vec![layer("wave", 1), layer("custom", 1), layer("custom", 1)];
    assert_eq!(first_painted(&layers), Some(1));
    assert_eq!(first_painted(&vec![layer("wave", 1)]), None);
    s.import(layers);
    assert_eq!(s.selected, 2);
    assert_eq!(s.active_frame, 0);
    assert_eq!(import_text(2, &None), "imported 2 layer(s)");
    assert_eq!(import_text(0, &None), "no lighting in that export");
    assert_eq!(import_text(0, &Some(String::new())), "no lighting in that export");
    assert_eq!(
        import_text(0, &Some("only macros".to_string())),
        "no lighting in that export — only macros"
    );
}

#[test]
fn the_grid_is_painted() {
    let mut px = clear_grid(3);
    assert_eq!(px, vec![(0x0c, 0x0d, 0x10); 3]);
    paint_cell(&mut px, 1, (9, 9, 9));
    paint_cell(&mut px, 3, (9, 9, 9));
    paint_cell(&mut px, -1, (9, 9, 9));
    assert_eq!(px, vec![(0x0c, 0x0d, 0x10), (9, 9, 9), (0x0c, 0x0d, 0x10)]);
    erase_cell(&mut px, 1);
    assert_eq!(px, clear_grid(3));
    assert_eq!(fill_grid(2, (1, 2, 3)), vec![(1, 2, 3), (1, 2, 3)]);
    assert_eq!(
        canvas_from_cells(&vec![(1, 1, 1)], 1, 2),
        vec![(1, 1, 1), (0x0c, 0x0d, 0x10)]
    );
    assert_eq!(canvas_from_cells(&vec![(1, 1, 1), (2, 2, 2)], 1, 1), vec![(1, 1, 1)]);
    assert!(canvas_from_cells(&vec![(1, 1, 1)], -1, 5).is_empty());
}

#[test]
fn the_preview_follows_the_stack() {
    assert_eq!(preview_step(true, 6, 22, false, None, 1), PreviewStep::Drop);
    assert_eq!(preview_step(false, 0, 22, false, None, 1), PreviewStep::Drop);
    assert_eq!(preview_step(false, 6, 22, true, None, 1), PreviewStep::Dark(132));
    assert_eq!(
        preview_step(false, 6, 22, false, Some((1, 6, 22)), 1),
        PreviewStep::Render { rebuild: false }
    );
    assert_eq!(
        preview_step(false, 6, 22, false, Some((1, 6, 22)), 2),
        PreviewStep::Render { rebuild: true }
    );
    assert_eq!(
        preview_step(false, 6, 22, false, Some((1, 5, 22)), 1),
        PreviewStep::Render { rebuild: true }
    );
    assert_eq!(foreign_tick(0), (1, true));
    assert_eq!(foreign_tick(1), (2, false));
    assert_eq!(foreign_tick(24), (25, true));
    assert_eq!(foreign_strip(&BoardOwner::Yours), (false, false, String::new()));
    assert_eq!(
        foreign_strip(&BoardOwner::Painting("A".to_string())),
        (true, false, "A".to_string())
    );
    assert_eq!(
        foreign_strip(&BoardOwner::Suppressed("A".to_string())),
        (false, true, "A".to_string())
    );
}

#[test]
fn a_frame_becomes_blocks_on_the_ground() {
    let (w, h, px) = frame_to_preview(&[(10, 20, 30)], 1, 2);
    assert_eq!((w, h), (28, 17));
    assert_eq!(px.len(), 28 * 17);
    assert_eq!(px[0], (4, 5, 6));
    assert_eq!(px[4 * 28 + 4], (10, 20, 30));
    assert_eq!(px[12 * 28 + 12], (10, 20, 30));
    // the gutter
    assert_eq!(px[4 * 28 + 13], (4, 5, 6));
    assert_eq!(px[4 * 28 + 14], (4, 5, 6));
    // a cell that the frame lacks is black
    assert_eq!(px[4 * 28 + 15], (0, 0, 0));
    assert_eq!(px[13 * 28 + 4], (4, 5, 6));
}

#[test]
fn every_cell_of_a_frame_is_drawn() {
    let frame: Vec<(u8, u8, u8)> = (0..12u8).map(|i| (i, i, i)).collect();
    let (w, _, px) = frame_to_preview(&frame, 3, 4);
    for r in 0..3usize {
        for c in 0..4usize {
            let (x, y) = (8 + 11 * c, 8 + 11 * r);
            assert_eq!(px[y * w + x], frame[r * 4 + c]);
        }
    }
}

#[test]
fn frame_rates_stay_on_the_slider() {
    assert_eq!(set_light_fps(0), 1);
    assert_eq!(set_light_fps(31), 30);
    assert_eq!(set_light_fps(12), 12);
    assert_eq!(fps_after_load(0, 17), 17);
    assert_eq!(fps_after_load(60, 17), 30);
}

#[test]
fn one_tool_at_a_time() {
    let mut t = Tools { brush: false, place: false };
    assert_eq!(t.toggle_brush(), "brush picked up — paint on the render");
    assert_eq!(
        t.toggle_place(),
        "place mode — drag a rectangle to set this layer's area"
    );
    assert!(t.place && !t.brush);
    assert_eq!(t.toggle_place(), "done placing");
    let _ = t.toggle_brush();
    assert_eq!(t.toggle_brush(), "brush down — back to the effect preview");
}

#[test]
fn placements_in_words() {
    let b = Bounds { row0: 1, col0: 2, rows: 3, cols: 4 };
    let p = project_placement(Some(b));
    assert!(p.placed);
    assert_eq!(p.label, "3×4 block");
    assert_eq!((p.r0, p.c0, p.r1, p.c1), (1, 2, 3, 5));
    let p = project_placement(None);
    assert_eq!(p.label, "full board");
    assert_eq!((p.r0, p.c0, p.r1, p.c1), (-1, -1, -1, -1));
    assert_eq!(placed_text(Some(b)), "layer placed · 3×4 block");
    assert_eq!(placed_text(None), "layer placed on the full board");
}

fn preset(slug: &str, pattern: &str, readout: bool) -> Preset {
    Preset {
        slug: slug.to_string(),
        label: slug.to_uppercase(),
        pattern: pattern.to_string(),
        readout,
    }
}

fn presets() -> Vec<Preset> {
    vec![
        preset("static", "solid", false),
        preset("wave", "wave", false),
        preset("vitals", "vitals", true),
        preset("audiometer", "meter", false),
        preset("ambient", "screen", false),
    ]
}

#[test]
fn tiles_stand_for_layers() {
    let ps = presets();
    assert_eq!(tile_slug_for_layer(&ps, "custom", &Some("wave".to_string())), "custom");
    assert_eq!(tile_slug_for_layer(&ps, "meter", &None), "audiometer");
    assert_eq!(tile_slug_for_layer(&ps, "meter", &Some("x".to_string())), "x");
    assert_eq!(tile_slug_for_layer(&ps, "none", &None), "static");
    assert_eq!(layer_label(&ps, "custom", &None, &None), "Painted");
    assert_eq!(layer_label(&ps, "wave", &None, &None), "WAVE");
    assert_eq!(layer_label(&ps, "p", &Some("wave".to_string()), &None), "WAVE");
    // no preset has the pattern
    assert_eq!(layer_label(&ps, "none", &None, &Some("None!".to_string())), "None!");
    assert_eq!(layer_label(&ps, "none", &None, &None), "none");
    assert_eq!(layer_label(&ps, "p", &Some("gone".to_string()), &Some("P!".to_string())), "P!");
    assert_eq!(layer_label(&ps, "p", &Some("gone".to_string()), &None), "p");
    let cat = light_tile_catalog(&ps);
    assert_eq!(cat[2].2, "data");
    assert_eq!(cat[0].2, "effect");
    assert_eq!(cat[1].0, "wave");
}

#[test]
fn thumbnails_avoid_live_costs() {
    assert_eq!(tile_thumbnail("vitals", ""), Thumbnail::Vitals);
    for s in ["onair", "miclight", "modeheld", "signal"] {
        assert_eq!(tile_thumbnail(s, ""), Thumbnail::Spectrum);
    }
    assert_eq!(tile_thumbnail("audiometer", ""), Thumbnail::Meter);
    assert_eq!(tile_thumbnail("typingheat", "typingheat"), Thumbnail::Typing);
    assert_eq!(tile_thumbnail("ambient", "wave"), Thumbnail::Screen);
    assert_eq!(tile_thumbnail("ambient", "ambient"), Thumbnail::Running);
    assert_eq!(tile_thumbnail("wave", ""), Thumbnail::Running);
}

#[test]
fn renderings_are_kept_between_passes() {
    let ps = presets();
    let mut c = TileCache { rows: 0, cols: 0, kept: vec![] };
    let fresh = |ts: &Vec<bool>| ts.iter().filter(|f| **f).count();
    let pass = |c: &mut TileCache, rows, turned| -> Vec<bool> {
        c.render_light_tiles(&ps, "wave", rows, 22, turned).iter().map(|t| t.fresh).collect()
    };
    assert!(c.render_light_tiles(&ps, "wave", 0, 22, false).is_empty());
    assert_eq!(fresh(&pass(&mut c, 6, false)), 3);
    assert_eq!(fresh(&pass(&mut c, 6, false)), 0);
    // the meter's knobs were turned
    assert_eq!(pass(&mut c, 6, true), vec![false, false, false, true, false]);
    // another board
    assert_eq!(fresh(&pass(&mut c, 5, false)), 3);
    assert!(tiles_in_place(Some(5), 5));
    assert!(!tiles_in_place(Some(4), 5));
    assert!(!tiles_in_place(None, 0));
}

fn knob(key: &str, kind: KnobKind, held: Option<u8>, gate: Option<(&str, Vec<u8>)>) -> Knob {
    Knob {
        key: key.to_string(),
        label: "K".to_string(),
        kind,
        held,
        default: 1,
        gate: gate.map(|(k, allowed)| (k.to_string(), allowed)),
    }
}

#[test]
fn gated_knobs_are_hidden() {
    let knobs = |source: Option<u8>| {
        vec![
            knob("color", KnobKind::Color, None, None),
            knob("speed", KnobKind::Range, None, None),
            knob("source", KnobKind::Choice, source, None),
            knob("focus", KnobKind::Choice, Some(7), Some(("source", vec![0, 1]))),
            knob("core", KnobKind::Toggle, None, Some(("source", vec![2]))),
            knob("lost", KnobKind::Toggle, None, Some(("gone", vec![0]))),
        ]
    };
    let shown = |ks: Vec<Knob>| -> Vec<(usize, &'static str, u8)> {
        params_for(&ks).iter().map(|r| (r.index, r.kind, r.choice)).collect()
    };
    // the gating knob stands at its declared default
    assert_eq!(
        shown(knobs(None)),
        vec![(1, "range", 0), (2, "enum", 1), (3, "enum", 7), (5, "toggle", 0)]
    );
    assert_eq!(
        shown(knobs(Some(2))),
        vec![(1, "range", 0), (2, "enum", 2), (4, "toggle", 0), (5, "toggle", 0)]
    );
}

#[test]
fn nothing_is_saved_before_the_restore() {
    let save = |pid| LightSave { pid, fps: 30, layers: vec![layer("wave", 1)] };
    let mut s: LightSaver<u8, u8> = LightSaver::new();
    assert!(!s.save_lighting(save(1)));
    assert!(s.flush_lighting_save().is_none());
    assert_eq!(
        s.restore_lighting(true, "streaming").as_deref(),
        Some("lighting resumed — streaming")
    );
    assert!(!s.save_lighting(save(0)));
    assert!(s.save_lighting(save(1)));
    assert!(s.save_lighting(save(2)));
    assert_eq!(s.flush_lighting_save().map(|p| p.pid), Some(2));
    assert!(s.flush_lighting_save().is_none());
    assert_eq!(s.restore_lighting(false, "x"), None);
}

#[test]
fn streaming_is_held_back_and_let_go() {
    let mut flag = false;
    let outer = SuppressApply::new(&mut flag);
    let inner = SuppressApply::new(&mut flag);
    inner.release(&mut flag);
    assert!(flag);
    outer.release(&mut flag);
    assert!(!flag);
    assert!(schedule_lighting_apply(true, false, false));
    assert!(!schedule_lighting_apply(true, true, false));
    assert_eq!(
        apply_current_lighting(true, true),
        Some("writes paused — composite not applied")
    );
    assert_eq!(apply_current_lighting(false, true), Some("nothing to apply"));
    assert_eq!(apply_current_lighting(false, false), None);
}

#[test]
fn a_stale_end_is_ignored() {
    assert_eq!(stream_ended(false, true, &None), None);
    assert_eq!(
        stream_ended(true, true, &Some("unplugged".to_string())),
        Some(("composite ended: unplugged".to_string(), true))
    );
    assert_eq!(stream_ended(true, false, &None), Some(("composite finished".to_string(), false)));
}

#[test]
fn every_other_board_streams_what_is_saved() {
    let units = vec![
        (1, "a".to_string()),
        (2, "sel".to_string()),
        (3, "b".to_string()),
        (4, "c".to_string()),
    ];
    let saved = vec![
        SavedBoard { fps: 60, has_layers: true },
        SavedBoard { fps: 10, has_layers: true },
        SavedBoard { fps: 10, has_layers: false },
        SavedBoard { fps: 0, has_layers: true },
    ];
    let plan = reapply_all_boards(false, &units, &saved, "sel", 12).unwrap();
    let got: Vec<(usize, u32)> = plan.iter().map(|r| (r.index, r.fps)).collect();
    assert_eq!(got, vec![(0, 30), (3, 30)]);
    assert!(reapply_all_boards(true, &units, &saved, "sel", 12).is_none());
}
