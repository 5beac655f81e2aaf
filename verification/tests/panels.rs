use neuron_app::bindings::{
    gesture_prompt, hypershift_hold_captured, hypershift_hold_cleared, rhythm_prompt, Editors,
};
use neuron_app::light_stack::{Layer, LayerBlend, LightStack};
use neuron_app::obs::{ObsFollower, SignalValue};
use neuron_app::profiles::applying;
use neuron_app::shared::{install, Shared};
use neuron_app::system::SniperPanel;
use neuron_app::weave::{rhythm_recording, HyperRadial};
use neuron_app::workshop::{Bench, BlocksStep, ParseError};

fn failed() -> Option<String> {
    Some("disk full".to_string())
}

// ── the sniper ──────────────────────────────────────────────────────────────────────────────────

fn panel(dpi: u16) -> SniperPanel {
    SniperPanel { button: "Button 4".to_string(), dpi, status: String::new() }
}

#[test]
fn a_cancelled_sniper_capture_changes_nothing() {
    let mut p = panel(0);
    assert!(!p.button_captured(&None, &None));
    assert_eq!(p.status, "sniper bind cancelled");
    assert_eq!((p.button.as_str(), p.dpi), ("Button 4", 0));
}

#[test]
fn a_sniper_button_never_drops_to_nothing() {
    let mut p = panel(0);
    let alt = Some("Left Alt".to_string());
    assert!(!p.button_captured(&alt, &failed()));
    assert_eq!(p.status, "sniper bind failed: disk full");
    assert_eq!((p.button.as_str(), p.dpi), ("Button 4", 0));
    assert!(p.button_captured(&alt, &None));
    assert_eq!(p.status, "sniper armed — hold Left Alt for 400 DPI");
    assert_eq!((p.button.as_str(), p.dpi), ("Left Alt", 400));
}

#[test]
fn a_sniper_is_unbound() {
    let mut p = panel(600);
    assert!(!p.unbound(&failed()));
    assert_eq!((p.button.as_str(), p.status.as_str()), ("Button 4", "sniper unbind failed: disk full"));
    assert!(p.unbound(&None));
    assert_eq!((p.button.as_str(), p.status.as_str()), ("—", "sniper unbound"));
    assert_eq!(p.dpi, 600);
}

#[test]
fn the_sniper_fader_is_held() {
    let mut p = panel(600);
    assert!(p.saved(700, &Ok(true)));
    assert_eq!((p.dpi, p.status.as_str()), (700, "sniper DPI -> 700"));
    assert!(!p.saved(800, &Ok(false)));
    assert_eq!(p.status, "precision DPI 800 set — capture a hold button to arm it");
    assert!(!p.saved(900, &Err("e".to_string())));
    assert_eq!((p.dpi, p.status.as_str()), (900, "sniper DPI failed: e"));
    assert_eq!(p.button, "Button 4");
}

// ── the second layer ────────────────────────────────────────────────────────────────────────────

#[test]
fn the_hold_key_is_set_or_not() {
    let none = hypershift_hold_captured(false, &None);
    assert_eq!((none.reload, none.status.as_str()), (false, "capture cancelled"));
    let set = hypershift_hold_captured(true, &None);
    assert!(set.reload);
    assert_eq!(set.status, "HyperShift hold key set — hold it to reach the second layer");
    let lost = hypershift_hold_captured(true, &failed());
    assert_eq!((lost.reload, lost.status.as_str()), (false, "failed: disk full"));
}

#[test]
fn clearing_the_hold_key_reads_the_bindings_either_way() {
    let ok = hypershift_hold_cleared(&None);
    assert_eq!((ok.reload, ok.status.as_str()), (true, "HyperShift hold key cleared"));
    let lost = hypershift_hold_cleared(&failed());
    assert_eq!((lost.reload, lost.status.as_str()), (true, "failed: disk full"));
}

#[test]
fn the_second_wheel_shows_what_was_saved() {
    let mut h = HyperRadial { held: false, shown: false };
    assert_eq!(h.set(true, &failed()), "save failed: disk full");
    assert_eq!((h.held, h.shown), (true, false));
    assert_eq!(h.set(true, &None), "HyperShift radial enabled");
    assert_eq!((h.held, h.shown), (true, true));
    assert_eq!(h.set(false, &None), "HyperShift radial off");
    assert_eq!((h.held, h.shown), (false, false));
}

// ── the editors ─────────────────────────────────────────────────────────────────────────────────

#[test]
fn turning_the_wheel_closes_the_wedge() {
    let mut e = Editors::new();
    e.edit_sector(3);
    assert_eq!(e.wheel_turned(true), "editing the HyperShift radial");
    assert_eq!(e.sector, -1);
    e.bind_gesture("circle");
    assert_eq!(e.wheel_turned(false), "editing the base radial");
    assert_eq!(e.glyph, "circle");
    e.edit_sector(2);
    e.wheel_flicked();
    assert_eq!(e.sector, -1);
}

#[test]
fn a_written_wedge_closes_its_editor() {
    let mut e = Editors::new();
    e.edit_sector(3);
    assert_eq!(e.sector_committed(&failed()), "set failed: disk full");
    assert_eq!(e.sector, 3);
    assert_eq!(e.sector_committed(&None), "wedge 3 set");
    assert_eq!(e.sector, -1);
}

#[test]
fn a_written_glyph_closes_its_editor() {
    let mut e = Editors::new();
    e.bind_gesture("circle");
    assert_eq!(gesture_prompt("circle"), "glyph 'circle' — bind, rename, or delete");
    assert_eq!(e.gesture_committed(&failed()), "bind failed: disk full");
    assert_eq!(e.glyph, "circle");
    assert_eq!(e.gesture_committed(&None), "glyph 'circle' bound");
    assert_eq!(e.glyph, "");
}

#[test]
fn a_written_rhythm_closes_its_editor() {
    let mut e = Editors::new();
    e.bind_rhythm(2);
    assert_eq!(rhythm_prompt("tap tap"), "rhythm tap tap — pick what it fires");
    assert_eq!(e.rhythm_committed("tap tap", &failed()), "bind failed: disk full");
    assert_eq!(e.rhythm, 2);
    assert_eq!(e.rhythm_committed("tap tap", &None), "rhythm tap tap bound");
    assert_eq!(e.rhythm, -1);
    e.bind_rhythm(3);
    assert_eq!(e.rhythm_deleted("tap", &failed()), "unbind failed: disk full");
    assert_eq!(e.rhythm, 3);
    assert_eq!(e.rhythm_deleted("tap", &None), "rhythm tap unbound");
    assert_eq!(e.rhythm, -1);
}

// ── the bench, profiles, rhythms ────────────────────────────────────────────────────────────────

#[test]
fn one_bench_run_at_a_time() {
    let mut b = Bench::new();
    assert_eq!(b.summary, "9 stations idle — run to fire every capability live");
    assert!(b.begin());
    assert_eq!(b.summary, "probing…");
    assert!(!b.begin());
    b.ended(&vec!["pass".to_string(), "skip".to_string(), "pass".to_string()]);
    assert_eq!((b.pass, b.fail, b.skip), (2, 0, 1));
    assert_eq!(b.summary, "2 passed · 0 failed · 1 skipped");
    assert!(!b.running && b.begin());
}

#[test]
fn what_is_said_while_waiting() {
    assert_eq!(applying("Work"), "applying 'Work'...");
    assert_eq!(
        rhythm_recording("Button 5"),
        "perform the rhythm on Button 5 now — taps and holds both count, ESC cancels"
    );
}

#[test]
fn what_streamed_before_comes_back() {
    let layer = |pattern: &str| Layer {
        pattern: pattern.to_string(),
        look: 0u8,
        blend: LayerBlend::Over,
        enabled: true,
        region: Vec::new(),
        cells: Vec::new(),
        seq: vec![1u8, 2],
    };
    let mut s: LightStack<u8, u8> = LightStack::new();
    s.load(vec![layer("wave")]);
    s.select_frame(1);
    let rev = s.rev;
    s.bring_back(vec![layer("fire"), layer("rain")]);
    assert_eq!((s.selected, s.active_frame, s.rev), (1, 1, rev + 1));
    assert_eq!(s.layers[1].pattern, "rain");
}

// ── what stays as it was ────────────────────────────────────────────────────────────────────────

fn named() -> Shared<(), u8, u8> {
    let mut s: Shared<(), u8, u8> = install();
    s.editor.name = "greet".to_string();
    s.editor.status = "saved".to_string();
    s.editor.source = "x".to_string();
    s
}

#[test]
fn following_the_source_keeps_the_rest_of_the_editor() {
    let mut s = named();
    assert!(matches!(s.refresh_macro_blocks("  "), BlocksStep::Clear));
    assert_eq!((s.editor.name.as_str(), s.editor.status.as_str()), ("greet", "saved"));
    assert_eq!((s.editor.source.as_str(), s.editor.source_dirty), ("x", false));
    assert!(matches!(s.refresh_macro_blocks("y"), BlocksStep::Parse));
    s.blocks_parsed(Err(ParseError::Syntax { line: 2, msg: "bad".to_string() }), &Vec::new());
    assert_eq!((s.editor.name.as_str(), s.editor.status.as_str()), ("greet", "saved"));
    assert!(!s.editor.parse_error.is_empty());
    s.show_source("z".to_string());
    assert_eq!((s.editor.name.as_str(), s.editor.source.as_str()), ("greet", "z"));
    assert!(!s.editor.parse_error.is_empty() && !s.editor.parsing);
}

#[test]
fn a_stopped_follower_keeps_its_edges() {
    let mut f = ObsFollower::new(true);
    let _ = f.signal("obs.streaming", SignalValue::Bool(true));
    let seen = (f.prev_stream, f.prev_record, f.subscribed, f.reborn);
    f.stop();
    assert_eq!((f.prev_stream, f.prev_record, f.subscribed, f.reborn), seen);
    assert!(!f.mirror.connected && !f.mirror.streaming);
}
