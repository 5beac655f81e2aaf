use neuron_app::bindings::{
    add_binding_refused, begin_edit_refused, binding_added, edited_index, edited_trigger,
    refresh_rules, remove_refused, saved_text, tier_index, trigger_kind_str, AddOutcome,
    BindTrigger, Editors, GuiRule, RuleView, TriggerKind,
};
use neuron_app::capture::{
    closing_silence, glyph_recorded, normalize_trail, predict_due, stream_due, stroke_recorded,
    stroke_refused, CaptureChannel, Recorder, RhythmTake, TakeEnd,
};
use neuron_app::macros::{MacroNode, Value};
use neuron_app::palette::{
    captured_text, choice_of, current_action, first_choice, init_action_palette,
    refresh_param_suggestions, ActionChoice, Known, PaletteEntry, PickerState,
};
use neuron_app::profiles::{
    import_pane, lighting_after_apply, note_focused_app, note_live_profile, profile_name_edited,
    refresh_app_rules, refresh_profiles, AppRule, ImportLine, ImportPane, ImportWizard, LiveProfile,
    Profile,
};
use neuron_app::system::{
    accent_parts, apply_feel, apply_gaming_mode, apply_weave_accent, arm_stance, feel_applied,
    launch_mode_now, launch_mode_text, mute_toggled, ping_copy, ping_slot, preview_hex, purge_text,
    recolor_now, refresh_ping_kinds, refresh_reliability, set_launch_mode, sniper_bound, sniper_dpi,
    sniper_saved, weave_accent_u32, AccentStep, Crossfade, Gates, Guide, Organ, PingGates, PingKind,
    PurgeOutcome, Upload,
};
use neuron_app::textmap::TextMap;
use neuron_app::weave::{
    activation_set, feel_timing_set, first_error, gestures_cleared, healed_sector, hypershift_set,
    refresh_effects, refresh_gestures, refresh_pockets, refresh_pockets_if_changed, refresh_radial,
    refresh_rhythms, sector_prompt, set_feel_timing, set_sector_count, shown_sectors, Glyph, Glyphs,
    LayerMode, Pocket, PocketKind, Renamed, RhythmBind,
};
use neuron_app::workshop::{
    catalog_request, collect_macro_ids, delete_macro_id, macro_check, macro_deleted, macro_file,
    macro_loaded, macro_save, macro_saved, macro_test_name, macro_trigger_map, macros_reloaded,
    parse_error_text, refresh_macro_blocks, refresh_macro_catalog, register_failed, run_diagnostics,
    Action, BeaconGate, BeaconTest, BlocksStep, CatalogStep, MacroFile, ParseError, Rule, SaveStep,
};

// ── bindings ────────────────────────────────────────────────────────────────────────────────────

fn view(trigger: &str) -> RuleView {
    RuleView {
        trigger: trigger.to_string(),
        action: "act".to_string(),
        layer: "base".to_string(),
        kind: "input".to_string(),
    }
}

fn rule(trigger: &str, noop: bool, layer: Option<&str>) -> GuiRule {
    GuiRule {
        trigger: trigger.to_string(),
        action: "do".to_string(),
        noop,
        layer: layer.map(|l| l.to_string()),
        kind: TriggerKind::Gesture,
    }
}

#[test]
fn bindings_are_listed_on_their_layer() {
    let gui = vec![
        rule("g1", false, None),
        rule("h1", false, Some("hypershift")),
        rule("hold", true, Some("hypershift")),
        rule("g2", true, None),
    ];
    let l = refresh_rules(&vec![view("f1"), view("f2")], &vec![], &gui);
    let base: Vec<&str> = l.base.iter().map(|r| r.trigger.as_str()).collect();
    assert_eq!(base, vec!["f1", "f2", "g1", "g2"]);
    assert_eq!(l.hyper.len(), 1);
    assert_eq!(l.hyper[0].layer, "hypershift");
    assert_eq!(l.hyper[0].kind, "gesture");
    assert_eq!((l.editable_base, l.editable_hyper), (2, 1));
    assert!(l.hold_ready);
    assert_eq!(l.hold_label, "hold");
    assert!(!l.base[1].removable && l.base[2].removable);
    let none = refresh_rules(&vec![], &vec![], &vec![]);
    assert!(!none.hold_ready);
    assert_eq!(none.hold_label, "—");
}

#[test]
fn a_row_leads_to_its_binding() {
    assert_eq!(tier_index(1, false, 4, 2), None);
    assert_eq!(tier_index(2, false, 4, 2), Some(0));
    assert_eq!(tier_index(3, false, 4, 2), Some(1));
    assert_eq!(tier_index(3, true, 9, 9), Some(3));
    assert_eq!(tier_index(-1, true, 0, 0), Some(0));
    assert_eq!(edited_index(1, false, 4, 2), 0);
    assert_eq!(edited_index(3, false, 4, 2), 1);
    assert!(remove_refused().starts_with("that rule comes from"));
    assert_eq!(
        begin_edit_refused(None, true),
        Some("that rule comes from bindings.toml / cast.toml — edit it there")
    );
    assert_eq!(begin_edit_refused(Some(1), false), Some("couldn't find that binding to edit"));
    assert_eq!(begin_edit_refused(Some(1), true), None);
    assert_eq!(edited_trigger(Some(1), Some(2)), Some(1));
    assert_eq!(edited_trigger(None, Some(2)), Some(2));
}

#[test]
fn adding_a_binding_in_words() {
    assert_eq!(
        add_binding_refused(false, &None).as_deref(),
        Some("press-to-bind a trigger first")
    );
    assert_eq!(add_binding_refused(true, &Some("no key".to_string())).as_deref(), Some("no key"));
    assert_eq!(add_binding_refused(true, &None), None);
    assert_eq!(
        binding_added(&Ok(AddOutcome::Added(3))),
        "binding added (3 GUI rule(s)) — live now: press it and watch the lamp"
    );
    assert_eq!(
        binding_added(&Ok(AddOutcome::Replaced)),
        "re-bound — the old action was replaced"
    );
    assert_eq!(binding_added(&Err("disk".to_string())), "add failed: disk");
    assert_eq!(saved_text("ok", "failed: ", &None), "ok");
    assert_eq!(saved_text("ok", "failed: ", &Some("e".to_string())), "failed: e");
    assert_eq!(trigger_kind_str(TriggerKind::MicTap), "mic");
}

#[test]
fn a_trigger_is_captured_and_cleared() {
    let mut t: BindTrigger<u8> = BindTrigger::new();
    assert_eq!(t.captured(None), "capture cancelled");
    assert!(!t.ready);
    assert_eq!(
        t.captured(Some((4, "F13".to_string()))),
        "control captured — pick an action, then Add"
    );
    assert_eq!(t.captured, Some(4));
    t.seed(None, "gesture".to_string());
    assert!(t.ready && t.captured.is_none());
    t.clear();
    assert_eq!(t.label, "—");
}

#[test]
fn one_editor_owns_the_picker() {
    let mut e = Editors::new();
    e.edit_sector(2);
    e.bind_gesture("circle");
    assert_eq!((e.sector, e.rhythm, e.rule), (-1, -1, -1));
    e.bind_rhythm(1);
    assert_eq!(e.glyph, "");
    e.begin_edit_rule(5, true);
    assert_eq!((e.sector, e.rhythm, e.rule), (-1, -1, 5));
    assert!(e.rule_hyper);
    e.rows_moved();
    assert_eq!(e.rule, -1);
    e.edit_sector(7);
    e.wedges(8);
    assert_eq!(e.sector, 7);
    e.wedges(7);
    assert_eq!(e.sector, -1);
    e.bind_gesture("circle");
    e.glyph_deleted("square");
    assert_eq!(e.glyph, "circle");
    e.glyph_deleted("circle");
    assert_eq!(e.glyph, "");
    e.edit_sector(1);
    e.reloaded();
    assert_eq!((e.sector, e.rule), (-1, -1));
}

// ── workshop ────────────────────────────────────────────────────────────────────────────────────

fn runs(id: &str) -> Action {
    Action::Macro(id.to_string())
}

#[test]
fn macros_are_collected_from_sequences() {
    let a = Action::Sequence(vec![
        runs("a"),
        Action::Other,
        Action::Sequence(vec![runs("b"), runs("a")]),
    ]);
    let mut out = vec!["x".to_string()];
    collect_macro_ids(&a, &mut out);
    assert_eq!(out, vec!["x", "a", "b", "a"]);
}

#[test]
fn triggers_are_named_once() {
    let rules = vec![
        Rule { trigger: "F1".to_string(), action: Action::Sequence(vec![runs("a"), runs("a")]) },
        Rule { trigger: "F2".to_string(), action: runs("a") },
        Rule { trigger: "F1".to_string(), action: runs("a") },
        Rule { trigger: "F3".to_string(), action: Action::Other },
        Rule { trigger: "F4".to_string(), action: runs("b") },
    ];
    let m = macro_trigger_map(&rules);
    assert_eq!(m.get("a"), Some(&vec!["F1".to_string(), "F2".to_string()]));
    assert_eq!(m.get("b"), Some(&vec!["F4".to_string()]));
    assert_eq!(m.get("c"), None);
    let file = |id: &str, parsed| MacroFile {
        id: id.to_string(),
        source: "NEURON_OPTIONS = [{'key': 1}]".to_string(),
        parsed,
    };
    let cards = refresh_macro_catalog(
        &vec![file("a", Some(("types hi".to_string(), 4))), file("c", None)],
        &m,
    );
    assert_eq!(cards[0].trigger, "F1  ·  F2");
    assert_eq!((cards[0].steps, cards[0].options), (4, 1));
    assert_eq!(cards[1].trigger, "(unbound)");
    assert_eq!(cards[1].summary, "couldn't read steps (syntax error?)");
}

#[test]
fn a_card_counts_the_steps_of_the_tree() {
    let tree = vec![
        MacroNode::Ask {
            question: Value::str("go?"),
            description: Value::empty_str(),
            yes: vec![MacroNode::Notify { text: Value::str("yes") }],
            no: vec![],
        },
        MacroNode::Notify { text: Value::str("done") },
    ];
    let file = macro_file("greet", "source", Some(("asks".to_string(), &tree)));
    assert_eq!(file.id, "greet");
    assert_eq!(file.source, "source");
    assert_eq!(file.parsed, Some(("asks".to_string(), 3)));
    let cards = refresh_macro_catalog(&vec![file], &macro_trigger_map(&vec![]));
    assert_eq!((cards[0].summary.as_str(), cards[0].steps), ("asks", 3));
    assert_eq!(macro_file("broken", "(", None).parsed, None);
}

#[test]
fn one_rebuild_of_the_catalog_at_a_time() {
    let mut building = false;
    assert_eq!(catalog_request(0, &mut building), CatalogStep::Empty);
    assert_eq!(catalog_request(2, &mut building), CatalogStep::Build);
    assert_eq!(catalog_request(2, &mut building), CatalogStep::Running);
    assert!(building);
}

#[test]
fn a_check_lists_the_functions() {
    let r = macro_check(&Ok(vec!["helper".to_string(), "main".to_string()]));
    assert_eq!(r.lines, vec!["def helper", "def main"]);
    assert!(r.status.starts_with("syntax ok — has a macro(ctx) entry"));
    let r = macro_check(&Ok(vec!["helper".to_string()]));
    assert_eq!(r.status, "syntax ok — but no `def macro(ctx):` entry point yet");
    let r = macro_check(&Err("bad\nmore".to_string()));
    assert!(r.lines.is_empty());
    assert_eq!(r.status, "syntax error: bad");
}

#[test]
fn a_blank_source_clears_the_canvas() {
    assert_eq!(refresh_macro_blocks(" \n", true), BlocksStep::Clear);
    assert_eq!(refresh_macro_blocks("x", true), BlocksStep::Wait);
    assert_eq!(refresh_macro_blocks("x", false), BlocksStep::Parse);
    assert_eq!(
        parse_error_text(&ParseError::Syntax { line: 3, msg: "oops\nx".to_string() }),
        "line 3: oops"
    );
    assert_eq!(
        parse_error_text(&ParseError::Host { msg: "no python".to_string() }),
        "couldn't read the blocks: no python"
    );
}

#[test]
fn a_macro_needs_a_name() {
    assert!(matches!(macro_save("  ", false), SaveStep::Refused(Some("name the macro first"))));
    assert!(matches!(macro_save("a", true), SaveStep::Refused(None)));
    match macro_save(" a ", false) {
        SaveStep::Register { name, status } => {
            assert_eq!(name, "a");
            assert_eq!(status, "registering 'a'…");
        }
        _ => panic!("registers"),
    }
    assert_eq!(macro_saved("a", &None), "saved + registered 'a' — bind it as a python macro");
    assert_eq!(macro_saved("a", &Some("e\nf".to_string())), "save failed: e");
    assert_eq!(macro_test_name(" "), "__test__");
    assert_eq!(macro_test_name(" a "), "a");
    assert_eq!(register_failed("x\ny"), "register failed: x");
    assert_eq!(delete_macro_id("  "), None);
    assert_eq!(delete_macro_id(" a").as_deref(), Some("a"));
    assert_eq!(macro_deleted("a", &None), "deleted macro a");
    assert_eq!(macro_deleted("a", &Some("busy".to_string())), "delete failed: busy");
    assert_eq!(macro_loaded("a"), "loaded 'a' — edit it, then save");
    assert_eq!(macros_reloaded(2), "reloaded 2 macro(s) from disk");
}

#[test]
fn one_test_beacon_waits_at_a_time() {
    let mut g = BeaconGate { waiting: false };
    assert!(matches!(g.test_beacon(" "), BeaconTest::Nothing));
    match g.test_beacon(" a ") {
        BeaconTest::Fire { id, .. } => assert_eq!(id, "a"),
        _ => panic!("fires"),
    }
    assert!(matches!(g.test_beacon("b"), BeaconTest::Refused(_)));
    assert_eq!(g.fired("beacon test", "dispatched"), "beacon test · dispatched");
    assert!(g.waiting);
    assert!(matches!(g.test_asks("", "neuron.ask('q')"), BeaconTest::Refused(_)));
    g.answered();
    assert!(matches!(g.test_asks("", "pass"), BeaconTest::Refused(_)));
    match g.test_asks(" ", "neuron.ask('q')") {
        BeaconTest::Fire { id, .. } => assert_eq!(id, "draft"),
        _ => panic!("fires"),
    }
    assert_eq!(g.fired("ask preview", "sidecar cold"), "ask preview · sidecar cold");
    assert!(!g.waiting);
}

#[test]
fn the_bench_counts_its_probes() {
    let states: Vec<String> =
        ["pass", "fail", "pass", "skip", "idle"].iter().map(|s| s.to_string()).collect();
    let b = run_diagnostics(&states);
    assert_eq!((b.pass, b.fail, b.skip), (2, 1, 1));
    assert_eq!(b.summary, "2 passed · 1 failed · 1 skipped");
}

// ── profiles ────────────────────────────────────────────────────────────────────────────────────

fn profile(name: &str) -> Profile {
    Profile {
        name: name.to_string(),
        summary: "s".to_string(),
        dpi_stages: vec![400, 800],
        dpi: Some(1600),
        polling_hz: Some(1000),
        brightness: None,
        lighting: "wave".to_string(),
        idle_secs: Some(300),
        in_game_polling: Some((8000, 4000)),
        gaming: true,
    }
}

#[test]
fn profiles_on_cards() {
    let mut bare = profile("bare");
    bare.dpi_stages = vec![];
    let (rows, names) = refresh_profiles(&vec![profile("fps"), bare], "fps");
    assert_eq!(names, vec!["fps", "bare"]);
    assert_eq!(rows[0].dpi, "400/800");
    assert_eq!(rows[1].dpi, "1600");
    assert_eq!(rows[0].polling, "1000 Hz");
    assert_eq!(rows[0].brightness, "");
    assert_eq!(rows[0].idle, "300s");
    assert_eq!(rows[0].in_game, "8000/4000Hz");
    assert!(rows[0].active && !rows[1].active);
    assert!(profile_name_edited(&vec!["my_game".to_string()], "my_game"));
    assert!(!profile_name_edited(&vec!["my_game".to_string()], "other"));
}

#[test]
fn a_live_switch_closes_the_editor_once() {
    let mut l = LiveProfile { shown: "a".to_string(), held: "a".to_string(), editing_rule: 3 };
    assert!(!note_live_profile(&mut l, "a"));
    assert_eq!(l.editing_rule, 3);
    assert!(note_live_profile(&mut l, "b"));
    assert_eq!((l.shown.as_str(), l.held.as_str(), l.editing_rule), ("b", "b", -1));
    l.editing_rule = 2;
    l.shown = "b".to_string();
    l.held = "x".to_string();
    assert!(note_live_profile(&mut l, "b"));
    assert_eq!(l.editing_rule, 2);
}

fn app_rule(app: &str) -> AppRule {
    AppRule { app: app.to_string(), profile: "p".to_string() }
}

#[test]
fn the_first_matching_rule_wins() {
    let rules = vec![app_rule(""), app_rule("CHROME"), app_rule("game"), app_rule("chrome.exe")];
    assert_eq!(note_focused_app(&rules, "C:\\Chrome.EXE"), 1);
    assert_eq!(note_focused_app(&rules, "MyGame.exe"), 2);
    assert_eq!(note_focused_app(&rules, "notepad"), -1);
    assert_eq!(note_focused_app(&vec![app_rule("ÜBER")], "über.exe"), 0);
    let (rows, at) = refresh_app_rules(&rules, "game");
    assert_eq!(rows.len(), 4);
    assert_eq!(rows[1].0, "CHROME");
    assert_eq!(at, 2);
}

#[test]
fn a_failed_apply_brings_the_look_back() {
    assert_eq!(lighting_after_apply(true, Some(vec![1]), vec![2]), Some(vec![1]));
    assert_eq!(lighting_after_apply(true, Some(vec![]), vec![2]), Some(vec![2]));
    assert_eq!(lighting_after_apply(true, None, vec![2]), Some(vec![2]));
    assert_eq!(lighting_after_apply(false, Some(vec![1]), vec![2]), Some(vec![2]));
    assert_eq!(lighting_after_apply::<u8>(true, None, vec![]), None);
}

fn line(category: &str) -> ImportLine {
    ImportLine {
        label: "l".to_string(),
        detail: "d".to_string(),
        ok: true,
        category: category.to_string(),
    }
}

#[test]
fn import_lines_go_to_their_pane() {
    let lines = vec![line("perf"), line("note"), line("binding"), line("lighting"), line("x")];
    assert_eq!(import_pane(&lines, ImportPane::Performance), vec![0, 3]);
    assert_eq!(import_pane(&lines, ImportPane::Bindings), vec![2]);
    assert_eq!(import_pane(&lines, ImportPane::Notes), vec![1]);
}

#[test]
fn the_wizard_keeps_a_failed_import() {
    let mut w = ImportWizard {
        status: String::new(),
        path: String::new(),
        ready: true,
        open: true,
        sheet_open: false,
        pending: true,
    };
    assert!(w.browse());
    assert!(!w.browse());
    assert!(!w.picked(""));
    assert_eq!(w.status, "no file selected.");
    assert!(w.picked("a.synapse3"));
    assert_eq!(w.path, "a.synapse3");
    assert_eq!(w.applied(&Err("bad file".to_string())), "bad file");
    assert!(w.pending && w.ready && w.open);
    assert_eq!(w.status, "bad file");
    assert_eq!(
        w.applied(&Ok("imported".to_string())),
        "imported — press apply on the profile to make it live"
    );
    assert!(!w.pending && !w.ready && !w.open && w.sheet_open);
    assert_eq!(w.path, "");
}

// ── picker ──────────────────────────────────────────────────────────────────────────────────────

fn entry(id: &str, group: &str) -> PaletteEntry {
    PaletteEntry {
        id: id.to_string(),
        label: id.to_uppercase(),
        hint: "h".to_string(),
        group: group.to_string(),
        required: true,
        tier: 2,
    }
}

fn palette() -> Vec<ActionChoice> {
    init_action_palette(&vec![
        entry("key", "INPUT"),
        entry("turbo", "INPUT"),
        entry("odd", ""),
        entry("keys", "INPUT"),
        entry("profile", "SYSTEM"),
    ])
}

#[test]
fn groups_have_one_header() {
    let rows = palette();
    let ids: Vec<(String, bool)> = rows.iter().map(|r| (r.label.clone(), r.header)).collect();
    assert_eq!(
        ids,
        vec![
            ("INPUT".to_string(), true),
            ("KEY".to_string(), false),
            ("TURBO".to_string(), false),
            ("ODD".to_string(), false),
            ("KEYS".to_string(), false),
            ("SYSTEM".to_string(), true),
            ("PROFILE".to_string(), false),
        ]
    );
    assert_eq!(first_choice(&rows, 0), 1);
    assert_eq!(first_choice(&rows, 2), 2);
    assert_eq!(first_choice(&rows, 99), 1);
    // an entry without a group stands before the first header
    let row = |header| ActionChoice {
        id: "x".to_string(),
        label: "X".to_string(),
        param_hint: String::new(),
        header,
        required: false,
        tier: 0,
    };
    assert_eq!(first_choice(&vec![row(false), row(true), row(false)], 1), 0);
    assert_eq!(choice_of(&rows, "profile"), Some(6));
    assert_eq!(choice_of(&rows, ""), None);
}

#[test]
fn the_picker_shows_an_action() {
    let rows = palette();
    let mut p = PickerState { choice: 0, param: "left over".to_string() };
    p.preset_picker(&rows, "profile", "fps");
    assert_eq!(
        current_action(&rows, p.choice, &p.param),
        ("profile".to_string(), "fps".to_string())
    );
    p.preset_picker(&rows, "unknown", "");
    assert_eq!((p.choice, p.param.as_str()), (1, ""));
    assert_eq!(current_action(&rows, 99, "x").0, "noop");
    assert_eq!(current_action(&rows, -4, "x").0, "");
}

#[test]
fn a_turbo_keeps_its_rate() {
    let rows = palette();
    let mut p = PickerState { choice: 2, param: "a · 12 ".to_string() };
    assert_eq!(p.capture_action_param(&rows, "key", "b"), "turbo");
    assert_eq!((p.choice, p.param.as_str()), (2, "b · 12"));
    p.param = "a".to_string();
    let _ = p.capture_action_param(&rows, "key", "c");
    assert_eq!(p.param, "c");
    assert_eq!(p.capture_action_param(&rows, "mouse", "left"), "mouse");
    assert_eq!((p.choice, p.param.as_str()), (2, "left"));
    assert_eq!(captured_text("F1", "key", "f1"), "captured F1 → key · f1");
    assert_eq!(
        p.keys_recorded(&rows, &Some("a b".to_string())),
        "take: a b — trim or retime it freely"
    );
    assert_eq!((p.choice, p.param.as_str()), (4, "a b"));
    assert_eq!(p.keys_recorded(&rows, &None), "recording ended — nothing played");
}

#[test]
fn suggestions_by_action() {
    let k = Known {
        windows: vec!["w".to_string()],
        profiles: vec!["p".to_string()],
        macros: vec!["m".to_string()],
        outputs: vec!["o".to_string()],
    };
    assert_eq!(refresh_param_suggestions("summon", &k), vec!["w"]);
    assert_eq!(refresh_param_suggestions("profile", &k), vec!["p"]);
    assert_eq!(refresh_param_suggestions("macro", &k), vec!["m"]);
    assert_eq!(refresh_param_suggestions("output-flip", &k), vec!["o"]);
    assert_eq!(refresh_param_suggestions("banish", &k), vec!["focused", "hover", "behind"]);
    assert_eq!(refresh_param_suggestions("kill", &k), vec!["focused", "hover"]);
    assert_eq!(
        refresh_param_suggestions("ghost-paste", &k),
        vec!["instant", "borderline", "fast", "normal"]
    );
    assert_eq!(refresh_param_suggestions("momentary-mic", &k), vec!["flip", "talk", "mute"]);
    assert_eq!(refresh_param_suggestions("dial", &k), vec!["volume", "mic"]);
    assert!(refresh_param_suggestions("tether", &k).is_empty());
}

// ── weaving ─────────────────────────────────────────────────────────────────────────────────────

fn glyphs() -> Glyphs<u8, String> {
    let mut bound = TextMap::new();
    bound.insert("circle", "copy".to_string());
    bound.insert("ghost", "paste".to_string());
    Glyphs {
        templates: vec![
            Glyph { name: "circle".to_string(), shape: 1 },
            Glyph { name: "line".to_string(), shape: 2 },
        ],
        bound,
    }
}

#[test]
fn a_binding_follows_a_renamed_glyph() {
    let mut g = glyphs();
    assert!(matches!(g.rename_gesture("circle", "  "), Renamed::Refused(s) if s == "a glyph needs a name"));
    assert!(matches!(
        g.rename_gesture("circle", "line"),
        Renamed::Refused(s) if s == "a glyph named 'line' already exists"
    ));
    assert!(matches!(g.rename_gesture("none", "x"), Renamed::Refused(s) if s == "no glyph 'none'"));
    assert!(matches!(
        g.rename_gesture("circle", " round "),
        Renamed::Done { binding: true, .. }
    ));
    assert_eq!(g.templates[0].name, "round");
    assert_eq!(g.templates[0].shape, 1);
    assert_eq!(g.bound.get("round").map(|s| s.as_str()), Some("copy"));
    assert!(!g.bound.contains("circle"));
    assert!(matches!(
        g.rename_gesture("line", "bar"),
        Renamed::Done { binding: false, .. }
    ));
}

#[test]
fn a_deleted_glyph_takes_its_binding_along() {
    let mut g = glyphs();
    g.delete_gesture("circle");
    assert_eq!(g.templates.len(), 1);
    assert_eq!(g.templates[0].name, "line");
    assert!(!g.bound.contains("circle"));
    assert!(g.bound.contains("ghost"));
    assert_eq!(g.clear_gestures(), 1);
    assert!(g.templates.is_empty() && g.bound.entries.is_empty());
    assert_eq!(gestures_cleared(2, &None), "gesture vault cleared (2 glyph binding(s) removed)");
    assert_eq!(
        gestures_cleared(2, &Some("disk".to_string())),
        "gesture vault clear failed: disk"
    );
    assert_eq!(first_error(None, Some("b".to_string())).as_deref(), Some("b"));
    let chips = refresh_gestures(&glyphs().templates, &glyphs().bound);
    assert!(chips[0].bound && chips[0].action == "copy");
    assert!(!chips[1].bound && chips[1].action.is_empty());
}

fn bind(taps: u8, action: Option<&str>) -> RhythmBind {
    RhythmBind { taps, action: action.map(|a| a.to_string()) }
}

#[test]
fn rhythms_rise_and_the_standard_ones_follow() {
    let rows = refresh_rhythms(&vec![
        bind(5, Some("five")),
        bind(2, Some("two")),
        bind(5, Some("again")),
        bind(0, Some("hold")),
        bind(3, None),
    ]);
    let got: Vec<(i32, &str, bool)> =
        rows.iter().map(|r| (r.taps, r.desc.as_str(), r.bound)).collect();
    assert_eq!(got, vec![(2, "two", true), (5, "five", true), (1, "", false)]);
    assert_eq!(rows[2].label, "● ▬");
    assert_eq!(refresh_rhythms(&vec![]).len(), 2);
}

#[test]
fn the_wheel_has_wedges() {
    assert_eq!(set_sector_count(1, 12), 3);
    assert_eq!(set_sector_count(40, 12), 12);
    assert_eq!(set_sector_count(8, 12), 8);
    assert_eq!(shown_sectors(0), 1);
    assert_eq!(healed_sector(8, 8), -1);
    assert_eq!(healed_sector(7, 8), 7);
    let rows = refresh_radial(&vec!["N".to_string(), "S".to_string()], &vec!["copy".to_string()]);
    assert_eq!(rows, vec![
        ("N".to_string(), "copy".to_string()),
        ("S".to_string(), "—".to_string()),
    ]);
    assert_eq!(sector_prompt(2, "E"), "editing wedge 2 (E) — choose an action, then Set");
}

#[test]
fn stances_and_timing_in_words() {
    assert_eq!(activation_set("tap hold", true, &None), "weave opens on [tap hold]");
    assert_eq!(
        activation_set("tap tap", false, &None),
        "weave opens on [tap tap] — tap again to close"
    );
    assert_eq!(
        activation_set("x", true, &Some("disk".to_string())),
        "activation not saved: disk"
    );
    assert_eq!(
        hypershift_set(LayerMode::Latch, "latch", &None),
        "HyperShift stance -> latch (tap on, tap off)"
    );
    assert_eq!(
        hypershift_set(LayerMode::Hold, "hold", &Some("e".to_string())),
        "stance not saved: e"
    );
    let t = set_feel_timing(-5, 200, 90);
    assert_eq!(feel_timing_set(t), "feel timing -> hold 0ms · gap 200ms · coyote 90ms");
}

#[test]
fn pockets_and_effects() {
    let p = |kind| Pocket {
        slot: "a".to_string(),
        durable: true,
        kind,
        summary: "s".to_string(),
        sigil: "M 0 0 Z".to_string(),
    };
    let cards = refresh_pockets(&vec![p(PocketKind::Files), p(PocketKind::Empty)]);
    assert_eq!(cards[0].kind, "files");
    assert_eq!(cards[0].sigil, "M 0 0 Z");
    assert!(!cards[1].filled && cards[1].sigil.is_empty());
    let mut last = u64::MAX;
    assert!(refresh_pockets_if_changed(0, &mut last));
    assert!(!refresh_pockets_if_changed(0, &mut last));
    assert_eq!(refresh_effects(&vec![true, false, true]), (vec![0, 2], vec![1]));
}

// ── capture ─────────────────────────────────────────────────────────────────────────────────────

fn recorder() -> Recorder {
    Recorder {
        capturing: false,
        rich: false,
        predict: String::new(),
        gesture_status: String::new(),
        radial_status: String::new(),
        stroke_saved: true,
        cancel: true,
        generation: 0,
        preview_sector: -1,
    }
}

#[test]
fn a_second_press_stops_a_recording() {
    let mut r = recorder();
    assert_eq!(r.record_gesture(&None, "F13"), Some(1));
    assert_eq!(r.gesture_status, "hold F13 and draw — ESC cancels");
    assert!(r.capturing && !r.cancel && !r.stroke_saved);
    r.predicted("circle", 74);
    assert_eq!(r.gesture_status, "≈ circle · 74%");
    assert_eq!(r.record_gesture(&None, "F13"), None);
    assert!(!r.capturing && r.cancel && r.predict.is_empty());
    assert_eq!(r.gesture_status, "recording stopped");
}

#[test]
fn a_late_cleanup_spares_the_next_capture() {
    let mut r = recorder();
    let first = r.record_rich_stroke("F13").unwrap();
    assert_eq!(r.gesture_status, "RICH STROKE → file · F13 and draw — ESC cancels");
    assert!(r.record_rich_stroke("F13").is_none());
    let second = r.record_gesture(&Some("tap hold".to_string()), "F13").unwrap();
    assert_eq!(r.gesture_status, "[tap hold] on F13 and draw — ESC cancels");
    r.worker_ended(first);
    assert!(r.capturing);
    r.worker_ended(second);
    assert!(!r.capturing && !r.rich);
}

#[test]
fn a_flick_hits_a_wedge_or_none() {
    let mut r = recorder();
    assert_eq!(r.preview_radial(&None, "F13"), 1);
    assert_eq!(r.radial_status, "hold F13 and flick a direction — ESC cancels");
    r.flicked(Some(3), "E");
    assert_eq!((r.preview_sector, r.radial_status.as_str()), (3, "flick → wedge 3 (E)"));
    r.flicked(None, "");
    assert_eq!(r.preview_sector, -1);
    r.worker_failed(CaptureChannel::Radial);
    assert_eq!(r.radial_status, "capture hiccup — nothing saved, try again");
    assert_eq!(r.gesture_status, "");
}

#[test]
fn strokes_need_three_points() {
    assert_eq!(stroke_refused(0), Some("cancelled"));
    assert_eq!(stroke_refused(2), Some("too short — try again"));
    assert_eq!(stroke_refused(3), None);
    assert_eq!(
        glyph_recorded("g", 40, &None),
        "recorded 'g' (40 pts) — click its chip to bind it"
    );
    assert_eq!(
        glyph_recorded("g", 40, &Some("disk".to_string())),
        "recorded 'g' but not saved: disk"
    );
    assert_eq!(
        stroke_recorded(&Ok(("s.json".to_string(), 9))),
        ("saved strokes/s.json (9 pts) + .gwyph · click to reveal".to_string(), true)
    );
    assert_eq!(
        stroke_recorded(&Err("disk".to_string())),
        ("stroke save failed: disk".to_string(), false)
    );
}

#[test]
fn a_thinned_buffer_is_no_progress() {
    let mut last = 0;
    assert!(!stream_due(13, &mut last));
    assert!(stream_due(14, &mut last));
    assert!(!stream_due(27, &mut last));
    assert!(!stream_due(5, &mut last));
    assert_eq!(last, 14);
    assert!(stream_due(28, &mut last));
    assert!(predict_due(1, 8));
    assert!(!predict_due(0, 8));
    assert!(!predict_due(1, 7));
}

#[test]
fn a_trail_is_short_and_keeps_its_ends() {
    assert!(normalize_trail(0).is_empty());
    assert_eq!(normalize_trail(3), vec![0, 1, 2]);
    for n in [128usize, 129, 255, 256, 384, 600, 10_000] {
        let t = normalize_trail(n);
        assert!(t.len() <= 128);
        assert_eq!(t[0], 0);
        assert_eq!(*t.last().unwrap(), n - 1);
    }
    assert_eq!(normalize_trail(129)[1], 2);
    assert_eq!(normalize_trail(128).len(), 128);
    // the last strided point makes room for the last point of all
    assert_eq!(normalize_trail(256)[126..], [252, 255]);
}

#[test]
fn a_rhythm_is_performed() {
    let silence = closing_silence(100);
    assert_eq!(silence, 300);
    let mut t = RhythmTake::new();
    assert_eq!(t.step(0, false, false, silence), None);
    assert_eq!(t.step(50, false, true, silence), None);
    assert_eq!(t.step(150, false, false, silence), None);
    assert_eq!(t.step(200, false, true, silence), None);
    assert_eq!(t.step(900, false, true, silence), None);
    assert_eq!(t.step(1000, false, false, silence), None);
    assert_eq!(t.step(1300, false, false, silence), None);
    assert_eq!(t.step(1301, false, false, silence), Some(TakeEnd::Performed));
    assert_eq!(t.presses, vec![(50, Some(150)), (200, Some(1000))]);
    let mut none = RhythmTake::new();
    assert_eq!(none.step(6000, false, false, silence), None);
    assert_eq!(none.step(6001, false, false, silence), Some(TakeEnd::Cancelled));
    assert_eq!(RhythmTake::new().step(1, true, true, silence), Some(TakeEnd::Cancelled));
}

// ── system ──────────────────────────────────────────────────────────────────────────────────────

#[test]
fn pausing_stops_every_stream() {
    let mut g = Gates { paused: false, armed: false, streaming: true };
    let m = g.toggle_writes_paused();
    assert!(m.stop_streams && !m.resume && g.paused && !g.streaming);
    assert_eq!(m.status, "writes PAUSED — animation stopped");
    assert_eq!(m.stance, 0);
    let m = g.toggle_writes_paused();
    assert!(m.resume);
    assert_eq!(m.status, "writes armed");
    let m = g.toggle_writes_paused();
    assert_eq!(m.status, "writes PAUSED");
    let m = g.toggle_input_armed();
    assert_eq!((m.stance, g.armed), (2, true));
    assert_eq!(m.status, "INPUT ARMED — remaps + macros now fire real keystrokes");
    let _ = g.toggle_input_armed();
    assert!(!g.armed);
}

#[test]
fn a_stance_reads_back() {
    let mut g = Gates { paused: true, armed: false, streaming: false };
    for m in 0..4 {
        let was = g.paused;
        let mv = g.set_arm_stance(m);
        assert_eq!(arm_stance(g.paused, g.armed), m);
        assert_eq!(mv.resume, was && !g.paused);
    }
    // no such stance: the selector shows what the gates are
    assert_eq!(g.set_arm_stance(7).stance, 0);
    assert_eq!(g.set_arm_stance(3).stance, 3);
    g.streaming = true;
    let mv = g.set_arm_stance(0);
    assert!(mv.stop_streams && !g.streaming);
    assert_eq!(mv.status, "arm → OBSERVE (read-only: nothing fires)");
}

#[test]
fn a_way_to_start_reads_back() {
    for m in 0..3 {
        let (auto, tray) = set_launch_mode(m);
        assert_eq!(launch_mode_now(auto, tray.unwrap_or(true)), m);
    }
    assert_eq!(launch_mode_text(1, "ok"), "boot to tray — ok");
    assert_eq!(launch_mode_text(2, "ok"), "boot with window — ok");
    assert_eq!(launch_mode_text(0, "ok"), "ok");
}

#[test]
fn every_kind_of_notification_has_a_card() {
    let g = PingGates {
        dpi: true,
        sniper: false,
        scroll: false,
        polling: false,
        brightness: false,
        battery: true,
        side_plate: false,
        profile: false,
        layer: false,
        macros: true,
    };
    let (a, b, c) = refresh_ping_kinds(g);
    assert_eq!((a.len(), b.len(), c.len()), (4, 3, 3));
    assert!(a[0].on && !a[1].on && b[1].on && c[2].on);
    assert_eq!(c[2].icon, "beacon");
    for (d, row) in [a, b, c].iter().enumerate() {
        for (i, card) in row.iter().enumerate() {
            assert_eq!(ping_slot(card.kind), (d as u8, i as u8));
        }
    }
    assert_eq!(ping_copy(PingKind::Scroll), ("scroll", "sensitivity", "scroll modes"));
}

#[test]
fn the_health_in_words() {
    let organ = |age_ms, stalled| Organ { name: "o".to_string(), age_ms, stalled };
    let organs = vec![
        organ(None, true),
        organ(Some(5), true),
        organ(Some(999), false),
        organ(Some(2500), false),
    ];
    let r = refresh_reliability(&organs, false, 2);
    let got: Vec<(&str, &str)> =
        r.organs.iter().map(|o| (o.state, o.detail.as_str())).collect();
    assert_eq!(
        got,
        vec![
            ("rest", "at rest"),
            ("stall", "SILENT — wedged or dead"),
            ("beat", "beating · 999 ms ago"),
            ("beat", "beating · 2s ago"),
        ]
    );
    assert_eq!(r.summary, "2 crash/stall dump(s) on record in neuron-crash.log");
    assert!(r.present);
    assert!(!refresh_reliability(&vec![], false, 0).present);
    assert!(refresh_reliability(&vec![], true, 0).summary.starts_with("recovered"));
}

#[test]
fn a_book_opens_and_closes() {
    let mut g = Guide { open: false, active: String::new(), sticky: true, at: (0, 0) };
    g.toggle("weave", (3, 4));
    assert!(g.open && !g.sticky && g.at == (3, 4));
    g.sticky = true;
    g.toggle("light", (5, 6));
    assert!(g.open && g.active == "light" && !g.sticky);
    g.toggle("light", (7, 8));
    assert!(!g.open && g.at == (5, 6));
}

#[test]
fn colors_are_previewed_as_they_are_typed() {
    assert_eq!(preview_hex(" #4aF2b0 "), (true, false));
    assert_eq!(preview_hex("##4af2b0"), (true, false));
    assert_eq!(preview_hex("4af"), (false, false));
    assert_eq!(preview_hex("4ag"), (false, true));
    assert_eq!(preview_hex("4af2b00"), (false, true));
    assert_eq!(preview_hex(""), (false, false));
    assert_eq!(apply_weave_accent("4af2b0"), AccentStep::Clear);
    assert_eq!(apply_weave_accent("ff8000"), AccentStep::Tint(0xff8000));
    assert_eq!(apply_weave_accent("zz"), AccentStep::Nothing);
    assert_eq!(weave_accent_u32("zz"), 0x4AF2B0);
    assert_eq!(accent_parts(0xff8001), (0xff, 0x80, 0x01));
}

#[test]
fn a_swatch_is_written_unseen() {
    let mut c = Crossfade { cards: 0, show_alt: false };
    assert_eq!(c.upload_material_cards(6), Upload::Rebuild);
    assert_eq!(c.upload_material_cards(6), Upload::Second);
    assert!(c.show_alt);
    assert_eq!(c.upload_material_cards(6), Upload::First);
    assert!(!c.show_alt);
}

#[test]
fn a_batch_writes_what_the_device_takes() {
    assert!(apply_feel(true, true, true, true, true, true, true).is_none());
    let b = apply_feel(false, false, true, true, false, true, true).unwrap();
    assert!(!b.dpi && b.polling && b.brightness && !b.stages && !b.persist);
    assert_eq!(feel_applied(&vec![]), "nothing to apply");
    assert_eq!(feel_applied(&vec!["a".to_string(), "b".to_string()]), "a · b");
    assert!(recolor_now(2, 2, false, false, true));
    assert!(!recolor_now(-1, -1, false, false, true));
    assert!(!recolor_now(2, 2, false, true, true));
}

#[test]
fn snipers_modes_and_purges_in_words() {
    assert_eq!(sniper_dpi(0), 400);
    assert_eq!(sniper_dpi(800), 800);
    assert_eq!(sniper_bound("Alt", 400, &None), "sniper armed — hold Alt for 400 DPI");
    assert_eq!(sniper_bound("Alt", 400, &Some("e".to_string())), "sniper bind failed: e");
    assert_eq!(sniper_saved(400, &Ok(true)), "sniper DPI -> 400");
    assert_eq!(
        sniper_saved(400, &Ok(false)),
        "precision DPI 400 set — capture a hold button to arm it"
    );
    assert_eq!(sniper_saved(400, &Err("e".to_string())), "sniper DPI failed: e");
    assert_eq!(apply_gaming_mode(false, false, false, false), "gaming-mode off");
    assert!(apply_gaming_mode(false, true, false, false).starts_with("gaming-mode ARMED"));
    assert_eq!(
        purge_text(&PurgeOutcome::Done { killed: 0, stopped: 0, demoted: 0 }),
        "no Synapse left — already clean"
    );
    assert_eq!(
        purge_text(&PurgeOutcome::Done { killed: 3, stopped: 2, demoted: 1 }),
        "purged Synapse — set 1 service(s) to manual + stopped 2, killed 3 process(es)"
    );
    assert_eq!(purge_text(&PurgeOutcome::Failed("no".to_string())), "no");
    assert_eq!(mute_toggled(false, Some(true)), "mic muted");
    assert_eq!(mute_toggled(true, None), "no output device — nothing to mute");
}
