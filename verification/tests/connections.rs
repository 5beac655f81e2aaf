use neuron_app::base_lighting::{
    active, any_lighting, base_band, base_layers, clear_all_lighting, clear_lighting, has_lighting,
    lighting_targets, lost_surfaces, stream_pace, BaseStep, HostModel,
};
use neuron_app::bridge::{
    blend_from_mode_str, chroma_device_name, chroma_device_type, game_device_scope, io_gate,
    io_gate_all, keys_for_pid, kind_word, paint_surfaces, surface_keys, text_precedes, BlendMode,
    Bridge, Surface, SurfaceKind,
};
use neuron_app::chroma_shm::{
    create_error_text, shm_game_activated, spawn_chroma_shm, CreateError, ShmTick,
};
use neuron_app::host::{
    apply_protocol_prefs, bring_up, connect_obs, native_error_after, reconnect_obs, set_enabled,
    start, start_attempted, switch_step, take_host_events_dirty, EventWait, Gate, HostEvents,
    ObsConnect, Serving, Stage, StartProbe, SwitchStep, Wanted,
};
use neuron_app::host_card::{client_text, refresh_host_status, HostPrefs};
use neuron_app::obs::{
    hook_macro, hook_on_change, obs_snapshot, obs_verb, Hook, ObsArg, ObsCmd, ObsFollower,
    ObsSnapshot, SignalValue,
};
use neuron_app::status::{
    board_owner, client_statuses, covered_by_decision, dominant_colors, lit_units,
    native_chroma_status, status, Activity, Board, BoardOwner, Claim, ClientStatus, HostReadings,
    NativeReadings, Status,
};
use neuron_app::textmap::TextMap;

#[test]
fn blend_from_mode_str_maps_every_mode() {
    assert_eq!(blend_from_mode_str("replace"), BlendMode::Over);
    assert_eq!(blend_from_mode_str("boost"), BlendMode::Add);
    assert_eq!(blend_from_mode_str("tint"), BlendMode::Multiply);
    assert_eq!(blend_from_mode_str("merge"), BlendMode::Screen);
    assert_eq!(blend_from_mode_str("garbage"), BlendMode::Screen);
    assert_eq!(blend_from_mode_str(""), BlendMode::Screen);
}

#[test]
fn covered_by_decision_none_when_shm_wins_anywhere() {
    let (shm, base, other) = (1, 0, 2);
    let tops = vec![(shm, None), (other, Some("Aurora".into()))];
    assert_eq!(covered_by_decision(&tops, shm, base), None);
}

#[test]
fn covered_by_decision_names_the_foreign_winner() {
    let (shm, base, other) = (1, 0, 2);
    let tops = vec![(other, Some("OpenRGB Tool".into()))];
    assert_eq!(covered_by_decision(&tops, shm, base), Some("OpenRGB Tool".into()));
}

#[test]
fn covered_by_decision_falls_back_to_another_app() {
    let (shm, base, other) = (1, 0, 2);
    let tops = vec![(other, None), (other, Some(String::new()))];
    assert_eq!(covered_by_decision(&tops, shm, base), Some("another app".into()));
}

#[test]
fn covered_by_decision_ignores_the_apps_own_base() {
    let (shm, base) = (1, 0);
    let tops = vec![(base, None), (base, None)];
    assert_eq!(covered_by_decision(&tops, shm, base), None);
}

#[test]
fn covered_by_decision_none_when_nothing_claims_anything() {
    let (shm, base) = (1, 0);
    assert_eq!(covered_by_decision(&[], shm, base), None);
}

#[test]
fn shm_game_activated_on_connect_and_on_game_change() {
    assert!(shm_game_activated(None, Some(42)));
    assert!(shm_game_activated(Some(42), Some(99)));
}

#[test]
fn shm_game_activated_not_on_steady_state_or_exit() {
    assert!(!shm_game_activated(Some(42), Some(42)));
    assert!(!shm_game_activated(Some(42), None));
    assert!(!shm_game_activated(None, None));
}

fn surface(key: &str, name: &str, kind: SurfaceKind) -> Surface {
    Surface { key: key.to_string(), name: name.to_string(), kind, leds: 3 }
}

/// A keyboard and two twin mice.
fn bridge() -> Bridge {
    Bridge {
        surfaces: vec![
            surface("kb", "Keyboard", SurfaceKind::Keyboard),
            surface("m1", "Mouse", SurfaceKind::Mouse),
            surface("m2", "Mouse", SurfaceKind::Mouse),
        ],
        units: vec![
            ("unit-kb".to_string(), "kb".to_string()),
            ("unit-m1".to_string(), "m1".to_string()),
            ("unit-m2".to_string(), "m2".to_string()),
        ],
        pids: vec![
            (0x10, vec!["kb".to_string()]),
            (0x20, vec!["m1".to_string(), "m2".to_string()]),
        ],
    }
}

#[test]
fn a_unit_addresses_itself_alone() {
    let b = bridge();
    assert_eq!(surface_keys(&b, 0x20, "unit-m2"), vec!["m2"]);
    assert_eq!(surface_keys(&b, 0x20, ""), vec!["m1", "m2"]);
    assert_eq!(keys_for_pid(&b, 0x20), vec!["m1", "m2"]);
    assert!(keys_for_pid(&b, 0x99).is_empty());
}

#[test]
fn kinds_have_words_and_codes() {
    assert_eq!(kind_word(SurfaceKind::Keyboard), "keyboard");
    assert_eq!(kind_word(SurfaceKind::Mousepad), "mousepad");
    for k in [SurfaceKind::Keyboard, SurfaceKind::Mouse, SurfaceKind::Headset] {
        assert_eq!(chroma_device_name(chroma_device_type(k)), kind_word(k));
    }
}

#[test]
fn a_disabled_board_is_never_painted() {
    let b = bridge();
    assert_eq!(paint_surfaces(&b, &vec![]), None);
    let painted = paint_surfaces(&b, &vec!["unit-m1".to_string()]).unwrap();
    assert!(!painted.contains(&"m1".to_string()));
    assert!(painted.contains(&"kb".to_string()));
}

#[test]
fn gates_follow_the_writers() {
    let b = bridge();
    let writers = vec!["kb".to_string(), "m2".to_string()];
    let gate = io_gate(Some(&b), 0x20, &writers).unwrap();
    assert_eq!(gate.release(), vec!["m2".to_string()]);
    assert_eq!(io_gate(None, 0x20, &writers), None);
    assert!(io_gate_all(None, &writers).is_empty());
    assert_eq!(io_gate_all(Some(&b), &writers).len(), 2);
}

#[test]
fn the_scope_is_sorted_by_name() {
    let s = game_device_scope(&bridge());
    let names: Vec<&str> = s.iter().map(|d| d.name.as_str()).collect();
    assert_eq!(names.len(), 3);
    assert!(text_precedes("Keyboard", "Mouse"));
    assert!(!text_precedes("Mouse", "Keyboard"));
}

fn model() -> Option<HostModel<u32>> {
    Some(HostModel { bridge: bridge(), base_owner: 0, base: TextMap::new() })
}

#[test]
fn a_claimed_board_is_lit_until_it_is_cleared() {
    let mut host = model();
    assert!(active(&host));
    assert!(!any_lighting(&host));
    assert_eq!(lighting_targets(&host, 0x20, "unit-m1"), Some(vec!["m1".to_string()]));
    let h = host.as_mut().unwrap();
    assert!(matches!(h.begin("m1", 5), BaseStep::Claim(None)));
    assert!(h.claimed("m1", 5, 77, Some(9)));
    assert!(matches!(h.begin("m1", 5), BaseStep::Reuse(9)));
    assert!(matches!(h.reused("m1", 78, true), BaseStep::Done));
    // another band: the layer is claimed anew
    assert!(matches!(h.begin("m1", 6), BaseStep::Claim(Some(9))));
    assert!(h.claimed("m1", 6, 79, Some(10)));
    assert!(has_lighting(&host, 0x20, "unit-m1"));
    assert!(!has_lighting(&host, 0x20, "unit-m2"));
    assert_eq!(base_layers(host.as_ref().unwrap()), vec![10]);
    assert_eq!(lost_surfaces(host.as_ref().unwrap(), &vec![false]), vec!["m1"]);
    assert_eq!(clear_lighting(&mut host, 0x20, "unit-m1"), vec![10]);
    assert!(!has_lighting(&host, 0x20, "unit-m1"));
    assert!(!any_lighting(&host));
}

#[test]
fn clearing_one_board_spares_the_others() {
    let mut host = model();
    let h = host.as_mut().unwrap();
    assert!(h.claimed("kb", 1, 0, Some(1)));
    assert!(h.claimed("m1", 1, 0, Some(2)));
    assert!(!h.claimed("m2", 1, 0, None));
    assert_eq!(clear_lighting(&mut host, 0x10, "unit-kb"), vec![1]);
    assert!(has_lighting(&host, 0x20, "unit-m1"));
    assert_eq!(clear_all_lighting(&mut host), vec![2]);
    assert!(!any_lighting(&host));
    let mut none: Option<HostModel<u32>> = None;
    assert!(!active(&none));
    assert!(clear_all_lighting(&mut none).is_empty());
    assert!(!has_lighting(&none, 1, "u"));
}

#[test]
fn bands_and_paces() {
    assert_eq!(base_band(true, 9, 1), 9);
    assert_eq!(base_band(false, 9, 1), 1);
    assert_eq!(stream_pace(0, 30), 1);
    assert_eq!(stream_pace(60, 30), 30);
    assert_eq!(stream_pace(12, 30), 12);
}

#[test]
fn a_game_is_brought_up_kept_and_let_go() {
    let surfaces = vec![
        surface("kb", "Keyboard", SurfaceKind::Keyboard),
        surface("m1", "Mouse", SurfaceKind::Mouse),
    ];
    let mut shm = spawn_chroma_shm(&surfaces, &vec![Some(4), None]);
    assert_eq!(shm.layers.len(), 1);
    assert_eq!(shm.layers[0].key, "kb");
    assert!(matches!(shm.tick(true, Some(42), 1_000), ShmTick::ReclaimAll(_)));
    shm.reclaimed(0, Some(8));
    assert_eq!(shm.layers[0].id, 8);
    shm.reclaimed(0, None);
    assert_eq!(shm.layers[0].id, 8);
    assert!(matches!(shm.tick(true, Some(42), 1_100), ShmTick::Refresh(_)));
    assert!(matches!(shm.tick(false, None, 1_200), ShmTick::Refresh(_)));
    assert!(matches!(shm.tick(false, None, 1_000_000), ShmTick::Lapse));
}

#[test]
fn create_errors_have_words() {
    assert_eq!(
        create_error_text(CreateError::AlreadyServing),
        "another Chroma server (Razer Synapse) already owns the native connection"
    );
    assert_eq!(
        create_error_text(CreateError::Io),
        "needs elevation — start via the elevated tray task"
    );
}

fn claim(owner: u64, label: &str) -> Claim {
    Claim { owner, label: Some(label.to_string()) }
}

#[test]
fn the_owner_of_a_board() {
    assert_eq!(board_owner(None, &vec![vec![claim(2, "Game")]]), BoardOwner::Yours);
    assert_eq!(board_owner(Some(0), &vec![vec![claim(0, "me")]]), BoardOwner::Yours);
    assert_eq!(
        board_owner(Some(0), &vec![vec![claim(2, "Game"), claim(0, "me")]]),
        BoardOwner::Painting("Game".to_string())
    );
    assert_eq!(
        board_owner(Some(0), &vec![vec![claim(0, "me"), claim(2, "Game")]]),
        BoardOwner::Suppressed("Game".to_string())
    );
}

#[test]
fn clients_paint_where_they_are_on_top() {
    let boards = vec![
        Board { kind: SurfaceKind::Keyboard, claims: vec![claim(7, "a"), claim(0, "me")] },
        Board { kind: SurfaceKind::Keyboard, claims: vec![claim(7, "a")] },
        Board { kind: SurfaceKind::Mouse, claims: vec![claim(0, "me"), claim(7, "a")] },
    ];
    let cs = client_statuses(&vec![(7, "Overwatch".to_string()), (8, String::new())], &boards, false);
    assert_eq!(cs[0].name, "Overwatch");
    assert_eq!(cs[0].painting, vec!["keyboard"]);
    assert!(cs[0].has_claim);
    assert!(!cs[0].muted);
    assert!(cs[1].painting.is_empty());
    assert!(!cs[1].has_claim);
}

#[test]
fn the_lit_units_and_their_colors() {
    let units = vec![(0, 0, 0), (255, 0, 0), (255, 0, 0), (0, 0, 255), (0, 0, 0)];
    assert_eq!(lit_units(&units, 0), 3);
    assert_eq!(lit_units(&units, 2), 2);
    let colors = dominant_colors(&units, 0);
    assert_eq!(colors.len(), 2);
    assert!(colors[0].0 > 0 && colors[0].2 == 0);
    assert!(colors[1].2 > 0);
}

fn readings() -> HostReadings {
    HostReadings {
        bridge: bridge(),
        boards: vec![],
        base_owner: 0,
        chroma_sessions: Some(vec![]),
        chroma_strength: 100,
        openrgb_clients: None,
        openrgb_strength: 100,
        native: None,
        native_error: Some("needs elevation".to_string()),
        obs: Some(true),
        mirror: ObsSnapshot {
            connected: true,
            scene: "Game".to_string(),
            streaming: true,
            recording: false,
        },
    }
}

#[test]
fn the_status_shows_what_is_open() {
    let closed: Status = status(&None);
    assert!(!closed.active);
    assert_eq!(closed.devices, 0);
    let s = status(&Some(readings()));
    assert!(s.active);
    assert_eq!(s.devices, 3);
    assert!(s.chroma_serving);
    assert!(!s.openrgb_serving);
    assert!(s.obs_connected);
    assert_eq!(s.obs_scene, "Game");
    assert_eq!(s.chroma_native_error.as_deref(), Some("needs elevation"));
}

#[test]
fn a_lost_obs_shows_nothing_of_what_it_said() {
    let mut r = readings();
    r.obs = Some(false);
    let s = status(&Some(r));
    assert!(!s.obs_connected);
    assert_eq!(s.obs_scene, "");
    assert!(!s.obs_streaming);
    assert!(!s.obs_recording);
}

#[test]
fn a_native_game_is_shown_with_its_streams() {
    let n = NativeReadings {
        connected: true,
        summary: Some((1, "custom".to_string())),
        process: Some("game.exe".to_string()),
        activities: vec![Activity {
            device_type: chroma_device_type(SurfaceKind::Keyboard),
            effect: "custom".to_string(),
            timestamp_ms: 5,
            units: Some(vec![(1, 2, 3), (0, 0, 0)]),
            lead: 0,
        }],
        tops: vec![(7, Some("Aurora".to_string()))],
        src: 1,
    };
    let (serving, game) = native_chroma_status(&Some(n), 0);
    assert!(serving);
    let g = game.unwrap();
    assert_eq!(g.game, "game.exe");
    assert_eq!(g.effect, "custom");
    assert_eq!(g.covered_by.as_deref(), Some("Aurora"));
    assert_eq!(g.streams.len(), 1);
    assert_eq!(g.streams[0].device, "keyboard");
    assert_eq!(g.streams[0].lit, 1);
    assert_eq!(g.streams[0].total, 2);
    assert!(!native_chroma_status(&None, 0).0);
}

fn prefs() -> HostPrefs {
    HostPrefs { chroma: true, openrgb: true, obs: true, lighting_wins: false }
}

#[test]
fn the_card_in_words() {
    let c = refresh_host_status(&status(&None), prefs());
    assert!(!c.enabled);
    assert_eq!(c.chroma_status, "waiting for connections to open");
    assert_eq!(c.devices_line, "");
    let c = refresh_host_status(&status(&Some(readings())), prefs());
    assert_eq!(c.chroma_status, "ready on 127.0.0.1:54235");
    assert_eq!(c.openrgb_status, "port 6742 is in use, maybe by Razer Synapse");
    assert_eq!(c.obs_status, "connected to OBS · scene: Game · LIVE");
    assert_eq!(c.devices_line, "Neuron is sharing 3 devices.");
    assert!(c.chroma_live && !c.openrgb_live && c.obs_live);
    // a closed gate reads off, whatever runs
    let off = HostPrefs { chroma: false, openrgb: false, obs: false, lighting_wins: true };
    let c = refresh_host_status(&status(&Some(readings())), off);
    assert_eq!(c.chroma_status, "off");
    assert_eq!(c.obs_status, "off");
    assert!(!c.chroma_live && c.lighting_wins);
}

fn client(name: &str, painting: &[&str], has_claim: bool) -> ClientStatus {
    ClientStatus {
        name: name.to_string(),
        painting: painting.iter().map(|s| s.to_string()).collect(),
        has_claim,
        muted: false,
    }
}

#[test]
fn clients_in_words() {
    assert_eq!(client_text(&vec![]), None);
    assert_eq!(
        client_text(&vec![client("Overwatch", &["keyboard", "mouse"], true)]).as_deref(),
        Some("Overwatch is painting your keyboard + mouse")
    );
    assert_eq!(
        client_text(&vec![client("A", &["keyboard"], true), client("", &["keyboard"], true)])
            .as_deref(),
        Some("A + an unnamed app are painting your keyboard")
    );
    assert_eq!(
        client_text(&vec![client("A", &[], true)]).as_deref(),
        Some("A is waiting underneath your lighting")
    );
    assert_eq!(
        client_text(&vec![client("A", &[], false)]).as_deref(),
        Some("A is connected, not painting yet")
    );
}

#[test]
fn a_start_honors_the_override_and_the_saved_choice() {
    let mut p = StartProbe { attempted: false };
    assert!(!start_attempted(&p));
    assert!(start(&mut p, None, true));
    assert!(start_attempted(&p));
    assert!(!start(&mut p, Some("0"), true));
    assert!(!start(&mut p, Some("OFF"), true));
    assert!(start(&mut p, Some("On"), false));
    assert!(!start(&mut p, Some("maybe"), false));
}

#[test]
fn an_event_is_noticed_once() {
    let mut e = HostEvents { subscribed: true, stamp: u64::MAX };
    let mut seen = u64::MAX;
    assert!(!take_host_events_dirty(e.stamp, &mut seen));
    e.waited(EventWait::Signal);
    assert_eq!(e.stamp, 0);
    assert!(take_host_events_dirty(e.stamp, &mut seen));
    assert!(!take_host_events_dirty(e.stamp, &mut seen));
    e.waited(EventWait::Timeout);
    assert!(e.subscribed);
    e.waited(EventWait::Disconnected);
    assert!(!e.subscribed);
    e.resubscribed(true);
    assert!(e.subscribed);
}

#[test]
fn coming_up_needs_every_stage() {
    let mut s = Stage::Election;
    let mut steps = 0;
    while s != Stage::Up {
        assert!(bring_up(s, false).is_none() || s == Stage::Writers || s == Stage::Events);
        s = bring_up(s, true).unwrap();
        steps += 1;
    }
    assert_eq!(steps, 5);
}

#[test]
fn gates_are_raised_and_dropped() {
    let want = Wanted { chroma: true, openrgb: false, obs: true };
    let have = Serving { chroma: false, native: false, openrgb: true, obs: true };
    let p = apply_protocol_prefs(want, Some(have)).unwrap();
    assert_eq!(p.chroma, Gate::Raise);
    assert_eq!(p.openrgb, Gate::Drop);
    assert_eq!(p.obs, Gate::Keep);
    assert!(apply_protocol_prefs(want, None).is_none());
    assert!(reconnect_obs(Some(have)));
    assert!(!reconnect_obs(None));
    assert_eq!(connect_obs(true, true), ObsConnect::Kept);
    assert_eq!(connect_obs(true, false), ObsConnect::NoFollower);
    assert_eq!(connect_obs(false, false), ObsConnect::NoConnection);
}

#[test]
fn the_reason_of_a_missing_native_face() {
    let e = Some("needs elevation".to_string());
    assert_eq!(native_error_after(false, false, e.clone(), None), None);
    assert_eq!(native_error_after(true, false, e.clone(), None), e);
    assert_eq!(native_error_after(true, true, None, e.clone()), e);
}

#[test]
fn the_switch_in_words() {
    assert_eq!(set_enabled(true, true, &None), "connections already open");
    assert_eq!(set_enabled(false, false, &None), "connections already closed");
    assert_eq!(set_enabled(false, true, &None), "connections closed");
    let raised = status(&Some(readings()));
    assert_eq!(
        set_enabled(true, false, &Some(raised)),
        "connections open — 3 device(s), chroma serving, openrgb port busy"
    );
    assert!(set_enabled(true, false, &None).starts_with("connections couldn't open"));
    assert_eq!(switch_step(true, false), SwitchStep::Open);
    assert_eq!(switch_step(false, true), SwitchStep::Close);
    assert_eq!(switch_step(true, true), SwitchStep::Nothing);
}

fn word(text: &str) -> ObsArg {
    ObsArg { text: Some(text.to_string()), kind: None, data: None }
}

fn mirror(connected: bool) -> ObsSnapshot {
    ObsSnapshot { connected, scene: "Game".to_string(), streaming: true, recording: false }
}

#[test]
fn verbs_read_the_mirror_and_send_commands() {
    let m = mirror(true);
    let r = obs_verb(&m, "obs_get", &word("scene"));
    assert!(r.ok && r.message == "Game" && r.command.is_none());
    let r = obs_verb(&m, "obs_get", &word("streaming"));
    assert_eq!(r.message, "true");
    let r = obs_verb(&m, "obs_get", &word("moon"));
    assert!(!r.ok);
    let r = obs_verb(&m, "obs_scene", &word("Intro"));
    assert!(r.ok && r.message == "obs scene → Intro");
    assert!(matches!(r.command, Some(ObsCmd::SetScene(_))));
    let r = obs_verb(&m, "obs_record", &word("pause"));
    assert!(matches!(r.command, Some(ObsCmd::Raw { .. })));
    let r = obs_verb(&m, "obs_stream", &ObsArg { text: None, kind: None, data: None });
    assert!(matches!(r.command, Some(ObsCmd::ToggleStream)));
    assert!(!obs_verb(&m, "obs_scene", &word("")).ok);
    assert!(!obs_verb(&m, "obs_dance", &word("x")).ok);
}

#[test]
fn nothing_is_sent_unless_connected() {
    let m = mirror(false);
    let r = obs_verb(&m, "obs_stream", &word("start"));
    assert!(!r.ok && r.command.is_none());
    assert_eq!(r.message, "OBS not connected (open SYSTEM → CONNECTIONS)");
    assert_eq!(obs_verb(&m, "obs_get", &word("connected")).message, "false");
    assert_eq!(obs_verb(&m, "obs_get", &word("scene")).message, "OBS not connected");
}

#[test]
fn hooks_fire_on_a_change_only() {
    let mut prev = None;
    assert!(!hook_on_change(&mut prev, true));
    assert!(!hook_on_change(&mut prev, true));
    assert!(hook_on_change(&mut prev, false));
    assert_eq!(prev, Some(false));
    assert!(!hook_macro(Hook::Stream).is_empty());
}

#[test]
fn the_follower_mirrors_what_was_announced() {
    let mut f = ObsFollower::new(true);
    assert!(!obs_snapshot(&f.mirror).connected);
    let before = f.mirror.scene.clone();
    let _ = f.signal("somewhere/else", SignalValue::Text("x".to_string()));
    assert_eq!(f.mirror.scene, before);
    f.disconnected();
    assert!(!f.subscribed);
    let _ = f.resubscribed(true);
    assert!(f.subscribed);
    f.stop();
    let s = obs_snapshot(&f.mirror);
    assert!(!s.connected && s.scene.is_empty() && !s.streaming && !s.recording);
}
