use neuron_app::devices::{
    audio_detail_text, audio_rows, light_capable_units, nearest_row, patch_selected_audio_detail,
    pid_of_row, reading_without_unit, refresh_devices, refresh_plated_row, refresh_selected_plate,
    select_device_at, selected_audio_id, Before, Caps, DeviceRow, Endpoint, Flow, ScannedDevice,
    SelectTarget,
};
use neuron_app::editors::{
    lod_level_label, parse_dpi_stage_editor, parse_idle_editor, parse_scroll_stage_editor,
    pid_supports_hyperpoll, pid_supports_snap_tap, refresh_idle_readout, refresh_lod_readout,
    refresh_snap_tap, sync_idle_editor, sync_stage_nums, LodView,
};
use neuron_app::meters::{ClipLamp, PeakHold, CLIP_UPDATES, HOLD_UPDATES};
use neuron_app::naming::{
    app_stem, fmt_uptime, free_glyph_name, phrase_symbols, refresh_profile_suggestion,
    rhythm_symbols, strip_all, sync_activation_view, Beat,
};
use neuron_app::source_scan::{
    beacon_questions, first_line, has_ask, option_count_from_source, refresh_beacon_macros,
};
use neuron_app::text::{
    contains_text, drop_empty, find_text, join, list_has, parse_number, same_text, show_hex4,
    show_i64, show_two_digits, show_u64, split_chars, split_once, starts_with, trim, trim_all,
};
use neuron_app::textmap::TextMap;

#[test]
fn app_stem_peels_ue_packaging_but_keeps_real_hyphens() {
    assert_eq!(app_stem("C:\\Games\\FN\\FortniteClient-Win64-Shipping.exe"), "FortniteClient");
    assert_eq!(app_stem("PubgClient-Win64-Test.exe"), "PubgClient");
    assert_eq!(app_stem("Game-WinGDK-Shipping.exe"), "Game");
    assert_eq!(app_stem("Counter-Strike.exe"), "Counter-Strike");
    assert_eq!(app_stem("Apex_Legends.exe"), "Apex_Legends");
    assert_eq!(app_stem("chrome.exe"), "chrome");
}

#[test]
fn a_free_name_is_found_by_counting_on() {
    let mut s = refresh_profile_suggestion("valorant.exe", 800, "");
    assert_eq!(s.candidate(), "valorant");
    assert_eq!(s.step(true), None);
    assert_eq!(s.candidate(), "valorant 2");
    assert_eq!(s.step(true), None);
    assert_eq!(s.step(false).as_deref(), Some("valorant 3"));
    assert_eq!(refresh_profile_suggestion("—", 800, "wave").candidate(), "800 wave");
    assert_eq!(refresh_profile_suggestion("", 800, "").candidate(), "800 dpi");
    let mut s = refresh_profile_suggestion("", 0, "");
    assert_eq!(s.candidate(), "profile 1");
    assert_eq!(s.step(true), None);
    assert_eq!(s.step(false).as_deref(), Some("profile 2"));
}

#[test]
fn the_first_free_glyph_name() {
    assert_eq!(free_glyph_name(&vec![]), "glyph_1");
    let names = vec!["glyph_1".to_string(), "glyph_3".to_string()];
    assert_eq!(free_glyph_name(&names), "glyph_2");
}

#[test]
fn uptimes_in_words() {
    assert_eq!(fmt_uptime(59_999), "59s");
    assert_eq!(fmt_uptime(65_000), "1m 05s");
    assert_eq!(fmt_uptime(3_720_000), "1h 02m");
    assert_eq!(fmt_uptime(90_000_000), "1d 01h");
}

#[test]
fn rhythms_in_symbols() {
    assert_eq!(rhythm_symbols(0), "▬");
    assert_eq!(rhythm_symbols(2), "● ● ▬");
    assert_eq!(phrase_symbols(&vec![Beat::Tap, Beat::Tap, Beat::Hold]), rhythm_symbols(2));
    assert_eq!(phrase_symbols(&vec![Beat::Tap]), "● ↔");
    assert_eq!(sync_activation_view("bad", &None), ("bad".to_string(), "▬".to_string()));
}

#[test]
fn suffixes_are_stripped_as_often_as_they_occur() {
    assert_eq!(strip_all("a.exe.exe", ".exe"), "a");
    assert_eq!(strip_all("a", ""), "a");
}

#[test]
fn dpi_stages_are_read_and_counted() {
    let p = parse_dpi_stage_editor("400/800, 1600");
    assert_eq!(p.nums, vec![400, 800, 1600]);
    assert!(p.valid);
    assert_eq!(p.note, "3 stages ready");
    assert_eq!(parse_dpi_stage_editor("400").note, "1 stage ready");
    let p = parse_dpi_stage_editor("400 abc 99 30001");
    assert!(!p.valid);
    assert_eq!(p.nums, vec![400]);
    assert_eq!(p.note, "invalid: abc, 99, 30001 (use 100-30000)");
    assert_eq!(parse_dpi_stage_editor(" ").note, "enter at least one DPI stage");
    let p = parse_dpi_stage_editor("100/200/300/400/500/600/700");
    assert!(!p.valid);
    assert_eq!(p.note, "device table holds 5 stages; remove 2");
    assert_eq!(sync_stage_nums("400/800", 7).active, 1);
    assert_eq!(sync_stage_nums("", 7).active, 0);
}

#[test]
fn scroll_stages_are_modes() {
    assert!(parse_scroll_stage_editor("Tactile/FREE").valid);
    assert_eq!(parse_scroll_stage_editor("tactile free").note, "2 modes ready");
    assert_eq!(parse_scroll_stage_editor("").note, "enter tactile/free modes");
    assert_eq!(parse_scroll_stage_editor("fast").note, "invalid: fast (use tactile/free)");
    assert!(parse_scroll_stage_editor("3").valid);
    assert!(!parse_scroll_stage_editor("300").valid);
}

#[test]
fn idle_seconds_are_read() {
    assert_eq!(parse_idle_editor(" 300 ").secs, Some(300));
    assert_eq!(parse_idle_editor("300").note, "300s ready");
    assert_eq!(parse_idle_editor("0").note, "never sleep ready");
    assert_eq!(parse_idle_editor("").note, "enter seconds");
    assert_eq!(parse_idle_editor("65536").note, "use 0-65535 seconds");
    let e = sync_idle_editor("x", 42);
    assert_eq!(e.secs, 42);
    assert!(!e.valid);
    let shown = refresh_idle_readout(Some(60));
    assert_eq!(shown.readout, "60s");
    let (text, e) = shown.editor.expect("a read timer fills the editor");
    assert_eq!(text, "60");
    assert_eq!(e.secs, 60);
    assert!(e.valid);
    let unread = refresh_idle_readout(None);
    assert_eq!(unread.readout, "—");
    assert!(unread.editor.is_none());
}

#[test]
fn a_clip_lamp_is_lit_for_sixty_updates() {
    let mut lamp = ClipLamp::new();
    assert!(!lamp.lit());
    for _ in 0..100 {
        lamp.update(false);
        assert!(!lamp.lit());
    }
    for _ in 0..2 {
        lamp.update(true);
        assert!(lamp.lit());
        for _ in 1..CLIP_UPDATES {
            lamp.update(false);
            assert!(lamp.lit());
        }
        lamp.update(false);
        assert!(!lamp.lit());
    }
}

#[test]
fn a_held_peak_falls_after_a_second() {
    let mut hold = PeakHold::new();
    assert!(!hold.update(true));
    for _ in 0..HOLD_UPDATES {
        assert!(!hold.update(false));
    }
    assert!(hold.update(false));
    assert!(!hold.update(true));
}

#[test]
fn lift_off_levels() {
    assert_eq!(lod_level_label(0), "low");
    assert_eq!(lod_level_label(1), "medium");
    assert_eq!(lod_level_label(2), "high");
    let old = LodView { split: false, level: 1, lift: 0, land: 0, readout: "x".to_string() };
    let v = refresh_lod_readout(old, None, Some(2));
    assert_eq!(v.level, 2);
    assert_eq!(v.readout, "high");
}

#[test]
fn capabilities_by_product() {
    assert!(pid_supports_hyperpoll(0x00B3));
    assert!(!pid_supports_hyperpoll(1));
    assert!(pid_supports_snap_tap(0x02A6));
    assert!(!pid_supports_snap_tap(0x02A9));
    let listed = |icon: &str, pid: u16, connected: bool| {
        let mut d = scanned("Board", pid, "u1", None);
        d.icon = icon.to_string();
        d.connected = connected;
        refresh_devices(&vec![d], &vec![], &vec![], "").0
    };
    assert_eq!(refresh_snap_tap(&listed("keyboard", 0x02A6, true), true), (true, true));
    assert_eq!(refresh_snap_tap(&listed("keyboard", 0x02A6, true), false), (true, false));
    assert_eq!(refresh_snap_tap(&listed("keyboard", 0x0221, true), true), (false, false));
    assert_eq!(refresh_snap_tap(&listed("mouse", 0x02A6, true), true), (false, false));
    // one that went away
    assert_eq!(refresh_snap_tap(&listed("keyboard", 0x02A6, false), true), (false, false));
}

fn caps(light: bool, plate: bool) -> Caps {
    Caps {
        dpi: true,
        poll: true,
        light,
        bright: light,
        scroll: false,
        store: false,
        idle: false,
        plate,
    }
}

fn scanned(name: &str, pid: u16, instance: &str, plate: Option<&str>) -> ScannedDevice {
    ScannedDevice {
        name: name.to_string(),
        codename: "code".to_string(),
        pid,
        mode: "wired".to_string(),
        connected: true,
        firmware: "1.0".to_string(),
        dpi: "800".to_string(),
        polling: "1000 Hz".to_string(),
        brightness: "50%".to_string(),
        battery: "".to_string(),
        charging: false,
        storage: "".to_string(),
        icon: "mouse".to_string(),
        instance: instance.to_string(),
        caps: caps(true, plate.is_some()),
        last_plate: plate.map(|p| p.to_string()),
    }
}

fn endpoint(name: &str, id: &str, muted: bool) -> Endpoint {
    Endpoint { name: name.to_string(), id: id.to_string(), muted, percent: 42 }
}

fn rows() -> (Vec<DeviceRow>, usize) {
    refresh_devices(
        &vec![
            scanned("Naga", 0x00A8, "u1", Some("12-button")),
            scanned("Naga", 0x00A8, "u2", None),
        ],
        &vec![endpoint("RAZER Seiren", "mic1", true), endpoint("Other", "mic2", false)],
        &vec![endpoint("Razer Kraken", "out1", false)],
        "u2",
    )
}

#[test]
fn a_selection_survives_a_scan() {
    let (rs, at) = rows();
    assert_eq!(rs.len(), 5);
    assert_eq!(at, 1);
    assert_eq!(rs[0].pid, "00a8");
    assert_eq!(rs[0].plate, "12-button");
    assert_eq!(rs[1].plate, "");
    assert_eq!(rs[2].detail, "mic · muted");
    assert_eq!(rs[3].detail, "mic · 42%");
    assert_eq!(rs[4].detail, "output · 42%");
    assert_eq!(pid_of_row(&rs[0].pid), 0x00A8);
    assert_eq!(pid_of_row("zz"), 0);
}

#[test]
fn selecting_a_row_shows_it() {
    let (rs, _) = rows();
    let before = Before {
        pid: 0x00A8,
        unit: "u1".to_string(),
        caps: caps(false, false),
        hyperpoll: false,
    };
    let s = select_device_at(&rs, 1, &None, &before);
    assert_eq!(s.index, 1);
    match s.target {
        Some(SelectTarget::Hid { pid, unit, changed }) => {
            assert_eq!(pid, 0x00A8);
            assert_eq!(unit, "u2");
            assert!(changed);
        }
        _ => panic!("a device"),
    }
    let s = select_device_at(&rs, 99, &None, &before);
    assert_eq!(s.index, 4);
    assert!(matches!(s.target, Some(SelectTarget::Audio { flow: Flow::Render, .. })));
    let s = select_device_at(&vec![], 0, &None, &before);
    assert_eq!(s.index, -1);
    assert_eq!(s.name, "—");
    assert!(s.target.is_none());
    assert_eq!(nearest_row(4, -3), Some(0));
    assert_eq!(nearest_row(0, 0), None);
}

#[test]
fn every_endpoint_has_a_row() {
    let es = vec![endpoint("Razer A", "a", false), endpoint("B", "b", false)];
    let rs = audio_rows(&es, Flow::Capture);
    assert_eq!(rs.len(), 2);
    assert_eq!((rs[0].kind.as_str(), rs[0].id.as_str()), ("mic", "a"));
    assert_eq!((rs[1].kind.as_str(), rs[1].id.as_str()), ("mic", "b"));
    assert_eq!(audio_detail_text("mic", false, 7), "mic · 7%");
    let (all, _) = rows();
    assert_eq!(selected_audio_id(&all, 2).as_deref(), Some("mic1"));
    assert_eq!(selected_audio_id(&all, 0), None);
    assert_eq!(
        patch_selected_audio_detail(&all, 4, true, 42).as_deref(),
        Some("output · muted")
    );
}

#[test]
fn readouts_and_plates() {
    assert_eq!(reading_without_unit(" 1000 Hz ", "Hz"), "1000");
    assert_eq!(refresh_selected_plate(true, "a", &Some("b".to_string())).as_deref(), Some("b"));
    assert_eq!(refresh_selected_plate(true, "b", &Some("b".to_string())), None);
    let (rs, _) = rows();
    let new = vec![Some("6-button".to_string()), None, None, None, None];
    let changed = refresh_plated_row(&rs, &new);
    assert_eq!(changed, vec![(0, "6-button".to_string())]);
    let units: Vec<(u16, String)> = light_capable_units(&rs);
    assert_eq!(units, vec![(0x00A8, "u1".to_string()), (0x00A8, "u2".to_string())]);
}

#[test]
fn questions_are_found_in_a_source() {
    assert_eq!(beacon_questions("x = 1"), None);
    assert_eq!(
        beacon_questions("neuron.ask(\"go?\")\nneuron.ask(f'sure?')").as_deref(),
        Some("go? · sure?")
    );
    assert_eq!(
        beacon_questions("neuron.ask(q)").as_deref(),
        Some("(question set at run time)")
    );
    // a longer name that ends the same way is no call; nor is one with a letter of any script
    assert_eq!(beacon_questions("task(\"x\")"), None);
    assert_eq!(beacon_questions("éask(\"x\")"), None);
    assert!(has_ask("if neuron.ask('a'):"));
    assert!(!has_ask("ask('a')"));
    let ms = vec![
        ("a".to_string(), "neuron.ask('q')".to_string()),
        ("b".to_string(), "pass".to_string()),
    ];
    let found = refresh_beacon_macros(&ms);
    assert_eq!(found.len(), 1);
    assert_eq!(found[0].name, "a");
    assert_eq!(found[0].asks, "q");
}

#[test]
fn options_are_counted_in_their_list() {
    assert_eq!(option_count_from_source("x = [{\"key\": 1}]"), 0);
    let src = "NEURON_OPTIONS = [{\"key\": 'a', 'x': [1]}, {'key': 'b'}]\ny = [{'key': 1}]";
    assert_eq!(option_count_from_source(src), 2);
}

#[test]
fn the_first_line_is_trimmed() {
    assert_eq!(first_line("  boom \r\nmore"), "boom");
    assert_eq!(first_line(""), "");
}

#[test]
fn texts_are_split_joined_and_trimmed() {
    assert_eq!(trim("\t a b \u{00a0}"), "a b");
    let parts = split_chars("a,b c", &[',', ' ']);
    assert_eq!(parts, vec!["a", "b", "c"]);
    assert_eq!(drop_empty(vec!["".to_string(), "x".to_string()]), vec!["x"]);
    assert_eq!(trim_all(&vec![" a ".to_string()]), vec!["a"]);
    assert_eq!(join(&vec!["a".to_string(), "b".to_string()], " + "), "a + b");
    assert_eq!(split_once("a = b = c", " = "), Some(("a".to_string(), "b = c".to_string())));
    assert_eq!(split_once("abc", "="), None);
    assert!(contains_text("hello", "ell"));
    assert!(!contains_text("hello", "elo"));
    assert!(contains_text("x", ""));
    assert!(starts_with("hello", "he"));
    assert!(same_text("é", "é"));
    assert!(list_has(&parts, "b"));
    assert_eq!(find_text(&parts, "c"), Some(2));
}

#[test]
fn numbers_are_written_and_read() {
    assert_eq!(show_u64(0), "0");
    assert_eq!(show_u64(1234567890), "1234567890");
    assert_eq!(show_i64(-42), "-42");
    assert_eq!(show_hex4(0x00A8), "00a8");
    assert_eq!(show_two_digits(7), "07");
    for n in [0u64, 9, 10, 65535] {
        assert_eq!(parse_number(&show_u64(n), 10, 65535), Some(n));
    }
    assert_eq!(parse_number("65536", 10, 65535), None);
    assert_eq!(parse_number("+7", 10, 255), Some(7));
    assert_eq!(parse_number("", 10, 255), None);
    assert_eq!(parse_number("fF", 16, 255), Some(255));
}

#[test]
fn a_map_of_texts() {
    let mut m: TextMap<u8> = TextMap::new();
    m.insert("a", 1);
    m.insert("b", 2);
    m.insert("a", 3);
    assert_eq!(m.get("a"), Some(&3));
    assert!(m.contains("b"));
    assert_eq!(m.remove("b"), Some(2));
    assert_eq!(m.remove("b"), None);
    assert_eq!(m.entries.len(), 1);
}
