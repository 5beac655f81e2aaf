use neuron_app::arming::{
    arm_new, event_def, hardware_mute_products, mute_writable_products, note_audio_capability,
    wants_reader, Armed, CapabilitySurface, Collection,
};
use neuron_app::charge::{battery_reading, settle_cap_ms, ChargeSettle, SettleStep};
use neuron_app::hidwatch::{
    announced_heals, button_intent, button_is_ours, flush_batch, mute_bridged, mute_event_state,
    read_report, reassert_allowed, Batch, Confirm, Decoded, Direction, EventKind, Intent, Listener,
    Push, Report, BATCH_SETTLE_MS, REASSERT_DEBOUNCE_MS,
};
use neuron_app::reader::{
    battery_note, BatteryNote, ReadStep, Reader, ReaderAct, ReaderEvent, ReaderState,
};
use neuron_app::registry::{def_for_pid, dpi_pid, plate_label, DeviceDef, Registry, RegistryCell};

const NAGA_PID: u16 = 0x00A8;

/// The number of stages of the scroll wheel.
const STAGES: u32 = 4;

fn naga() -> DeviceDef {
    DeviceDef {
        vendor_id: 0x1532,
        product_ids: vec![0x00A7, NAGA_PID],
        dialect: "razer".to_string(),
        dpi: true,
        side_plates: vec![
            (0x01, "2-button".to_string()),
            (0x03, "12-button".to_string()),
            (0x04, "6-button".to_string()),
        ],
    }
}

fn registry() -> Registry {
    Registry { devices: vec![naga()] }
}

/// One report of the family that pushes settings.
fn report(kind: u8, b2: u8, b3: u8) -> [u8; 16] {
    let mut buf = [0u8; 16];
    buf[0] = 0x05;
    buf[1] = kind;
    buf[2] = b2;
    buf[3] = b3;
    buf
}

fn feed(l: &mut Listener, now: u64, kind: u8, b2: u8, b3: u8) -> Decoded {
    l.decode(&registry(), &report(kind, b2, b3), NAGA_PID, None, None, STAGES, now)
}

fn dpi_report(l: &mut Listener, now: u64, dpi: u16) -> Decoded {
    let [hi, lo] = dpi.to_be_bytes();
    feed(l, now, 0x02, hi, lo)
}

fn scroll_report(l: &mut Listener, now: u64, stage: u8) -> Decoded {
    feed(l, now, 0x3a, stage, 0)
}

fn plate_report(l: &mut Listener, now: u64, id: u8) -> Decoded {
    feed(l, now, 0x0e, id, 0)
}

/// What the confirmation core is told once the last report settled.
fn settle(l: &mut Listener, d: Decoded) -> Vec<Confirm> {
    let generation = match d {
        Decoded::Dpi { settle, .. } => settle,
        Decoded::Scroll { settle } => settle,
        Decoded::Plate { settle } => settle,
        _ => panic!("nothing to settle"),
    };
    match l.batch_take(NAGA_PID, generation) {
        Some(b) => flush_batch(b, STAGES),
        None => Vec::new(),
    }
}

/// The plate that the core holds afterwards.
fn learned_plate(cs: &[Confirm]) -> Option<String> {
    cs.iter()
        .filter_map(|c| match c {
            Confirm::PrimeSidePlate(_, label) => Some(label.clone()),
            Confirm::ObserveSidePlate(_, label) => Some(label.clone()),
            _ => None,
        })
        .last()
}

/// The confirmations that can show a card.
fn cards(cs: &[Confirm]) -> usize {
    cs.iter()
        .filter(|c| {
            matches!(
                c,
                Confirm::ObserveDpi(_) | Confirm::ObserveScroll(_, _) | Confirm::ObserveSidePlate(_, _)
            )
        })
        .count()
}

#[test]
fn registry_cache_swaps_on_reload_instead_of_freezing_startup() {
    let mut cell = RegistryCell::new();
    cell.registry(Some(Registry { devices: vec![] }));
    let before = cell.current.as_ref().map(|r| r.devices.len());
    cell.reload_registry(Some(registry()));
    let after = cell.current.as_ref().map(|r| r.devices.len());
    assert!(
        before != after,
        "reload_registry must swap in a freshly loaded snapshot, not keep the startup one"
    );
    // a first read stays, and a failed reload keeps what is there
    cell.registry(Some(Registry { devices: vec![] }));
    assert_eq!(cell.current.as_ref().map(|r| r.devices.len()), Some(1));
    cell.reload_registry(None);
    assert_eq!(cell.current.as_ref().map(|r| r.devices.len()), Some(1));
}

#[test]
fn plate_label_resolves_strap_codes_via_registry() {
    let reg = registry();
    assert_eq!(plate_label(&reg, NAGA_PID, 0x01), "2-button");
    assert_eq!(plate_label(&reg, NAGA_PID, 0x03), "12-button");
    assert_eq!(plate_label(&reg, NAGA_PID, 0x04), "6-button");
    assert_eq!(plate_label(&reg, NAGA_PID, 0x00), "detached");
    assert_eq!(plate_label(&reg, NAGA_PID, 0x09), "plate 9");
}

#[test]
fn lone_plate_report_settles_and_reaches_confirm() {
    let mut l = Listener::new();
    let d = plate_report(&mut l, 0, 0x03);
    let cs = settle(&mut l, d);
    assert_eq!(learned_plate(&cs).as_deref(), Some("12-button"));
}

#[test]
fn settle_window_keeps_only_the_last_plate_value() {
    let mut l = Listener::new();
    let _ = plate_report(&mut l, 0, 0);
    let _ = plate_report(&mut l, 10, 1);
    let _ = plate_report(&mut l, 20, 0);
    let d = plate_report(&mut l, 30, 1);
    let cs = settle(&mut l, d);
    assert_eq!(learned_plate(&cs).as_deref(), Some("2-button"));
    assert_eq!(cs.len(), 1);
}

#[test]
fn wake_burst_is_primed_silently_never_carded() {
    let mut l = Listener::new();
    let _ = dpi_report(&mut l, 0, 1600);
    let _ = scroll_report(&mut l, 0, 3);
    let d = plate_report(&mut l, 1, 4);
    let cs = settle(&mut l, d);
    assert!(cards(&cs) == 0, "a wake-burst must prime silently, got {} card(s)", cards(&cs));
    assert_eq!(learned_plate(&cs).as_deref(), Some("6-button"));
}

#[test]
fn a_lone_change_outside_any_burst_still_cards() {
    let mut l = Listener::new();
    let d = plate_report(&mut l, 0, 1);
    let _ = settle(&mut l, d);
    let d = plate_report(&mut l, 1_000, 4);
    let cs = settle(&mut l, d);
    assert!(
        cs.iter().any(|c| matches!(c, Confirm::ObserveSidePlate(_, _))),
        "a lone plate swap must still card"
    );
}

#[test]
fn decode_ignores_short_or_foreign_reports() {
    let mut l = Listener::new();
    let reg = registry();
    let short = l.decode(&reg, &[0x05, 0x0e], NAGA_PID, None, None, STAGES, 0);
    assert!(matches!(short, Decoded::Nothing));
    let foreign = l.decode(&reg, &[0x02, 0x0e, 0x03, 0, 0, 0], NAGA_PID, None, None, STAGES, 0);
    assert!(matches!(foreign, Decoded::Nothing));
    assert!(l.batches.is_empty());
}

#[test]
fn deferred_button_codes_map_to_their_cycle_intents() {
    assert!(matches!(button_intent(0x52), Some(Intent::DpiCycle(Direction::Up))));
    assert!(matches!(button_intent(0x57), Some(Intent::ScrollStageCycle(Direction::Up))));
    assert!(matches!(button_intent(0x50), Some(Intent::ProfileCycle(Direction::Up))));
}

/// What a device's own table says: `05 02` carries the mute state.
fn own_vocabulary(buf: &[u8]) -> Option<EventKind> {
    if buf.len() >= 2 && buf[0] == 0x05 && buf[1] == 0x02 {
        Some(EventKind::MuteState)
    } else {
        None
    }
}

/// What the family's table says: `05 11` carries the mute state.
fn family_vocabulary(buf: &[u8]) -> Option<EventKind> {
    if buf.len() >= 2 && buf[0] == 0x05 && buf[1] == 0x11 {
        Some(EventKind::MuteState)
    } else {
        None
    }
}

fn mute(buf: &[u8], def: bool, family: bool) -> Option<bool> {
    let own = if def { own_vocabulary(buf) } else { None };
    let fam = if family { family_vocabulary(buf) } else { None };
    mute_event_state(buf, own, fam)
}

#[test]
fn mute_event_resolves_def_override_first_then_family_fallback() {
    assert_eq!(
        mute(&[0x05, 0x02, 0x01, 0, 0, 0], true, true),
        Some(true),
        "a def's [events] entry must resolve even when the family vocabulary is silent"
    );
    assert_eq!(
        mute(&[0x05, 0x11, 0x00, 0, 0, 0], true, true),
        Some(false),
        "a family push must survive a def that doesn't name it"
    );
    assert_eq!(mute(&[0x05, 0x11, 0x01, 0, 0, 0], false, true), Some(true));
    assert_eq!(mute(&[0x05, 0x02, 0x00, 0, 0, 0], true, false), Some(false));
}

#[test]
fn mute_event_ignores_foreign_short_and_unclaimed_reports() {
    assert_eq!(mute(&[0x05, 0x3a, 0x01, 0, 0, 0], true, true), None);
    assert_eq!(mute(&[0x05, 0x11, 0x01, 0, 0, 0], false, false), None);
    assert_eq!(mute(&[0x05, 0x11], false, true), None);
}

#[test]
fn capability_surface_never_learns_an_empty_product() {
    let mut s = CapabilitySurface::new();
    note_audio_capability(&mut s, false, "");
    note_audio_capability(&mut s, false, "   ");
    assert!(
        hardware_mute_products(&s).iter().all(|p| !p.trim().is_empty()),
        "a blank product must never land on the capability surface"
    );
    assert!(hardware_mute_products(&s).is_empty());
}

#[test]
fn capability_surface_learns_read_facet_but_not_unproven_write() {
    let mut s = CapabilitySurface::new();
    let product = "Test Capability Mic 7f3a";
    note_audio_capability(&mut s, false, product);
    assert!(
        hardware_mute_products(&s).iter().any(|p| p == product),
        "an arming dialect-claimed collection must surface the READ facet"
    );
    assert!(
        !mute_writable_products(&s).iter().any(|p| p == product),
        "a read-only family must never surface the WRITE facet"
    );
    note_audio_capability(&mut s, true, product);
    assert_eq!(mute_writable_products(&s), vec![product]);
    assert_eq!(hardware_mute_products(&s), vec![product]);
}

#[test]
fn releases_and_unknown_button_codes_map_to_nothing() {
    assert!(button_intent(0x00).is_none(), "release must map to nothing");
    for code in [0x01u8, 0x51, 0x53, 0x56, 0x99, 0xff] {
        assert!(button_intent(code).is_none(), "unknown code {code:#04x} must map to nothing");
    }
}

#[test]
fn hotplug_burst_keeps_every_device_clean() {
    let mut l = Listener::new();
    let mut last: Vec<(u16, u64)> = Vec::new();
    for t in 0..16u16 {
        let pid = if t % 2 == 0 { 0xE0FF } else { 0xE100 + t };
        for i in 0..50u64 {
            let _ = l.reassert_due(pid, i);
            let ev = match i % 3 {
                0 => Push::Dpi(800 + (i as u32 % 100)),
                1 => Push::Scroll(1 + (i as u32 % STAGES)),
                _ => Push::Plate((i % 5) as u8, format!("plate-{i}")),
            };
            let g = l.batch_push(pid, ev, i);
            last.push((pid, g));
        }
    }
    for (pid, g) in last {
        let _ = l.batch_take(pid, g);
    }
    for t in 0..16u16 {
        let pid = if t % 2 == 0 { 0xE0FF } else { 0xE100 + t };
        let st = l.batches.get(&pid).unwrap();
        assert!(st.batch.dpi.is_none() && st.batch.scroll.is_none() && st.batch.plate.is_none());
        assert!(l.stamps.contains_key(&pid));
    }
    assert!(l.reassert_due(0xEEEE, 0), "a device never seen before is reconciled on its first wake");
}

#[test]
fn only_the_last_push_flushes() {
    let mut l = Listener::new();
    let first = l.batch_push(7, Push::Dpi(800), 0);
    let second = l.batch_push(7, Push::Dpi(900), 100);
    assert!(l.batch_take(7, first).is_none());
    let b = l.batch_take(7, second).unwrap();
    // the moment of the first, the value of the last
    assert_eq!(b.dpi, Some((0, 900)));
    assert!(l.batch_take(9, 1).is_none());
    assert_eq!(BATCH_SETTLE_MS, 220);
}

#[test]
fn two_kinds_far_apart_are_no_announcement() {
    let b = Batch { dpi: Some((0, 800)), scroll: Some((200, 2)), plate: None };
    let cs = flush_batch(b, STAGES);
    assert!(matches!(cs[0], Confirm::ObserveDpi(800)));
    assert!(matches!(cs[1], Confirm::ObserveScroll(2, 4)));
    let b = Batch { dpi: Some((0, 800)), scroll: Some((150, 2)), plate: None };
    let cs = flush_batch(b, STAGES);
    assert!(matches!(cs[0], Confirm::PrimeDpi(800)));
    assert!(matches!(cs[1], Confirm::PrimeScroll(2)));
}

#[test]
fn a_detached_plate_is_no_part_of_a_burst() {
    let b = Batch {
        dpi: Some((0, 800)),
        scroll: None,
        plate: Some((0, 0, "detached".to_string())),
    };
    let cs = flush_batch(b, STAGES);
    assert!(matches!(cs[0], Confirm::ObserveDpi(800)));
}

#[test]
fn one_reconcile_per_window() {
    let mut l = Listener::new();
    assert!(l.reassert_due(1, 10));
    assert!(!l.reassert_due(1, 10 + REASSERT_DEBOUNCE_MS - 1));
    assert!(l.reassert_due(1, 10 + REASSERT_DEBOUNCE_MS));
    assert!(l.reassert_due(2, 11));
}

#[test]
fn reports_are_read_within_their_bounds() {
    let [hi, lo] = 1600u16.to_be_bytes();
    assert_eq!(read_report(&report(0x02, hi, lo), None, None, STAGES), Report::Dpi(1600));
    assert_eq!(read_report(&report(0x02, 0, 99), None, None, STAGES), Report::Nothing);
    assert_eq!(read_report(&report(0x02, 0, 100), None, None, STAGES), Report::Dpi(100));
    assert_eq!(read_report(&report(0x3a, 0, 0), None, None, STAGES), Report::Nothing);
    assert_eq!(read_report(&report(0x3a, 4, 0), None, None, STAGES), Report::Scroll(4));
    assert_eq!(read_report(&report(0x3a, 5, 0), None, None, STAGES), Report::Nothing);
    assert_eq!(read_report(&report(0x0c, 0, 0), None, None, STAGES), Report::Power);
    assert_eq!(read_report(&report(0x77, 0, 0), None, None, STAGES), Report::Nothing);
    let button = [0x04, 0x52, 0, 0, 0, 0];
    assert_eq!(
        read_report(&button, None, None, STAGES),
        Report::Button(Intent::DpiCycle(Direction::Up))
    );
    let release = [0x04, 0x00, 0, 0, 0, 0];
    assert_eq!(read_report(&release, None, None, STAGES), Report::OtherButton(0));
    let muted = [0x05, 0x11, 1, 0, 0, 0];
    assert_eq!(
        read_report(&muted, None, Some(EventKind::MuteState), STAGES),
        Report::Mute(true)
    );
}

#[test]
fn a_first_resolution_is_checked_and_a_second_is_not() {
    let mut l = Listener::new();
    assert!(matches!(
        dpi_report(&mut l, 0, 800),
        Decoded::Dpi { settle: 1, reconcile: Some(800) }
    ));
    assert!(matches!(dpi_report(&mut l, 5, 900), Decoded::Dpi { settle: 2, reconcile: None }));
    assert!(matches!(feed(&mut l, 6, 0x0c, 0, 0), Decoded::Power { reassert: false }));
    assert!(matches!(feed(&mut l, 9_000, 0x0c, 0, 0), Decoded::Power { reassert: true }));
}

#[test]
fn wakes_are_healed_only_in_the_known_family() {
    assert!(reassert_allowed("razer"));
    assert!(!reassert_allowed("hidpp"));
    assert!(announced_heals("razer", Some(true)));
    assert!(!announced_heals("razer", Some(false)));
    assert!(!announced_heals("razer", None));
    assert!(!announced_heals("hidpp", Some(true)));
    assert!(button_is_ours(Some(3)));
    assert!(!button_is_ours(Some(0)));
    assert!(!button_is_ours(None));
    assert!(mute_bridged("Seiren"));
    assert!(!mute_bridged("  "));
}

#[test]
fn devices_are_found_by_product() {
    let reg = registry();
    assert_eq!(def_for_pid(&reg, NAGA_PID), Some(0));
    assert_eq!(def_for_pid(&reg, 1), None);
    assert!(dpi_pid(&reg, 0x00A7));
    assert!(!dpi_pid(&reg, 1));
    assert_eq!(plate_label(&reg, 1, 3), "plate 3");
}

fn collection(pid: u16, page: u16, usage: u16, path: &str) -> Collection {
    Collection {
        vid: 0x1532,
        pid,
        usage_page: page,
        usage,
        path: path.to_string(),
        product: "Naga".to_string(),
        pipes: vec![false],
        family: false,
    }
}

#[test]
fn a_collection_is_armed_once() {
    let reg = registry();
    let mut armed = Armed::new();
    let cs = vec![
        collection(NAGA_PID, 0x0001, 0x0000, "a"),
        collection(NAGA_PID, 0x0001, 0x0002, "b"),
        collection(NAGA_PID, 0xFF00, 0x0001, "c"),
        collection(0x9999, 0x0001, 0x0000, "d"),
    ];
    assert!(wants_reader(&reg, &cs[0]));
    assert!(!wants_reader(&reg, &cs[1]));
    assert!(wants_reader(&reg, &cs[2]));
    assert!(!wants_reader(&reg, &cs[3]));
    assert!(event_def(&reg, &cs[0]).is_none());
    let first: Vec<usize> = arm_new(&reg, &mut armed, &cs).iter().map(|a| a.index).collect();
    assert_eq!(first, vec![0, 2]);
    // a second look arms nothing
    assert!(arm_new(&reg, &mut armed, &cs).is_empty());
    armed.release("a");
    let again: Vec<usize> = arm_new(&reg, &mut armed, &cs).iter().map(|a| a.index).collect();
    assert_eq!(again, vec![0]);
}

#[test]
fn the_mouse_pipe_is_razers_alone() {
    let mut c = collection(NAGA_PID, 0x0001, 0x0000, "a");
    assert!(wants_reader(&registry(), &c));
    // the same product number of another vendor
    c.vid = 0x046D;
    assert!(!wants_reader(&registry(), &c));
    // a DPI device of another vendor
    let other = DeviceDef { vendor_id: 0x046D, ..naga() };
    assert!(!dpi_pid(&Registry { devices: vec![other] }, NAGA_PID));
}

#[test]
fn a_declared_pipe_and_a_family_get_a_reader() {
    let reg = registry();
    let mut c = collection(NAGA_PID, 0x000c, 0x0001, "p");
    c.pipes = vec![true];
    assert_eq!(event_def(&reg, &c), Some(0));
    assert!(wants_reader(&reg, &c));
    let mut f = collection(0x056A, 0x000c, 0x0001, "q");
    f.family = true;
    assert!(wants_reader(&reg, &f));
}

#[test]
fn a_reader_holds_its_path_while_it_lives() {
    let mut armed = Armed::new();
    assert!(armed.claim("p"));
    assert!(!armed.claim("p"));
    let mut r = Reader {
        path: "p".to_string(),
        product: "Seiren".to_string(),
        audio: true,
        state: ReaderState::Opening,
    };
    assert_eq!(r.step(&mut armed, ReaderEvent::Opened(true)), ReaderAct::SeedAndRead);
    assert_eq!(r.step(&mut armed, ReaderEvent::Read(ReadStep::Idle)), ReaderAct::Read);
    assert_eq!(r.step(&mut armed, ReaderEvent::Read(ReadStep::Data(0))), ReaderAct::Read);
    assert_eq!(r.step(&mut armed, ReaderEvent::Read(ReadStep::Data(9))), ReaderAct::Decode(9));
    assert_eq!(armed.paths, vec!["p"]);
    assert_eq!(r.step(&mut armed, ReaderEvent::Read(ReadStep::Gone)), ReaderAct::Stop);
    assert!(armed.paths.is_empty());
    assert!(armed.claim("p"));
}

#[test]
fn a_reader_that_cannot_open_gives_its_path_up() {
    for (ev, product, audio) in [
        (ReaderEvent::Opened(false), "x", true),
        (ReaderEvent::Lost, "", false),
    ] {
        let mut armed = Armed::new();
        assert!(armed.claim("p"));
        let mut r = Reader {
            path: "p".to_string(),
            product: product.to_string(),
            audio,
            state: ReaderState::Opening,
        };
        assert_eq!(r.step(&mut armed, ev), ReaderAct::Stop);
        assert!(armed.paths.is_empty());
    }
    // no name, no seed
    let mut armed = Armed::new();
    assert!(armed.claim("p"));
    let mut r = Reader {
        path: "p".to_string(),
        product: String::new(),
        audio: true,
        state: ReaderState::Opening,
    };
    assert_eq!(r.step(&mut armed, ReaderEvent::Opened(true)), ReaderAct::Read);
}

#[test]
fn a_battery_read_is_noted() {
    assert_eq!(battery_note(Some(Some((64, true)))), BatteryNote::Observed(64, true));
    assert_eq!(battery_note(Some(None)), BatteryNote::Stale);
    assert_eq!(battery_note(None), BatteryNote::Stale);
}

#[test]
fn a_charge_settles_on_two_equal_reads() {
    let mut s = ChargeSettle::new();
    assert_eq!(s.step(Some(false), false, Some(true)), SettleStep::Again);
    assert_eq!(s.step(None, false, Some(true)), SettleStep::Again);
    assert_eq!(s.step(Some(false), false, Some(true)), SettleStep::Settled(false));
}

#[test]
fn a_late_charge_takes_what_is_known() {
    assert_eq!(ChargeSettle::new().step(Some(true), true, None), SettleStep::Settled(true));
    // a failed read is never taken for an unplugged cable
    assert_eq!(ChargeSettle::new().step(None, true, Some(true)), SettleStep::Settled(true));
    assert_eq!(ChargeSettle::new().step(None, true, None), SettleStep::GiveUp);
    assert_eq!(battery_reading(Some(64), None, Some(true)), Some((64, true)));
    assert_eq!(battery_reading(Some(64), Some(false), Some(true)), Some((64, false)));
    assert_eq!(battery_reading(None, Some(true), None), None);
    assert_eq!(battery_reading(Some(64), None, Some(false)), Some((64, false)));
    // nothing read and nothing known: no reading, never a device that is made out to be unplugged
    assert_eq!(battery_reading(Some(64), None, None), None);
}

#[test]
fn the_settle_cap_is_read_from_the_setting() {
    assert_eq!(settle_cap_ms(None), 150);
    assert_eq!(settle_cap_ms(Some("750")), 750);
    assert_eq!(settle_cap_ms(Some("10")), 50);
    assert_eq!(settle_cap_ms(Some("soon")), 150);
}
