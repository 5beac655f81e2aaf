//! What reports, batches and readings of devices have to do with one another, in the numbers that the
//! devices themselves use.

use vstd::prelude::*;

use crate::arming::{
    arm_new, armed_indices, arms, claimant, claims, event_def, hardware_mute_products,
    is_mouse_pipe, law_learning_only_adds, mute_writable_products, note_audio_capability,
    paths_after, wants_reader, Arm, Armed, CapabilitySurface, Collection,
};
use crate::charge::{
    battery_reading, reading, settle_cap, settle_cap_ms, settle_next, ChargeSettle, SettleStep,
};
use crate::hidwatch::{
    announced_heals, batch_of, batches_after, button_intent, button_is_ours, confirms, decoded, due,
    firsts, flush_batch, generation_of, intent_of, is_sync, mute_bridged, mute_event_state,
    read_report, reassert_allowed, report_of, stamps_after, with_push, Batch, BatchState, Confirm,
    Decoded, Direction, EventKind, Intent, Listener, Push, Report,
};
use crate::reader::{
    battery_note, state_after, BatteryNote, ReadStep, Reader, ReaderAct, ReaderEvent, ReaderState,
};
use crate::registry::{
    def_for_pid, def_from, def_has_pid, dpi_pid, has_pid, plate_from, plate_label, plate_name,
    DeviceDef, RAZER_VID, Registry, RegistryCell,
};
use crate::text::{decimal, is_space, law_decimal_reads_back, texts, trimmed};
use crate::text_laws::law_trimming_takes_white_space_alone;

verus! {

// ── reports ─────────────────────────────────────────────────────────────────────────────────────

/// A resolution between 100 and 30000 comes across in two bytes, the high one first; any other is no
/// announcement.
pub proof fn law_announced_dpi_is_read(buf: Seq<u8>, dpi: u16, stages: u32)
    requires
        buf.len() >= 6,
        buf[0] == 0x05,
        buf[1] == 0x02,
        buf[2] == dpi / 256,
        buf[3] == dpi % 256,
    ensures
        100 <= dpi <= 30000 ==> report_of(buf, None, None, stages) == Report::Dpi(dpi),
        dpi < 100 || dpi > 30000 ==> report_of(buf, None, None, stages) == Report::Nothing,
{
    assert(buf[2] * 256 + buf[3] == dpi);
}

/// A stage of the wheel comes across as its own number, where the device has so many.
pub proof fn law_announced_stage_is_read(buf: Seq<u8>, stages: u32)
    requires
        buf.len() >= 6,
        buf[0] == 0x05,
        buf[1] == 0x3a,
    ensures
        report_of(buf, None, None, stages) == Report::Scroll(buf[2]) <==> 1 <= buf[2] <= stages,
        report_of(buf, None, None, stages) == Report::Nothing <==> buf[2] == 0 || buf[2] > stages,
{
}

/// A plate comes across as its own number, and a change of power says no more than that.
pub proof fn law_announced_plate_and_power_are_read(buf: Seq<u8>, stages: u32)
    requires
        buf.len() >= 6,
        buf[0] == 0x05,
    ensures
        buf[1] == 0x0e ==> report_of(buf, None, None, stages) == Report::Plate(buf[2]),
        buf[1] == 0x0c ==> report_of(buf, None, None, stages) == Report::Power,
        report_of(buf, None, None, stages) is Plate ==> buf[1] == 0x0e,
        report_of(buf, None, None, stages) is Power ==> buf[1] == 0x0c,
        report_of(buf, None, None, stages) is Dpi ==> buf[1] == 0x02,
        report_of(buf, None, None, stages) is Scroll ==> buf[1] == 0x3a,
{
}

/// Three buttons are known, each asks for a step up of its own setting; any other is handed on by its
/// code.
pub proof fn law_buttons_step_up(buf: Seq<u8>, stages: u32)
    requires
        buf.len() >= 6,
        buf[0] == 0x04,
    ensures
        report_of(buf, None, None, stages) == (if buf[1] == 0x50 {
            Report::Button(Intent::ProfileCycle(Direction::Up))
        } else if buf[1] == 0x52 {
            Report::Button(Intent::DpiCycle(Direction::Up))
        } else if buf[1] == 0x57 {
            Report::Button(Intent::ScrollStageCycle(Direction::Up))
        } else {
            Report::OtherButton(buf[1])
        }),
        intent_of(0) is None,
{
}

/// A vocabulary that knows a report as the mute state goes before everything else; the state is on
/// unless its byte is zero.
pub proof fn law_mute_goes_first(
    buf: Seq<u8>,
    own: Option<EventKind>,
    family: Option<EventKind>,
    stages: u32,
)
    requires
        buf.len() >= 6,
    ensures
        own is Some || family is Some ==> report_of(buf, own, family, stages) == Report::Mute(
            buf[2] != 0,
        ),
        own is None && family is None ==> !(report_of(buf, own, family, stages) is Mute),
{
}

/// A report of fewer than six bytes, or of a first byte that no family uses, says nothing.
pub proof fn law_foreign_reports_say_nothing(
    buf: Seq<u8>,
    own: Option<EventKind>,
    family: Option<EventKind>,
    stages: u32,
)
    ensures
        buf.len() < 6 ==> report_of(buf, own, family, stages) == Report::Nothing,
        buf.len() >= 6 && buf[0] != 0x04 && buf[0] != 0x05 ==> report_of(buf, None, None, stages)
            == Report::Nothing,
{
}

// ── batches ─────────────────────────────────────────────────────────────────────────────────────

/// A push of one kind leaves the other kinds of the same device's batch as they were, moment and value.
pub proof fn law_push_spares_other_kinds(b: Batch, ev: Push, now: u64)
    ensures
        !(ev is Dpi) ==> with_push(b, ev, now).dpi == b.dpi,
        !(ev is Scroll) ==> with_push(b, ev, now).scroll == b.scroll,
        !(ev is Plate) ==> with_push(b, ev, now).plate == b.plate,
{
}

/// A push is in the batch afterwards with its own value, at the moment when its kind was first pushed.
pub proof fn law_push_is_held(b: Batch, ev: Push, now: u64)
    ensures
        ev matches Push::Dpi(v) ==> (with_push(b, ev, now).dpi matches Some((t, w)) && w == v && t == (
        match b.dpi {
            Some((first, _)) => first,
            None => now,
        })),
        ev matches Push::Scroll(v) ==> (with_push(b, ev, now).scroll matches Some((t, w)) && w == v
            && t == (match b.scroll {
            Some((first, _)) => first,
            None => now,
        })),
        ev matches Push::Plate(id, label) ==> (with_push(b, ev, now).plate matches Some((t, w, l)) && w
            == id && l == label && t == (match b.plate {
            Some((first, _, _)) => first,
            None => now,
        })),
{
}

/// Pushes of different kinds can come in either order: the batch is the same.
pub proof fn law_order_of_kinds_does_not_matter(
    b: Batch,
    v: u32,
    w: u32,
    id: u8,
    l: String,
    at: u64,
    later: u64,
)
    ensures
        with_push(with_push(b, Push::Dpi(v), at), Push::Scroll(w), later) == with_push(
            with_push(b, Push::Scroll(w), later),
            Push::Dpi(v),
            at,
        ),
        with_push(with_push(b, Push::Dpi(v), at), Push::Plate(id, l), later) == with_push(
            with_push(b, Push::Plate(id, l), later),
            Push::Dpi(v),
            at,
        ),
        with_push(with_push(b, Push::Scroll(w), at), Push::Plate(id, l), later) == with_push(
            with_push(b, Push::Plate(id, l), later),
            Push::Scroll(w),
            at,
        ),
{
}

/// A device's pushes pile up in its own batch, and each is counted.
pub proof fn law_pushes_pile_up(m: Map<u16, BatchState>, pid: u16, ev: Push, now: u64)
    requires
        generation_of(m, pid) < u64::MAX,
    ensures
        generation_of(batches_after(m, pid, ev, now), pid) == generation_of(m, pid) + 1,
        !(ev is Dpi) ==> batch_of(batches_after(m, pid, ev, now), pid).dpi == batch_of(m, pid).dpi,
        !(ev is Scroll) ==> batch_of(batches_after(m, pid, ev, now), pid).scroll == batch_of(
            m,
            pid,
        ).scroll,
        !(ev is Plate) ==> batch_of(batches_after(m, pid, ev, now), pid).plate == batch_of(
            m,
            pid,
        ).plate,
        ev matches Push::Dpi(v) ==> batch_of(batches_after(m, pid, ev, now), pid).dpi is Some,
        ev matches Push::Scroll(v) ==> batch_of(batches_after(m, pid, ev, now), pid).scroll is Some,
        ev matches Push::Plate(i, l) ==> batch_of(batches_after(m, pid, ev, now), pid).plate is Some,
{
}

/// How many kinds a batch holds.
pub open spec fn kinds(b: Batch) -> nat {
    (if b.dpi is Some {
        1nat
    } else {
        0
    }) + (if b.scroll is Some {
        1nat
    } else {
        0
    }) + (if b.plate is Some {
        1nat
    } else {
        0
    })
}

/// Every kind of a settled batch is told once, with its value, the resolution before the wheel and the
/// wheel before the plate; and all of it is learned in silence, or none.
pub proof fn law_settled_batch_is_told(b: Batch, stages: u32)
    ensures
        confirms(b, stages).len() == kinds(b),
        b.dpi matches Some((_, v)) ==> confirms(b, stages)[0] == (if is_sync(b) {
            Confirm::PrimeDpi(v)
        } else {
            Confirm::ObserveDpi(v)
        }),
        b.scroll matches Some((_, v)) ==> confirms(b, stages)[if b.dpi is Some {
            1
        } else {
            0
        }] == (if is_sync(b) {
            Confirm::PrimeScroll(v)
        } else {
            Confirm::ObserveScroll(v, stages)
        }),
        b.plate matches Some((_, id, label)) ==> confirms(b, stages).last() == (if is_sync(b) {
            Confirm::PrimeSidePlate(id as u32, label)
        } else {
            Confirm::ObserveSidePlate(id as u32, label)
        }),
{
}

/// Two kinds within 150 milliseconds of one another are a device announcing itself; two kinds further
/// apart are not.
pub proof fn law_burst_of_two(b: Batch, t: u64, u: u64)
    ensures
        (b.dpi matches Some((x, _)) && x == t) && (b.scroll matches Some((y, _)) && y == u)
            && b.plate is None ==> (is_sync(b) <==> -150 <= t - u <= 150),
        (b.dpi matches Some((x, _)) && x == t) && (b.plate matches Some((y, id, _)) && y == u && id
            != 0) && b.scroll is None ==> (is_sync(b) <==> -150 <= t - u <= 150),
        (b.scroll matches Some((x, _)) && x == t) && (b.plate matches Some((y, id, _)) && y == u && id
            != 0) && b.dpi is None ==> (is_sync(b) <==> -150 <= t - u <= 150),
{
    assert(b.dpi is Some && b.scroll is Some && b.plate is None ==> firsts(b) =~= seq![
        (b.dpi->0).0,
        (b.scroll->0).0,
    ]);
    assert(b.dpi is Some && b.plate is Some && (b.plate->0).1 != 0 && b.scroll is None ==> firsts(b)
        =~= seq![(b.dpi->0).0, (b.plate->0).0]);
    assert(b.scroll is Some && b.plate is Some && (b.plate->0).1 != 0 && b.dpi is None ==> firsts(b)
        =~= seq![(b.scroll->0).0, (b.plate->0).0]);
    if firsts(b).len() == 2 {
        let f0 = firsts(b)[0];
        let f1 = firsts(b)[1];
        assert(is_sync(b) ==> f0 - f1 <= 150 && f1 - f0 <= 150);
    }
}

/// Three kinds are an announcement where the earliest and the latest lie within 150 milliseconds.
pub proof fn law_burst_of_three(b: Batch, t: u64, u: u64, w: u64)
    requires
        b.dpi matches Some((x, _)) && x == t,
        b.scroll matches Some((y, _)) && y == u,
        b.plate matches Some((z, id, _)) && z == w && id != 0,
    ensures
        is_sync(b) <==> -150 <= t - u <= 150 && -150 <= t - w <= 150 && -150 <= u - w <= 150,
{
    assert(firsts(b) =~= seq![t, u, w]);
    let f0 = firsts(b)[0];
    let f1 = firsts(b)[1];
    let f2 = firsts(b)[2];
    assert(is_sync(b) ==> f0 - f1 <= 150 && f1 - f0 <= 150 && f0 - f2 <= 150 && f2 - f0 <= 150 && f1
        - f2 <= 150 && f2 - f1 <= 150);
}

/// A plate that comes off is a hand at work: with one other kind it is no announcement.
pub proof fn law_detached_plate_is_a_hand(b: Batch)
    requires
        b.plate matches Some((_, id, _)) && id == 0,
        b.dpi is None || b.scroll is None,
    ensures
        !is_sync(b),
{
}

/// From reports to what is told: a device that pushes a stage and then a resolution, within 150
/// milliseconds and with nothing before, is learned in silence, both values as pushed.
pub proof fn law_wake_burst_is_learned(
    l: Listener,
    mid: Listener,
    end: Listener,
    devices: Seq<DeviceDef>,
    pid: u16,
    stage: u8,
    dpi: u16,
    t: u64,
    u: u64,
    r: Decoded,
    q: Decoded,
    stages: u32,
)
    requires
        batch_of(l.batches@, pid) == (Batch { dpi: None, scroll: None, plate: None }),
        generation_of(l.batches@, pid) < u64::MAX - 1,
        decoded(l, mid, devices, Report::Scroll(stage), pid, t, r),
        decoded(mid, end, devices, Report::Dpi(dpi), pid, u, q),
        t <= u,
    ensures
        u - t <= 150 ==> confirms(batch_of(end.batches@, pid), stages) == seq![
            Confirm::PrimeDpi(dpi as u32),
            Confirm::PrimeScroll(stage as u32),
        ],
        u - t > 150 ==> confirms(batch_of(end.batches@, pid), stages) == seq![
            Confirm::ObserveDpi(dpi as u32),
            Confirm::ObserveScroll(stage as u32, stages),
        ],
        q matches Decoded::Dpi { settle, .. } && settle == generation_of(end.batches@, pid),
        r matches Decoded::Scroll { settle } && settle != generation_of(end.batches@, pid),
{
    let b = batch_of(end.batches@, pid);
    assert(b.scroll == Some((t, stage as u32)));
    assert(b.dpi == Some((u, dpi as u32)));
    assert(b.plate is None);
    law_burst_of_two(b, u, t);
    assert(u - t <= 150 ==> confirms(b, stages) =~= seq![
        Confirm::PrimeDpi(dpi as u32),
        Confirm::PrimeScroll(stage as u32),
    ]);
    assert(u - t > 150 ==> confirms(b, stages) =~= seq![
        Confirm::ObserveDpi(dpi as u32),
        Confirm::ObserveScroll(stage as u32, stages),
    ]);
}

/// A lone push is told as a change, with its value.
pub proof fn law_lone_push_is_told(
    l: Listener,
    end: Listener,
    devices: Seq<DeviceDef>,
    pid: u16,
    report: Report,
    t: u64,
    r: Decoded,
    stages: u32,
)
    requires
        batch_of(l.batches@, pid) == (Batch { dpi: None, scroll: None, plate: None }),
        generation_of(l.batches@, pid) < u64::MAX,
        decoded(l, end, devices, report, pid, t, r),
    ensures
        report matches Report::Dpi(v) ==> confirms(batch_of(end.batches@, pid), stages) == seq![
            Confirm::ObserveDpi(v as u32),
        ],
        report matches Report::Scroll(v) ==> confirms(batch_of(end.batches@, pid), stages) == seq![
            Confirm::ObserveScroll(v as u32, stages),
        ],
        report matches Report::Plate(id) ==> (confirms(batch_of(end.batches@, pid), stages).len() == 1
            && (confirms(batch_of(end.batches@, pid), stages)[0] matches Confirm::ObserveSidePlate(
            i,
            label,
        ) && i == id && label@ == plate_name(devices, pid, id))),
{
    let b = batch_of(end.batches@, pid);
    match report {
        Report::Dpi(v) => {
            assert(confirms(b, stages) =~= seq![Confirm::ObserveDpi(v as u32)]);
        },
        Report::Scroll(v) => {
            assert(confirms(b, stages) =~= seq![Confirm::ObserveScroll(v as u32, stages)]);
        },
        Report::Plate(id) => {
            let label = choose|label: String|
                label@ == plate_name(devices, pid, id) && end.batches@ == #[trigger] batches_after(
                    l.batches@,
                    pid,
                    Push::Plate(id, label),
                    t,
                );
            assert(b.plate == Some((t, id, label)));
            assert(confirms(b, stages) =~= seq![Confirm::ObserveSidePlate(id as u32, label)]);
        },
        _ => {},
    }
}

/// What is no settings change leaves the batches alone and is handed on as it is; a wake and an announced
/// resolution ask for a reconcile at most once in five seconds.
pub proof fn law_requests_follow_reports(
    l: Listener,
    end: Listener,
    devices: Seq<DeviceDef>,
    pid: u16,
    report: Report,
    now: u64,
    r: Decoded,
)
    requires
        decoded(l, end, devices, report, pid, now, r),
    ensures
        report matches Report::Mute(m) ==> r == Decoded::Mute(m),
        report matches Report::Button(i) ==> r == Decoded::Button(i),
        report matches Report::OtherButton(c) ==> r == Decoded::OtherButton(c),
        report == Report::Nothing ==> r == Decoded::Nothing,
        !(report is Dpi || report is Scroll || report is Plate) ==> end.batches@ == l.batches@,
        report is Power || report is Dpi ==> (match r {
            Decoded::Power { reassert } => report is Power && reassert == (l.stamps@.contains_key(pid)
                ==> now - l.stamps@[pid] >= 5000),
            Decoded::Dpi { reconcile, .. } => report is Dpi && (reconcile is Some <==> (
            l.stamps@.contains_key(pid) ==> now - l.stamps@[pid] >= 5000)) && (reconcile matches Some(d)
                ==> report == Report::Dpi(d)),
            _ => false,
        }),
        !(report is Power || report is Dpi) ==> end.stamps@ == l.stamps@,
{
}

/// A reconcile that was due is stamped with its moment, for that device alone; one that was not leaves
/// the stamps.
pub proof fn law_reconcile_is_stamped(stamps: Map<u16, u64>, pid: u16, other: u16, now: u64)
    ensures
        due(stamps, pid, now) ==> stamps_after(stamps, pid, now).contains_key(pid) && stamps_after(
            stamps,
            pid,
            now,
        )[pid] == now,
        !due(stamps, pid, now) ==> stamps_after(stamps, pid, now) == stamps,
        other != pid ==> (stamps_after(stamps, pid, now).contains_key(other)
            <==> stamps.contains_key(other)) && (stamps.contains_key(other) ==> stamps_after(
            stamps,
            pid,
            now,
        )[other] == stamps[other]),
{
}

// ── side plates ─────────────────────────────────────────────────────────────────────────────────

/// The name of a plate is the label beside its number in the table of the first device that lists the
/// product; without one the number itself is shown, and no plate is called detached.
pub proof fn law_plate_has_its_own_label(devices: Seq<DeviceDef>, pid: u16, id: u8, i: int, j: int)
    requires
        id != 0,
        0 <= i < devices.len(),
        devices[i].product_ids@.contains(pid),
        forall|k: int| 0 <= k < i ==> !(#[trigger] devices[k]).product_ids@.contains(pid),
        0 <= j < devices[i].side_plates@.len(),
        devices[i].side_plates@[j].0 == id,
        forall|k: int| 0 <= k < j ==> (#[trigger] devices[i].side_plates@[k]).0 != id,
    ensures
        plate_name(devices, pid, id) == devices[i].side_plates@[j].1@,
        plate_name(devices, pid, 0) == "detached"@,
{
    lemma_first_def(devices, pid, 0, i);
    lemma_first_plate(devices[i].side_plates@, id, 0, j);
}

proof fn lemma_first_def(devices: Seq<DeviceDef>, pid: u16, from: nat, i: int)
    requires
        from <= i < devices.len(),
        devices[i].product_ids@.contains(pid),
        forall|k: int| from <= k < i ==> !(#[trigger] devices[k]).product_ids@.contains(pid),
    ensures
        def_from(devices, pid, from) == Some(i as nat),
    decreases i - from,
{
    if from < i {
        assert(!devices[from as int].product_ids@.contains(pid));
        lemma_first_def(devices, pid, from + 1, i);
    }
}

proof fn lemma_first_plate(plates: Seq<(u8, String)>, id: u8, from: nat, j: int)
    requires
        from <= j < plates.len(),
        plates[j].0 == id,
        forall|k: int| from <= k < j ==> (#[trigger] plates[k]).0 != id,
    ensures
        plate_from(plates, id, from) == Some(plates[j].1@),
    decreases j - from,
{
    if from < j {
        assert(plates[from as int].0 != id);
        lemma_first_plate(plates, id, from + 1, j);
    }
}

// ── which collections are read ──────────────────────────────────────────────────────────────────

/// A mouse of Razer's with a resolution is read on the plain desktop collection and on the vendor's own
/// pages, and on nothing else; no other vendor's is.
pub proof fn law_mouse_pipe(devices: Seq<DeviceDef>, c: Collection, i: int)
    requires
        0 <= i < devices.len(),
        devices[i].dpi,
        devices[i].vendor_id == 0x1532,
        devices[i].product_ids@.contains(c.pid),
    ensures
        is_mouse_pipe(devices, c) <==> c.vid == 0x1532 && (c.usage_page >= 0xFF00 || (c.usage_page == 1
            && c.usage == 0)),
{
    assert(has_pid(devices[i], c.pid));
}

/// A mouse pipe belongs to a product that some definition gives a resolution.
pub proof fn law_mouse_pipe_has_a_dpi(devices: Seq<DeviceDef>, c: Collection)
    requires
        is_mouse_pipe(devices, c),
    ensures
        exists|i: int|
            0 <= i < devices.len() && (#[trigger] devices[i]).dpi && devices[i].vendor_id == c.vid
                && devices[i].product_ids@.contains(c.pid),
{
    let i = choose|i: int|
        0 <= i < devices.len() && devices[i].dpi && devices[i].vendor_id == 0x1532
            && #[trigger] has_pid(devices[i], c.pid);
    assert(devices[i].dpi);
}

/// The definition that speaks for a collection is the first that fits it: vendor, product and pipe.
pub proof fn law_first_fitting_definition_speaks(devices: Seq<DeviceDef>, c: Collection, from: nat)
    ensures
        match claimant(devices, c, from) {
            Some(i) => from <= i < devices.len() && devices[i as int].vendor_id == c.vid
                && devices[i as int].product_ids@.contains(c.pid) && c.pipes@[i as int] && forall|k: int|
                from <= k < i ==> !#[trigger] claims(devices, c, k),
            None => forall|k: int| from <= k < devices.len() ==> !#[trigger] claims(devices, c, k),
        },
    decreases devices.len() - from,
{
    if from < devices.len() && !claims(devices, c, from as int) {
        law_first_fitting_definition_speaks(devices, c, from + 1);
    }
}

/// What is armed earns it and was not armed before; what earns a reader ends up armed.
pub proof fn law_armed_is_wanted(
    devices: Seq<DeviceDef>,
    cs: Seq<Collection>,
    k: nat,
    paths: Seq<Seq<char>>,
    q: int,
)
    requires
        k <= cs.len(),
        0 <= q < armed_indices(devices, cs, k, paths).len(),
    ensures
        ({
            let i = armed_indices(devices, cs, k, paths)[q];
            &&& i < k
            &&& is_mouse_pipe(devices, cs[i as int]) || claimant(devices, cs[i as int], 0) is Some
                || cs[i as int].family
            &&& !paths.contains(cs[i as int].path@)
        }),
    decreases k,
{
    if k > 0 {
        let before = armed_indices(devices, cs, (k - 1) as nat, paths);
        if q < before.len() {
            law_armed_is_wanted(devices, cs, (k - 1) as nat, paths, q);
        } else {
            if paths.contains(cs[k - 1].path@) {
                lemma_paths_stay(devices, cs, (k - 1) as nat, paths, cs[k - 1].path@);
            }
        }
    }
}

proof fn lemma_paths_stay(
    devices: Seq<DeviceDef>,
    cs: Seq<Collection>,
    k: nat,
    paths: Seq<Seq<char>>,
    p: Seq<char>,
)
    requires
        paths.contains(p),
    ensures
        paths_after(devices, cs, k, paths).contains(p),
    decreases k,
{
    if 0 < k <= cs.len() {
        lemma_paths_stay(devices, cs, (k - 1) as nat, paths, p);
        let before = paths_after(devices, cs, (k - 1) as nat, paths);
        let j = choose|j: int| 0 <= j < before.len() && before[j] == p;
        if arms(devices, cs, (k - 1) as nat, paths) {
            assert(before.push(cs[k - 1].path@)[j] == p);
        }
    }
}

// ── readers, charge and battery ─────────────────────────────────────────────────────────────────

/// A reader listens once it was opened, ends when its device is gone, its thread is lost or it could not
/// be opened, and never comes back.
pub proof fn law_reader_life(s: ReaderState, ev: ReaderEvent)
    ensures
        s == ReaderState::Closed ==> state_after(s, ev) == ReaderState::Closed,
        ev == ReaderEvent::Lost ==> state_after(s, ev) == ReaderState::Closed,
        state_after(ReaderState::Opening, ReaderEvent::Opened(true)) == ReaderState::Listening,
        state_after(ReaderState::Opening, ReaderEvent::Opened(false)) == ReaderState::Closed,
        state_after(ReaderState::Listening, ReaderEvent::Read(ReadStep::Gone)) == ReaderState::Closed,
        s == ReaderState::Listening && ev is Read && state_after(s, ev) != ReaderState::Listening
            ==> ev == ReaderEvent::Read(ReadStep::Gone),
{
}

/// Two readings alike settle the charge state to what was read; readings that differ do not, while there
/// is time.
pub proof fn law_two_alike_settle(last: bool, read: bool, late: bool, known: Option<bool>)
    ensures
        last == read ==> settle_next(Some(last), Some(read), late, known).0 == SettleStep::Settled(read),
        last != read && !late ==> settle_next(Some(last), Some(read), late, known) == (
            SettleStep::Again,
            Some(read),
        ),
        last != read && late ==> settle_next(Some(last), Some(read), late, known).0
            == SettleStep::Settled(read),
{
}

/// Out of time the last reading stands, else what was known; with neither there is nothing to say.
pub proof fn law_out_of_time(last: Option<bool>, known: Option<bool>)
    ensures
        settle_next(last, None, true, known).0 == (match (last, known) {
            (Some(c), _) => SettleStep::Settled(c),
            (None, Some(c)) => SettleStep::Settled(c),
            (None, None) => SettleStep::GiveUp,
        }),
        settle_next(last, None, false, known) == (SettleStep::Again, last),
{
}

/// The time to settle is what is configured, but at least 50 milliseconds; 150 where nothing readable is.
pub proof fn law_settle_time(n: nat)
    requires
        n <= u64::MAX,
    ensures
        settle_cap(Some(decimal(n))) == (if n < 50 {
            50
        } else {
            n
        }),
        settle_cap(None) == 150,
{
    law_decimal_reads_back(n, u64::MAX as nat);
}

/// A battery reading is made of the percentage that was read and the freshest charge state there is.
pub proof fn law_battery_reading(percent: u8, charging: Option<bool>, known: Option<bool>)
    ensures
        reading(None, charging, known) is None,
        reading(Some(percent), charging, known) is None <==> charging is None && known is None,
        charging matches Some(c) ==> reading(Some(percent), charging, known) == Some((percent, c)),
        charging is None ==> (known matches Some(k) ==> reading(Some(percent), charging, known) == Some(
            (percent, k),
        )),
{
}

// ── the functions themselves ────────────────────────────────────────────────────────────────────

/// A push of one kind leaves the other kinds of the device's batch, and every other device's batch, as
/// they were; it is itself in the batch with its value.
pub proof fn law_push_adds_its_own_kind(
    l: &mut Listener,
    pid: u16,
    other: u16,
    ev: Push,
    now: u64,
    generation: u64,
)
    requires
        call_ensures(Listener::batch_push, (l, pid, ev, now), generation),
        generation_of(old(l).batches@, pid) < u64::MAX,
        other != pid,
    ensures
        !(ev is Dpi) ==> batch_of(final(l).batches@, pid).dpi == batch_of(old(l).batches@, pid).dpi,
        !(ev is Scroll) ==> batch_of(final(l).batches@, pid).scroll == batch_of(
            old(l).batches@,
            pid,
        ).scroll,
        !(ev is Plate) ==> batch_of(final(l).batches@, pid).plate == batch_of(
            old(l).batches@,
            pid,
        ).plate,
        ev matches Push::Dpi(v) ==> (batch_of(final(l).batches@, pid).dpi matches Some((_, w)) && w == v),
        ev matches Push::Scroll(v) ==> (batch_of(final(l).batches@, pid).scroll matches Some((_, w)) && w
            == v),
        ev matches Push::Plate(id, _) ==> (batch_of(final(l).batches@, pid).plate matches Some(
            (_, w, _),
        ) && w == id),
        batch_of(final(l).batches@, other) == batch_of(old(l).batches@, other),
        generation == generation_of(old(l).batches@, pid) + 1,
        generation == generation_of(final(l).batches@, pid),
        final(l).stamps == old(l).stamps,
{
    law_push_is_held(batch_of(old(l).batches@, pid), ev, now);
}

/// A batch is taken once, by the flush that the last push armed, and is empty afterwards; an older flush
/// finds nothing and changes nothing.
pub proof fn law_batch_is_taken_once(l: &mut Listener, pid: u16, generation: u64, r: Option<Batch>)
    requires
        call_ensures(Listener::batch_take, (l, pid, generation), r),
        old(l).batches@.contains_key(pid),
    ensures
        r is Some <==> generation == generation_of(old(l).batches@, pid),
        r matches Some(b) ==> b == batch_of(old(l).batches@, pid) && kinds(
            batch_of(final(l).batches@, pid),
        ) == 0,
        r is None ==> final(l).batches@ == old(l).batches@,
{
}

/// What is told of a batch is each of its values once.
pub proof fn law_flush_tells_every_value(b: Batch, stages: u32, r: Vec<Confirm>)
    requires
        call_ensures(flush_batch, (b, stages), r),
    ensures
        r@.len() == kinds(b),
        b.dpi matches Some((_, v)) ==> (r@[0] == Confirm::PrimeDpi(v) || r@[0] == Confirm::ObserveDpi(v)),
        b.scroll matches Some((_, v)) ==> exists|i: int|
            0 <= i < r@.len() && (#[trigger] r@[i] == Confirm::PrimeScroll(v) || r@[i]
                == Confirm::ObserveScroll(v, stages)),
        b.plate matches Some((_, id, l)) ==> (r@.last() == Confirm::PrimeSidePlate(id as u32, l)
            || r@.last() == Confirm::ObserveSidePlate(id as u32, l)),
{
    law_settled_batch_is_told(b, stages);
    let at: int = if b.dpi is Some {
        1
    } else {
        0
    };
    if b.scroll is Some {
        assert(r@[at] == confirms(b, stages)[at]);
    }
}

/// A report goes through the listener as what its bytes say.
pub proof fn law_reports_are_decoded(
    l: &mut Listener,
    reg: &Registry,
    buf: &[u8],
    pid: u16,
    stages: u32,
    now: u64,
    r: Decoded,
)
    requires
        call_ensures(
            Listener::decode,
            (l, reg, buf, pid, None::<EventKind>, None::<EventKind>, stages, now),
            r,
        ),
        generation_of(old(l).batches@, pid) < u64::MAX,
        buf@.len() >= 6,
    ensures
        buf@[0] == 0x05 && buf@[1] == 0x02 && 100 <= buf@[2] * 256 + buf@[3] <= 30000 ==> r is Dpi && (
        batch_of(final(l).batches@, pid).dpi matches Some((_, v)) && v == buf@[2] * 256 + buf@[3])
            && batch_of(final(l).batches@, pid).scroll == batch_of(old(l).batches@, pid).scroll,
        buf@[0] == 0x05 && buf@[1] == 0x3a && 1 <= buf@[2] <= stages ==> r is Scroll && (batch_of(
            final(l).batches@,
            pid,
        ).scroll matches Some((_, v)) && v == buf@[2]) && batch_of(final(l).batches@, pid).dpi
            == batch_of(old(l).batches@, pid).dpi,
        buf@[0] == 0x05 && buf@[1] == 0x0e ==> r is Plate && (batch_of(
            final(l).batches@,
            pid,
        ).plate matches Some((_, v, _)) && v == buf@[2]),
        buf@[0] == 0x05 && buf@[1] == 0x0c ==> r is Power && final(l).batches@ == old(l).batches@,
        buf@[0] == 0x04 && buf@[1] == 0x52 ==> r == Decoded::Button(Intent::DpiCycle(Direction::Up)),
        buf@[0] == 0x04 && buf@[1] == 0x57 ==> r == Decoded::Button(
            Intent::ScrollStageCycle(Direction::Up),
        ),
        buf@[0] == 0x04 && buf@[1] == 0x50 ==> r == Decoded::Button(Intent::ProfileCycle(Direction::Up)),
{
}

/// Only Razer's wakes are ours to mend, only in driver mode are buttons ours, and only a named product's
/// mute can be bridged.
pub proof fn law_what_is_ours(
    dialect: &str,
    foreign: Option<bool>,
    mode: Option<u8>,
    product: &str,
    wake: bool,
    heals: bool,
    button: bool,
    mute: bool,
)
    requires
        call_ensures(reassert_allowed, (dialect,), wake),
        call_ensures(announced_heals, (dialect, foreign), heals),
        call_ensures(button_is_ours, (mode,), button),
        call_ensures(mute_bridged, (product,), mute),
    ensures
        wake <==> dialect@ == "razer"@,
        heals <==> wake && foreign == Some(true),
        button <==> mode == Some(3u8),
        product@.len() == 0 ==> !mute,
        product@.len() > 0 && !is_space(product@[0]) ==> mute,
{
    if product@.len() > 0 && !is_space(product@[0]) {
        law_trimming_takes_white_space_alone(product@);
    }
}

/// A settled charge state, a battery reading and a mute state read as they came.
pub proof fn law_readings_come_as_they_are(
    percent: Option<u8>,
    charging: Option<bool>,
    known: Option<bool>,
    r: Option<(u8, bool)>,
    note: BatteryNote,
)
    requires
        call_ensures(battery_reading, (percent, charging, known), r),
        call_ensures(battery_note, (Some(r),), note),
    ensures
        r matches Some((p, c)) ==> percent == Some(p) && (charging == Some(c) || (charging is None
            && known == Some(c))) && note == BatteryNote::Observed(p, c),
        percent is None ==> r is None,
        percent is Some && charging is Some ==> r is Some,
        r is None ==> note == BatteryNote::Stale,
{
}

// ── what is armed ───────────────────────────────────────────────────────────────────────────────

/// A path is claimed once; once released it can be claimed again, and other paths are not touched.
pub proof fn law_path_is_claimed_once(
    a: &mut Armed,
    b: &mut Armed,
    c: &mut Armed,
    d: &mut Armed,
    path: &str,
    other: Seq<char>,
    first: bool,
    second: bool,
    third: bool,
)
    requires
        old(a).wf(),
        !texts(old(a).paths@).contains(path@),
        other != path@,
        call_ensures(Armed::claim, (a, path), first),
        *old(b) == *final(a),
        call_ensures(Armed::claim, (b, path), second),
        *old(c) == *final(b),
        call_ensures(Armed::release, (c, path), ()),
        *old(d) == *final(c),
        call_ensures(Armed::claim, (d, path), third),
    ensures
        first && !second && third,
        texts(final(a).paths@).contains(path@),
        texts(final(c).paths@).contains(other) <==> texts(old(a).paths@).contains(other),
{
    let before = texts(old(a).paths@);
    let after = texts(final(a).paths@);
    assert(after[before.len() as int] == path@);
    assert(texts(final(b).paths@) == after);
    if before.contains(other) {
        let x = choose|x: int| 0 <= x < before.len() && before[x] == other;
        assert(after[x] == other);
    }
    if after.contains(other) {
        let x = choose|x: int| 0 <= x < after.len() && after[x] == other;
        assert(before[x] == other);
    }
}

/// What is armed is wanted, was not armed before, and comes with the definition that speaks for it.
pub proof fn law_armed_come_with_their_definition(
    reg: &Registry,
    armed: &mut Armed,
    cs: &Vec<Collection>,
    r: Vec<Arm>,
    q: int,
    d: Option<usize>,
    w: bool,
)
    requires
        old(armed).wf(),
        call_ensures(arm_new, (reg, armed, cs), r),
        0 <= q < r@.len(),
        call_ensures(event_def, (reg, &cs@[r@[q].index as int]), d),
        call_ensures(wants_reader, (reg, &cs@[r@[q].index as int]), w),
    ensures
        r@[q].index < cs@.len(),
        w,
        r@[q].def == d,
        !texts(old(armed).paths@).contains(cs@[r@[q].index as int].path@),
{
    let paths = texts(old(armed).paths@);
    assert(r@[q].index == armed_indices(reg.devices@, cs@, cs@.len(), paths)[q]);
    law_armed_is_wanted(reg.devices@, cs@, cs@.len(), paths, q);
}

/// A collection is wanted where it is a mouse pipe, where a definition claims it, or where it is of the
/// family; the first claim counts.
pub proof fn law_wanted_collections(reg: &Registry, c: &Collection, i: int, w: bool, d: Option<usize>)
    requires
        call_ensures(wants_reader, (reg, c), w),
        call_ensures(event_def, (reg, c), d),
    ensures
        c.family ==> w,
        0 <= i < reg.devices@.len() && i < c.pipes@.len() && reg.devices@[i].vendor_id == c.vid
            && reg.devices@[i].product_ids@.contains(c.pid) && c.pipes@[i] ==> w && (d matches Some(k) && k
            <= i),
        d is Some ==> w,
{
    law_first_fitting_definition_speaks(reg.devices@, *c, 0);
    if 0 <= i < reg.devices@.len() && i < c.pipes@.len() && reg.devices@[i].vendor_id == c.vid
        && reg.devices@[i].product_ids@.contains(c.pid) && c.pipes@[i] {
        assert(claims(reg.devices@, *c, i));
    }
}

/// A product that was seen is known as one that can be muted, by its trimmed name; only a writable one is
/// also known as writable, and seeing it again adds nothing.
pub proof fn law_audio_capabilities_are_learned(
    a: &mut CapabilitySurface,
    b: &mut CapabilitySurface,
    writable: bool,
    product: &str,
    reads: Vec<String>,
    writes: Vec<String>,
)
    requires
        old(a).wf(),
        trimmed(product@).len() > 0,
        call_ensures(note_audio_capability, (a, writable, product), ()),
        call_ensures(hardware_mute_products, (&*final(a),), reads),
        call_ensures(mute_writable_products, (&*final(a),), writes),
        *old(b) == *final(a),
        call_ensures(note_audio_capability, (b, writable, product), ()),
    ensures
        texts(reads@).contains(trimmed(product@)),
        writable ==> texts(writes@).contains(trimmed(product@)),
        !writable ==> texts(writes@) == texts(old(a).write@),
        texts(final(b).read@) == texts(reads@) && texts(final(
            b).write@) == texts(writes@),
{
    let t = trimmed(product@);
    law_learning_only_adds(texts(old(a).read@), t, t);
    law_learning_only_adds(texts(old(a).write@), t, t);
}

/// A product without a name teaches nothing.
pub proof fn law_nameless_product_teaches_nothing(a: &mut CapabilitySurface, writable: bool, product: &str)
    requires
        old(a).wf(),
        product@.len() == 0,
        call_ensures(note_audio_capability, (a, writable, product), ()),
    ensures
        *final(a) == *old(a),
{
}

// ── the definitions ─────────────────────────────────────────────────────────────────────────────

/// The first definition of a product is its own; a product that none lists has none.
pub proof fn law_first_definition_of_a_product(reg: &Registry, pid: u16, i: int, r: Option<usize>, has: bool)
    requires
        call_ensures(def_for_pid, (reg, pid), r),
        0 <= i < reg.devices@.len(),
        call_ensures(def_has_pid, (&reg.devices@[i], pid), has),
    ensures
        has <==> reg.devices@[i].product_ids@.contains(pid),
        has ==> (r matches Some(k) && k <= i),
        r matches Some(k) ==> k < reg.devices@.len() && reg.devices@[k as int].product_ids@.contains(pid),
{
    lemma_least_def(reg.devices@, pid, 0);
}

proof fn lemma_least_def(devices: Seq<DeviceDef>, pid: u16, from: nat)
    ensures
        match def_from(devices, pid, from) {
            Some(k) => from <= k < devices.len() && has_pid(devices[k as int], pid) && forall|j: int|
                from <= j < k ==> !has_pid(#[trigger] devices[j], pid),
            None => forall|j: int| from <= j < devices.len() ==> !has_pid(#[trigger] devices[j], pid),
        },
    decreases devices.len() - from,
{
    if from < devices.len() && !has_pid(devices[from as int], pid) {
        lemma_least_def(devices, pid, from + 1);
    }
}

/// A product has a resolution where a definition of its maker gives it one.
pub proof fn law_product_with_a_resolution(reg: &Registry, pid: u16, r: bool)
    requires
        call_ensures(dpi_pid, (reg, pid), r),
    ensures
        r ==> exists|i: int|
            0 <= i < reg.devices@.len() && (#[trigger] reg.devices@[i]).dpi && reg.devices@[i].vendor_id == 0x1532
                && reg.devices@[i].product_ids@.contains(pid),
        (forall|i: int|
            0 <= i < reg.devices@.len() ==> !(#[trigger] reg.devices@[i]).dpi || reg.devices@[i].vendor_id
                != 0x1532 || !reg.devices@[i].product_ids@.contains(pid)) ==> !r,
{
    if r {
        let i = choose|i: int|
            0 <= i < reg.devices@.len() && reg.devices@[i].dpi && reg.devices@[i].vendor_id == RAZER_VID
                && #[trigger] has_pid(reg.devices@[i], pid);
        assert(reg.devices@[i].dpi);
    }
}

/// A detached plate is told as such, a listed one by its label, any other by its number.
pub proof fn law_plates_are_told(reg: &Registry, pid: u16, id: u8, r: String, none: String)
    requires
        call_ensures(plate_label, (reg, pid, id), r),
        call_ensures(plate_label, (reg, pid, 0u8), none),
    ensures
        none@ == "detached"@,
        id != 0 && (forall|i: int| 0 <= i < reg.devices@.len() ==> !has_pid(#[trigger] reg.devices@[i], pid)) ==> r@
            == "plate "@ + decimal(id as nat),
{
    lemma_least_def(reg.devices@, pid, 0);
}

/// The definitions are loaded once and kept; a reload that brought some replaces them, one that failed
/// keeps them.
pub proof fn law_definitions_are_kept(
    a: &mut RegistryCell,
    b: &mut RegistryCell,
    c: &mut RegistryCell,
    d: &mut RegistryCell,
    x: Registry,
    y: Registry,
    first: Option<&Registry>,
    second: Option<&Registry>,
)
    requires
        old(a).current is None,
        call_ensures(RegistryCell::registry, (a, Some(x)), first),
        *old(b) == *final(a),
        call_ensures(RegistryCell::registry, (b, Some(y)), second),
        *old(c) == *final(b),
        call_ensures(RegistryCell::reload_registry, (c, None::<Registry>), ()),
        *old(d) == *final(c),
        call_ensures(RegistryCell::reload_registry, (d, Some(y)), ()),
    ensures
        first matches Some(g) && *g == x,
        second matches Some(g) && *g == x,
        final(c).current == Some(x),
        final(d).current == Some(y),
{
}

// ── settling, reading and deciding ──────────────────────────────────────────────────────────────

/// Two readings alike settle the charge; two that differ do not, until it is late.
pub proof fn law_charge_settles(
    a: &mut ChargeSettle,
    b: &mut ChargeSettle,
    x: bool,
    y: bool,
    late: bool,
    known: Option<bool>,
    r: SettleStep,
    s: SettleStep,
)
    requires
        old(a).last is None,
        call_ensures(ChargeSettle::step, (a, Some(x), false, known), r),
        *old(b) == *final(a),
        call_ensures(ChargeSettle::step, (b, Some(y), late, known), s),
    ensures
        r == SettleStep::Again,
        x == y ==> s == SettleStep::Settled(x),
        x != y && !late ==> s == SettleStep::Again,
        x != y && late ==> s == SettleStep::Settled(y),
{
}

/// The time to settle is as configured, never below 50 milliseconds; without a number it is 150.
pub proof fn law_settle_time_is_configured(n: u64, t: &str, r: u64, s: &str, bad: u64, none: u64)
    requires
        t@ == decimal(n as nat),
        call_ensures(settle_cap_ms, (Some(t),), r),
        s@.len() == 0,
        call_ensures(settle_cap_ms, (Some(s),), bad),
        call_ensures(settle_cap_ms, (None::<&str>,), none),
    ensures
        n >= 50 ==> r == n,
        n < 50 ==> r == 50,
        bad == 150 && none == 150,
{
    law_settle_time(n as nat);
}

/// Three codes are known, each asks for a step up of its own setting.
pub proof fn law_codes_mean_intents(code: u8, r: Option<Intent>)
    requires
        call_ensures(button_intent, (code,), r),
    ensures
        r == Some(Intent::DpiCycle(Direction::Up)) <==> code == 0x52,
        r == Some(Intent::ScrollStageCycle(Direction::Up)) <==> code == 0x57,
        r == Some(Intent::ProfileCycle(Direction::Up)) <==> code == 0x50,
        r is None <==> code != 0x50 && code != 0x52 && code != 0x57,
{
}

/// A device's own vocabulary goes before its family's; without either no report is a mute state.
pub proof fn law_mute_state_is_read(
    buf: &[u8],
    own: Option<EventKind>,
    family: Option<EventKind>,
    r: Option<bool>,
    whole: Report,
    stages: u32,
)
    requires
        call_ensures(mute_event_state, (buf, own, family), r),
        call_ensures(read_report, (buf, own, family, stages), whole),
    ensures
        own is None && family is None ==> r is None,
        buf@.len() < 3 ==> r is None,
        own == Some(EventKind::MuteState) && buf@.len() >= 3 ==> r == Some(buf@[2] != 0),
        own is None && family == Some(EventKind::MuteState) && buf@.len() >= 3 ==> r == Some(buf@[2] != 0),
        buf@.len() >= 6 ==> (r matches Some(m) ==> whole == Report::Mute(m)),
        buf@.len() < 6 ==> whole == Report::Nothing,
{
}

/// Reports read the same whoever listens: each kind by its own two first bytes.
pub proof fn law_reports_are_read(buf: &[u8], stages: u32, r: Report)
    requires
        call_ensures(read_report, (buf, None::<EventKind>, None::<EventKind>, stages), r),
        buf@.len() >= 6,
    ensures
        r is Dpi <==> buf@[0] == 0x05 && buf@[1] == 0x02 && 100 <= buf@[2] * 256 + buf@[3] <= 30000,
        r matches Report::Dpi(v) ==> v == buf@[2] * 256 + buf@[3],
        r is Scroll <==> buf@[0] == 0x05 && buf@[1] == 0x3a && 1 <= buf@[2] <= stages,
        r matches Report::Scroll(v) ==> v == buf@[2],
        r is Plate <==> buf@[0] == 0x05 && buf@[1] == 0x0e,
        r matches Report::Plate(v) ==> v == buf@[2],
        r is Power <==> buf@[0] == 0x05 && buf@[1] == 0x0c,
        r is Button <==> buf@[0] == 0x04 && (buf@[1] == 0x50 || buf@[1] == 0x52 || buf@[1] == 0x57),
        r is OtherButton <==> buf@[0] == 0x04 && buf@[1] != 0x50 && buf@[1] != 0x52 && buf@[1] != 0x57,
        r matches Report::OtherButton(c) ==> c == buf@[1],
        !(r is Mute),
{
}

/// A device is put right at most once in five seconds, each on its own.
pub proof fn law_put_right_once_in_five_seconds(
    a: &mut Listener,
    b: &mut Listener,
    c: &mut Listener,
    pid: u16,
    other: u16,
    t: u64,
    u: u64,
    first: bool,
    second: bool,
    third: bool,
)
    requires
        !old(a).stamps@.contains_key(pid),
        !old(a).stamps@.contains_key(other),
        pid != other,
        call_ensures(Listener::reassert_due, (a, pid, t), first),
        *old(b) == *final(a),
        call_ensures(Listener::reassert_due, (b, pid, u), second),
        *old(c) == *final(b),
        call_ensures(Listener::reassert_due, (c, other, u), third),
    ensures
        first && third,
        second <==> u >= t + 5000,
{
}

/// A reader that is closed or lost stops and gives its path back; data are decoded as long as they are,
/// and a reader of an audio device with a name first seeds its state.
pub proof fn law_reader_acts(
    a: &mut Reader,
    armed: &mut Armed,
    ev: ReaderEvent,
    r: ReaderAct,
)
    requires
        old(a).claim_held(*old(armed)),
        old(armed).wf(),
        call_ensures(Reader::step, (a, armed, ev), r),
    ensures
        ev == ReaderEvent::Lost || old(a).state == ReaderState::Closed ==> r == ReaderAct::Stop && final(
            a).state == ReaderState::Closed,
        old(a).state == ReaderState::Opening && ev == ReaderEvent::Opened(false) ==> r == ReaderAct::Stop,
        old(a).state == ReaderState::Opening && ev == ReaderEvent::Opened(true) ==> final(a).state
            == ReaderState::Listening && r == (if old(a).audio && old(a).product@.len() > 0 {
            ReaderAct::SeedAndRead
        } else {
            ReaderAct::Read
        }),
        old(a).state == ReaderState::Listening ==> (ev matches ReaderEvent::Read(ReadStep::Data(n)) ==> (if n > 0 {
            r == ReaderAct::Decode(n)
        } else {
            r == ReaderAct::Read
        }) && final(a).state == ReaderState::Listening),
        old(a).state == ReaderState::Listening && ev == ReaderEvent::Read(ReadStep::Gone) ==> r
            == ReaderAct::Stop,
        r == ReaderAct::Stop <==> final(a).state == ReaderState::Closed,
        final(a).path@ == old(a).path@,
{
}

/// Asking whether a device is due leaves what was collected alone; a listener begins with nothing.
pub proof fn law_due_leaves_the_batches(l: &mut Listener, pid: u16, now: u64, r: bool, fresh: Listener)
    requires
        call_ensures(Listener::reassert_due, (l, pid, now), r),
        call_ensures(Listener::new, (), fresh),
    ensures
        final(l).batches == old(l).batches,
        forall|p: u16| !#[trigger] fresh.batches@.contains_key(p) && !fresh.stamps@.contains_key(p),
{
}

} // verus!
