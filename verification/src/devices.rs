//! The device list: one row per physical unit and per audio endpoint, which row is selected, and
//! what selecting a row shows.

use vstd::prelude::*;

use crate::editors::pid_supports_hyperpoll;
use crate::naming::{strip_all, without_all};
use crate::text::{
    decimal_int, digit, digits_value, hex_digits, number, parse_number, same_text, show_hex4,
    show_i64, trim, trimmed,
};

verus! {

/// What a device can do.
#[derive(Clone, Copy, Debug, PartialEq, Eq, Structural)]
pub struct Caps {
    pub dpi: bool,
    pub poll: bool,
    pub light: bool,
    pub bright: bool,
    pub scroll: bool,
    pub store: bool,
    pub idle: bool,
    pub plate: bool,
}

/// A device that a scan found.
pub struct ScannedDevice {
    pub name: String,
    pub codename: String,
    pub pid: u16,
    pub mode: String,
    pub connected: bool,
    pub firmware: String,
    pub dpi: String,
    pub polling: String,
    pub brightness: String,
    pub battery: String,
    pub charging: bool,
    pub storage: String,
    /// "mouse", "keyboard" or "device".
    pub icon: String,
    /// The physical unit, which tells it apart from its twins.
    pub instance: String,
    pub caps: Caps,
    /// The side plate that the device pushed last.
    pub last_plate: Option<String>,
}

/// Which way sound flows through an endpoint.
#[derive(Clone, Copy, Debug, PartialEq, Eq, Structural)]
pub enum Flow {
    Capture,
    Render,
}

/// An audio endpoint.
pub struct Endpoint {
    pub name: String,
    pub id: String,
    pub muted: bool,
    /// The volume in percent.
    pub percent: i32,
}

/// A row of the device list.
#[derive(Debug, PartialEq)]
pub struct DeviceRow {
    pub name: String,
    pub codename: String,
    /// The product id as four base-sixteen digits; empty for an audio endpoint.
    pub pid: String,
    pub mode: String,
    pub connected: bool,
    pub firmware: String,
    pub dpi: String,
    pub polling: String,
    pub brightness: String,
    pub battery: String,
    pub charging: bool,
    pub storage: String,
    pub icon: String,
    /// What sort of panel the row opens.
    pub kind: String,
    /// The physical unit, or the audio endpoint.
    pub id: String,
    pub detail: String,
    pub caps: Caps,
    pub plate: String,
}

// ── rows ────────────────────────────────────────────────────────────────────────────────────────

/// The text, or nothing.
pub open spec fn or_empty(s: Option<String>) -> Seq<char> {
    match s {
        Some(t) => t@,
        None => Seq::empty(),
    }
}

/// The side plate that a row shows: the last one pushed, where the device has plates.
pub open spec fn plate_shown(caps: Caps, last: Option<String>) -> Seq<char> {
    if caps.plate {
        or_empty(last)
    } else {
        Seq::empty()
    }
}

/// The row of a scanned device.
pub open spec fn device_row(r: DeviceRow, d: ScannedDevice) -> bool {
    &&& r.name@ == d.name@
    &&& r.codename@ == d.codename@
    &&& r.pid@ == hex_digits(d.pid as nat, 4)
    &&& r.mode@ == d.mode@
    &&& r.connected == d.connected
    &&& r.firmware@ == d.firmware@
    &&& r.dpi@ == d.dpi@
    &&& r.polling@ == d.polling@
    &&& r.brightness@ == d.brightness@
    &&& r.battery@ == d.battery@
    &&& r.charging == d.charging
    &&& r.storage@ == d.storage@
    &&& r.icon@ == d.icon@
    &&& r.kind@ == d.icon@
    &&& r.id@ == d.instance@
    &&& r.detail@ == Seq::<char>::empty()
    &&& r.caps == d.caps
    &&& r.plate@ == plate_shown(d.caps, d.last_plate)
}

/// What an endpoint's row is called by its flow.
pub open spec fn flow_word(f: Flow) -> Seq<char> {
    match f {
        Flow::Capture => "mic"@,
        Flow::Render => "output"@,
    }
}

/// The subtitle of an audio row.
pub open spec fn audio_detail(kind: Seq<char>, muted: bool, percent: int) -> Seq<char> {
    if muted {
        kind + " · muted"@
    } else {
        kind + " · "@ + decimal_int(percent) + "%"@
    }
}

/// A device without any of the settings of a mouse or keyboard.
pub open spec fn no_caps() -> Caps {
    Caps {
        dpi: false,
        poll: false,
        light: false,
        bright: false,
        scroll: false,
        store: false,
        idle: false,
        plate: false,
    }
}

/// The row of an audio endpoint.
pub open spec fn audio_row(r: DeviceRow, e: Endpoint, f: Flow) -> bool {
    &&& r.name@ == e.name@
    &&& r.codename@ == Seq::<char>::empty()
    &&& r.pid@ == Seq::<char>::empty()
    &&& r.mode@ == Seq::<char>::empty()
    &&& r.connected
    &&& r.firmware@ == "—"@
    &&& r.dpi@ == "—"@
    &&& r.polling@ == "—"@
    &&& r.brightness@ == "—"@
    &&& r.battery@ == Seq::<char>::empty()
    &&& !r.charging
    &&& r.storage@ == Seq::<char>::empty()
    &&& r.icon@ == flow_word(f)
    &&& r.kind@ == flow_word(f)
    &&& r.id@ == e.id@
    &&& r.detail@ == audio_detail(flow_word(f), e.muted, e.percent as int)
    &&& r.caps == no_caps()
    &&& r.plate@ == Seq::<char>::empty()
}

fn copy_or_empty(s: &Option<String>) -> (r: String)
    ensures
        r@ == or_empty(*s),
{
    match s {
        Some(t) => t.clone(),
        None => String::new(),
    }
}

fn row_for_device(d: &ScannedDevice) -> (r: DeviceRow)
    ensures
        device_row(r, *d),
{
    DeviceRow {
        name: d.name.clone(),
        codename: d.codename.clone(),
        pid: show_hex4(d.pid),
        mode: d.mode.clone(),
        connected: d.connected,
        firmware: d.firmware.clone(),
        dpi: d.dpi.clone(),
        polling: d.polling.clone(),
        brightness: d.brightness.clone(),
        battery: d.battery.clone(),
        charging: d.charging,
        storage: d.storage.clone(),
        icon: d.icon.clone(),
        kind: d.icon.clone(),
        id: d.instance.clone(),
        detail: String::new(),
        caps: d.caps,
        plate: if d.caps.plate {
            copy_or_empty(&d.last_plate)
        } else {
            String::new()
        },
    }
}

fn word_of_flow(f: Flow) -> (r: &'static str)
    ensures
        r@ == flow_word(f),
{
    match f {
        Flow::Capture => "mic",
        Flow::Render => "output",
    }
}

/// The subtitle of an audio row.
pub fn audio_detail_text(kind: &str, muted: bool, percent: i32) -> (r: String)
    ensures
        r@ == audio_detail(kind@, muted, percent as int),
{
    let mut s = kind.to_owned();
    if muted {
        s.append(" · muted");
    } else {
        s.append(" · ");
        s.append(show_i64(percent as i64).as_str());
        s.append("%");
    }
    s
}

/// The rows of the endpoints: one each, in order, whatever hardware they belong to.
pub fn audio_rows(es: &Vec<Endpoint>, f: Flow) -> (r: Vec<DeviceRow>)
    ensures
        r@.len() == es@.len(),
        forall|i: int| 0 <= i < r@.len() ==> audio_row(#[trigger] r@[i], es@[i], f),
{
    let mut out: Vec<DeviceRow> = Vec::new();
    let mut i: usize = 0;
    while i < es.len()
        invariant
            i <= es@.len(),
            out@.len() == i,
            forall|j: int| 0 <= j < i ==> audio_row(#[trigger] out@[j], es@[j], f),
        decreases es@.len() - i,
    {
        let e = &es[i];
        let word = word_of_flow(f);
        out.push(
            DeviceRow {
                name: e.name.clone(),
                codename: String::new(),
                pid: String::new(),
                mode: String::new(),
                connected: true,
                firmware: "—".to_owned(),
                dpi: "—".to_owned(),
                polling: "—".to_owned(),
                brightness: "—".to_owned(),
                battery: String::new(),
                charging: false,
                storage: String::new(),
                icon: word.to_owned(),
                kind: word.to_owned(),
                id: e.id.clone(),
                detail: audio_detail_text(word, e.muted, e.percent),
                caps: Caps {
                    dpi: false,
                    poll: false,
                    light: false,
                    bright: false,
                    scroll: false,
                    store: false,
                    idle: false,
                    plate: false,
                },
                plate: String::new(),
            },
        );
        i = i + 1;
    }
    out
}

// ── the list ────────────────────────────────────────────────────────────────────────────────────

/// The first row from `from` on with this id.
pub open spec fn row_with_id(rows: Seq<DeviceRow>, id: Seq<char>, from: nat) -> Option<nat>
    decreases rows.len() - from,
{
    if from >= rows.len() {
        None
    } else if rows[from as int].id@ == id {
        Some(from)
    } else {
        row_with_id(rows, id, from + 1)
    }
}

/// The row to select after a scan: the one that was selected before, else the first.
pub open spec fn reselected(rows: Seq<DeviceRow>, previous: Seq<char>) -> nat {
    if previous.len() == 0 {
        0
    } else {
        match row_with_id(rows, previous, 0) {
            Some(i) => i,
            None => 0,
        }
    }
}

/// The list after a scan: the devices, then the microphones, then the outputs.
pub open spec fn listed(
    rows: Seq<DeviceRow>,
    devs: Seq<ScannedDevice>,
    mics: Seq<Endpoint>,
    outs: Seq<Endpoint>,
) -> bool {
    &&& rows.len() == devs.len() + mics.len() + outs.len()
    &&& forall|i: int| 0 <= i < devs.len() ==> device_row(#[trigger] rows[i], devs[i])
    &&& forall|i: int|
        0 <= i < mics.len() ==> audio_row(#[trigger] rows[devs.len() + i], mics[i], Flow::Capture)
    &&& forall|i: int|
        0 <= i < outs.len() ==> audio_row(
            #[trigger] rows[devs.len() + mics.len() + i],
            outs[i],
            Flow::Render,
        )
}

fn find_row(rows: &Vec<DeviceRow>, id: &str) -> (r: Option<usize>)
    ensures
        match r {
            Some(i) => row_with_id(rows@, id@, 0) == Some(i as nat) && i < rows@.len(),
            None => row_with_id(rows@, id@, 0) is None,
        },
{
    let mut i: usize = 0;
    while i < rows.len()
        invariant
            i <= rows@.len(),
            row_with_id(rows@, id@, 0) == row_with_id(rows@, id@, i as nat),
        decreases rows@.len() - i,
    {
        if same_text(rows[i].id.as_str(), id) {
            return Some(i);
        }
        i = i + 1;
    }
    None
}

/// The list after a scan, and the row to select.
pub fn refresh_devices(
    devs: &Vec<ScannedDevice>,
    mics: &Vec<Endpoint>,
    outs: &Vec<Endpoint>,
    previous: &str,
) -> (r: (Vec<DeviceRow>, usize))
    ensures
        listed(r.0@, devs@, mics@, outs@),
        r.1 == reselected(r.0@, previous@),
{
    let mut rows: Vec<DeviceRow> = Vec::new();
    let mut i: usize = 0;
    while i < devs.len()
        invariant
            i <= devs@.len(),
            rows@.len() == i,
            forall|j: int| 0 <= j < i ==> device_row(#[trigger] rows@[j], devs@[j]),
        decreases devs@.len() - i,
    {
        rows.push(row_for_device(&devs[i]));
        i = i + 1;
    }
    let mut m = audio_rows(mics, Flow::Capture);
    let mut o = audio_rows(outs, Flow::Render);
    let ghost d0 = rows@;
    let ghost m0 = m@;
    let ghost o0 = o@;
    rows.append(&mut m);
    rows.append(&mut o);
    proof {
        assert(rows@ =~= d0 + m0 + o0);
        assert forall|i: int| 0 <= i < mics@.len() implies audio_row(
            #[trigger] rows@[devs@.len() + i],
            mics@[i],
            Flow::Capture,
        ) by {
            assert(rows@[devs@.len() + i] == m0[i]);
        }
        assert forall|i: int| 0 <= i < outs@.len() implies audio_row(
            #[trigger] rows@[devs@.len() + mics@.len() + i],
            outs@[i],
            Flow::Render,
        ) by {
            assert(rows@[devs@.len() + mics@.len() + i] == o0[i]);
        }
    }
    let sel: usize = if previous.is_empty() {
        0
    } else {
        match find_row(&rows, previous) {
            Some(i) => i,
            None => 0,
        }
    };
    (rows, sel)
}

// ── selecting a row ─────────────────────────────────────────────────────────────────────────────

/// The product id that a row's text spells; zero where it spells none.
pub open spec fn row_pid(pid: Seq<char>) -> nat {
    match number(pid, 16, 65535) {
        Some(n) => n,
        None => 0,
    }
}

/// The product id that a row's text spells; zero where it spells none.
pub fn pid_of_row(pid: &str) -> (r: u16)
    ensures
        r == row_pid(pid@),
{
    match parse_number(pid, 16, 65535) {
        Some(n) => n as u16,
        None => 0,
    }
}

/// The row is an audio endpoint's.
pub open spec fn is_audio(kind: Seq<char>) -> bool {
    kind == "mic"@ || kind == "output"@
}

/// What selecting a row points the app at.
pub enum SelectTarget {
    /// An audio endpoint, whose volume and mute are to be loaded.
    Audio { flow: Flow, id: String },
    /// A device; `changed` says that another one was selected before, so that its panels are to be
    /// read anew.
    Hid { pid: u16, unit: String, changed: bool },
}

/// What selecting a row shows.
pub struct Selection {
    /// The row's index, or -1 where the list is empty.
    pub index: i32,
    pub name: String,
    pub kind: String,
    pub caps: Caps,
    pub hyperpoll: bool,
    pub plate: String,
    /// What is selected, where anything is.
    pub target: Option<SelectTarget>,
}

/// `idx` within a list of `n` rows.
pub open spec fn within(idx: int, n: nat) -> int {
    if idx < 0 {
        0
    } else if idx >= n {
        n - 1
    } else {
        idx
    }
}

/// What was selected before: product and unit, and the panels that were open.
pub struct Before {
    pub pid: u16,
    pub unit: String,
    pub caps: Caps,
    pub hyperpoll: bool,
}

/// What selecting row `idx` shows: the nearest row. In an empty list there is no row, no name, no
/// lighting and no plate; the other panels stay as they were, hidden by the empty kind.
pub open spec fn selected(
    s: Selection,
    rows: Seq<DeviceRow>,
    idx: int,
    last_plate: Option<String>,
    b: Before,
) -> bool {
    if rows.len() == 0 {
        &&& s.index == -1
        &&& s.name@ == "—"@
        &&& s.kind@ == Seq::<char>::empty()
        &&& s.caps == (Caps { light: false, plate: false, ..b.caps })
        &&& s.hyperpoll == b.hyperpoll
        &&& s.plate@ == Seq::<char>::empty()
        &&& s.target is None
    } else {
        let r = rows[within(idx, rows.len())];
        &&& s.index == within(idx, rows.len())
        &&& s.name@ == r.name@
        &&& s.kind@ == r.kind@
        &&& s.caps == r.caps
        &&& s.hyperpoll == (row_pid(r.pid@) == 0x00B3)
        &&& s.plate@ == plate_shown(r.caps, last_plate)
        &&& if is_audio(r.kind@) {
            s.target matches Some(SelectTarget::Audio { flow, id }) && flow == (if r.kind@ == "mic"@ {
                Flow::Capture
            } else {
                Flow::Render
            }) && id@ == r.id@
        } else {
            s.target matches Some(SelectTarget::Hid { pid: p, unit: u, changed }) && p == row_pid(
                r.pid@,
            ) && u@ == r.id@ && changed == (b.pid != row_pid(r.pid@) || b.unit@ != r.id@)
        }
    }
}

/// The index of the row that selecting `idx` lands on; `None` in an empty list.
pub fn nearest_row(n: usize, idx: i32) -> (r: Option<usize>)
    requires
        n <= i32::MAX,
    ensures
        match r {
            Some(i) => n > 0 && i == within(idx as int, n as nat),
            None => n == 0,
        },
{
    if n == 0 {
        None
    } else if idx < 0 {
        Some(0)
    } else if idx as usize >= n {
        Some(n - 1)
    } else {
        Some(idx as usize)
    }
}

/// Selects a row. `last_plate` is what that row's product pushed last.
pub fn select_device_at(
    rows: &Vec<DeviceRow>,
    idx: i32,
    last_plate: &Option<String>,
    b: &Before,
) -> (s: Selection)
    requires
        rows@.len() <= i32::MAX,
    ensures
        selected(s, rows@, idx as int, *last_plate, *b),
{
    match nearest_row(rows.len(), idx) {
        None => Selection {
            index: -1,
            name: "—".to_owned(),
            kind: String::new(),
            caps: Caps {
                dpi: b.caps.dpi,
                poll: b.caps.poll,
                light: false,
                bright: b.caps.bright,
                scroll: b.caps.scroll,
                store: b.caps.store,
                idle: b.caps.idle,
                plate: false,
            },
            hyperpoll: b.hyperpoll,
            plate: String::new(),
            target: None,
        },
        Some(i) => {
            let r = &rows[i];
            let p = pid_of_row(r.pid.as_str());
            let mic = same_text(r.kind.as_str(), "mic");
            let out = same_text(r.kind.as_str(), "output");
            let target = if mic || out {
                let flow = if mic {
                    Flow::Capture
                } else {
                    Flow::Render
                };
                SelectTarget::Audio { flow, id: r.id.clone() }
            } else {
                let changed = b.pid != p || !same_text(b.unit.as_str(), r.id.as_str());
                SelectTarget::Hid { pid: p, unit: r.id.clone(), changed }
            };
            Selection {
                index: i as i32,
                name: r.name.clone(),
                kind: r.kind.clone(),
                caps: r.caps,
                hyperpoll: pid_supports_hyperpoll(p),
                plate: if r.caps.plate {
                    copy_or_empty(last_plate)
                } else {
                    String::new()
                },
                target: Some(target),
            }
        },
    }
}

/// The endpoint of the selected row, where it is an audio endpoint's.
pub fn selected_audio_id(rows: &Vec<DeviceRow>, idx: i32) -> (r: Option<String>)
    ensures
        match r {
            Some(s) => 0 <= idx < rows@.len() && is_audio(rows@[idx as int].kind@) && s@
                == rows@[idx as int].id@,
            None => !(0 <= idx < rows@.len() && is_audio(rows@[idx as int].kind@)),
        },
{
    if idx < 0 || idx as usize >= rows.len() {
        return None;
    }
    let row = &rows[idx as usize];
    if same_text(row.kind.as_str(), "mic") || same_text(row.kind.as_str(), "output") {
        Some(row.id.clone())
    } else {
        None
    }
}

/// The new subtitle of the selected row, where it is an audio endpoint's.
pub fn patch_selected_audio_detail(
    rows: &Vec<DeviceRow>,
    idx: i32,
    muted: bool,
    percent: i32,
) -> (r: Option<String>)
    ensures
        match r {
            Some(s) => 0 <= idx < rows@.len() && is_audio(rows@[idx as int].kind@) && s@
                == audio_detail(rows@[idx as int].kind@, muted, percent as int),
            None => !(0 <= idx < rows@.len() && is_audio(rows@[idx as int].kind@)),
        },
{
    if selected_audio_id(rows, idx).is_none() {
        return None;
    }
    Some(audio_detail_text(rows[idx as usize].kind.as_str(), muted, percent))
}

// ── readings as typed into the faders ───────────────────────────────────────────────────────────

/// `s` trimmed, without `unit` at its end however often it stands there, and trimmed again.
pub open spec fn bare_reading(s: Seq<char>, unit: Seq<char>) -> Seq<char> {
    trimmed(without_all(trimmed(s), unit))
}

/// A reading without its unit, ready to be read as a number.
pub fn reading_without_unit(s: &str, unit: &str) -> (r: String)
    ensures
        r@ == bare_reading(s@, unit@),
{
    let t = trim(s);
    let u = strip_all(t.as_str(), unit);
    trim(u.as_str())
}

// ── side plates ─────────────────────────────────────────────────────────────────────────────────

/// The plate readout of the selected device after a tick: nothing where it has no plates, else the
/// last plate that its product pushed. `None` where nothing changes.
pub fn refresh_selected_plate(can_plate: bool, shown: &str, last_plate: &Option<String>) -> (r: Option<
    String,
>)
    ensures
        match r {
            Some(s) => s@ != shown@ && s@ == (if can_plate {
                or_empty(*last_plate)
            } else {
                Seq::<char>::empty()
            }),
            None => shown@ == (if can_plate {
                or_empty(*last_plate)
            } else {
                Seq::<char>::empty()
            }),
        },
{
    let next: String = if can_plate {
        copy_or_empty(last_plate)
    } else {
        String::new()
    };
    if same_text(next.as_str(), shown) {
        None
    } else {
        Some(next)
    }
}

/// Row `i` is to show another plate.
pub open spec fn plate_changes(r: DeviceRow, last: Option<String>) -> bool {
    r.caps.plate && r.plate@ != or_empty(last)
}

/// The rows whose plate changes, and to what, given the last plate of each row's own product.
pub fn refresh_plated_row(rows: &Vec<DeviceRow>, last_plates: &Vec<Option<String>>) -> (r: Vec<
    (usize, String),
>)
    requires
        last_plates@.len() == rows@.len(),
    ensures
        forall|q: int|
            0 <= q < r@.len() ==> (#[trigger] r@[q]).0 < rows@.len() && plate_changes(
                rows@[r@[q].0 as int],
                last_plates@[r@[q].0 as int],
            ) && r@[q].1@ == or_empty(last_plates@[r@[q].0 as int]),
        forall|q: int, p: int| 0 <= q < p < r@.len() ==> (#[trigger] r@[q]).0 < (#[trigger] r@[p]).0,
        forall|i: int|
            0 <= i < rows@.len() && plate_changes(rows@[i], last_plates@[i]) ==> exists|q: int|
                0 <= q < r@.len() && (#[trigger] r@[q]).0 == i,
{
    let mut out: Vec<(usize, String)> = Vec::new();
    let mut i: usize = 0;
    while i < rows.len()
        invariant
            i <= rows@.len(),
            last_plates@.len() == rows@.len(),
            forall|q: int|
                0 <= q < out@.len() ==> (#[trigger] out@[q]).0 < i && plate_changes(
                    rows@[out@[q].0 as int],
                    last_plates@[out@[q].0 as int],
                ) && out@[q].1@ == or_empty(last_plates@[out@[q].0 as int]),
            forall|q: int, p: int|
                0 <= q < p < out@.len() ==> (#[trigger] out@[q]).0 < (#[trigger] out@[p]).0,
            forall|j: int|
                0 <= j < i && plate_changes(rows@[j], last_plates@[j]) ==> exists|q: int|
                    0 <= q < out@.len() && (#[trigger] out@[q]).0 == j,
        decreases rows@.len() - i,
    {
        let ghost before = out@;
        if rows[i].caps.plate {
            let label = copy_or_empty(&last_plates[i]);
            if !same_text(rows[i].plate.as_str(), label.as_str()) {
                out.push((i, label));
                proof {
                    assert(out@.last().0 == i);
                }
            }
        }
        proof {
            assert forall|j: int|
                0 <= j < i + 1 && plate_changes(rows@[j], last_plates@[j]) implies exists|q: int|
                0 <= q < out@.len() && (#[trigger] out@[q]).0 == j by {
                if j < i {
                    let q = choose|q: int| 0 <= q < before.len() && (#[trigger] before[q]).0 == j;
                    assert(out@[q] == before[q]);
                } else {
                    assert(out@[out@.len() - 1].0 == j);
                }
            }
        }
        i = i + 1;
    }
    out
}

// ── boards that can be lit ──────────────────────────────────────────────────────────────────────

/// The row is a board that can be lit: it has lights, and its product id is a number other than zero.
pub open spec fn is_lit_board(r: DeviceRow) -> bool {
    r.caps.light && (number(r.pid@, 16, 65535) matches Some(p) && p != 0)
}

/// Product id and unit of those of the first `k` rows that are boards that can be lit.
pub open spec fn lit_boards(rows: Seq<DeviceRow>, k: nat) -> Seq<(nat, Seq<char>)>
    decreases k,
{
    if k == 0 || k > rows.len() {
        Seq::empty()
    } else {
        let before = lit_boards(rows, (k - 1) as nat);
        if is_lit_board(rows[k - 1]) {
            before.push((row_pid(rows[k - 1].pid@), rows[k - 1].id@))
        } else {
            before
        }
    }
}

/// What a list of units holds.
pub open spec fn unit_views(v: Seq<(u16, String)>) -> Seq<(nat, Seq<char>)> {
    Seq::new(v.len(), |i: int| (v[i].0 as nat, v[i].1@))
}

/// Every board that can be lit, one entry per physical unit.
pub fn light_capable_units(rows: &Vec<DeviceRow>) -> (r: Vec<(u16, String)>)
    ensures
        unit_views(r@) == lit_boards(rows@, rows@.len()),
{
    let mut out: Vec<(u16, String)> = Vec::new();
    let mut i: usize = 0;
    proof {
        assert(unit_views(out@) =~= lit_boards(rows@, 0));
    }
    while i < rows.len()
        invariant
            i <= rows@.len(),
            unit_views(out@) == lit_boards(rows@, i as nat),
        decreases rows@.len() - i,
    {
        let ghost before = out@;
        let p = pid_of_row(rows[i].pid.as_str());
        if rows[i].caps.light && p != 0 {
            out.push((p, rows[i].id.clone()));
            proof {
                assert(unit_views(out@) =~= unit_views(before).push(
                    (row_pid(rows@[i as int].pid@), rows@[i as int].id@),
                ));
            }
        }
        i = i + 1;
    }
    out
}

// ── laws ────────────────────────────────────────────────────────────────────────────────────────

/// A row that is in the list after a scan under the id that was selected is selected again.
pub proof fn law_selection_survives_scan(rows: Seq<DeviceRow>, previous: Seq<char>, from: nat, i: nat)
    requires
        from <= i < rows.len(),
        rows[i as int].id@ == previous,
        previous.len() > 0,
    ensures
        row_with_id(rows, previous, from) matches Some(k) && from <= k <= i && rows[k as int].id@
            == previous,
        from == 0 ==> rows[reselected(rows, previous) as int].id@ == previous,
    decreases i - from,
{
    if rows[from as int].id@ != previous {
        law_selection_survives_scan(rows, previous, from + 1, i);
    }
}

/// The product id that a device's row shows is read back from it.
pub proof fn law_row_pid_reads_back(pid: u16)
    ensures
        row_pid(hex_digits(pid as nat, 4)) == pid,
{
    reveal_with_fuel(hex_digits, 5);
    reveal_with_fuel(digits_value, 6);
    let n = pid as nat;
    let s = hex_digits(n, 4);
    let (a, b, c, d) = (n / 16 / 16 / 16 % 16, n / 16 / 16 % 16, n / 16 % 16, n % 16);
    assert(s =~= seq![
        digit(a),
        digit(b),
        digit(c),
        digit(d),
    ]);
    assert(s.drop_last() =~= seq![
        digit(a),
        digit(b),
        digit(c),
    ]);
    assert(s.drop_last().drop_last() =~= seq![digit(a), digit(b)]);
    assert(s.drop_last().drop_last().drop_last() =~= seq![digit(a)]);
    assert(s.drop_last().drop_last().drop_last().drop_last() =~= Seq::<char>::empty());
    assert(((a * 16 + b) * 16 + c) * 16 + d == n);
}

} // verus!
