//! The device-event listener: what a report that a device pushes means, the batches that settle
//! before they are announced, and the debounce of the wake reconcile.

use std::collections::HashMap;

use vstd::prelude::*;

use crate::registry::{plate_label, plate_name, DeviceDef, Registry};
use crate::text::{same_text, trim, trimmed};

verus! {

broadcast use vstd::std_specs::hash::group_hash_axioms;

/// How long a batch of pushed reports waits for quiet, in milliseconds.
pub const BATCH_SETTLE_MS: u64 = 220;

/// No person changes two settings within this many milliseconds.
pub const BURST_SPAN_MS: u64 = 150;

/// How often the hotplug monitor looks for new collections, in milliseconds.
pub const HOTPLUG_POLL_MS: u64 = 20_000;

/// At most one wake reconcile per device within this many milliseconds.
pub const REASSERT_DEBOUNCE_MS: u64 = 5_000;

/// The least DPI that a device can announce.
pub const DPI_MIN: u32 = 100;

/// The greatest DPI that a device can announce.
pub const DPI_MAX: u32 = 30_000;

/// Which way a cycle steps.
#[derive(Clone, Copy, Debug, PartialEq, Eq, Structural)]
pub enum Direction {
    Up,
    Down,
}

/// What a deferred button asks for.
#[derive(Clone, Copy, Debug, PartialEq, Eq, Structural)]
pub enum Intent {
    DpiCycle(Direction),
    ScrollStageCycle(Direction),
    ProfileCycle(Direction),
}

/// What an event vocabulary says of a report.
#[derive(Clone, Copy, Debug, PartialEq, Eq, Structural)]
pub enum EventKind {
    MuteState,
}

/// What a pushed report means.
#[derive(Clone, Copy, Debug, PartialEq, Eq, Structural)]
pub enum Report {
    /// Too short, of another family, or out of bounds.
    Nothing,
    /// The device's own mute was toggled.
    Mute(bool),
    /// A button that the firmware leaves to us.
    Button(Intent),
    /// The release of a button (zero), or a button we do not know.
    OtherButton(u8),
    /// The pointer resolution changed.
    Dpi(u16),
    /// The scroll stage changed.
    Scroll(u8),
    /// The power or charge state changed, or the device woke.
    Power,
    /// A side plate was attached or detached.
    Plate(u8),
}

// ── reading a report ────────────────────────────────────────────────────────────────────────────

/// The mute state that a report carries. The device's own vocabulary answers before the family's.
pub open spec fn mute_of(
    buf: Seq<u8>,
    own: Option<EventKind>,
    family: Option<EventKind>,
) -> Option<bool> {
    let event = if own is Some {
        own
    } else {
        family
    };
    match event {
        Some(EventKind::MuteState) => if buf.len() >= 3 {
            Some(buf[2] != 0)
        } else {
            None
        },
        None => None,
    }
}

/// The cycle that a deferred button asks for; each steps up.
pub open spec fn intent_of(code: u8) -> Option<Intent> {
    if code == 0x52 {
        Some(Intent::DpiCycle(Direction::Up))
    } else if code == 0x57 {
        Some(Intent::ScrollStageCycle(Direction::Up))
    } else if code == 0x50 {
        Some(Intent::ProfileCycle(Direction::Up))
    } else {
        None
    }
}

/// What a report of at least six bytes means, given what the two vocabularies say of it and the
/// number of scroll stages.
pub open spec fn report_of(
    buf: Seq<u8>,
    own: Option<EventKind>,
    family: Option<EventKind>,
    stages: u32,
) -> Report {
    if buf.len() < 6 {
        Report::Nothing
    } else if mute_of(buf, own, family) is Some {
        Report::Mute(mute_of(buf, own, family)->0)
    } else if buf[0] == 0x04 {
        match intent_of(buf[1]) {
            Some(intent) => Report::Button(intent),
            None => Report::OtherButton(buf[1]),
        }
    } else if buf[0] != 0x05 {
        Report::Nothing
    } else if buf[1] == 0x02 {
        let dpi = buf[2] * 256 + buf[3];
        if DPI_MIN <= dpi <= DPI_MAX {
            Report::Dpi(dpi as u16)
        } else {
            Report::Nothing
        }
    } else if buf[1] == 0x3a {
        if 1 <= buf[2] <= stages {
            Report::Scroll(buf[2])
        } else {
            Report::Nothing
        }
    } else if buf[1] == 0x0c {
        Report::Power
    } else if buf[1] == 0x0e {
        Report::Plate(buf[2])
    } else {
        Report::Nothing
    }
}

/// The mute state that a report carries, given what the device's own vocabulary and its family's say
/// of it.
pub fn mute_event_state(
    buf: &[u8],
    own: Option<EventKind>,
    family: Option<EventKind>,
) -> (r: Option<bool>)
    ensures
        r == mute_of(buf@, own, family),
{
    let event = match own {
        Some(e) => Some(e),
        None => family,
    };
    match event {
        Some(EventKind::MuteState) => if buf.len() >= 3 {
            Some(buf[2] != 0)
        } else {
            None
        },
        None => None,
    }
}

/// The cycle that a deferred button asks for.
pub fn button_intent(code: u8) -> (r: Option<Intent>)
    ensures
        r == intent_of(code),
{
    if code == 0x52 {
        Some(Intent::DpiCycle(Direction::Up))
    } else if code == 0x57 {
        Some(Intent::ScrollStageCycle(Direction::Up))
    } else if code == 0x50 {
        Some(Intent::ProfileCycle(Direction::Up))
    } else {
        None
    }
}

/// What a report means.
pub fn read_report(
    buf: &[u8],
    own: Option<EventKind>,
    family: Option<EventKind>,
    stages: u32,
) -> (r: Report)
    ensures
        r == report_of(buf@, own, family, stages),
{
    if buf.len() < 6 {
        return Report::Nothing;
    }
    match mute_event_state(buf, own, family) {
        Some(muted) => {
            return Report::Mute(muted);
        },
        None => {},
    }
    if buf[0] == 0x04 {
        return match button_intent(buf[1]) {
            Some(intent) => Report::Button(intent),
            None => Report::OtherButton(buf[1]),
        };
    }
    if buf[0] != 0x05 {
        return Report::Nothing;
    }
    if buf[1] == 0x02 {
        let dpi: u32 = (buf[2] as u32) * 256 + (buf[3] as u32);
        if DPI_MIN <= dpi && dpi <= DPI_MAX {
            Report::Dpi(dpi as u16)
        } else {
            Report::Nothing
        }
    } else if buf[1] == 0x3a {
        if 1 <= buf[2] && (buf[2] as u32) <= stages {
            Report::Scroll(buf[2])
        } else {
            Report::Nothing
        }
    } else if buf[1] == 0x0c {
        Report::Power
    } else if buf[1] == 0x0e {
        Report::Plate(buf[2])
    } else {
        Report::Nothing
    }
}

/// Whether a mute event can be bridged: a device without a product name cannot be told apart from
/// any other.
pub fn mute_bridged(product: &str) -> (r: bool)
    ensures
        r == (trimmed(product@).len() > 0),
{
    !trim(product).as_str().is_empty()
}

/// Whether a deferred button is ours to fulfil: only in driver mode does the firmware leave it to us.
pub fn button_is_ours(device_mode: Option<u8>) -> (r: bool)
    ensures
        r == (device_mode == Some(3u8)),
{
    match device_mode {
        Some(m) => m == 0x03,
        None => false,
    }
}

// ── batches ─────────────────────────────────────────────────────────────────────────────────────

/// One pushed settings change.
pub enum Push {
    Dpi(u32),
    Scroll(u32),
    /// Strap code and label.
    Plate(u8, String),
}

/// The changes pushed within one settle window: per kind the moment of the first and the value of
/// the last.
pub struct Batch {
    pub dpi: Option<(u64, u32)>,
    pub scroll: Option<(u64, u32)>,
    pub plate: Option<(u64, u8, String)>,
}

/// A device's batch, and how many changes it has pushed.
pub struct BatchState {
    pub batch: Batch,
    pub generation: u64,
}

/// The batch that holds nothing.
pub open spec fn empty_batch() -> Batch {
    Batch { dpi: None, scroll: None, plate: None }
}

/// `b` after one more change at `now`: the first moment of its kind stays, the value is replaced.
pub open spec fn with_push(b: Batch, ev: Push, now: u64) -> Batch {
    match ev {
        Push::Dpi(v) => Batch {
            dpi: Some(
                (
                    match b.dpi {
                        Some((t, _)) => t,
                        None => now,
                    },
                    v,
                ),
            ),
            ..b
        },
        Push::Scroll(v) => Batch {
            scroll: Some(
                (
                    match b.scroll {
                        Some((t, _)) => t,
                        None => now,
                    },
                    v,
                ),
            ),
            ..b
        },
        Push::Plate(id, label) => Batch {
            plate: Some(
                (
                    match b.plate {
                        Some((t, _, _)) => t,
                        None => now,
                    },
                    id,
                    label,
                ),
            ),
            ..b
        },
    }
}

/// The batches and the reconcile stamps of all devices.
pub struct Listener {
    pub batches: HashMap<u16, BatchState>,
    pub stamps: HashMap<u16, u64>,
}

/// A device's batch; empty where nothing was pushed yet.
pub open spec fn batch_of(m: Map<u16, BatchState>, pid: u16) -> Batch {
    if m.contains_key(pid) {
        m[pid].batch
    } else {
        empty_batch()
    }
}

/// How many changes a device has pushed.
pub open spec fn generation_of(m: Map<u16, BatchState>, pid: u16) -> u64 {
    if m.contains_key(pid) {
        m[pid].generation
    } else {
        0
    }
}

/// The batches after a device pushed one more change.
pub open spec fn batches_after(m: Map<u16, BatchState>, pid: u16, ev: Push, now: u64) -> Map<
    u16,
    BatchState,
> {
    m.insert(
        pid,
        BatchState {
            batch: with_push(batch_of(m, pid), ev, now),
            generation: (generation_of(m, pid) + 1) as u64,
        },
    )
}

/// Whether a wake may be reconciled: the debounce window since the last one has passed.
pub open spec fn due(stamps: Map<u16, u64>, pid: u16, now: u64) -> bool {
    stamps.contains_key(pid) ==> now - stamps[pid] >= REASSERT_DEBOUNCE_MS
}

/// The stamps after a wake was seen.
pub open spec fn stamps_after(stamps: Map<u16, u64>, pid: u16, now: u64) -> Map<u16, u64> {
    if due(stamps, pid, now) {
        stamps.insert(pid, now)
    } else {
        stamps
    }
}

/// What a decoded report asks for.
pub enum Decoded {
    /// Nothing.
    Nothing,
    /// Bridge the mute state to the endpoint that the product names.
    Mute(bool),
    /// Hand the cycle to the button worker.
    Button(Intent),
    /// A release, or a button we do not know.
    OtherButton(u8),
    /// Flush the batch after the settle time if its generation is still this one; and, where a value
    /// is given, check it against the persisted cycle.
    Dpi { settle: u64, reconcile: Option<u16> },
    /// Flush the batch after the settle time.
    Scroll { settle: u64 },
    /// Settle the charge state, then reconcile where asked.
    Power { reassert: bool },
    /// Flush the batch after the settle time.
    Plate { settle: u64 },
}

impl Listener {
    /// No batches, no stamps.
    pub fn new() -> (r: Self)
        ensures
            r.batches@ == Map::<u16, BatchState>::empty(),
            r.stamps@ == Map::<u16, u64>::empty(),
    {
        Listener { batches: HashMap::new(), stamps: HashMap::new() }
    }

    /// Adds a change to the device's batch; the generation that a later flush must still find.
    pub fn batch_push(&mut self, pid: u16, ev: Push, now: u64) -> (generation: u64)
        requires
            generation_of(old(self).batches@, pid) < u64::MAX,
        ensures
            final(self).batches@ == batches_after(old(self).batches@, pid, ev, now),
            final(self).stamps == old(self).stamps,
            generation == generation_of(old(self).batches@, pid) + 1,
    {
        let st = match self.batches.remove(&pid) {
            Some(st) => st,
            None => BatchState {
                batch: Batch { dpi: None, scroll: None, plate: None },
                generation: 0,
            },
        };
        let generation: u64 = st.generation + 1;
        let batch = st.batch;
        let next = match ev {
            Push::Dpi(v) => {
                let t: u64 = match batch.dpi {
                    Some((t, _)) => t,
                    None => now,
                };
                Batch { dpi: Some((t, v)), scroll: batch.scroll, plate: batch.plate }
            },
            Push::Scroll(v) => {
                let t: u64 = match batch.scroll {
                    Some((t, _)) => t,
                    None => now,
                };
                Batch { dpi: batch.dpi, scroll: Some((t, v)), plate: batch.plate }
            },
            Push::Plate(id, label) => {
                let t: u64 = match &batch.plate {
                    Some((t, _, _)) => *t,
                    None => now,
                };
                Batch { dpi: batch.dpi, scroll: batch.scroll, plate: Some((t, id, label)) }
            },
        };
        self.batches.insert(pid, BatchState { batch: next, generation });
        proof {
            assert(self.batches@ =~= batches_after(old(self).batches@, pid, ev, now));
        }
        generation
    }

    /// Takes the device's batch, if no change was pushed since the one of this generation.
    pub fn batch_take(&mut self, pid: u16, generation: u64) -> (r: Option<Batch>)
        ensures
            final(self).stamps == old(self).stamps,
            match r {
                Some(b) => {
                    &&& old(self).batches@.contains_key(pid)
                    &&& old(self).batches@[pid].generation == generation
                    &&& b == old(self).batches@[pid].batch
                    &&& final(self).batches@ == old(self).batches@.insert(
                        pid,
                        BatchState { batch: empty_batch(), generation },
                    )
                },
                None => {
                    &&& old(self).batches@.contains_key(pid) ==> old(self).batches@[pid].generation
                        != generation
                    &&& final(self).batches@ == old(self).batches@
                },
            },
    {
        let current = match self.batches.get(&pid) {
            Some(st) => st.generation == generation,
            None => false,
        };
        if !current {
            return None;
        }
        match self.batches.remove(&pid) {
            Some(st) => {
                self.batches.insert(
                    pid,
                    BatchState { batch: Batch { dpi: None, scroll: None, plate: None }, generation },
                );
                proof {
                    assert(self.batches@ =~= old(self).batches@.insert(
                        pid,
                        BatchState { batch: empty_batch(), generation },
                    ));
                }
                Some(st.batch)
            },
            None => None,
        }
    }

    /// Whether a wake may be reconciled now; if so the moment is stamped.
    pub fn reassert_due(&mut self, pid: u16, now: u64) -> (r: bool)
        ensures
            r == due(old(self).stamps@, pid, now),
            final(self).stamps@ == stamps_after(old(self).stamps@, pid, now),
            final(self).batches == old(self).batches,
    {
        let wait = match self.stamps.get(&pid) {
            Some(last) => now.saturating_sub(*last) < REASSERT_DEBOUNCE_MS,
            None => false,
        };
        if wait {
            return false;
        }
        self.stamps.insert(pid, now);
        true
    }

    /// Takes a pushed report in: what it asks for, with the batches and stamps brought up to date.
    pub fn decode(
        &mut self,
        reg: &Registry,
        buf: &[u8],
        pid: u16,
        own: Option<EventKind>,
        family: Option<EventKind>,
        stages: u32,
        now: u64,
    ) -> (r: Decoded)
        requires
            generation_of(old(self).batches@, pid) < u64::MAX,
        ensures
            decoded(
                *old(self),
                *final(self),
                reg.devices@,
                report_of(buf@, own, family, stages),
                pid,
                now,
                r,
            ),
    {
        match read_report(buf, own, family, stages) {
            Report::Nothing => Decoded::Nothing,
            Report::Mute(muted) => Decoded::Mute(muted),
            Report::Button(intent) => Decoded::Button(intent),
            Report::OtherButton(code) => Decoded::OtherButton(code),
            Report::Dpi(dpi) => {
                let settle: u64 = self.batch_push(pid, Push::Dpi(dpi as u32), now);
                let reconcile = if self.reassert_due(pid, now) {
                    Some(dpi)
                } else {
                    None
                };
                Decoded::Dpi { settle, reconcile }
            },
            Report::Scroll(stage) => {
                let settle: u64 = self.batch_push(pid, Push::Scroll(stage as u32), now);
                Decoded::Scroll { settle }
            },
            Report::Power => Decoded::Power { reassert: self.reassert_due(pid, now) },
            Report::Plate(id) => {
                let label = plate_label(reg, pid, id);
                let settle: u64 = self.batch_push(pid, Push::Plate(id, label), now);
                Decoded::Plate { settle }
            },
        }
    }
}

/// What taking a report in does: the request `r`, and the listener before and after it.
pub open spec fn decoded(
    l: Listener,
    new: Listener,
    devices: Seq<DeviceDef>,
    report: Report,
    pid: u16,
    now: u64,
    r: Decoded,
) -> bool {
    let next = (generation_of(l.batches@, pid) + 1) as u64;
    match report {
        Report::Nothing => r == Decoded::Nothing && new == l,
        Report::Mute(muted) => r == Decoded::Mute(muted) && new == l,
        Report::Button(intent) => r == Decoded::Button(intent) && new == l,
        Report::OtherButton(code) => r == Decoded::OtherButton(code) && new == l,
        Report::Dpi(dpi) => {
            &&& r == (Decoded::Dpi {
                settle: next,
                reconcile: if due(l.stamps@, pid, now) {
                    Some(dpi)
                } else {
                    None
                },
            })
            &&& new.batches@ == batches_after(l.batches@, pid, Push::Dpi(dpi as u32), now)
            &&& new.stamps@ == stamps_after(l.stamps@, pid, now)
        },
        Report::Scroll(stage) => {
            &&& r == (Decoded::Scroll { settle: next })
            &&& new.batches@ == batches_after(l.batches@, pid, Push::Scroll(stage as u32), now)
            &&& new.stamps@ == l.stamps@
        },
        Report::Power => {
            &&& r == (Decoded::Power { reassert: due(l.stamps@, pid, now) })
            &&& new.batches@ == l.batches@
            &&& new.stamps@ == stamps_after(l.stamps@, pid, now)
        },
        Report::Plate(id) => {
            &&& r == (Decoded::Plate { settle: next })
            &&& exists|label: String|
                label@ == plate_name(devices, pid, id) && new.batches@ == #[trigger] batches_after(
                    l.batches@,
                    pid,
                    Push::Plate(id, label),
                    now,
                )
            &&& new.stamps@ == l.stamps@
        },
    }
}

// ── deciding a settled batch ────────────────────────────────────────────────────────────────────

/// What the confirmation core is told of a settled change.
pub enum Confirm {
    /// Learn the value without a card.
    PrimeDpi(u32),
    PrimeScroll(u32),
    PrimeSidePlate(u32, String),
    /// Card the value where it is a change.
    ObserveDpi(u32),
    /// Stage and number of stages.
    ObserveScroll(u32, u32),
    ObserveSidePlate(u32, String),
}

/// The moments at which the kinds of a batch first appeared. A detached plate counts as none.
pub open spec fn firsts(b: Batch) -> Seq<u64> {
    let d = match b.dpi {
        Some((t, _)) => seq![t],
        None => seq![],
    };
    let s = match b.scroll {
        Some((t, _)) => seq![t],
        None => seq![],
    };
    let p = match b.plate {
        Some((t, id, _)) => if id != 0 {
            seq![t]
        } else {
            seq![]
        },
        None => seq![],
    };
    d + s + p
}

/// A batch is a device announcing its state: two kinds or more, all first seen within a span that no
/// person can match.
pub open spec fn is_sync(b: Batch) -> bool {
    &&& firsts(b).len() >= 2
    &&& forall|i: int, j: int|
        0 <= i < firsts(b).len() && 0 <= j < firsts(b).len() ==> #[trigger] firsts(b)[i]
            - #[trigger] firsts(b)[j] <= BURST_SPAN_MS
}

/// What the confirmation core is told of a settled batch.
pub open spec fn confirms(b: Batch, stages: u32) -> Seq<Confirm> {
    let d = match b.dpi {
        Some((_, v)) => seq![
            if is_sync(b) {
                Confirm::PrimeDpi(v)
            } else {
                Confirm::ObserveDpi(v)
            },
        ],
        None => seq![],
    };
    let s = match b.scroll {
        Some((_, v)) => seq![
            if is_sync(b) {
                Confirm::PrimeScroll(v)
            } else {
                Confirm::ObserveScroll(v, stages)
            },
        ],
        None => seq![],
    };
    let p = match b.plate {
        Some((_, id, label)) => seq![
            if is_sync(b) {
                Confirm::PrimeSidePlate(id as u32, label)
            } else {
                Confirm::ObserveSidePlate(id as u32, label)
            },
        ],
        None => seq![],
    };
    d + s + p
}

fn sync_batch(b: &Batch) -> (r: bool)
    ensures
        r == is_sync(*b),
{
    let mut seen: Vec<u64> = Vec::new();
    if let Some((t, _)) = b.dpi {
        seen.push(t);
    }
    if let Some((t, _)) = b.scroll {
        seen.push(t);
    }
    if let Some((t, id, _)) = &b.plate {
        if *id != 0 {
            seen.push(*t);
        }
    }
    proof {
        assert(seen@ =~= firsts(*b));
    }
    if seen.len() < 2 {
        return false;
    }
    let mut lo: u64 = seen[0];
    let mut hi: u64 = seen[0];
    let mut at_lo: usize = 0;
    let mut at_hi: usize = 0;
    let mut i: usize = 1;
    while i < seen.len()
        invariant
            1 <= i <= seen@.len(),
            at_lo < i,
            at_hi < i,
            seen@[at_lo as int] == lo,
            seen@[at_hi as int] == hi,
            forall|j: int| 0 <= j < i ==> lo <= #[trigger] seen@[j] <= hi,
        decreases seen@.len() - i,
    {
        if seen[i] < lo {
            lo = seen[i];
            at_lo = i;
        }
        if seen[i] > hi {
            hi = seen[i];
            at_hi = i;
        }
        i = i + 1;
    }
    let tight = hi - lo <= BURST_SPAN_MS;
    proof {
        if tight {
            assert forall|i: int, j: int|
                0 <= i < firsts(*b).len() && 0 <= j < firsts(*b).len() implies #[trigger] firsts(
                *b,
            )[i] - #[trigger] firsts(*b)[j] <= BURST_SPAN_MS by {
                assert(seen@[i] <= hi && seen@[j] >= lo);
            }
        } else {
            assert(firsts(*b)[at_hi as int] - firsts(*b)[at_lo as int] > BURST_SPAN_MS);
        }
    }
    tight
}

/// Decides a settled batch: a state announcement is learned silently, anything else is a person's
/// doing and is observed.
pub fn flush_batch(b: Batch, stages: u32) -> (r: Vec<Confirm>)
    ensures
        r@ == confirms(b, stages),
{
    let sync = sync_batch(&b);
    let ghost b0 = b;
    let mut out: Vec<Confirm> = Vec::new();
    if let Some((_, v)) = b.dpi {
        out.push(
            if sync {
                Confirm::PrimeDpi(v)
            } else {
                Confirm::ObserveDpi(v)
            },
        );
    }
    if let Some((_, v)) = b.scroll {
        out.push(
            if sync {
                Confirm::PrimeScroll(v)
            } else {
                Confirm::ObserveScroll(v, stages)
            },
        );
    }
    if let Some((_, id, label)) = b.plate {
        out.push(
            if sync {
                Confirm::PrimeSidePlate(id as u32, label)
            } else {
                Confirm::ObserveSidePlate(id as u32, label)
            },
        );
    }
    proof {
        assert(out@ =~= confirms(b0, stages));
    }
    out
}

// ── after a wake ────────────────────────────────────────────────────────────────────────────────

/// Whether a device's wake is ours to reconcile: the family whose stores we can read.
pub fn reassert_allowed(dialect: &str) -> (r: bool)
    ensures
        r == (dialect@ == "razer"@),
{
    same_text(dialect, "razer")
}

/// Whether an announced resolution is healed: only of that family, and only where it is known to
/// stand in no stage of the persisted cycle.
pub fn announced_heals(dialect: &str, foreign: Option<bool>) -> (r: bool)
    ensures
        r == (dialect@ == "razer"@ && foreign == Some(true)),
{
    let known_foreign = match foreign {
        Some(f) => f,
        None => false,
    };
    reassert_allowed(dialect) && known_foreign
}

// ── laws ────────────────────────────────────────────────────────────────────────────────────────

/// A change of one kind alone is never taken for an announcement, whatever bounced before it.
pub proof fn law_lone_change_is_observed(b: Batch)
    requires
        b.dpi is None || b.scroll is None,
        b.dpi is None || b.plate is None,
        b.scroll is None || b.plate is None,
    ensures
        !is_sync(b),
{
}

/// Two kinds that first appear within the burst span are an announcement.
pub proof fn law_burst_is_sync(b: Batch, t: u64, u: u64)
    requires
        b.dpi matches Some((x, _)) && x == t,
        b.scroll matches Some((y, _)) && y == u,
        b.plate is None,
        t - u <= BURST_SPAN_MS,
        u - t <= BURST_SPAN_MS,
    ensures
        is_sync(b),
        forall|stages: u32, i: int|
            0 <= i < confirms(b, stages).len() ==> (#[trigger] confirms(b, stages)[i] is PrimeDpi
                || confirms(b, stages)[i] is PrimeScroll),
{
    assert(firsts(b) =~= seq![t, u]);
}

/// A repeat of a kind keeps the moment at which the kind first appeared and shows its own value.
pub proof fn law_repeat_keeps_first_moment(b: Batch, v: u32, w: u32, at: u64, later: u64)
    ensures
        with_push(with_push(b, Push::Dpi(v), at), Push::Dpi(w), later).dpi == Some(
            ((with_push(b, Push::Dpi(v), at).dpi->0).0, w),
        ),
        with_push(with_push(b, Push::Scroll(v), at), Push::Scroll(w), later).scroll == Some(
            ((with_push(b, Push::Scroll(v), at).scroll->0).0, w),
        ),
{
}

/// A push of one device leaves the batches and generations of every other as they were.
pub proof fn law_devices_do_not_share_batches(
    m: Map<u16, BatchState>,
    pid: u16,
    other: u16,
    ev: Push,
    now: u64,
)
    requires
        other != pid,
    ensures
        batch_of(batches_after(m, pid, ev, now), other) == batch_of(m, other),
        generation_of(batches_after(m, pid, ev, now), other) == generation_of(m, other),
{
}

/// A flush that was armed by an earlier push finds a later generation, so only the last one acts.
pub proof fn law_only_last_push_flushes(m: Map<u16, BatchState>, pid: u16, ev: Push, now: u64)
    requires
        generation_of(m, pid) < u64::MAX,
    ensures
        batches_after(m, pid, ev, now).contains_key(pid),
        batches_after(m, pid, ev, now)[pid].generation != generation_of(m, pid),
{
}

/// Of the wakes that a device shows within the debounce window, the first alone is reconciled.
pub proof fn law_one_reconcile_per_window(stamps: Map<u16, u64>, pid: u16, now: u64, later: u64)
    requires
        due(stamps, pid, now),
        later - now < REASSERT_DEBOUNCE_MS,
    ensures
        !due(stamps_after(stamps, pid, now), pid, later),
        stamps_after(stamps_after(stamps, pid, now), pid, later) == stamps_after(stamps, pid, now),
{
}

/// A device never seen before is reconciled on its first wake.
pub proof fn law_first_wake_is_due(stamps: Map<u16, u64>, pid: u16, now: u64)
    requires
        !stamps.contains_key(pid),
    ensures
        due(stamps, pid, now),
{
}

} // verus!
