//! A reader of one collection: it holds the collection's path from the moment it was armed until it
//! ends, in whatever way that is, so that the path can always be armed again.

use vstd::prelude::*;

use crate::arming::Armed;
use crate::text::{same_text, texts};

verus! {

/// What a read gave.
#[derive(Clone, Copy, Debug, PartialEq, Eq, Structural)]
pub enum ReadStep {
    /// So many bytes.
    Data(usize),
    /// Nothing in time.
    Idle,
    /// The device is gone.
    Gone,
}

/// Where a reader is.
#[derive(Clone, Copy, Debug, PartialEq, Eq, Structural)]
pub enum ReaderState {
    Opening,
    Listening,
    Closed,
}

/// What happens to a reader.
#[derive(Clone, Copy, Debug, PartialEq, Eq, Structural)]
pub enum ReaderEvent {
    /// The collection was opened, or could not be.
    Opened(bool),
    Read(ReadStep),
    /// Its thread could not be started, or failed.
    Lost,
}

/// What the reader does next.
#[derive(Clone, Copy, Debug, PartialEq, Eq, Structural)]
pub enum ReaderAct {
    /// Asks the device once whether it is muted, then reads.
    SeedAndRead,
    Read,
    /// Decodes so many bytes, looks whether the battery is due to be read, then reads.
    Decode(usize),
    Stop,
}

/// One reader.
pub struct Reader {
    pub path: String,
    pub product: String,
    /// Whether a family of devices with a known mute state speaks on this collection.
    pub audio: bool,
    pub state: ReaderState,
}

/// Where a reader is after an event. One that ended stays so.
pub open spec fn state_after(s: ReaderState, ev: ReaderEvent) -> ReaderState {
    match (s, ev) {
        (ReaderState::Closed, _) => ReaderState::Closed,
        (_, ReaderEvent::Lost) => ReaderState::Closed,
        (ReaderState::Opening, ReaderEvent::Opened(ok)) => if ok {
            ReaderState::Listening
        } else {
            ReaderState::Closed
        },
        (ReaderState::Listening, ReaderEvent::Read(ReadStep::Gone)) => ReaderState::Closed,
        (s, _) => s,
    }
}

impl Reader {
    /// The path is claimed exactly while the reader lives.
    pub open spec fn claim_held(self, armed: Armed) -> bool {
        texts(armed.paths@).contains(self.path@) <==> self.state != ReaderState::Closed
    }

    /// What the reader does after an event: a read without bytes, or without an answer in time, keeps
    /// it listening; the end of the device, and any failure, gives its path up.
    pub fn step(&mut self, armed: &mut Armed, ev: ReaderEvent) -> (r: ReaderAct)
        requires
            old(self).claim_held(*old(armed)),
            old(armed).wf(),
        ensures
            final(self).claim_held(*final(armed)),
            final(armed).wf(),
            final(self).path@ == old(self).path@,
            final(self).product@ == old(self).product@,
            final(self).audio == old(self).audio,
            final(self).state == state_after(old(self).state, ev),
            forall|p: Seq<char>|
                p != old(self).path@ ==> (texts(final(armed).paths@).contains(p) <==> texts(
                    old(armed).paths@,
                ).contains(p)),
            r == if final(self).state == ReaderState::Closed {
                ReaderAct::Stop
            } else {
                match ev {
                    ReaderEvent::Opened(_) => if old(self).state == ReaderState::Opening && old(
                        self).audio && old(self).product@.len() > 0 {
                        ReaderAct::SeedAndRead
                    } else {
                        ReaderAct::Read
                    },
                    ReaderEvent::Read(ReadStep::Data(n)) => if n > 0 {
                        ReaderAct::Decode(n)
                    } else {
                        ReaderAct::Read
                    },
                    _ => ReaderAct::Read,
                }
            },
    {
        let was = self.state;
        self.state = match (was, ev) {
            (ReaderState::Closed, _) => ReaderState::Closed,
            (_, ReaderEvent::Lost) => ReaderState::Closed,
            (ReaderState::Opening, ReaderEvent::Opened(ok)) => if ok {
                ReaderState::Listening
            } else {
                ReaderState::Closed
            },
            (ReaderState::Listening, ReaderEvent::Read(ReadStep::Gone)) => ReaderState::Closed,
            (s, _) => s,
        };
        if self.state == ReaderState::Closed {
            armed.release(self.path.as_str());
            return ReaderAct::Stop;
        }
        match ev {
            ReaderEvent::Opened(_) => {
                proof {
                    reveal_strlit("");
                    if self.product@.len() == 0 {
                        assert(self.product@ =~= ""@);
                    }
                }
                if was == ReaderState::Opening && self.audio && !same_text(
                    self.product.as_str(),
                    "",
                ) {
                    ReaderAct::SeedAndRead
                } else {
                    ReaderAct::Read
                }
            },
            ReaderEvent::Read(ReadStep::Data(n)) => if n > 0 {
                ReaderAct::Decode(n)
            } else {
                ReaderAct::Read
            },
            _ => ReaderAct::Read,
        }
    }
}

/// What is noted of a battery read.
#[derive(Clone, Copy, Debug, PartialEq, Eq, Structural)]
pub enum BatteryNote {
    Observed(u8, bool),
    /// The reading is stale, and is tried again soon.
    Stale,
}

/// What is noted of a battery read: nothing where it did not run, and what it gave where it did.
pub fn battery_note(ran: Option<Option<(u8, bool)>>) -> (r: BatteryNote)
    ensures
        r == match ran {
            Some(Some((level, charging))) => BatteryNote::Observed(level, charging),
            _ => BatteryNote::Stale,
        },
{
    match ran {
        Some(Some((level, charging))) => BatteryNote::Observed(level, charging),
        _ => BatteryNote::Stale,
    }
}

} // verus!
