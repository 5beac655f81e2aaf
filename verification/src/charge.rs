//! Battery and charge readings: which reading stands when a device answers late or not at all.

use vstd::prelude::*;

use crate::text::{number, parse_number};

verus! {

/// How long the charge state may take to settle where nothing else is configured, in milliseconds.
pub const SETTLE_DEFAULT_MS: u64 = 150;

/// The least time that the charge state is given to settle, in milliseconds.
pub const SETTLE_LEAST_MS: u64 = 50;

/// How long to wait between two readings of the charge state, in milliseconds.
pub const SETTLE_STEP_MS: u64 = 8;

/// The settle time for a configured text: the number it spells, or the default; never less than the
/// least.
pub open spec fn settle_cap(configured: Option<Seq<char>>) -> nat {
    let n = match configured {
        Some(s) => match number(s, 10, u64::MAX as nat) {
            Some(n) => n,
            None => SETTLE_DEFAULT_MS as nat,
        },
        None => SETTLE_DEFAULT_MS as nat,
    };
    if n < SETTLE_LEAST_MS {
        SETTLE_LEAST_MS as nat
    } else {
        n
    }
}

/// The settle time for a configured text.
pub fn settle_cap_ms(configured: Option<&str>) -> (r: u64)
    ensures
        r == settle_cap(
            match configured {
                Some(s) => Some(s@),
                None => None,
            },
        ),
{
    let n: u64 = match configured {
        Some(s) => match parse_number(s, 10, u64::MAX) {
            Some(n) => n,
            None => SETTLE_DEFAULT_MS,
        },
        None => SETTLE_DEFAULT_MS,
    };
    if n < SETTLE_LEAST_MS {
        SETTLE_LEAST_MS
    } else {
        n
    }
}

/// What to do after a reading of the charge state.
#[derive(Clone, Copy, Debug, PartialEq, Eq, Structural)]
pub enum SettleStep {
    /// The state is known: read the battery and report both.
    Settled(bool),
    /// Out of time and nothing to go by.
    GiveUp,
    /// Wait a step and read again.
    Again,
}

/// The last reading of the charge state while it settles.
#[derive(Clone, Copy, Debug, PartialEq, Eq, Structural)]
pub struct ChargeSettle {
    pub last: Option<bool>,
}

/// What follows a reading, and the last reading then: two alike settle it; out of time the last one
/// stands, else the state known from before.
pub open spec fn settle_next(
    last: Option<bool>,
    read: Option<bool>,
    late: bool,
    known: Option<bool>,
) -> (SettleStep, Option<bool>) {
    if read is Some && read == last {
        (SettleStep::Settled(read->0), last)
    } else {
        let now = if read is Some {
            read
        } else {
            last
        };
        if !late {
            (SettleStep::Again, now)
        } else if now is Some {
            (SettleStep::Settled(now->0), now)
        } else if known is Some {
            (SettleStep::Settled(known->0), now)
        } else {
            (SettleStep::GiveUp, now)
        }
    }
}

impl ChargeSettle {
    /// Nothing read yet.
    pub fn new() -> (r: Self)
        ensures
            r.last is None,
    {
        ChargeSettle { last: None }
    }

    /// Takes a reading in. `late` says that the settle time is over, `known` what was last known
    /// before.
    pub fn step(&mut self, read: Option<bool>, late: bool, known: Option<bool>) -> (r: SettleStep)
        ensures
            (r, final(self).last) == settle_next(old(self).last, read, late, known),
    {
        if let Some(c) = read {
            if let Some(l) = self.last {
                if l == c {
                    return SettleStep::Settled(c);
                }
            }
            self.last = Some(c);
        }
        if !late {
            return SettleStep::Again;
        }
        match self.last {
            Some(c) => SettleStep::Settled(c),
            None => match known {
                Some(c) => SettleStep::Settled(c),
                None => SettleStep::GiveUp,
            },
        }
    }
}

/// A battery reading: the percentage, with the charge state as read, else as last known. None without
/// a percentage, and none where the charge state was neither read nor known: a device is never made
/// out to be unplugged.
pub open spec fn reading(percent: Option<u8>, charging: Option<bool>, known: Option<bool>) -> Option<
    (u8, bool),
> {
    match (percent, charging, known) {
        (Some(b), Some(c), _) => Some((b, c)),
        (Some(b), None, Some(k)) => Some((b, k)),
        _ => None,
    }
}

/// A battery reading: the percentage, with the charge state as read, else as last known. None without
/// a percentage, and none where the charge state was neither read nor known.
pub fn battery_reading(percent: Option<u8>, charging: Option<bool>, known: Option<bool>) -> (r: Option<
    (u8, bool),
>)
    ensures
        r == reading(percent, charging, known),
{
    match percent {
        Some(b) => match charging {
            Some(c) => Some((b, c)),
            None => match known {
                Some(k) => Some((b, k)),
                None => None,
            },
        },
        None => None,
    }
}

/// A failed charge reading never shows a device as unplugged that was last known to charge, nor one
/// of which nothing is known: neither while the state settles nor in a plain reading.
pub proof fn law_no_phantom_unplug(
    percent: Option<u8>,
    read: Option<bool>,
    late: bool,
    known: Option<bool>,
)
    ensures
        settle_next(None, None, late, known).0 == SettleStep::Settled(false) ==> known == Some(false),
        read is None ==> settle_next(Some(true), read, late, known).0 != SettleStep::Settled(false),
        read is None ==> (reading(percent, read, known) matches Some((_, false)) ==> known == Some(
            false,
        )),
{
}

/// A settled state was read twice in a row, or stands because the time is over.
pub proof fn law_settled_is_latched_or_late(
    last: Option<bool>,
    read: Option<bool>,
    late: bool,
    known: Option<bool>,
    c: bool,
)
    requires
        settle_next(last, read, late, known).0 == SettleStep::Settled(c),
    ensures
        late || (read == Some(c) && last == Some(c)),
{
}

} // verus!
