//! Opening and closing the connections: whether they open at start, what the master switch says, which
//! servers a change of preferences raises or drops, and the order in which everything comes up.

use vstd::prelude::*;

use crate::status::{opt_text, Status};
use crate::text::{chars_of, decimal, same_text, show_u64};

verus! {

// ── at start ────────────────────────────────────────────────────────────────────────────────────

/// A letter of the Latin alphabet in lower case; any other character as it is.
pub open spec fn ascii_lower(c: char) -> char {
    if 'A' <= c <= 'Z' {
        ((c as u32) + 32) as char
    } else {
        c
    }
}

/// The two texts are the same but for the case of Latin letters.
pub open spec fn same_but_case(a: Seq<char>, b: Seq<char>) -> bool {
    a.len() == b.len() && forall|i: int|
        0 <= i < a.len() ==> ascii_lower(#[trigger] a[i]) == ascii_lower(b[i])
}

fn lower_char(c: char) -> (r: char)
    ensures
        r == ascii_lower(c),
{
    if 'A' <= c && c <= 'Z' {
        let n: u8 = (c as u32) as u8;
        proof {
            assert(n as u32 == c as u32);
        }
        (n + 32) as char
    } else {
        c
    }
}

fn eq_ignore_case(a: &str, b: &str) -> (r: bool)
    ensures
        r == same_but_case(a@, b@),
{
    let x = chars_of(a);
    let y = chars_of(b);
    if x.len() != y.len() {
        return false;
    }
    let mut i: usize = 0;
    while i < x.len()
        invariant
            i <= x@.len(),
            x@.len() == y@.len(),
            x@ == a@,
            y@ == b@,
            forall|j: int| 0 <= j < i ==> ascii_lower(#[trigger] a@[j]) == ascii_lower(b@[j]),
        decreases x@.len() - i,
    {
        if lower_char(x[i]) != lower_char(y[i]) {
            proof {
                assert(ascii_lower(a@[i as int]) != ascii_lower(b@[i as int]));
            }
            return false;
        }
        i = i + 1;
    }
    true
}

/// Whether the connections open at start: an override decides where it spells a switch position, else
/// the saved preference.
pub open spec fn opens_at_start(configured: Option<Seq<char>>, saved: bool) -> bool {
    match configured {
        Some(v) => if v == "0"@ || same_but_case(v, "off"@) {
            false
        } else if v == "1"@ || same_but_case(v, "on"@) {
            true
        } else {
            saved
        },
        None => saved,
    }
}

/// Whether the start of the connections was attempted yet.
pub struct StartProbe {
    pub attempted: bool,
}

/// Decides whether the connections open at start, and notes that the decision was made.
pub fn start(probe: &mut StartProbe, configured: Option<&str>, saved: bool) -> (open: bool)
    ensures
        final(probe).attempted,
        open == opens_at_start(
            match configured {
                Some(v) => Some(v@),
                None => None,
            },
            saved,
        ),
{
    probe.attempted = true;
    match configured {
        Some(v) => {
            if same_text(v, "0") || eq_ignore_case(v, "off") {
                false
            } else if same_text(v, "1") || eq_ignore_case(v, "on") {
                true
            } else {
                saved
            }
        },
        None => saved,
    }
}

/// Whether the start of the connections was attempted, whatever came of it.
pub fn start_attempted(probe: &StartProbe) -> (r: bool)
    ensures
        r == probe.attempted,
{
    probe.attempted
}

/// Whether an event landed since `last_seen` was last brought up to date; it is now.
pub fn take_host_events_dirty(stamp: u64, last_seen: &mut u64) -> (dirty: bool)
    ensures
        dirty == (stamp != *old(last_seen)),
        *final(last_seen) == stamp,
{
    let dirty = stamp != *last_seen;
    *last_seen = stamp;
    dirty
}

/// The listener to the connections' own events.
pub struct HostEvents {
    pub subscribed: bool,
    /// Goes up with every event, and round at its end.
    pub stamp: u64,
}

/// The stamp after an event.
pub open spec fn next_stamp(stamp: int) -> int {
    if stamp == u64::MAX {
        0
    } else {
        stamp + 1
    }
}

/// What waiting for an event gave.
#[derive(Clone, Copy, Debug, PartialEq, Eq, Structural)]
pub enum EventWait {
    Signal,
    Timeout,
    Disconnected,
}

impl HostEvents {
    /// One wait ended: an event moves the stamp on, and the end of the subscription is noted.
    pub fn waited(&mut self, w: EventWait)
        ensures
            final(self).stamp == if w == EventWait::Signal {
                next_stamp(old(self).stamp as int)
            } else {
                old(self).stamp as int
            },
            final(self).subscribed == (old(self).subscribed && w != EventWait::Disconnected),
    {
        match w {
            EventWait::Signal => {
                self.stamp = self.stamp.wrapping_add(1);
            },
            EventWait::Timeout => {},
            EventWait::Disconnected => {
                self.subscribed = false;
            },
        }
    }

    /// Subscribing was tried again.
    pub fn resubscribed(&mut self, got: bool)
        ensures
            final(self).subscribed == got,
            final(self).stamp == old(self).stamp,
    {
        self.subscribed = got;
    }
}

// ── coming up ───────────────────────────────────────────────────────────────────────────────────

/// How far the connections have come up.
#[derive(Clone, Copy, Debug, PartialEq, Eq, Structural)]
pub enum Stage {
    /// To be elected the one host of the machine.
    Election,
    /// To load the device registry.
    Registry,
    /// To start the kernel.
    Kernel,
    /// To start the listener for its events.
    Events,
    /// To attach the device writers.
    Writers,
    /// Everything needed is up; the servers follow.
    Up,
}

/// The stage after one that succeeded.
pub open spec fn stage_after(s: Stage) -> Stage {
    match s {
        Stage::Election => Stage::Registry,
        Stage::Registry => Stage::Kernel,
        Stage::Kernel => Stage::Events,
        Stage::Events => Stage::Writers,
        Stage::Writers => Stage::Up,
        Stage::Up => Stage::Up,
    }
}

/// The stage after an attempt; none where it failed, and then nothing further may start.
pub fn bring_up(s: Stage, ok: bool) -> (r: Option<Stage>)
    ensures
        r == if ok {
            Some(stage_after(s))
        } else {
            None
        },
{
    if !ok {
        return None;
    }
    Some(
        match s {
            Stage::Election => Stage::Registry,
            Stage::Registry => Stage::Kernel,
            Stage::Kernel => Stage::Events,
            Stage::Events => Stage::Writers,
            Stage::Writers => Stage::Up,
            Stage::Up => Stage::Up,
        },
    )
}

/// How far the first `k` attempts lead.
pub open spec fn stage_reached(attempts: Seq<bool>, k: nat) -> Option<Stage>
    decreases k,
{
    if k == 0 || k > attempts.len() {
        Some(Stage::Election)
    } else {
        match stage_reached(attempts, (k - 1) as nat) {
            Some(s) => if attempts[k - 1] {
                Some(stage_after(s))
            } else {
                None
            },
            None => None,
        }
    }
}

/// An event is noticed by whoever looks next and had looked just before it.
pub proof fn law_event_is_noticed(stamp: u64, last_seen: u64)
    requires
        last_seen == stamp,
    ensures
        next_stamp(stamp as int) != last_seen,
{
}

/// The connections are up after five attempts exactly where all of them succeeded; device writers are
/// never attached by a process that lost the election.
pub proof fn law_up_needs_every_stage(attempts: Seq<bool>)
    requires
        attempts.len() == 5,
    ensures
        stage_reached(attempts, 5) == Some(Stage::Up) <==> forall|i: int|
            0 <= i < 5 ==> #[trigger] attempts[i],
        !attempts[0] ==> stage_reached(attempts, 4) is None,
{
    reveal_with_fuel(stage_reached, 6);
    if stage_reached(attempts, 5) == Some(Stage::Up) {
        assert(attempts[0] && attempts[1] && attempts[2] && attempts[3] && attempts[4]);
        assert forall|i: int| 0 <= i < 5 implies #[trigger] attempts[i] by {
            assert(i == 0 || i == 1 || i == 2 || i == 3 || i == 4);
        }
    }
}

// ── the servers ─────────────────────────────────────────────────────────────────────────────────

/// Which servers and connections are wanted.
#[derive(Clone, Copy, Debug, PartialEq, Eq, Structural)]
pub struct Wanted {
    pub chroma: bool,
    pub openrgb: bool,
    pub obs: bool,
}

/// Which servers and connections are there.
#[derive(Clone, Copy, Debug, PartialEq, Eq, Structural)]
pub struct Serving {
    pub chroma: bool,
    pub native: bool,
    pub openrgb: bool,
    pub obs: bool,
}

/// What becomes of a server.
#[derive(Clone, Copy, Debug, PartialEq, Eq, Structural)]
pub enum Gate {
    Keep,
    Raise,
    Drop,
}

/// What becomes of each server. Dropping the native face releases its game layers.
#[derive(Clone, Copy, Debug, PartialEq, Eq, Structural)]
pub struct ProtocolPlan {
    pub chroma: Gate,
    pub native: Gate,
    pub openrgb: Gate,
    pub obs: Gate,
}

/// What becomes of a server that is or is not wanted, and is or is not there.
pub open spec fn gate(want: bool, have: bool) -> Gate {
    if want && !have {
        Gate::Raise
    } else if !want && have {
        Gate::Drop
    } else {
        Gate::Keep
    }
}

/// What becomes of each server; both Chroma faces follow one switch.
pub open spec fn plan_of(want: Wanted, have: Serving) -> ProtocolPlan {
    ProtocolPlan {
        chroma: gate(want.chroma, have.chroma),
        native: gate(want.chroma, have.native),
        openrgb: gate(want.openrgb, have.openrgb),
        obs: gate(want.obs, have.obs),
    }
}

fn gate_for(want: bool, have: bool) -> (r: Gate)
    ensures
        r == gate(want, have),
{
    if want && !have {
        Gate::Raise
    } else if !want && have {
        Gate::Drop
    } else {
        Gate::Keep
    }
}

/// What becomes of each server when the preferences change; nothing where the connections are closed.
pub fn apply_protocol_prefs(want: Wanted, have: Option<Serving>) -> (r: Option<ProtocolPlan>)
    ensures
        r == match have {
            Some(h) => Some(plan_of(want, h)),
            None => None,
        },
{
    match have {
        None => None,
        Some(h) => Some(
            ProtocolPlan {
                chroma: gate_for(want.chroma, h.chroma),
                native: gate_for(want.chroma, h.native),
                openrgb: gate_for(want.openrgb, h.openrgb),
                obs: gate_for(want.obs, h.obs),
            },
        ),
    }
}

/// Why the native face does not serve, once the plan was carried out: the reason that raising it gave,
/// nothing where it is not wanted, and what was known where it serves already.
pub fn native_error_after(
    want: bool,
    have: bool,
    raised: Option<String>,
    known: Option<String>,
) -> (r: Option<String>)
    ensures
        opt_text(r) == if !want {
            None
        } else if have {
            opt_text(known)
        } else {
            opt_text(raised)
        },
{
    if !want {
        None
    } else if have {
        known
    } else {
        raised
    }
}

/// `have` once every part of `plan` was carried out.
pub open spec fn carried_out(have: Serving, plan: ProtocolPlan) -> Serving {
    Serving {
        chroma: after(have.chroma, plan.chroma),
        native: after(have.native, plan.native),
        openrgb: after(have.openrgb, plan.openrgb),
        obs: after(have.obs, plan.obs),
    }
}

/// A server once its gate was carried out.
pub open spec fn after(have: bool, g: Gate) -> bool {
    match g {
        Gate::Keep => have,
        Gate::Raise => true,
        Gate::Drop => false,
    }
}

/// Once a plan was carried out, exactly what is wanted is there, and the same preferences ask for
/// nothing more.
pub proof fn law_plan_settles(want: Wanted, have: Serving)
    ensures
        carried_out(have, plan_of(want, have)) == (Serving {
            chroma: want.chroma,
            native: want.chroma,
            openrgb: want.openrgb,
            obs: want.obs,
        }),
        plan_of(want, carried_out(have, plan_of(want, have))) == (ProtocolPlan {
            chroma: Gate::Keep,
            native: Gate::Keep,
            openrgb: Gate::Keep,
            obs: Gate::Keep,
        }),
{
}

/// Whether the OBS connection is dropped and made anew after its password changed: only where there
/// is one.
pub fn reconnect_obs(have: Option<Serving>) -> (r: bool)
    ensures
        r == (have matches Some(h) && h.obs),
{
    match have {
        Some(h) => h.obs,
        None => false,
    }
}

/// What came of connecting to OBS.
#[derive(Clone, Copy, Debug, PartialEq, Eq, Structural)]
pub enum ObsConnect {
    /// Connection and follower are kept.
    Kept,
    /// The connection did not start; nothing is kept and nothing was installed.
    NoConnection,
    /// The follower did not start; the verbs are taken back and nothing is kept.
    NoFollower,
}

/// What came of connecting to OBS: both the connection and its follower are needed.
pub fn connect_obs(connection: bool, follower: bool) -> (r: ObsConnect)
    ensures
        r == if !connection {
            ObsConnect::NoConnection
        } else if !follower {
            ObsConnect::NoFollower
        } else {
            ObsConnect::Kept
        },
{
    if !connection {
        ObsConnect::NoConnection
    } else if !follower {
        ObsConnect::NoFollower
    } else {
        ObsConnect::Kept
    }
}

// ── the master switch ───────────────────────────────────────────────────────────────────────────

/// What the master switch does.
#[derive(Clone, Copy, Debug, PartialEq, Eq, Structural)]
pub enum SwitchStep {
    /// The connections are that way already.
    Nothing,
    /// Bring them up.
    Open,
    /// Take the verbs back and tear everything down.
    Close,
}

/// What the master switch does.
pub fn switch_step(on: bool, open: bool) -> (r: SwitchStep)
    ensures
        r == if on == open {
            SwitchStep::Nothing
        } else if on {
            SwitchStep::Open
        } else {
            SwitchStep::Close
        },
{
    if on == open {
        SwitchStep::Nothing
    } else if on {
        SwitchStep::Open
    } else {
        SwitchStep::Close
    }
}

/// How a server does, in words.
pub open spec fn serving_word(serving: bool) -> Seq<char> {
    if serving {
        "serving"@
    } else {
        "port busy"@
    }
}

/// What the master switch says. `raised` is the card after the connections came up.
pub open spec fn switch_says(on: bool, open: bool, raised: Option<Status>) -> Seq<char> {
    if on && open {
        "connections already open"@
    } else if !on && !open {
        "connections already closed"@
    } else if !on {
        "connections closed"@
    } else {
        match raised {
            Some(s) => "connections open — "@ + decimal(s.devices as nat) + " device(s), chroma "@
                + serving_word(s.chroma_serving) + ", openrgb "@ + serving_word(s.openrgb_serving),
            None =>
                "connections couldn't open (another neuron may own the machine — see log); staying opted in, will retry next launch"@,
        }
    }
}

fn word_for(serving: bool) -> (r: &'static str)
    ensures
        r@ == serving_word(serving),
{
    if serving {
        "serving"
    } else {
        "port busy"
    }
}

/// What the master switch says.
pub fn set_enabled(on: bool, open: bool, raised: &Option<Status>) -> (r: String)
    ensures
        r@ == switch_says(on, open, *raised),
{
    if on && open {
        return "connections already open".to_owned();
    }
    if !on && !open {
        return "connections already closed".to_owned();
    }
    if !on {
        return "connections closed".to_owned();
    }
    match raised {
        Some(s) => {
            let mut r = "connections open — ".to_owned();
            r.append(show_u64(s.devices as u64).as_str());
            r.append(" device(s), chroma ");
            r.append(word_for(s.chroma_serving));
            r.append(", openrgb ");
            r.append(word_for(s.openrgb_serving));
            r
        },
        None =>
            "connections couldn't open (another neuron may own the machine — see log); staying opted in, will retry next launch".to_owned(),
    }
}

} // verus!
