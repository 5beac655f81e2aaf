//! The gates and the system page: the arm stance, how the program starts, the notification cards, the
//! health of its parts, the guide, accents, and what a batch of device writes does.

use vstd::prelude::*;

use crate::text::{
    chars_of, decimal, digit_value, join, joined, number, parse_number, same_text, show_u64, texts,
    trim, trimmed,
};

verus! {

// ── gates ───────────────────────────────────────────────────────────────────────────────────────

/// The arm stance of the two gates: 0 observes, 1 writes to devices, 2 sends input, 3 does both.
pub open spec fn stance(paused: bool, armed: bool) -> int {
    (if paused {
        0int
    } else {
        1
    }) + (if armed {
        2int
    } else {
        0
    })
}

/// The arm stance of the two gates.
pub fn arm_stance(paused: bool, armed: bool) -> (r: i32)
    ensures
        r == stance(paused, armed),
{
    match (paused, armed) {
        (true, false) => 0,
        (false, false) => 1,
        (true, true) => 2,
        (false, true) => 3,
    }
}

/// The two gates, and what streams.
#[derive(Clone, Copy, Debug, PartialEq, Eq, Structural)]
pub struct Gates {
    /// Whether writes to devices are paused.
    pub paused: bool,
    /// Whether input is sent.
    pub armed: bool,
    /// Whether any board is streamed to.
    pub streaming: bool,
}

/// What a move of the gates does beside setting them.
pub struct GateMove {
    /// Every stream is stopped.
    pub stop_streams: bool,
    /// Every board's lighting is streamed anew.
    pub resume: bool,
    /// What the selector shows.
    pub stance: i32,
    pub status: &'static str,
}

impl Gates {
    /// Nothing streams while writes are paused.
    pub open spec fn wf(self) -> bool {
        !(self.paused && self.streaming)
    }

    /// Pauses the writes or takes the pause back. Pausing stops every stream; taking it back streams
    /// every board anew.
    pub fn toggle_writes_paused(&mut self) -> (r: GateMove)
        ensures
            final(self).wf(),
            final(self).paused == !old(self).paused,
            final(self).armed == old(self).armed,
            final(self).streaming == (old(self).streaming && !final(self).paused),
            r.stop_streams == (final(self).paused && old(self).streaming),
            r.resume == !final(self).paused,
            r.stance == stance(final(self).paused, final(self).armed),
            r.status@ == if r.stop_streams {
                "writes PAUSED — animation stopped"@
            } else if final(self).paused {
                "writes PAUSED"@
            } else {
                "writes armed"@
            },
    {
        let paused = !self.paused;
        let stop = paused && self.streaming;
        if stop {
            self.streaming = false;
        }
        self.paused = paused;
        let status: &'static str = if stop {
            "writes PAUSED — animation stopped"
        } else if paused {
            "writes PAUSED"
        } else {
            "writes armed"
        };
        GateMove {
            stop_streams: stop,
            resume: !paused,
            stance: arm_stance(paused, self.armed),
            status,
        }
    }

    /// Arms input or takes it back.
    pub fn toggle_input_armed(&mut self) -> (r: GateMove)
        ensures
            final(self).armed == !old(self).armed,
            final(self).paused == old(self).paused,
            final(self).streaming == old(self).streaming,
            !r.stop_streams,
            !r.resume,
            r.stance == stance(final(self).paused, final(self).armed),
            r.status@ == if final(self).armed {
                "INPUT ARMED — remaps + macros now fire real keystrokes"@
            } else {
                "safe-mode — input disarmed (simulate only)"@
            },
    {
        self.armed = !self.armed;
        let status: &'static str = if self.armed {
            "INPUT ARMED — remaps + macros now fire real keystrokes"
        } else {
            "safe-mode — input disarmed (simulate only)"
        };
        GateMove {
            stop_streams: false,
            resume: false,
            stance: arm_stance(self.paused, self.armed),
            status,
        }
    }

    /// Sets both gates to a stance; one that does not exist observes. Pausing stops every stream;
    /// only crossing from paused to armed writes streams every board anew. The selector shows the
    /// stance of the gates.
    pub fn set_arm_stance(&mut self, m: i32) -> (r: GateMove)
        ensures
            final(self).wf(),
            final(self).paused == (m != 1 && m != 3),
            final(self).armed == (m == 2 || m == 3),
            final(self).streaming == (old(self).streaming && !final(self).paused),
            r.stop_streams == (final(self).paused && old(self).streaming),
            r.resume == (old(self).paused && !final(self).paused),
            r.stance == stance(final(self).paused, final(self).armed),
            r.status@ == if m == 1 {
                "arm → DEVICE (device writes on, input safe)"@
            } else if m == 2 {
                "arm → INPUT (remaps + macros fire, writes paused)"@
            } else if m == 3 {
                "arm → LIVE (device writes + input synthesis)"@
            } else {
                "arm → OBSERVE (read-only: nothing fires)"@
            },
    {
        let was_paused = self.paused;
        let paused = m != 1 && m != 3;
        let stop = paused && self.streaming;
        if stop {
            self.streaming = false;
        }
        self.paused = paused;
        self.armed = m == 2 || m == 3;
        let status: &'static str = if m == 1 {
            "arm → DEVICE (device writes on, input safe)"
        } else if m == 2 {
            "arm → INPUT (remaps + macros fire, writes paused)"
        } else if m == 3 {
            "arm → LIVE (device writes + input synthesis)"
        } else {
            "arm → OBSERVE (read-only: nothing fires)"
        };
        GateMove {
            stop_streams: stop,
            resume: was_paused && !paused,
            stance: arm_stance(self.paused, self.armed),
            status,
        }
    }
}

/// How the program starts: 0 by hand, 1 with the system to the tray, 2 with the system and a window.
pub open spec fn launch_mode(autostart: bool, minimized: bool) -> int {
    if !autostart {
        0
    } else if minimized {
        1
    } else {
        2
    }
}

/// How the program starts.
pub fn launch_mode_now(autostart: bool, minimized: bool) -> (r: i32)
    ensures
        r == launch_mode(autostart, minimized),
{
    if !autostart {
        0
    } else if minimized {
        1
    } else {
        2
    }
}

/// What choosing a way to start sets: whether the program starts with the system, and whether it
/// starts in the tray, if that is set at all.
pub fn set_launch_mode(m: i32) -> (r: (bool, Option<bool>))
    ensures
        r.0 == (m == 1 || m == 2),
        r.1 == if m == 1 {
            Some(true)
        } else if m == 2 {
            Some(false)
        } else {
            None
        },
{
    if m == 1 {
        (true, Some(true))
    } else if m == 2 {
        (true, Some(false))
    } else {
        (false, None)
    }
}

/// What is said of it, given what setting the start said.
pub fn launch_mode_text(m: i32, answer: &str) -> (r: String)
    ensures
        r@ == if m == 1 {
            "boot to tray — "@ + answer@
        } else if m == 2 {
            "boot with window — "@ + answer@
        } else {
            answer@
        },
{
    if m == 1 {
        let mut s = "boot to tray — ".to_owned();
        s.append(answer);
        s
    } else if m == 2 {
        let mut s = "boot with window — ".to_owned();
        s.append(answer);
        s
    } else {
        answer.to_owned()
    }
}

// ── notifications ───────────────────────────────────────────────────────────────────────────────

/// What can be confirmed by a notification.
#[derive(Clone, Copy, Debug, PartialEq, Eq, Structural)]
pub enum PingKind {
    Dpi,
    Sniper,
    Scroll,
    Polling,
    Brightness,
    Battery,
    SidePlate,
    Profile,
    Layer,
    Macro,
}

/// The icon, the label and the blurb of a card.
pub fn ping_copy(k: PingKind) -> (r: (&'static str, &'static str, &'static str))
    ensures
        (r.0@, r.1@, r.2@) == ping_card(k),
{
    match k {
        PingKind::Dpi => ("dpi", "dpi", "pointer DPI"),
        PingKind::Sniper => ("sniper", "sniper", "hold-to-precision"),
        PingKind::Scroll => ("scroll", "sensitivity", "scroll modes"),
        PingKind::Polling => ("polling", "polling", "report rate"),
        PingKind::Brightness => ("brightness", "brightness", "LED level"),
        PingKind::Battery => ("battery", "battery", "charge"),
        PingKind::SidePlate => ("side_plate", "side plate", "swap detect"),
        PingKind::Profile => ("profile", "profile", "active"),
        PingKind::Layer => ("layer", "layer", "HyperShift"),
        PingKind::Macro => ("beacon", "beacon", "macro notify"),
    }
}

/// The icon, the label and the blurb of a card.
pub open spec fn ping_card(k: PingKind) -> (Seq<char>, Seq<char>, Seq<char>) {
    match k {
        PingKind::Dpi => ("dpi"@, "dpi"@, "pointer DPI"@),
        PingKind::Sniper => ("sniper"@, "sniper"@, "hold-to-precision"@),
        PingKind::Scroll => ("scroll"@, "sensitivity"@, "scroll modes"@),
        PingKind::Polling => ("polling"@, "polling"@, "report rate"@),
        PingKind::Brightness => ("brightness"@, "brightness"@, "LED level"@),
        PingKind::Battery => ("battery"@, "battery"@, "charge"@),
        PingKind::SidePlate => ("side_plate"@, "side plate"@, "swap detect"@),
        PingKind::Profile => ("profile"@, "profile"@, "active"@),
        PingKind::Layer => ("layer"@, "layer"@, "HyperShift"@),
        PingKind::Macro => ("beacon"@, "beacon"@, "macro notify"@),
    }
}

/// The row of the grid that a card stands in, and its rank there: the pointer, the hardware, the
/// session.
pub open spec fn slot(k: PingKind) -> (int, int) {
    match k {
        PingKind::Dpi => (0, 0),
        PingKind::Sniper => (0, 1),
        PingKind::Scroll => (0, 2),
        PingKind::Polling => (0, 3),
        PingKind::Brightness => (1, 0),
        PingKind::Battery => (1, 1),
        PingKind::SidePlate => (1, 2),
        PingKind::Profile => (2, 0),
        PingKind::Layer => (2, 1),
        PingKind::Macro => (2, 2),
    }
}

/// The row of the grid that a card stands in, and its rank there.
pub fn ping_slot(k: PingKind) -> (r: (u8, u8))
    ensures
        (r.0 as int, r.1 as int) == slot(k),
{
    match k {
        PingKind::Dpi => (0, 0),
        PingKind::Sniper => (0, 1),
        PingKind::Scroll => (0, 2),
        PingKind::Polling => (0, 3),
        PingKind::Brightness => (1, 0),
        PingKind::Battery => (1, 1),
        PingKind::SidePlate => (1, 2),
        PingKind::Profile => (2, 0),
        PingKind::Layer => (2, 1),
        PingKind::Macro => (2, 2),
    }
}

/// The cards of a row of the grid, by rank.
pub open spec fn domain_cards(d: int) -> Seq<PingKind> {
    if d == 0 {
        seq![PingKind::Dpi, PingKind::Sniper, PingKind::Scroll, PingKind::Polling]
    } else if d == 1 {
        seq![PingKind::Brightness, PingKind::Battery, PingKind::SidePlate]
    } else {
        seq![PingKind::Profile, PingKind::Layer, PingKind::Macro]
    }
}

/// Which kinds are notified of.
#[derive(Clone, Copy, Debug, PartialEq, Eq, Structural)]
pub struct PingGates {
    pub dpi: bool,
    pub sniper: bool,
    pub scroll: bool,
    pub polling: bool,
    pub brightness: bool,
    pub battery: bool,
    pub side_plate: bool,
    pub profile: bool,
    pub layer: bool,
    pub macros: bool,
}

/// The kind is notified of.
pub open spec fn gate_of(k: PingKind, g: PingGates) -> bool {
    match k {
        PingKind::Dpi => g.dpi,
        PingKind::Sniper => g.sniper,
        PingKind::Scroll => g.scroll,
        PingKind::Polling => g.polling,
        PingKind::Brightness => g.brightness,
        PingKind::Battery => g.battery,
        PingKind::SidePlate => g.side_plate,
        PingKind::Profile => g.profile,
        PingKind::Layer => g.layer,
        PingKind::Macro => g.macros,
    }
}

/// A card of the grid.
pub struct PingCard {
    pub kind: PingKind,
    pub icon: &'static str,
    pub label: &'static str,
    pub desc: &'static str,
    pub on: bool,
}

/// A card shows a kind.
pub open spec fn ping_shows(c: PingCard, k: PingKind, g: PingGates) -> bool {
    &&& c.kind == k
    &&& (c.icon@, c.label@, c.desc@) == ping_card(k)
    &&& c.on == gate_of(k, g)
}

fn ping_card_of(k: PingKind, g: PingGates) -> (r: PingCard)
    ensures
        ping_shows(r, k, g),
{
    let (icon, label, desc) = ping_copy(k);
    let on = match k {
        PingKind::Dpi => g.dpi,
        PingKind::Sniper => g.sniper,
        PingKind::Scroll => g.scroll,
        PingKind::Polling => g.polling,
        PingKind::Brightness => g.brightness,
        PingKind::Battery => g.battery,
        PingKind::SidePlate => g.side_plate,
        PingKind::Profile => g.profile,
        PingKind::Layer => g.layer,
        PingKind::Macro => g.macros,
    };
    PingCard { kind: k, icon, label, desc, on }
}

/// The cards of a row of the grid.
pub open spec fn row_shows(cards: Seq<PingCard>, d: int, g: PingGates) -> bool {
    &&& cards.len() == domain_cards(d).len()
    &&& forall|i: int| 0 <= i < cards.len() ==> ping_shows(#[trigger] cards[i], domain_cards(d)[i], g)
}

/// The three rows of the grid, the cards of each by rank.
pub fn refresh_ping_kinds(g: PingGates) -> (r: (Vec<PingCard>, Vec<PingCard>, Vec<PingCard>))
    ensures
        row_shows(r.0@, 0, g),
        row_shows(r.1@, 1, g),
        row_shows(r.2@, 2, g),
{
    let mut pointer: Vec<PingCard> = Vec::new();
    pointer.push(ping_card_of(PingKind::Dpi, g));
    pointer.push(ping_card_of(PingKind::Sniper, g));
    pointer.push(ping_card_of(PingKind::Scroll, g));
    pointer.push(ping_card_of(PingKind::Polling, g));
    let mut hardware: Vec<PingCard> = Vec::new();
    hardware.push(ping_card_of(PingKind::Brightness, g));
    hardware.push(ping_card_of(PingKind::Battery, g));
    hardware.push(ping_card_of(PingKind::SidePlate, g));
    let mut session: Vec<PingCard> = Vec::new();
    session.push(ping_card_of(PingKind::Profile, g));
    session.push(ping_card_of(PingKind::Layer, g));
    session.push(ping_card_of(PingKind::Macro, g));
    (pointer, hardware, session)
}

// ── health ──────────────────────────────────────────────────────────────────────────────────────

/// A part of the program: its name, how long ago it gave a sign, if ever, and whether that is too
/// long.
pub struct Organ {
    pub name: String,
    pub age_ms: Option<u64>,
    pub stalled: bool,
}

/// What is shown of a part.
pub struct OrganRow {
    pub name: String,
    pub state: &'static str,
    pub detail: String,
}

/// What is shown of a part.
pub open spec fn organ_shows(r: OrganRow, o: Organ) -> bool {
    &&& r.name@ == o.name@
    &&& match o.age_ms {
        None => r.state@ == "rest"@ && r.detail@ == "at rest"@,
        Some(a) => if o.stalled {
            r.state@ == "stall"@ && r.detail@ == "SILENT — wedged or dead"@
        } else if a < 1000 {
            r.state@ == "beat"@ && r.detail@ == "beating · "@ + decimal(a as nat) + " ms ago"@
        } else {
            r.state@ == "beat"@ && r.detail@ == "beating · "@ + decimal((a / 1000) as nat) + "s ago"@
        },
    }
}

fn organ_row(o: &Organ) -> (r: OrganRow)
    ensures
        organ_shows(r, *o),
{
    let (state, detail): (&'static str, String) = match o.age_ms {
        None => ("rest", "at rest".to_owned()),
        Some(a) => if o.stalled {
            ("stall", "SILENT — wedged or dead".to_owned())
        } else if a < 1000 {
            let mut s = "beating · ".to_owned();
            s.append(show_u64(a).as_str());
            s.append(" ms ago");
            ("beat", s)
        } else {
            let mut s = "beating · ".to_owned();
            s.append(show_u64(a / 1000).as_str());
            s.append("s ago");
            ("beat", s)
        },
    };
    OrganRow { name: o.name.clone(), state, detail }
}

/// The health of the program.
pub struct Reliability {
    pub organs: Vec<OrganRow>,
    pub summary: String,
    /// Whether there is a crash to read of.
    pub present: bool,
}

/// What is said of crashes.
pub open spec fn crash_text(respawned: bool, dumps: nat) -> Seq<char> {
    if respawned {
        "recovered from a crash this launch — the story is in neuron-crash.log"@
    } else if dumps > 0 {
        decimal(dumps) + " crash/stall dump(s) on record in neuron-crash.log"@
    } else {
        "no crashes recorded — the recorder is armed and quiet"@
    }
}

/// The health of the program's parts, in order, and what is on record of crashes.
pub fn refresh_reliability(organs: &Vec<Organ>, respawned: bool, dumps: usize) -> (r: Reliability)
    ensures
        r.organs@.len() == organs@.len(),
        forall|i: int| 0 <= i < organs@.len() ==> organ_shows(#[trigger] r.organs@[i], organs@[i]),
        r.summary@ == crash_text(respawned, dumps as nat),
        r.present == (respawned || dumps > 0),
{
    let mut rows: Vec<OrganRow> = Vec::new();
    let mut i: usize = 0;
    while i < organs.len()
        invariant
            i <= organs@.len(),
            rows@.len() == i,
            forall|j: int| 0 <= j < i ==> organ_shows(#[trigger] rows@[j], organs@[j]),
        decreases organs@.len() - i,
    {
        rows.push(organ_row(&organs[i]));
        i = i + 1;
    }
    let summary: String = if respawned {
        "recovered from a crash this launch — the story is in neuron-crash.log".to_owned()
    } else if dumps > 0 {
        let mut s = show_u64(dumps as u64);
        s.append(" crash/stall dump(s) on record in neuron-crash.log");
        s
    } else {
        "no crashes recorded — the recorder is armed and quiet".to_owned()
    };
    Reliability { organs: rows, summary, present: respawned || dumps > 0 }
}

// ── the guide ───────────────────────────────────────────────────────────────────────────────────

/// The help popup: which book is open, whether it is pinned, and where it stands.
pub struct Guide<P> {
    pub open: bool,
    pub active: String,
    pub sticky: bool,
    pub at: P,
}

impl<P> Guide<P> {
    /// Opens a book at a place, as a popup that is not pinned; the open book closes instead.
    pub fn toggle(&mut self, id: &str, at: P)
        ensures
            old(self).open && old(self).active@ == id@ ==> !final(self).open && final(self).active@
                == old(self).active@ && final(self).sticky == old(self).sticky && final(self).at
                == old(self).at,
            !(old(self).open && old(self).active@ == id@) ==> final(self).open && final(
                self).active@ == id@ && !final(self).sticky && final(self).at == at,
    {
        if self.open && same_text(self.active.as_str(), id) {
            self.open = false;
        } else {
            self.active = id.to_owned();
            self.sticky = false;
            self.at = at;
            self.open = true;
        }
    }
}

// ── accents ─────────────────────────────────────────────────────────────────────────────────────

/// `s` without the characters `#` at its front.
pub open spec fn without_hash(s: Seq<char>) -> Seq<char>
    decreases s.len(),
{
    if s.len() > 0 && s[0] == '#' {
        without_hash(s.drop_first())
    } else {
        s
    }
}

/// Every character is a hexadecimal digit.
pub open spec fn all_hex(s: Seq<char>) -> bool {
    forall|i: int| 0 <= i < s.len() ==> digit_value(#[trigger] s[i], 16) is Some
}

/// What is typed so far of a color, without blanks and marks in front.
pub open spec fn typed_hex(s: Seq<char>) -> Seq<char> {
    without_hash(trimmed(s))
}

fn is_hex_digit(c: char) -> (r: bool)
    ensures
        r == (digit_value(c, 16) is Some),
{
    ('0' <= c && c <= '9') || ('a' <= c && c <= 'f') || ('A' <= c && c <= 'F')
}

/// What a color that is being typed shows: that it is complete, or that it can never be.
pub fn preview_hex(s: &str) -> (r: (bool, bool))
    ensures
        r.0 == (typed_hex(s@).len() == 6 && all_hex(typed_hex(s@))),
        r.1 == (!all_hex(typed_hex(s@)) || typed_hex(s@).len() > 6),
        !(r.0 && r.1),
{
    let v = chars_of(trim(s).as_str());
    let mut from: usize = 0;
    proof {
        assert(v@.skip(0) =~= v@);
    }
    while from < v.len() && v[from] == '#'
        invariant
            from <= v@.len(),
            without_hash(v@) == without_hash(v@.skip(from as int)),
        decreases v@.len() - from,
    {
        proof {
            assert(v@.skip(from as int)[0] == v@[from as int]);
            assert(v@.skip(from as int).drop_first() =~= v@.skip(from + 1));
        }
        from = from + 1;
    }
    let ghost clean = v@.skip(from as int);
    proof {
        assert(without_hash(clean) == clean) by {
            if clean.len() > 0 {
                assert(clean[0] == v@[from as int]);
            }
        }
    }
    let total: usize = v.len();
    let len: usize = total - from;
    let mut ok = true;
    let mut i: usize = from;
    while i < v.len()
        invariant
            from <= i <= v@.len(),
            clean == v@.skip(from as int),
            ok == forall|j: int| 0 <= j < i - from ==> digit_value(#[trigger] clean[j], 16) is Some,
        decreases v@.len() - i,
    {
        proof {
            assert(clean[i - from] == v@[i as int]);
        }
        if !is_hex_digit(v[i]) {
            ok = false;
        }
        i = i + 1;
    }
    (len == 6 && ok, !ok || len > 6)
}

/// What a saved weave accent does to the material.
#[derive(Clone, Copy, Debug, PartialEq, Eq, Structural)]
pub enum AccentStep {
    /// The material keeps its own.
    Clear,
    Tint(u32),
    /// Nothing: it is no color.
    Nothing,
}

/// What a saved weave accent does, given it in its clean form: the stock color leaves the material its
/// own.
pub fn apply_weave_accent(clean: &str) -> (r: AccentStep)
    ensures
        r == if clean@ == "4af2b0"@ {
            AccentStep::Clear
        } else {
            match number(clean@, 16, u32::MAX as nat) {
                Some(n) => AccentStep::Tint(n as u32),
                None => AccentStep::Nothing,
            }
        },
{
    if same_text(clean, "4af2b0") {
        return AccentStep::Clear;
    }
    match parse_number(clean, 16, u32::MAX as u64) {
        Some(n) => AccentStep::Tint(n as u32),
        None => AccentStep::Nothing,
    }
}

/// The saved weave accent as a number; the stock color where it is none.
pub fn weave_accent_u32(saved: &str) -> (r: u32)
    ensures
        r == match number(saved@, 16, u32::MAX as nat) {
            Some(n) => n,
            None => 0x4AF2B0,
        },
{
    match parse_number(saved, 16, u32::MAX as u64) {
        Some(n) => n as u32,
        None => 0x4A_F2B0,
    }
}

/// The red, green and blue of a color number; what stands above them is dropped.
pub fn accent_parts(accent: u32) -> (r: (u8, u8, u8))
    ensures
        r.0 == (accent / 0x10000) % 0x100,
        r.1 == (accent / 0x100) % 0x100,
        r.2 == accent % 0x100,
{
    (
        ((accent / 0x10000) % 0x100) as u8,
        ((accent / 0x100) % 0x100) as u8,
        (accent % 0x100) as u8,
    )
}

/// The gallery's swatches: two pictures per card, of which one is shown.
#[derive(Clone, Copy, Debug, PartialEq, Eq, Structural)]
pub struct Crossfade {
    pub cards: usize,
    pub show_alt: bool,
}

/// Where a batch of fresh pictures goes.
#[derive(Clone, Copy, Debug, PartialEq, Eq, Structural)]
pub enum Upload {
    /// New cards, with the picture in both places.
    Rebuild,
    /// In the first place of each card.
    First,
    /// In the second place of each card.
    Second,
}

impl Crossfade {
    /// Takes a batch of pictures: each goes where it is not seen, and then all are shown at once. New
    /// cards are made where their number changed.
    pub fn upload_material_cards(&mut self, pictures: usize) -> (r: Upload)
        ensures
            final(self).cards == pictures,
            r == if old(self).cards != pictures {
                Upload::Rebuild
            } else if old(self).show_alt {
                Upload::First
            } else {
                Upload::Second
            },
            final(self).show_alt == if r == Upload::Rebuild {
                old(self).show_alt
            } else {
                !old(self).show_alt
            },
            // a fresh picture is never written where the user looks, and is looked at afterwards
            r != Upload::Rebuild ==> (r == Upload::Second) == final(self).show_alt && (r
                == Upload::Second) != old(self).show_alt,
    {
        if self.cards != pictures {
            self.cards = pictures;
            return Upload::Rebuild;
        }
        let hidden = if self.show_alt {
            Upload::First
        } else {
            Upload::Second
        };
        self.show_alt = !self.show_alt;
        hidden
    }
}

// ── device writes ───────────────────────────────────────────────────────────────────────────────

/// Which of the everyday writes a device takes now.
#[derive(Clone, Copy, Debug, PartialEq, Eq, Structural)]
pub struct FeelBatch {
    pub dpi: bool,
    pub polling: bool,
    pub brightness: bool,
    pub stages: bool,
    /// Whether what is written stays on the device.
    pub persist: bool,
}

/// Which of the everyday writes are made: those the device can take, the stages only where they are
/// valid, and none while writes are paused.
pub fn apply_feel(
    paused: bool,
    can_dpi: bool,
    can_poll: bool,
    can_light: bool,
    can_store: bool,
    stages_valid: bool,
    persist: bool,
) -> (r: Option<FeelBatch>)
    ensures
        match r {
            None => paused,
            Some(b) => !paused && b == (FeelBatch {
                dpi: can_dpi,
                polling: can_poll,
                brightness: can_light,
                stages: can_dpi && stages_valid,
                persist: can_store && persist,
            }),
        },
{
    if paused {
        return None;
    }
    Some(
        FeelBatch {
            dpi: can_dpi,
            polling: can_poll,
            brightness: can_light,
            stages: can_dpi && stages_valid,
            persist: can_store && persist,
        },
    )
}

/// What is said of a batch of writes.
pub fn feel_applied(lines: &Vec<String>) -> (r: String)
    ensures
        r@ == if lines@.len() == 0 {
            "nothing to apply"@
        } else {
            joined(texts(lines@), " · "@)
        },
{
    if lines.len() == 0 {
        "nothing to apply".to_owned()
    } else {
        join(lines, " · ")
    }
}

/// Whether a change of the color is written at once: the chosen effect is the one that the device
/// runs, and takes a color; nothing streams and writes are not paused.
pub fn recolor_now(selected: i32, applied: i32, animating: bool, paused: bool, uses_color: bool) -> (r:
    bool)
    ensures
        r == (selected >= 0 && selected == applied && !animating && !paused && uses_color),
{
    selected >= 0 && selected == applied && !animating && !paused && uses_color
}

/// The sensitivity that a sniper button drops to: never to nothing.
pub fn sniper_dpi(chosen: u16) -> (r: u16)
    ensures
        r == if chosen == 0 {
            400
        } else {
            chosen
        },
{
    if chosen == 0 {
        400
    } else {
        chosen
    }
}

/// What is said once a sniper button was bound.
pub fn sniper_bound(name: &str, dpi: u16, error: &Option<String>) -> (r: String)
    ensures
        r@ == match *error {
            Some(e) => "sniper bind failed: "@ + e@,
            None => "sniper armed — hold "@ + name@ + " for "@ + decimal(dpi as nat) + " DPI"@,
        },
{
    match error {
        Some(e) => {
            let mut s = "sniper bind failed: ".to_owned();
            s.append(e.as_str());
            s
        },
        None => {
            let mut s = "sniper armed — hold ".to_owned();
            s.append(name);
            s.append(" for ");
            s.append(show_u64(dpi as u64).as_str());
            s.append(" DPI");
            s
        },
    }
}

/// What is said once the sniper's sensitivity was saved: whether a button was bound, or what failed.
pub fn sniper_saved(dpi: u16, result: &Result<bool, String>) -> (r: String)
    ensures
        r@ == match *result {
            Ok(true) => "sniper DPI -> "@ + decimal(dpi as nat),
            Ok(false) => "precision DPI "@ + decimal(dpi as nat)
                + " set — capture a hold button to arm it"@,
            Err(e) => "sniper DPI failed: "@ + e@,
        },
{
    match result {
        Ok(bound) => if *bound {
            let mut s = "sniper DPI -> ".to_owned();
            s.append(show_u64(dpi as u64).as_str());
            s
        } else {
            let mut s = "precision DPI ".to_owned();
            s.append(show_u64(dpi as u64).as_str());
            s.append(" set — capture a hold button to arm it");
            s
        },
        Err(e) => {
            let mut s = "sniper DPI failed: ".to_owned();
            s.append(e.as_str());
            s
        },
    }
}

/// The sniper as its panel shows it.
pub struct SniperPanel {
    /// The control that is held; a dash where none is bound.
    pub button: String,
    /// The sensitivity that the fader holds.
    pub dpi: u16,
    pub status: String,
}

impl SniperPanel {
    /// A control was pressed and written with the sensitivity `sniper_dpi` of the fader, or was not
    /// written; or the capture was cancelled, which changes nothing. Whether the engine reads the
    /// bindings anew.
    pub fn button_captured(&mut self, name: &Option<String>, error: &Option<String>) -> (reload: bool)
        ensures
            reload == (*name is Some && *error is None),
            final(self).button@ == if reload {
                name->0@
            } else {
                old(self).button@
            },
            final(self).dpi == if reload {
                if old(self).dpi == 0 {
                    400
                } else {
                    old(self).dpi
                }
            } else {
                old(self).dpi
            },
            final(self).status@ == match (*name, *error) {
                (None, _) => "sniper bind cancelled"@,
                (Some(_), Some(e)) => "sniper bind failed: "@ + e@,
                (Some(n), None) => "sniper armed — hold "@ + n@ + " for "@ + decimal(
                    final(self).dpi as nat,
                ) + " DPI"@,
            },
    {
        match name {
            None => {
                self.status = "sniper bind cancelled".to_owned();
                false
            },
            Some(n) => {
                let dpi: u16 = sniper_dpi(self.dpi);
                self.status = sniper_bound(n.as_str(), dpi, error);
                if error.is_none() {
                    self.button = n.clone();
                    self.dpi = dpi;
                    true
                } else {
                    false
                }
            },
        }
    }

    /// The sniper was unbound, or could not be. Whether the engine reads the bindings anew.
    pub fn unbound(&mut self, error: &Option<String>) -> (reload: bool)
        ensures
            reload == (*error is None),
            final(self).button@ == if reload {
                "—"@
            } else {
                old(self).button@
            },
            final(self).dpi == old(self).dpi,
            final(self).status@ == match *error {
                None => "sniper unbound"@,
                Some(e) => "sniper unbind failed: "@ + e@,
            },
    {
        match error {
            None => {
                self.button = "—".to_owned();
                self.status = "sniper unbound".to_owned();
                true
            },
            Some(e) => {
                let mut s = "sniper unbind failed: ".to_owned();
                s.append(e.as_str());
                self.status = s;
                false
            },
        }
    }

    /// The fader was let go at `dpi`, which it holds from then on. Whether the engine reads the bindings
    /// anew: a button was bound, and its sensitivity was written.
    pub fn saved(&mut self, dpi: u16, result: &Result<bool, String>) -> (reload: bool)
        ensures
            reload == (*result == Ok::<bool, String>(true)),
            final(self).button == old(self).button,
            final(self).dpi == dpi,
            final(self).status@ == match *result {
                Ok(true) => "sniper DPI -> "@ + decimal(dpi as nat),
                Ok(false) => "precision DPI "@ + decimal(dpi as nat)
                    + " set — capture a hold button to arm it"@,
                Err(e) => "sniper DPI failed: "@ + e@,
            },
    {
        self.dpi = dpi;
        self.status = sniper_saved(dpi, result);
        match result {
            Ok(bound) => *bound,
            Err(_) => false,
        }
    }
}

/// What is said of the gaming mode: armed where any of the keys is disabled.
pub fn apply_gaming_mode(alt_tab: bool, win: bool, alt_f4: bool, alt_esc: bool) -> (r: &'static str)
    ensures
        r@ == if alt_tab || win || alt_f4 || alt_esc {
            "gaming-mode ARMED (host-side LL hook — no device write)"@
        } else {
            "gaming-mode off"@
        },
{
    if alt_tab || win || alt_f4 || alt_esc {
        "gaming-mode ARMED (host-side LL hook — no device write)"
    } else {
        "gaming-mode off"
    }
}

/// How purging the vendor's services went.
pub enum PurgeOutcome {
    Done { killed: usize, stopped: usize, demoted: usize },
    Elevating,
    Failed(String),
}

/// What is said of a purge.
pub open spec fn purge_says(o: PurgeOutcome) -> Seq<char> {
    match o {
        PurgeOutcome::Done { killed, stopped, demoted } => if killed == 0 && stopped == 0 && demoted
            == 0 {
            "no Synapse left — already clean"@
        } else {
            "purged Synapse — set "@ + decimal(demoted as nat) + " service(s) to manual + stopped "@
                + decimal(stopped as nat) + ", killed "@ + decimal(killed as nat) + " process(es)"@
        },
        PurgeOutcome::Elevating =>
            "requesting admin to purge SYSTEM services… (approve the UAC prompt)"@,
        PurgeOutcome::Failed(why) => why@,
    }
}

/// What is said of a purge.
pub fn purge_text(o: &PurgeOutcome) -> (r: String)
    ensures
        r@ == purge_says(*o),
{
    match o {
        PurgeOutcome::Done { killed, stopped, demoted } => {
            if *killed == 0 && *stopped == 0 && *demoted == 0 {
                return "no Synapse left — already clean".to_owned();
            }
            let mut s = "purged Synapse — set ".to_owned();
            s.append(show_u64(*demoted as u64).as_str());
            s.append(" service(s) to manual + stopped ");
            s.append(show_u64(*stopped as u64).as_str());
            s.append(", killed ");
            s.append(show_u64(*killed as u64).as_str());
            s.append(" process(es)");
            s
        },
        PurgeOutcome::Elevating =>
            "requesting admin to purge SYSTEM services… (approve the UAC prompt)".to_owned(),
        PurgeOutcome::Failed(why) => why.clone(),
    }
}

/// What is said once an endpoint was muted or unmuted; `None` where there is no device.
pub fn mute_toggled(output: bool, muted: Option<bool>) -> (r: &'static str)
    ensures
        r@ == match (output, muted) {
            (false, Some(true)) => "mic muted"@,
            (false, Some(false)) => "mic live"@,
            (false, None) => "no capture device — nothing to mute"@,
            (true, Some(true)) => "output muted"@,
            (true, Some(false)) => "output live"@,
            (true, None) => "no output device — nothing to mute"@,
        },
{
    match (output, muted) {
        (false, Some(true)) => "mic muted",
        (false, Some(false)) => "mic live",
        (false, None) => "no capture device — nothing to mute",
        (true, Some(true)) => "output muted",
        (true, Some(false)) => "output live",
        (true, None) => "no output device — nothing to mute",
    }
}

/// What is said once the selected endpoint was muted or unmuted.
pub fn endpoint_toggled(muted: bool) -> (r: &'static str)
    ensures
        r@ == if muted {
            "endpoint muted"@
        } else {
            "endpoint unmuted"@
        },
{
    if muted {
        "endpoint muted"
    } else {
        "endpoint unmuted"
    }
}

/// What is said once a level was set, in percent as the device took it; `None` where there is no
/// device.
pub fn gain_set(output: bool, applied: Option<u32>) -> (r: String)
    ensures
        r@ == match applied {
            Some(p) => (if output {
                "output vol "@
            } else {
                "mic gain "@
            }) + decimal(p as nat) + "%"@,
            None => if output {
                "no output device — volume unchanged"@
            } else {
                "no capture device — gain unchanged"@
            },
        },
{
    match applied {
        Some(p) => {
            let mut s: String = if output {
                "output vol ".to_owned()
            } else {
                "mic gain ".to_owned()
            };
            s.append(show_u64(p as u64).as_str());
            s.append("%");
            s
        },
        None => if output {
            "no output device — volume unchanged".to_owned()
        } else {
            "no capture device — gain unchanged".to_owned()
        },
    }
}

// ── laws ────────────────────────────────────────────────────────────────────────────────────────

/// Setting a stance and reading it off the gates gives the stance back.
pub proof fn law_stance_reads_back(m: int)
    requires
        0 <= m <= 3,
    ensures
        stance(m != 1 && m != 3, m == 2 || m == 3) == m,
{
}

/// What choosing a way to start sets reads back as that way.
pub proof fn law_launch_mode_reads_back(m: int, minimized: bool)
    requires
        0 <= m <= 2,
    ensures
        launch_mode(
            m == 1 || m == 2,
            if m == 1 {
                true
            } else if m == 2 {
                false
            } else {
                minimized
            },
        ) == m,
{
}

/// Every kind of notification has one card: it stands in its row of the grid at its rank, and nowhere
/// else.
pub proof fn law_every_kind_has_one_card(k: PingKind)
    ensures
        0 <= slot(k).0 <= 2,
        0 <= slot(k).1 < domain_cards(slot(k).0).len(),
        domain_cards(slot(k).0)[slot(k).1] == k,
        forall|d: int, i: int|
            0 <= d <= 2 && 0 <= i < domain_cards(d).len() && #[trigger] domain_cards(d)[i] == k ==> (
            d,
            i,
        ) == slot(k),
{
    assert forall|d: int, i: int|
        0 <= d <= 2 && 0 <= i < domain_cards(d).len() && #[trigger] domain_cards(d)[i] == k implies (
    d,
    i,
    ) == slot(k) by {
        assert(i == 0 || i == 1 || i == 2 || i == 3);
        assert(d == 0 || d == 1 || d == 2);
    }
}

} // verus!
