//! The texts of the connections card, derived from what is open and who is connected.

use vstd::prelude::*;

use crate::status::{ClientStatus, Status};
use crate::text::{decimal, join, joined, lemma_texts_push, list_has, same_text, show_u64, texts};

verus! {

/// The port of the Chroma server.
pub const CHROMA_PORT: u16 = 54235;

/// The port of the OpenRGB server.
pub const OPENRGB_PORT: u16 = 6742;

/// The saved preferences that the card shows.
#[derive(Clone, Copy, Debug, PartialEq, Eq, Structural)]
pub struct HostPrefs {
    pub chroma: bool,
    pub openrgb: bool,
    pub obs: bool,
    pub lighting_wins: bool,
}

/// What the card shows. The password field is not part of it: it belongs to the user.
#[derive(Debug, PartialEq)]
pub struct HostCard {
    pub enabled: bool,
    pub chroma: bool,
    pub openrgb: bool,
    pub obs: bool,
    pub lighting_wins: bool,
    pub chroma_status: String,
    pub openrgb_status: String,
    pub chroma_live: bool,
    pub openrgb_live: bool,
    pub obs_live: bool,
    pub obs_status: String,
    pub devices_line: String,
}

// ── a server's line ─────────────────────────────────────────────────────────────────────────────

/// What the card says of a server without clients.
pub open spec fn port_line(gate: bool, active: bool, serving: bool, port: u16) -> Seq<char> {
    if !gate {
        "off"@
    } else if !active {
        "waiting for connections to open"@
    } else if serving {
        "ready on 127.0.0.1:"@ + decimal(port as nat)
    } else {
        "port "@ + decimal(port as nat) + " is in use, maybe by Razer Synapse"@
    }
}

fn port_text(gate: bool, active: bool, serving: bool, port: u16) -> (r: String)
    ensures
        r@ == port_line(gate, active, serving, port),
{
    if !gate {
        "off".to_owned()
    } else if !active {
        "waiting for connections to open".to_owned()
    } else if serving {
        let mut s = "ready on 127.0.0.1:".to_owned();
        s.append(show_u64(port as u64).as_str());
        s
    } else {
        let mut s = "port ".to_owned();
        s.append(show_u64(port as u64).as_str());
        s.append(" is in use, maybe by Razer Synapse");
        s
    }
}

// ── the clients' line ───────────────────────────────────────────────────────────────────────────

/// What a client is called.
pub open spec fn shown_name(c: ClientStatus) -> Seq<char> {
    if c.name@.len() == 0 {
        "an unnamed app"@
    } else {
        c.name@
    }
}

/// The names of the first `k` clients; with `painters`, of those alone that paint.
pub open spec fn names(cs: Seq<ClientStatus>, painters: bool, k: nat) -> Seq<Seq<char>>
    decreases k,
{
    if k == 0 || k > cs.len() {
        Seq::empty()
    } else {
        let before = names(cs, painters, (k - 1) as nat);
        if painters && cs[k - 1].painting@.len() == 0 {
            before
        } else {
            before.push(shown_name(cs[k - 1]))
        }
    }
}

/// `kinds` with those of the first `n` of `more` that it lacks.
pub open spec fn kinds_with(kinds: Seq<Seq<char>>, more: Seq<Seq<char>>, n: nat) -> Seq<Seq<char>>
    decreases n,
{
    if n == 0 || n > more.len() {
        kinds
    } else {
        let before = kinds_with(kinds, more, (n - 1) as nat);
        if before.contains(more[n - 1]) {
            before
        } else {
            before.push(more[n - 1])
        }
    }
}

/// The kinds of surface that the first `k` clients paint, each once.
pub open spec fn kinds_painted(cs: Seq<ClientStatus>, k: nat) -> Seq<Seq<char>>
    decreases k,
{
    if k == 0 || k > cs.len() {
        Seq::empty()
    } else {
        kinds_with(
            kinds_painted(cs, (k - 1) as nat),
            texts(cs[k - 1].painting@),
            cs[k - 1].painting@.len(),
        )
    }
}

/// Some client has a claim.
pub open spec fn any_claim(cs: Seq<ClientStatus>) -> bool {
    exists|i: int| 0 <= i < cs.len() && (#[trigger] cs[i]).has_claim
}

/// What the card says of the clients of a server, where there are any.
pub open spec fn client_line(cs: Seq<ClientStatus>) -> Option<Seq<char>> {
    let painters = names(cs, true, cs.len());
    let all = names(cs, false, cs.len());
    if cs.len() == 0 {
        None
    } else if painters.len() > 0 {
        Some(
            joined(painters, " + "@) + (if painters.len() == 1 {
                " is painting your "@
            } else {
                " are painting your "@
            }) + joined(kinds_painted(cs, cs.len()), " + "@),
        )
    } else if any_claim(cs) {
        Some(joined(all, " + "@) + " is waiting underneath your lighting"@)
    } else {
        Some(joined(all, " + "@) + " is connected, not painting yet"@)
    }
}

fn name_list(cs: &Vec<ClientStatus>, painters: bool) -> (r: Vec<String>)
    ensures
        texts(r@) == names(cs@, painters, cs@.len()),
{
    let mut out: Vec<String> = Vec::new();
    let mut i: usize = 0;
    proof {
        assert(texts(out@) =~= names(cs@, painters, 0));
    }
    while i < cs.len()
        invariant
            i <= cs@.len(),
            texts(out@) == names(cs@, painters, i as nat),
        decreases cs@.len() - i,
    {
        if !(painters && cs[i].painting.len() == 0) {
            let n: String = if cs[i].name.as_str().is_empty() {
                "an unnamed app".to_owned()
            } else {
                cs[i].name.clone()
            };
            proof {
                lemma_texts_push(out@, n);
            }
            out.push(n);
        }
        i = i + 1;
    }
    out
}

fn kind_list(cs: &Vec<ClientStatus>) -> (r: Vec<String>)
    ensures
        texts(r@) == kinds_painted(cs@, cs@.len()),
{
    let mut out: Vec<String> = Vec::new();
    let mut i: usize = 0;
    proof {
        assert(texts(out@) =~= kinds_painted(cs@, 0));
    }
    while i < cs.len()
        invariant
            i <= cs@.len(),
            texts(out@) == kinds_painted(cs@, i as nat),
        decreases cs@.len() - i,
    {
        let more = &cs[i].painting;
        let ghost before = texts(out@);
        let mut j: usize = 0;
        while j < more.len()
            invariant
                j <= more@.len(),
                texts(out@) == kinds_with(before, texts(more@), j as nat),
            decreases more@.len() - j,
        {
            proof {
                assert(texts(more@)[j as int] == more@[j as int]@);
            }
            if !list_has(&out, more[j].as_str()) {
                let k = more[j].clone();
                proof {
                    lemma_texts_push(out@, k);
                }
                out.push(k);
            }
            j = j + 1;
        }
        i = i + 1;
    }
    out
}

fn has_any_claim(cs: &Vec<ClientStatus>) -> (r: bool)
    ensures
        r == any_claim(cs@),
{
    let mut i: usize = 0;
    while i < cs.len()
        invariant
            i <= cs@.len(),
            forall|j: int| 0 <= j < i ==> !(#[trigger] cs@[j]).has_claim,
        decreases cs@.len() - i,
    {
        if cs[i].has_claim {
            return true;
        }
        i = i + 1;
    }
    false
}

/// What the card says of the clients of a server, where there are any.
pub fn client_text(cs: &Vec<ClientStatus>) -> (r: Option<String>)
    ensures
        match r {
            Some(s) => client_line(cs@) == Some(s@),
            None => client_line(cs@) is None,
        },
{
    if cs.len() == 0 {
        return None;
    }
    let painters = name_list(cs, true);
    proof {
        assert(texts(painters@).len() == painters@.len());
    }
    if painters.len() > 0 {
        let mut s = join(&painters, " + ");
        s.append(
            if painters.len() == 1 {
                " is painting your "
            } else {
                " are painting your "
            },
        );
        let kinds = kind_list(cs);
        s.append(join(&kinds, " + ").as_str());
        return Some(s);
    }
    let all = name_list(cs, false);
    let mut s = join(&all, " + ");
    if has_any_claim(cs) {
        s.append(" is waiting underneath your lighting");
    } else {
        s.append(" is connected, not painting yet");
    }
    Some(s)
}

// ── the OBS line ────────────────────────────────────────────────────────────────────────────────

/// What the card says of OBS.
pub open spec fn obs_line(gate: bool, s: Status) -> Seq<char> {
    if !gate {
        "off"@
    } else if !s.active {
        "waiting for connections to open"@
    } else if !s.obs_connected {
        "looking for OBS on 127.0.0.1:4455"@
    } else {
        (if s.obs_scene@.len() == 0 {
            "connected to OBS on 127.0.0.1:4455"@
        } else {
            "connected to OBS · scene: "@ + s.obs_scene@
        }) + (if s.obs_streaming {
            " · LIVE"@
        } else {
            Seq::<char>::empty()
        }) + (if s.obs_recording {
            " · recording"@
        } else {
            Seq::<char>::empty()
        })
    }
}

fn obs_text(gate: bool, s: &Status) -> (r: String)
    ensures
        r@ == obs_line(gate, *s),
{
    if !gate {
        return "off".to_owned();
    }
    if !s.active {
        return "waiting for connections to open".to_owned();
    }
    if !s.obs_connected {
        return "looking for OBS on 127.0.0.1:4455".to_owned();
    }
    let mut line: String = if s.obs_scene.as_str().is_empty() {
        "connected to OBS on 127.0.0.1:4455".to_owned()
    } else {
        let mut l = "connected to OBS · scene: ".to_owned();
        l.append(s.obs_scene.as_str());
        l
    };
    let ghost head = line@;
    if s.obs_streaming {
        line.append(" · LIVE");
    }
    if s.obs_recording {
        line.append(" · recording");
    }
    proof {
        assert(line@ =~= obs_line(gate, *s));
    }
    line
}

/// How many devices the card says are shared.
pub open spec fn devices_text(s: Status) -> Seq<char> {
    if s.active {
        "Neuron is sharing "@ + decimal(s.devices as nat) + (if s.devices == 1 {
            " device."@
        } else {
            " devices."@
        })
    } else {
        Seq::empty()
    }
}

// ── the card ────────────────────────────────────────────────────────────────────────────────────

/// The line of a server: who is connected, else how its port does.
pub open spec fn server_line(
    cs: Seq<ClientStatus>,
    gate: bool,
    active: bool,
    serving: bool,
    port: u16,
) -> Seq<char> {
    match client_line(cs) {
        Some(l) => l,
        None => port_line(gate, active, serving, port),
    }
}

/// What the card shows. The master switch shows what is, not what was asked for; a lamp is lit only
/// where its gate is open and the thing is up.
pub open spec fn card_shows(c: HostCard, s: Status, p: HostPrefs) -> bool {
    &&& c.enabled == s.active
    &&& c.chroma == p.chroma
    &&& c.openrgb == p.openrgb
    &&& c.obs == p.obs
    &&& c.lighting_wins == p.lighting_wins
    &&& c.chroma_status@ == server_line(
        s.chroma_clients@,
        p.chroma,
        s.active,
        s.chroma_serving,
        CHROMA_PORT,
    )
    &&& c.openrgb_status@ == server_line(
        s.openrgb_clients@,
        p.openrgb,
        s.active,
        s.openrgb_serving,
        OPENRGB_PORT,
    )
    &&& c.chroma_live == (p.chroma && s.chroma_serving)
    &&& c.openrgb_live == (p.openrgb && s.openrgb_serving)
    &&& c.obs_live == (p.obs && s.obs_connected)
    &&& c.obs_status@ == obs_line(p.obs, s)
    &&& c.devices_line@ == devices_text(s)
}

fn server_text(
    cs: &Vec<ClientStatus>,
    gate: bool,
    active: bool,
    serving: bool,
    port: u16,
) -> (r: String)
    ensures
        r@ == server_line(cs@, gate, active, serving, port),
{
    match client_text(cs) {
        Some(l) => l,
        None => port_text(gate, active, serving, port),
    }
}

/// The connections card.
pub fn refresh_host_status(s: &Status, p: HostPrefs) -> (r: HostCard)
    ensures
        card_shows(r, *s, p),
{
    let devices_line: String = if s.active {
        let mut l = "Neuron is sharing ".to_owned();
        l.append(show_u64(s.devices as u64).as_str());
        l.append(
            if s.devices == 1 {
                " device."
            } else {
                " devices."
            },
        );
        l
    } else {
        String::new()
    };
    HostCard {
        enabled: s.active,
        chroma: p.chroma,
        openrgb: p.openrgb,
        obs: p.obs,
        lighting_wins: p.lighting_wins,
        chroma_status: server_text(
            &s.chroma_clients,
            p.chroma,
            s.active,
            s.chroma_serving,
            CHROMA_PORT,
        ),
        openrgb_status: server_text(
            &s.openrgb_clients,
            p.openrgb,
            s.active,
            s.openrgb_serving,
            OPENRGB_PORT,
        ),
        chroma_live: p.chroma && s.chroma_serving,
        openrgb_live: p.openrgb && s.openrgb_serving,
        obs_live: p.obs && s.obs_connected,
        obs_status: obs_text(p.obs, s),
        devices_line,
    }
}

/// What the password field is seeded with at the start: what was saved, and only into an empty field.
pub fn seeded_password(shown: &str, saved: &str) -> (r: Option<String>)
    ensures
        match r {
            Some(p) => shown@.len() == 0 && saved@.len() > 0 && p@ == saved@,
            None => shown@.len() > 0 || saved@.len() == 0,
        },
{
    proof {
        reveal_strlit("");
        assert(shown@.len() == 0 <==> shown@ =~= ""@);
        assert(saved@.len() == 0 <==> saved@ =~= ""@);
    }
    if same_text(shown, "") && !same_text(saved, "") {
        Some(saved.to_owned())
    } else {
        None
    }
}

/// A server whose gate is closed and that has no clients is shown as off, with its lamp dark.
pub proof fn law_closed_gate_reads_off(s: Status, p: HostPrefs, c: HostCard)
    requires
        card_shows(c, s, p),
        !p.chroma,
        s.chroma_clients@.len() == 0,
    ensures
        c.chroma_status@ == "off"@,
        !c.chroma_live,
{
}

} // verus!
