//! What the gates, the start of the program, the cards and the colors have to do with one another.

use vstd::prelude::*;

use crate::system::{
    accent_parts, apply_feel, apply_gaming_mode, apply_weave_accent, arm_stance, endpoint_toggled,
    feel_applied, gain_set, launch_mode_now, launch_mode_text, mute_toggled, ping_copy, ping_slot,
    preview_hex, purge_text, recolor_now, refresh_ping_kinds, refresh_reliability, set_launch_mode,
    sniper_bound, sniper_dpi, sniper_saved, typed_hex, weave_accent_u32, without_hash, AccentStep,
    Crossfade, FeelBatch, GateMove, Gates, Guide, Organ, PingCard, PingGates, PingKind,
    PurgeOutcome, Reliability, SniperPanel, Upload,
};
use crate::text::{decimal, digit_value, hex_digits, joined, number, texts};
use crate::text_laws::{law_clean_text_is_trimmed, law_four_hex_digits_read_back};

verus! {

// ── gates ───────────────────────────────────────────────────────────────────────────────────────

/// The stance that is shown tells both gates: an odd one writes to devices, one of two or more sends
/// input.
pub proof fn law_stance_tells_both_gates(paused: bool, armed: bool, r: i32)
    requires
        call_ensures(arm_stance, (paused, armed), r),
    ensures
        0 <= r <= 3,
        r % 2 == 1 <==> !paused,
        r >= 2 <==> armed,
{
}

/// Pausing writes and taking it back leaves both gates as they were; what streamed is stopped, and is to
/// be resumed.
pub proof fn law_pause_there_and_back(
    g: &mut Gates,
    h: &mut Gates,
    first: GateMove,
    second: GateMove,
)
    requires
        call_ensures(Gates::toggle_writes_paused, (g,), first),
        *old(h) == *final(g),
        call_ensures(Gates::toggle_writes_paused, (h,), second),
        !(old(g).paused && old(g).streaming),
    ensures
        final(h).paused == old(g).paused,
        final(h).armed == old(g).armed,
        final(g).paused != old(g).paused,
        !old(g).paused ==> !final(g).streaming && first.stop_streams == old(g).streaming
            && !first.resume && second.resume && !second.stop_streams,
        old(g).paused ==> first.resume && !first.stop_streams,
        first.status@ != second.status@,
{
    reveal_strlit("writes PAUSED — animation stopped");
    reveal_strlit("writes PAUSED");
    reveal_strlit("writes armed");
    assert("writes PAUSED"@[7] != "writes armed"@[7]);
    assert("writes PAUSED — animation stopped"@.len() != "writes armed"@.len());
}

/// Arming input touches neither the writes nor what streams, and twice is as never.
pub proof fn law_arming_touches_input_alone(
    g: &mut Gates,
    h: &mut Gates,
    first: GateMove,
    second: GateMove,
)
    requires
        call_ensures(Gates::toggle_input_armed, (g,), first),
        *old(h) == *final(g),
        call_ensures(Gates::toggle_input_armed, (h,), second),
    ensures
        final(g).paused == old(g).paused && final(g).streaming == old(g).streaming,
        final(g).armed != old(g).armed,
        *final(h) == *old(g),
        !first.stop_streams && !first.resume,
{
}

/// The stance that is chosen is the one that is shown afterwards; choosing it again changes nothing, and
/// nothing streams in a stance that does not write.
pub proof fn law_chosen_stance_is_shown(g: &mut Gates, h: &mut Gates, m: i32, r: GateMove, again: GateMove)
    requires
        call_ensures(Gates::set_arm_stance, (g, m), r),
        *old(h) == *final(g),
        call_ensures(Gates::set_arm_stance, (h, m), again),
        0 <= m <= 3,
    ensures
        r.stance == m,
        *final(h) == *final(g),
        !again.stop_streams && !again.resume,
        final(g).paused ==> !final(g).streaming,
        m == 0 ==> final(g).paused && !final(g).armed,
        m == 3 ==> !final(g).paused && final(g).armed,
        r.stop_streams <==> old(g).streaming && !final(g).streaming,
{
}

// ── how the program starts ──────────────────────────────────────────────────────────────────────

/// A way to start that was chosen is the one that is shown afterwards.
pub proof fn law_chosen_start_is_shown(m: i32, was: bool, r: (bool, Option<bool>), now: i32)
    requires
        call_ensures(set_launch_mode, (m,), r),
        call_ensures(
            launch_mode_now,
            (
                r.0,
                match r.1 {
                    Some(min) => min,
                    None => was,
                },
            ),
            now,
        ),
        0 <= m <= 2,
    ensures
        now == m,
        m == 0 ==> !r.0 && r.1 is None,
{
}

/// The line about it ends in what the system answered.
pub proof fn law_start_line_ends_in_the_answer(m: i32, answer: &str, r: String)
    requires
        call_ensures(launch_mode_text, (m, answer), r),
    ensures
        crate::text::finishes_with(r@, answer@),
        m == 1 ==> crate::text::begins_with(r@, "boot to tray"@),
        m == 2 ==> crate::text::begins_with(r@, "boot with window"@),
        m != 1 && m != 2 ==> r@ == answer@,
{
    reveal_strlit("boot to tray — ");
    reveal_strlit("boot to tray");
    reveal_strlit("boot with window — ");
    reveal_strlit("boot with window");
    assert(r@.skip(r@.len() - answer@.len()) =~= answer@);
    if m == 1 {
        assert(r@.take("boot to tray"@.len() as int) =~= "boot to tray"@);
    }
    if m == 2 {
        assert(r@.take("boot with window"@.len() as int) =~= "boot with window"@);
    }
}

// ── cards ───────────────────────────────────────────────────────────────────────────────────────

/// Every card is lit by the switch of its own kind and by no other: the feel of a mouse in the first row,
/// the device's state in the second, what is active in the third.
pub proof fn law_cards_show_their_gates(
    g: PingGates,
    r: (Vec<PingCard>, Vec<PingCard>, Vec<PingCard>),
)
    requires
        call_ensures(refresh_ping_kinds, (g,), r),
    ensures
        r.0@.len() == 4 && r.1@.len() == 3 && r.2@.len() == 3,
        r.0@[0].on == g.dpi && r.0@[1].on == g.sniper && r.0@[2].on == g.scroll && r.0@[3].on == g.polling,
        r.1@[0].on == g.brightness && r.1@[1].on == g.battery && r.1@[2].on == g.side_plate,
        r.2@[0].on == g.profile && r.2@[1].on == g.layer && r.2@[2].on == g.macros,
        r.0@[0].kind == PingKind::Dpi && r.1@[1].kind == PingKind::Battery && r.2@[2].kind
            == PingKind::Macro,
        r.0@[0].label@ == "dpi"@ && r.1@[1].label@ == "battery"@ && r.2@[0].label@ == "profile"@,
{
    let (a, b, c) = (r.0@[0], r.0@[1], r.0@[2]);
    let (d, e, f) = (r.0@[3], r.1@[0], r.1@[1]);
    let (h, i, j, k) = (r.1@[2], r.2@[0], r.2@[1], r.2@[2]);
}

/// An organ at rest, one that beats and one that is silent are told apart; a beat is dated.
pub proof fn law_organs_are_told_apart(
    organs: &Vec<Organ>,
    respawned: bool,
    dumps: usize,
    r: Reliability,
    i: int,
)
    requires
        call_ensures(refresh_reliability, (organs, respawned, dumps), r),
        0 <= i < organs@.len(),
    ensures
        r.organs@.len() == organs@.len(),
        r.organs@[i].name@ == organs@[i].name@,
        r.organs@[i].state@ == "rest"@ <==> organs@[i].age_ms is None,
        r.organs@[i].state@ == "stall"@ <==> organs@[i].age_ms is Some && organs@[i].stalled,
        r.organs@[i].state@ == "beat"@ <==> organs@[i].age_ms is Some && !organs@[i].stalled,
        organs@[i].age_ms matches Some(a) ==> (!organs@[i].stalled && a < 1000 ==> r.organs@[i].detail@
            == "beating · "@ + decimal(a as nat) + " ms ago"@),
        organs@[i].age_ms matches Some(a) ==> (!organs@[i].stalled && a >= 1000 ==> r.organs@[i].detail@
            == "beating · "@ + decimal((a / 1000) as nat) + "s ago"@),
        r.present <==> respawned || dumps > 0,
{
    reveal_strlit("rest");
    reveal_strlit("stall");
    reveal_strlit("beat");
    let row = r.organs@[i];
    assert("rest"@[0] != "beat"@[0]);
    assert("rest"@.len() != "stall"@.len());
    assert("beat"@.len() != "stall"@.len());
}

/// A book opens where it is asked for, closes when it is asked for again, and gives way to another.
pub proof fn law_book_toggles<P>(g: &mut Guide<P>, h: &mut Guide<P>, id: &str, other: &str, at: P, there: P)
    requires
        call_ensures(Guide::<P>::toggle, (g, id, at), ()),
        *old(h) == *final(g),
        call_ensures(Guide::<P>::toggle, (h, other, there), ()),
        !old(g).open,
    ensures
        final(g).open && final(g).active@ == id@ && final(g).at == at && !final(g).sticky,
        other@ == id@ ==> !final(h).open,
        other@ != id@ ==> final(h).open && final(h).active@ == other@ && final(h).at == there,
{
}

// ── colors ──────────────────────────────────────────────────────────────────────────────────────

/// A color is put together from its parts as it was taken apart.
pub proof fn law_color_parts_fit_together(accent: u32, r: (u8, u8, u8))
    requires
        call_ensures(accent_parts, (accent,), r),
        accent <= 0xFFFFFF,
    ensures
        r.0 * 0x10000 + r.1 * 0x100 + r.2 == accent,
{
}

/// A typed color is complete with six digits in base sixteen, with or without a sign in front; it can
/// never be one with another character or with more.
pub proof fn law_six_digits_are_a_color(s: &str, r: (bool, bool))
    requires
        call_ensures(preview_hex, (s,), r),
        s@.len() > 0 ==> !crate::text::is_space(s@[0]) && !crate::text::is_space(s@.last()),
        s@.len() > 0 ==> s@[0] != '#',
    ensures
        (forall|i: int| 0 <= i < s@.len() ==> digit_value(#[trigger] s@[i], 16) is Some) ==> (r.0
            <==> s@.len() == 6) && (r.1 <==> s@.len() > 6),
        (exists|i: int| 0 <= i < s@.len() && digit_value(#[trigger] s@[i], 16) is None) ==> !r.0 && r.1,
{
    law_clean_text_is_trimmed(s@);
    assert(typed_hex(s@) == s@);
}

/// A sign in front of a color does not count.
pub proof fn law_sign_before_a_color(s: Seq<char>)
    ensures
        without_hash(seq!['#'] + s) == without_hash(s),
{
    assert((seq!['#'] + s).drop_first() =~= s);
}

/// An accent tints the weave with the number that it spells; the stock accent clears the tint.
pub proof fn law_accent_tints(clean: &str, step: AccentStep, n: u32)
    requires
        call_ensures(apply_weave_accent, (clean,), step),
        call_ensures(weave_accent_u32, (clean,), n),
    ensures
        clean@ == "4af2b0"@ <==> step == AccentStep::Clear,
        step matches AccentStep::Tint(t) ==> t == n,
        step == AccentStep::Nothing ==> n == 0x4AF2B0,
        clean@.len() == 0 ==> step == AccentStep::Nothing,
{
    reveal_strlit("4af2b0");
}

/// A batch of pictures is never written where the user looks, and is looked at from then on.
pub proof fn law_pictures_take_turns(c: &mut Crossfade, d: &mut Crossfade, n: usize, first: Upload, second: Upload)
    requires
        call_ensures(Crossfade::upload_material_cards, (c, n), first),
        *old(d) == *final(c),
        call_ensures(Crossfade::upload_material_cards, (d, n), second),
    ensures
        final(c).cards == n,
        second != Upload::Rebuild,
        first != Upload::Rebuild ==> first != second,
        second == Upload::First <==> final(c).show_alt,
        final(d).show_alt != final(c).show_alt,
        old(c).cards != n <==> first == Upload::Rebuild,
{
}

// ── device writes ───────────────────────────────────────────────────────────────────────────────

/// Nothing is written while writes are paused, and never what a device does not take.
pub proof fn law_writes_need_the_capability(
    paused: bool,
    dpi: bool,
    poll: bool,
    light: bool,
    store: bool,
    valid: bool,
    persist: bool,
    r: Option<FeelBatch>,
)
    requires
        call_ensures(apply_feel, (paused, dpi, poll, light, store, valid, persist), r),
    ensures
        r is None <==> paused,
        r matches Some(b) ==> (b.dpi <==> dpi) && (b.polling <==> poll) && (b.brightness <==> light) && (
        b.stages <==> dpi && valid) && (b.persist <==> store && persist),
{
}

/// What is said of a batch names each write in order, and nothing where there was none.
pub proof fn law_batch_is_named(lines: &Vec<String>, r: String)
    requires
        call_ensures(feel_applied, (lines,), r),
    ensures
        lines@.len() == 1 ==> r@ == lines@[0]@,
        lines@.len() == 2 ==> r@ == lines@[0]@ + " · "@ + lines@[1]@,
        lines@.len() == 0 ==> r@ == "nothing to apply"@,
{
    reveal_with_fuel(joined, 3);
    if lines@.len() == 2 {
        assert(texts(lines@).drop_last() =~= seq![lines@[0]@]);
    }
}

/// A color goes out at once only where the effect that runs is the one being colored.
pub proof fn law_recolor_needs_the_running_effect(
    selected: i32,
    applied: i32,
    animating: bool,
    paused: bool,
    colors: bool,
    r: bool,
)
    requires
        call_ensures(recolor_now, (selected, applied, animating, paused, colors), r),
    ensures
        r ==> selected == applied && selected >= 0 && colors && !paused && !animating,
        selected == applied && selected >= 0 && colors && !paused && !animating ==> r,
{
}

/// A sniper drops to what was chosen, and to 400 where nothing was.
pub proof fn law_sniper_never_drops_to_nothing(chosen: u16, r: u16)
    requires
        call_ensures(sniper_dpi, (chosen,), r),
    ensures
        r > 0,
        chosen > 0 ==> r == chosen,
        chosen == 0 ==> r == 400,
{
}

/// A captured button is shown with the sensitivity that it was armed with, until it is unbound.
pub proof fn law_sniper_is_shown_until_unbound(
    p: &mut SniperPanel,
    q: &mut SniperPanel,
    name: &Option<String>,
    ok: &Option<String>,
    reload: bool,
    after: bool,
)
    requires
        call_ensures(SniperPanel::button_captured, (p, name, ok), reload),
        *old(q) == *final(p),
        call_ensures(SniperPanel::unbound, (q, ok), after),
        *ok is None,
    ensures
        *name matches Some(n) ==> reload && final(p).button@ == n@ && final(p).dpi > 0 && (old(p).dpi > 0
            ==> final(p).dpi == old(p).dpi),
        *name is None ==> !reload && final(p).button@ == old(p).button@ && final(p).dpi == old(p).dpi,
        after && final(q).button@ == "—"@ && final(q).dpi == final(p).dpi,
{
}

/// The gaming mode is armed by any of its keys.
pub proof fn law_any_key_arms_gaming(a: bool, b: bool, c: bool, d: bool, r: &'static str)
    requires
        call_ensures(apply_gaming_mode, (a, b, c, d), r),
    ensures
        r@ == "gaming-mode off"@ <==> !a && !b && !c && !d,
{
    reveal_strlit("gaming-mode off");
    reveal_strlit("gaming-mode ARMED (host-side LL hook — no device write)");
    assert("gaming-mode off"@.len() != "gaming-mode ARMED (host-side LL hook — no device write)"@.len());
}

/// A purge tells what it did, each number in its own place.
pub proof fn law_purge_tells_its_numbers(o: &PurgeOutcome, r: String)
    requires
        call_ensures(purge_text, (o,), r),
    ensures
        *o matches PurgeOutcome::Done { killed, stopped, demoted } ==> (killed > 0 || stopped > 0 || demoted
            > 0 ==> r@ == "purged Synapse — set "@ + decimal(demoted as nat)
            + " service(s) to manual + stopped "@ + decimal(stopped as nat) + ", killed "@ + decimal(
            killed as nat,
        ) + " process(es)"@),
        *o matches PurgeOutcome::Failed(why) ==> r@ == why@,
{
}

/// What is said of an endpoint fits which one it is and whether it is muted.
pub proof fn law_endpoint_lines(output: bool, muted: Option<bool>, level: Option<u32>, m: &'static str, g: String)
    requires
        call_ensures(mute_toggled, (output, muted), m),
        call_ensures(gain_set, (output, level), g),
    ensures
        muted matches Some(b) ==> m@ == (if output {
            "output "@
        } else {
            "mic "@
        }) + (if b {
            "muted"@
        } else {
            "live"@
        }),
        level matches Some(p) ==> g@ == (if output {
            "output vol "@
        } else {
            "mic gain "@
        }) + decimal(p as nat) + "%"@,
        muted is None ==> (m@ == "no output device — nothing to mute"@ <==> output),
{
    reveal_strlit("output ");
    reveal_strlit("mic ");
    reveal_strlit("muted");
    reveal_strlit("live");
    reveal_strlit("output muted");
    reveal_strlit("output live");
    reveal_strlit("mic muted");
    reveal_strlit("mic live");
    reveal_strlit("no output device — nothing to mute");
    reveal_strlit("no capture device — nothing to mute");
    assert("output muted"@ =~= "output "@ + "muted"@);
    assert("output live"@ =~= "output "@ + "live"@);
    assert("mic muted"@ =~= "mic "@ + "muted"@);
    assert("mic live"@ =~= "mic "@ + "live"@);
    assert("no output device — nothing to mute"@.len() != "no capture device — nothing to mute"@.len());
}

/// Each ping stands in a slot of its own; its card names it.
pub proof fn law_pings_have_their_slots(
    k: PingKind,
    l: PingKind,
    a: (u8, u8),
    b: (u8, u8),
    card: (&'static str, &'static str, &'static str),
)
    requires
        call_ensures(ping_slot, (k,), a),
        call_ensures(ping_slot, (l,), b),
        call_ensures(ping_copy, (k,), card),
    ensures
        a == b ==> k == l,
        a.0 <= 2 && a.1 <= 3,
        k is Dpi || k is Sniper || k is Scroll || k is Polling <==> a.0 == 0,
        k is Brightness || k is Battery || k is SidePlate <==> a.0 == 1,
        k is Dpi ==> a == (0u8, 0u8) && card.0@ == "dpi"@,
        k is Sniper ==> a == (0u8, 1u8) && card.0@ == "sniper"@,
        k is Scroll ==> a == (0u8, 2u8) && card.0@ == "scroll"@ && card.1@ == "sensitivity"@,
        k is Polling ==> a == (0u8, 3u8) && card.0@ == "polling"@,
        k is Brightness ==> a == (1u8, 0u8) && card.0@ == "brightness"@,
        k is Battery ==> a == (1u8, 1u8) && card.0@ == "battery"@,
        k is SidePlate ==> a == (1u8, 2u8) && card.0@ == "side_plate"@ && card.1@ == "side plate"@,
        k is Profile ==> a == (2u8, 0u8) && card.0@ == "profile"@,
        k is Layer ==> a == (2u8, 1u8) && card.0@ == "layer"@,
        k is Macro ==> a == (2u8, 2u8) && card.0@ == "beacon"@,
{
}

/// An accent is the saved hexadecimal number; what is none is the default green.
pub proof fn law_accent_is_read(n: u16, t: &str, r: u32, s: &str, none: u32)
    requires
        t@ == hex_digits(n as nat, 4),
        call_ensures(weave_accent_u32, (t,), r),
        s@.len() == 0,
        call_ensures(weave_accent_u32, (s,), none),
    ensures
        r == n,
        none == 0x4AF2B0,
{
    law_four_hex_digits_read_back(n as nat);
    assert(number(t@, 16, u32::MAX as nat) == Some(n as nat));
}

/// A sniper that is armed tells its button and resolution; a saved resolution tells whether a button has
/// it.
pub proof fn law_sniper_is_told(
    name: &str,
    dpi: u16,
    error: &Option<String>,
    bound: String,
    result: &Result<bool, String>,
    saved: String,
    p: &mut SniperPanel,
    reload: bool,
)
    requires
        call_ensures(sniper_bound, (name, dpi, error), bound),
        call_ensures(sniper_saved, (dpi, result), saved),
        call_ensures(SniperPanel::saved, (p, dpi, result), reload),
    ensures
        *error is None ==> bound@ == "sniper armed — hold "@ + name@ + " for "@ + decimal(dpi as nat) + " DPI"@,
        *error matches Some(e) ==> bound@ == "sniper bind failed: "@ + e@,
        *result == Ok::<bool, String>(true) ==> saved@ == "sniper DPI -> "@ + decimal(dpi as nat) && reload,
        *result == Ok::<bool, String>(false) ==> saved@ == "precision DPI "@ + decimal(dpi as nat)
            + " set — capture a hold button to arm it"@ && !reload,
        *result matches Err(e) ==> saved@ == "sniper DPI failed: "@ + e@ && !reload,
        final(p).status@ == saved@ && final(p).dpi == dpi && final(p).button == old(p).button,
{
}

/// An endpoint tells what it was toggled to.
pub proof fn law_toggled_endpoint_is_told(a: &'static str, b: &'static str)
    requires
        call_ensures(endpoint_toggled, (true,), a),
        call_ensures(endpoint_toggled, (false,), b),
    ensures
        a@ == "endpoint muted"@ && b@ == "endpoint unmuted"@,
{
}

/// The parts of a color are its last three bytes, whatever stands before them.
pub proof fn law_color_parts_are_the_last_bytes(a: u32, b: u32, r: (u8, u8, u8), s: (u8, u8, u8))
    requires
        a <= 0xFFFFFF,
        b == 0xFF000000 + a,
        call_ensures(accent_parts, (a,), r),
        call_ensures(accent_parts, (b,), s),
    ensures
        r == s,
        r.2 == a % 0x100,
{
}

/// A guide that is opened, closed and opened again by its own mark is open where it was opened last, and
/// closing moves nothing.
pub proof fn law_guide_is_toggled<P>(a: &mut Guide<P>, b: &mut Guide<P>, id: &str, x: P, y: P)
    requires
        !old(a).open,
        call_ensures(Guide::<P>::toggle, (a, id, x), ()),
        *old(b) == *final(a),
        call_ensures(Guide::<P>::toggle, (b, id, y), ()),
    ensures
        final(a).open && final(a).active@ == id@ && !final(a).sticky && final(a).at == x,
        !final(b).open && final(b).at == x && final(b).active@ == id@ && final(b).sticky == final(a).sticky,
{
}

} // verus!
