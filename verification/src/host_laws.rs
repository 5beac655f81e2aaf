//! What the connections, the boards that they share and what is told of them have to do with one
//! another.

use vstd::prelude::*;

use crate::base_lighting::{
    active, any_lighting, base_band, base_layers, clear_all_lighting, clear_lighting, dead_keys,
    dropped, has_lighting, heartbeat, law_cleared_is_dark, law_clearing_spares_others,
    lighting_targets, lost_surfaces, released, set_fps, set_lighting, stream_pace, BaseLayer,
    BaseStep, HostModel, LightingRun,
};
use crate::bridge::{
    addressed, all_keys, allowed_keys, blend_from_mode_str, chroma_device_name, chroma_device_type,
    game_device_scope, hands_off, io_gate, io_gate_all, key_for_unit, keys_for_pid, kind_word,
    paint_surfaces, pairs, pid_keys, scope_pairs, surface_keys, surface_name, text_less,
    text_precedes, unit_key, with_writer, word_of, BlendMode, Bridge, GameDeviceScope, IoGate,
    Surface, SurfaceKind,
};
use crate::chroma_shm::{
    create_error_text, granted, recipes, shm_game_activated, spawn_chroma_shm, ChromaShm,
    CreateError, ShmTick,
};
use crate::host::{
    apply_protocol_prefs, ascii_lower, bring_up, connect_obs, native_error_after, reconnect_obs,
    same_but_case, set_enabled, start, start_attempted, switch_step, take_host_events_dirty,
    EventWait, Gate, HostEvents, ObsConnect, ProtocolPlan, Serving, Stage, StartProbe, SwitchStep,
    Wanted,
};
use crate::host_card::{
    any_claim, client_text, kinds_painted, kinds_with, names, refresh_host_status, seeded_password,
    HostCard, HostPrefs,
};
use crate::status::{
    board_owner, bucket, client_statuses, color_count, color_counts, colors_seen,
    covered_by_decision, dominant_colors, first_foreign, first_rival, is_lit,
    law_winner_is_not_covered, lit_activities, lit_count, lit_units, name_of_owner,
    native_chroma_status, owner_of, painted_kinds, ranks_before, shows_light, status, streams_of,
    surface_owner, top_three, tops_somewhere, Activity, Board, BoardOwner, Claim, ClientStatus,
    HostReadings, NativeChroma, NativeChromaStream, NativeReadings, Status,
};
use crate::text::{decimal, lowercase, texts};
use crate::textmap::lemma_entry;

verus! {

// ── boards and their keys ───────────────────────────────────────────────────────────────────────

/// A unit has the key that stands beside it, the first where it is listed twice.
pub proof fn law_unit_has_its_key(b: &Bridge, unit: &str, r: Option<String>, i: int)
    requires
        call_ensures(key_for_unit, (b, unit), r),
        0 <= i < b.units@.len(),
        b.units@[i].0@ == unit@,
        forall|j: int| 0 <= j < i ==> (#[trigger] b.units@[j]).0@ != unit@,
    ensures
        r matches Some(k) && k@ == b.units@[i].1@,
{
    lemma_unit(b.units@, unit@, 0, i);
}

proof fn lemma_unit(units: Seq<(String, String)>, unit: Seq<char>, from: nat, i: int)
    requires
        from <= i < units.len(),
        units[i].0@ == unit,
        forall|j: int| 0 <= j < i ==> (#[trigger] units[j]).0@ != unit,
    ensures
        unit_key(units, unit, from) == Some(units[i].1@),
    decreases i - from,
{
    if from < i {
        assert(units[from as int].0@ != unit);
        lemma_unit(units, unit, from + 1, i);
    }
}

/// A product has all the keys that are listed for it.
pub proof fn law_product_has_its_keys(b: &Bridge, pid: u16, r: Vec<String>, i: int)
    requires
        call_ensures(keys_for_pid, (b, pid), r),
        0 <= i < b.pids@.len(),
        b.pids@[i].0 == pid,
        forall|j: int| 0 <= j < i ==> (#[trigger] b.pids@[j]).0 != pid,
    ensures
        texts(r@) == texts(b.pids@[i].1@),
{
    lemma_pid(b.pids@, pid, 0, i);
}

proof fn lemma_pid(pids: Seq<(u16, Vec<String>)>, pid: u16, from: nat, i: int)
    requires
        from <= i < pids.len(),
        pids[i].0 == pid,
        forall|j: int| 0 <= j < i ==> (#[trigger] pids[j]).0 != pid,
    ensures
        pid_keys(pids, pid, from) == texts(pids[i].1@),
    decreases i - from,
{
    if from < i {
        assert(pids[from as int].0 != pid);
        lemma_pid(pids, pid, from + 1, i);
    }
}

/// A unit that is named addresses its own board alone; without a name the product's boards are addressed.
pub proof fn law_named_unit_is_addressed(b: &Bridge, pid: u16, unit: &str, r: Vec<String>, k: Option<String>, ks: Vec<String>)
    requires
        call_ensures(surface_keys, (b, pid, unit), r),
        call_ensures(key_for_unit, (b, unit), k),
        call_ensures(keys_for_pid, (b, pid), ks),
    ensures
        unit@.len() > 0 ==> (match k {
            Some(key) => r@.len() == 1 && r@[0]@ == key@,
            None => r@.len() == 0,
        }),
        unit@.len() == 0 ==> texts(r@) == texts(ks@),
{
    assert(texts(r@).len() == r@.len());
    if r@.len() == 1 {
        assert(texts(r@)[0] == r@[0]@);
    }
}

/// The code, the word and the name of a kind of board agree.
pub proof fn law_kinds_of_boards(kind: SurfaceKind, word: &'static str, code: u8, name: &'static str)
    requires
        call_ensures(kind_word, (kind,), word),
        call_ensures(chroma_device_type, (kind,), code),
        call_ensures(chroma_device_name, (code,), name),
    ensures
        name@ == word@,
        kind is Keyboard ==> code == 0x01 && word@ == "keyboard"@,
        kind is Mouse ==> code == 0x02 && word@ == "mouse"@,
        kind is Headset ==> code == 0x04 && word@ == "headset"@,
        kind is Mousepad ==> code == 0x08 && word@ == "mousepad"@,
        kind is Keypad ==> code == 0x10 && word@ == "keypad"@,
        kind is Generic ==> code == 0x80 && word@ == "device"@,
{
}

/// How foreign paint mixes: it replaces, boosts, tints or, in any other mode, screens.
pub proof fn law_paint_modes(mode: &str, r: BlendMode)
    requires
        call_ensures(blend_from_mode_str, (mode,), r),
    ensures
        r == BlendMode::Over <==> mode@ == "replace"@,
        r == BlendMode::Add <==> mode@ == "boost"@,
        r == BlendMode::Multiply <==> mode@ == "tint"@,
        r == BlendMode::Screen <==> mode@ != "replace"@ && mode@ != "boost"@ && mode@ != "tint"@,
{
    reveal_strlit("replace");
    reveal_strlit("boost");
    reveal_strlit("tint");
    assert("replace"@.len() == 7 && "boost"@.len() == 5 && "tint"@.len() == 4);
}

/// A board that no disabled unit has can be painted, in its place among the others.
pub proof fn law_enabled_board_is_painted(b: Bridge, disabled: Seq<String>, k: nat, i: int)
    requires
        k <= b.surfaces@.len(),
        0 <= i < k,
        forall|j: int|
            0 <= j < disabled.len() ==> unit_key(b.units@, (#[trigger] disabled[j])@, 0) != Some(
                b.surfaces@[i].key@,
            ),
    ensures
        allowed_keys(b, disabled, k).contains(b.surfaces@[i].key@),
    decreases k,
{
    let before = allowed_keys(b, disabled, (k - 1) as nat);
    if i < k - 1 {
        law_enabled_board_is_painted(b, disabled, (k - 1) as nat, i);
        let x = choose|x: int| 0 <= x < before.len() && before[x] == b.surfaces@[i].key@;
        assert(allowed_keys(b, disabled, k)[x] == b.surfaces@[i].key@);
    } else {
        assert(!hands_off(b, disabled, b.surfaces@[i].key@));
        assert(allowed_keys(b, disabled, k)[before.len() as int] == b.surfaces@[i].key@);
    }
}

/// Where nothing is disabled all boards can be painted.
pub proof fn law_nothing_disabled_paints_all(b: &Bridge, disabled: &Vec<String>, r: Option<Vec<String>>)
    requires
        call_ensures(paint_surfaces, (b, disabled), r),
    ensures
        r is None <==> disabled@.len() == 0,
{
}

/// Every unit with a board is in the games' scope, under the name of its board.
pub proof fn law_unit_with_a_board_is_in_scope(b: Bridge, k: nat, i: int, name: Seq<char>)
    requires
        k <= b.units@.len(),
        0 <= i < k,
        surface_name(b.surfaces@, b.units@[i].1@, 0) == Some(name),
    ensures
        scope_pairs(b, k).contains((b.units@[i].0@, name)),
    decreases k,
{
    let before = scope_pairs(b, (k - 1) as nat);
    let p = (b.units@[i].0@, name);
    if i < k - 1 {
        law_unit_with_a_board_is_in_scope(b, (k - 1) as nat, i, name);
        let x = choose|x: int| 0 <= x < before.len() && before[x] == p;
        assert(scope_pairs(b, k)[x] == p);
    } else {
        assert(scope_pairs(b, k)[before.len() as int] == p);
    }
}

/// Texts are ordered by their first character that differs; one that goes on comes after.
pub proof fn law_text_order(a: &str, b: &str, r: bool, p: Seq<char>, x: char, y: char, s: Seq<char>, t: Seq<char>)
    requires
        call_ensures(text_precedes, (a, b), r),
        a@ == p + seq![x] + s,
        b@ == p + seq![y] + t,
        x != y,
    ensures
        r <==> x < y,
        text_less(p, p + seq![x] + s),
        !text_less(p + seq![x] + s, p),
    decreases p.len(),
{
    lemma_order(p, x, y, s, t);
}

proof fn lemma_order(p: Seq<char>, x: char, y: char, s: Seq<char>, t: Seq<char>)
    requires
        x != y,
    ensures
        text_less(p + seq![x] + s, p + seq![y] + t) <==> x < y,
        text_less(p, p + seq![x] + s),
        !text_less(p + seq![x] + s, p),
    decreases p.len(),
{
    let a = p + seq![x] + s;
    let b = p + seq![y] + t;
    if p.len() > 0 {
        let q = p.drop_first();
        lemma_order(q, x, y, s, t);
        assert(a.drop_first() =~= q + seq![x] + s);
        assert(b.drop_first() =~= q + seq![y] + t);
        assert(a[0] == p[0] && b[0] == p[0]);
    } else {
        assert(a[0] == x && b[0] == y);
    }
}

/// A read of a product parks every writer of its boards and no other, and lets the same go again.
pub proof fn law_parked_are_the_products_writers(keys: Seq<Seq<char>>, writers: Seq<Seq<char>>, k: nat, i: int)
    requires
        k <= keys.len(),
    ensures
        0 <= i < k && writers.contains(keys[i]) ==> with_writer(keys, writers, k).contains(keys[i]),
        0 <= i < with_writer(keys, writers, k).len() ==> writers.contains(with_writer(keys, writers, k)[i])
            && keys.contains(with_writer(keys, writers, k)[i]),
    decreases k,
{
    if k > 0 {
        let before = with_writer(keys, writers, (k - 1) as nat);
        let all = with_writer(keys, writers, k);
        law_parked_are_the_products_writers(keys, writers, (k - 1) as nat, i);
        if 0 <= i < k && writers.contains(keys[i]) {
            if i < k - 1 {
                let x = choose|x: int| 0 <= x < before.len() && before[x] == keys[i];
                assert(all[x] == keys[i]);
            } else {
                assert(all[before.len() as int] == keys[i]);
            }
        }
        if 0 <= i < all.len() && i >= before.len() {
            assert(all[i] == keys[k - 1]);
        }
    }
}

/// Nothing is parked while the connections are closed; what was parked is let go.
pub proof fn law_parked_is_let_go(pid: u16, writers: &Vec<String>, r: Option<IoGate>, all: Vec<IoGate>, g: IoGate, back: Vec<String>)
    requires
        call_ensures(io_gate, (None::<&Bridge>, pid, writers), r),
        call_ensures(io_gate_all, (None::<&Bridge>, writers), all),
        call_ensures(IoGate::release, (g,), back),
    ensures
        r is None,
        all@.len() == 0,
        back == g.parked,
{
}

// ── opening and closing ─────────────────────────────────────────────────────────────────────────

/// The configuration goes before what was saved: a zero or "off" keeps the connections closed, a one or
/// "on" opens them; anything else leaves it to what was saved.
pub proof fn law_configuration_goes_first(probe: &mut StartProbe, v: &str, saved: bool, open: bool)
    requires
        call_ensures(start, (probe, Some(v), saved), open),
    ensures
        final(probe).attempted,
        v@ == "0"@ || v@ == "off"@ || v@ == "OFF"@ ==> !open,
        v@ == "1"@ || v@ == "on"@ || v@ == "ON"@ ==> open,
        v@.len() == 0 || v@.len() > 3 ==> open == saved,
{
    reveal_strlit("0");
    reveal_strlit("1");
    reveal_strlit("off");
    reveal_strlit("on");
    reveal_strlit("OFF");
    reveal_strlit("ON");
    assert("0"@[0] != "1"@[0]);
    assert("OFF"@.len() == 3 && "off"@.len() == 3 && "on"@.len() == 2 && "ON"@.len() == 2);
    assert("OFF"@[0] == 'O' && "OFF"@[1] == 'F' && "OFF"@[2] == 'F');
    assert("ON"@[0] == 'O' && "ON"@[1] == 'N');
}

/// Without a configuration what was saved decides.
pub proof fn law_saved_preference_decides(probe: &mut StartProbe, saved: bool, open: bool, asked: bool)
    requires
        call_ensures(start, (probe, None::<&str>, saved), open),
        call_ensures(start_attempted, (&*final(probe),), asked),
    ensures
        open == saved,
        asked,
{
}

/// The stages follow one another: the election first, the writers last; one that fails ends it.
pub proof fn law_stages_follow_one_another(s: Stage, ok: bool, r: Option<Stage>)
    requires
        call_ensures(bring_up, (s, ok), r),
    ensures
        r is None <==> !ok,
        ok && s is Election ==> r == Some(Stage::Registry),
        ok && s is Registry ==> r == Some(Stage::Kernel),
        ok && s is Kernel ==> r == Some(Stage::Events),
        ok && s is Events ==> r == Some(Stage::Writers),
        ok && s is Writers ==> r == Some(Stage::Up),
{
}

/// A face is raised where it is wanted and does not serve, dropped where it serves and is not wanted, and
/// kept otherwise; the native face follows the games' switch.
pub proof fn law_faces_follow_the_switches(want: Wanted, have: Serving, r: Option<ProtocolPlan>, closed: Option<ProtocolPlan>)
    requires
        call_ensures(apply_protocol_prefs, (want, Some(have)), r),
        call_ensures(apply_protocol_prefs, (want, None::<Serving>), closed),
    ensures
        closed is None,
        r matches Some(p) && (p.chroma == Gate::Raise <==> want.chroma && !have.chroma) && (p.chroma
            == Gate::Drop <==> !want.chroma && have.chroma) && (p.native == Gate::Raise <==> want.chroma
            && !have.native) && (p.native == Gate::Drop <==> !want.chroma && have.native) && (p.openrgb
            == Gate::Raise <==> want.openrgb && !have.openrgb) && (p.openrgb == Gate::Drop <==> !want.openrgb
            && have.openrgb) && (p.obs == Gate::Raise <==> want.obs && !have.obs) && (p.obs == Gate::Drop
            <==> !want.obs && have.obs),
{
}

/// A face that is switched off has no error to tell; one that could not be raised tells its own.
pub proof fn law_error_of_the_native_face(want: bool, have: bool, raised: Option<String>, known: Option<String>, r: Option<String>)
    requires
        call_ensures(native_error_after, (want, have, raised, known), r),
    ensures
        !want ==> r is None,
        want && !have ==> (r is Some <==> raised is Some) && (r matches Some(a) ==> a@ == (raised->0)@),
        want && have ==> (r is Some <==> known is Some) && (r matches Some(a) ==> a@ == (known->0)@),
{
}

/// OBS is reconnected only where it is connected, and kept only with both of its parts.
pub proof fn law_obs_needs_both_parts(have: Option<Serving>, again: bool, c: bool, f: bool, r: ObsConnect)
    requires
        call_ensures(reconnect_obs, (have,), again),
        call_ensures(connect_obs, (c, f), r),
    ensures
        again <==> (have matches Some(h) && h.obs),
        r == ObsConnect::Kept <==> c && f,
        r == ObsConnect::NoConnection <==> !c,
{
}

/// The switch acts only where it changes something.
pub proof fn law_switch_acts_on_change(on: bool, open: bool, r: SwitchStep, none: &Option<Status>, line: String)
    requires
        call_ensures(switch_step, (on, open), r),
        call_ensures(set_enabled, (on, open, none), line),
        *none is None,
    ensures
        r == SwitchStep::Open <==> on && !open,
        r == SwitchStep::Close <==> !on && open,
        r == SwitchStep::Nothing <==> on == open,
        on && open ==> line@ == "connections already open"@,
        !on && open ==> line@ == "connections closed"@,
        !on && !open ==> line@ == "connections already closed"@,
{
}

/// What is said of open connections counts the devices and tells each server.
pub proof fn law_open_line(s: Status, r: &Option<Status>, line: String)
    requires
        call_ensures(set_enabled, (true, false, r), line),
        *r == Some(s),
    ensures
        line@ == "connections open — "@ + decimal(s.devices as nat) + " device(s), chroma "@ + (
        if s.chroma_serving {
            "serving"@
        } else {
            "port busy"@
        }) + ", openrgb "@ + (if s.openrgb_serving {
            "serving"@
        } else {
            "port busy"@
        }),
{
}

/// An event is noticed once: the look that follows it is dirty, the next is not.
pub proof fn law_event_is_noticed_once(
    e: &mut HostEvents,
    a: &mut u64,
    b: &mut u64,
    w: EventWait,
    first: bool,
    second: bool,
)
    requires
        call_ensures(HostEvents::waited, (e, w), ()),
        *old(a) == old(e).stamp,
        call_ensures(take_host_events_dirty, (final(e).stamp, a), first),
        *old(b) == *final(a),
        call_ensures(take_host_events_dirty, (final(e).stamp, b), second),
    ensures
        first <==> w == EventWait::Signal,
        !second,
        w == EventWait::Disconnected ==> !final(e).subscribed,
        w != EventWait::Disconnected ==> final(e).subscribed == old(e).subscribed,
{
}

// ── native games ────────────────────────────────────────────────────────────────────────────────

/// A game that comes, or takes over from another, is claimed anew from dark; one that stays is refreshed
/// at full strength.
pub proof fn law_game_comes_in_from_dark(c: &mut ChromaShm, pid: u32, now: u64, r: ShmTick)
    requires
        call_ensures(ChromaShm::tick, (c, true, Some(pid), now), r),
    ensures
        old(c).last_game != Some(pid) ==> r == ShmTick::ReclaimAll(0),
        old(c).last_game == Some(pid) ==> r == ShmTick::Refresh(100),
        final(c).last_game == Some(pid),
        final(c).last_live == Some(now),
        final(c).layers == old(c).layers,
{
}

/// A game that left keeps its layers for 1200 milliseconds, dark once lost, and then lets them lapse; the
/// layers of no game at all are kept.
pub proof fn law_gone_game_fades(c: &mut ChromaShm, now: u64, r: ShmTick)
    requires
        call_ensures(ChromaShm::tick, (c, false, None::<u32>, now), r),
    ensures
        old(c).last_live is None ==> r == ShmTick::Refresh(0),
        old(c).last_live matches Some(t) ==> (now - t < 1200 ==> r == ShmTick::Refresh(0)) && (now - t
            >= 1200 ==> r == ShmTick::Lapse),
        final(c).last_live == old(c).last_live,
        final(c).last_game is None,
{
}

/// A layer that was claimed anew has its new number; the others keep theirs, and none changes its board.
pub proof fn law_reclaimed_layer_has_a_new_number(c: &mut ChromaShm, i: usize, id: Option<u64>, j: int)
    requires
        call_ensures(ChromaShm::reclaimed, (c, i, id), ()),
        i < old(c).layers@.len(),
        0 <= j < old(c).layers@.len(),
    ensures
        final(c).layers@.len() == old(c).layers@.len(),
        final(c).layers@[j].key == old(c).layers@[j].key && final(c).layers@[j].device_type == old(
            c).layers@[j].device_type,
        j != i ==> final(c).layers@[j].id == old(c).layers@[j].id,
        j == i ==> final(c).layers@[j].id == (match id {
            Some(n) => n,
            None => old(c).layers@[j].id,
        }),
{
}

/// Every board whose claim was granted has a layer with its key, its code and its lights.
pub proof fn law_granted_boards_have_layers(surfaces: Seq<Surface>, ids: Seq<Option<u64>>, k: nat, i: int)
    requires
        k <= surfaces.len(),
        ids.len() == surfaces.len(),
        0 <= i < k,
        ids[i] is Some,
    ensures
        exists|q: int|
            0 <= q < granted(surfaces, ids, k).len() && (#[trigger] granted(surfaces, ids, k)[q]).key
                == surfaces[i].key@ && Some(granted(surfaces, ids, k)[q].id) == ids[i] && granted(
                surfaces,
                ids,
                k,
            )[q].leds == surfaces[i].leds && (surfaces[i].kind is Keyboard ==> granted(
                surfaces,
                ids,
                k,
            )[q].device_type == 1),
    decreases k,
{
    let before = granted(surfaces, ids, (k - 1) as nat);
    let all = granted(surfaces, ids, k);
    if i < k - 1 {
        law_granted_boards_have_layers(surfaces, ids, (k - 1) as nat, i);
        let q = choose|q: int|
            0 <= q < before.len() && (#[trigger] before[q]).key == surfaces[i].key@ && Some(before[q].id)
                == ids[i] && before[q].leds == surfaces[i].leds && (surfaces[i].kind is Keyboard
                ==> before[q].device_type == 1);
        assert(all[q] == before[q]);
    } else {
        assert(all[before.len() as int].key == surfaces[i].key@);
    }
}

/// Why the face did not come up, and when a game counts as new.
pub proof fn law_native_face_words(e: CreateError, r: &'static str, a: Option<u32>, b: Option<u32>, new: bool)
    requires
        call_ensures(create_error_text, (e,), r),
        call_ensures(shm_game_activated, (a, b), new),
    ensures
        e is AlreadyServing ==> r@
            == "another Chroma server (Razer Synapse) already owns the native connection"@,
        e is Io ==> r@ == "needs elevation — start via the elevated tray task"@,
        new <==> b is Some && a != b,
{
}

// ── base lighting ───────────────────────────────────────────────────────────────────────────────

/// A stack goes to the boards that are addressed, each once and in order, in the band of the policy.
pub proof fn law_stack_goes_to_its_boards<D>(
    h: HostModel<D>,
    host: &Option<HostModel<D>>,
    pid: u16,
    unit: &str,
    wins: bool,
    top: i32,
    beneath: i32,
    r: Option<LightingRun>,
    t: Option<Vec<String>>,
    f: Vec<String>,
)
    requires
        *host == Some(h),
        call_ensures(set_lighting::<D>, (host, pid, unit, wins, top, beneath), r),
        call_ensures(lighting_targets::<D>, (host, pid, unit), t),
        call_ensures(set_fps::<D>, (host, pid, unit), f),
    ensures
        r matches Some(run) ==> run.band == (if wins {
            top
        } else {
            beneath
        }) && texts(run.keys@) == texts(f@) && run.landed@.len() == 0,
        r is None <==> f@.len() == 0,
        t matches Some(keys) ==> texts(keys@) == texts(f@),
        t is None <==> f@.len() == 0,
{
    assert(texts(f@).len() == f@.len());
}

/// A run takes its boards one after the other, and has landed where any of them took it.
pub proof fn law_run_takes_its_boards_in_turn(run: &mut LightingRun, landed: bool, r: Option<&str>, some: bool)
    requires
        call_ensures(LightingRun::surface, (&*old(run),), r),
        call_ensures(LightingRun::finished, (run, landed), ()),
        old(run).landed@.len() < old(run).keys@.len(),
        call_ensures(LightingRun::landed_somewhere, (&*final(run),), some),
    ensures
        r matches Some(k) && k@ == old(run).keys@[old(run).landed@.len() as int]@,
        final(run).landed@.len() == old(run).landed@.len() + 1,
        landed ==> some,
        !landed && (forall|i: int| 0 <= i < old(run).landed@.len() ==> !#[trigger] old(run).landed@[i])
            ==> !some,
{
    assert(final(run).landed@[old(run).landed@.len() as int] == landed);
}

/// A layer in the same band is used again; one in another band is given up first; a new board is claimed.
pub proof fn law_layer_is_reused_in_its_band<D>(h: &mut HostModel<D>, key: &str, band: i32, r: BaseStep)
    requires
        call_ensures(HostModel::<D>::begin, (h, key, band), r),
        old(h).wf(),
    ensures
        !old(h).base@.contains_key(key@) ==> r == BaseStep::Claim(None) && final(h).base@ == old(h).base@,
        old(h).base@.contains_key(key@) && old(h).base@[key@].band == band ==> r == BaseStep::Reuse(
            old(h).base@[key@].layer,
        ) && final(h).base@ == old(h).base@,
        old(h).base@.contains_key(key@) && old(h).base@[key@].band != band ==> r == BaseStep::Claim(
            Some(old(h).base@[key@].layer),
        ) && !final(h).base@.contains_key(key@),
{
}

/// A claim that was granted is remembered with its band and its stack; one that was not changes nothing.
pub proof fn law_claim_is_remembered<D>(h: &mut HostModel<D>, key: &str, band: i32, defs: D, layer: Option<u64>, landed: bool)
    requires
        call_ensures(HostModel::<D>::claimed, (h, key, band, defs, layer), landed),
        old(h).wf(),
    ensures
        landed <==> layer is Some,
        layer matches Some(l) ==> final(h).base@.contains_key(key@) && final(h).base@[key@].layer == l
            && final(h).base@[key@].band == band && final(h).base@[key@].defs == defs,
        layer is None ==> final(h).base@ == old(h).base@,
        forall|k: Seq<char>| k != key@ ==> (#[trigger] final(h).base@.contains_key(k) <==> old(
            h).base@.contains_key(k)),
{
}

/// A reused layer keeps its number and takes the new stack; one that is refused is to be claimed anew.
pub proof fn law_reused_layer_takes_the_stack<D>(h: &mut HostModel<D>, key: &str, defs: D, taken: bool, r: BaseStep)
    requires
        call_ensures(HostModel::<D>::reused, (h, key, defs, taken), r),
        old(h).wf(),
        old(h).base@.contains_key(key@),
    ensures
        taken ==> r == BaseStep::Done && final(h).base@[key@].defs == defs && final(h).base@[key@].layer
            == old(h).base@[key@].layer && final(h).base@[key@].band == old(h).base@[key@].band,
        !taken ==> r == BaseStep::Claim(Some(old(h).base@[key@].layer)) && !final(h).base@.contains_key(
            key@,
        ),
{
}

/// Taking every stack off leaves none, and gives every layer back.
pub proof fn law_all_stacks_come_off<D>(host: &mut Option<HostModel<D>>, h: HostModel<D>, r: Vec<u64>, layers: Vec<u64>)
    requires
        *old(host) == Some(h),
        h.wf(),
        call_ensures(clear_all_lighting::<D>, (host,), r),
        call_ensures(base_layers::<D>, (&h,), layers),
    ensures
        r@ == layers@,
        *final(host) matches Some(n) && forall|k: Seq<char>| !#[trigger] n.base@.contains_key(k),
{
    assert(r@ =~= layers@);
}

/// A board whose stack is taken off is dark; every other keeps its own.
pub proof fn law_one_stack_comes_off<D>(host: &mut Option<HostModel<D>>, h: HostModel<D>, pid: u16, unit: &str, r: Vec<u64>, i: int, other: Seq<char>)
    requires
        *old(host) == Some(h),
        h.wf(),
        call_ensures(clear_lighting::<D>, (host, pid, unit), r),
        0 <= i < addressed(h.bridge, pid, unit@).len(),
        !addressed(h.bridge, pid, unit@).contains(other),
    ensures
        *final(host) matches Some(n) && !n.base@.contains_key(addressed(h.bridge, pid, unit@)[i]) && (
        n.base@.contains_key(other) <==> h.base@.contains_key(other)) && (h.base@.contains_key(other)
            ==> n.base@[other] == h.base@[other]),
{
    let keys = addressed(h.bridge, pid, unit@);
    law_cleared_is_dark(h.base@, keys, keys.len(), i);
    law_clearing_spares_others(h.base@, keys, keys.len(), other);
}

/// A layer that the kernel lost is handed back with its board, and a living one is left alone.
pub proof fn law_lost_layers_are_handed_back<D>(e: Seq<(String, BaseLayer<D>)>, alive: Seq<bool>, k: nat, i: int)
    requires
        k <= e.len(),
        alive.len() == e.len(),
        0 <= i < k,
        forall|a: int, b: int| 0 <= a < b < e.len() ==> (#[trigger] e[a]).0@ != (#[trigger] e[b]).0@,
    ensures
        dead_keys(e, alive, k).contains(e[i].0@) <==> !alive[i],
    decreases k,
{
    let before = dead_keys(e, alive, (k - 1) as nat);
    let all = dead_keys(e, alive, k);
    if i < k - 1 {
        law_lost_layers_are_handed_back(e, alive, (k - 1) as nat, i);
        if before.contains(e[i].0@) {
            let x = choose|x: int| 0 <= x < before.len() && before[x] == e[i].0@;
            assert(all[x] == e[i].0@);
        }
        if all.contains(e[i].0@) {
            let x = choose|x: int| 0 <= x < all.len() && all[x] == e[i].0@;
            if x >= before.len() {
                assert(all[x] == e[k - 1].0@);
            } else {
                assert(before[x] == e[i].0@);
            }
        }
    } else {
        lemma_dead_are_earlier(e, alive, (k - 1) as nat);
        if !alive[i] {
            assert(all[before.len() as int] == e[i].0@);
        } else if all.contains(e[i].0@) {
            let x = choose|x: int| 0 <= x < all.len() && all[x] == e[i].0@;
            let j = choose|j: int| 0 <= j < k - 1 && (#[trigger] e[j]).0@ == before[x];
            assert(e[j].0@ != e[i].0@);
        }
    }
}

proof fn lemma_dead_are_earlier<D>(e: Seq<(String, BaseLayer<D>)>, alive: Seq<bool>, k: nat)
    requires
        k <= e.len(),
    ensures
        forall|x: int|
            0 <= x < dead_keys(e, alive, k).len() ==> exists|j: int|
                0 <= j < k && (#[trigger] e[j]).0@ == #[trigger] dead_keys(e, alive, k)[x],
    decreases k,
{
    if k > 0 {
        lemma_dead_are_earlier(e, alive, (k - 1) as nat);
        let before = dead_keys(e, alive, (k - 1) as nat);
        let all = dead_keys(e, alive, k);
        assert forall|x: int| 0 <= x < all.len() implies exists|j: int|
            0 <= j < k && (#[trigger] e[j]).0@ == #[trigger] all[x] by {
            if x < before.len() {
                let j = choose|j: int| 0 <= j < k - 1 && (#[trigger] e[j]).0@ == before[x];
                assert(e[j].0@ == all[x]);
            } else {
                assert(e[k - 1].0@ == all[x]);
            }
        }
    }
}

/// A stream runs at what was asked for, at least one and at most what it may.
pub proof fn law_stream_pace(fps: u32, max: u32, r: u32, wins: bool, top: i32, beneath: i32, band: i32)
    requires
        call_ensures(stream_pace, (fps, max), r),
        max >= 1,
        call_ensures(base_band, (wins, top, beneath), band),
    ensures
        1 <= r <= max,
        1 <= fps <= max ==> r == fps,
        fps > max ==> r == max,
        wins ==> band == top,
        !wins ==> band == beneath,
{
}

// ── who paints ──────────────────────────────────────────────────────────────────────────────────

/// A board is yours where only you have claims on it; a client on top paints, one beneath you is
/// suppressed, and the topmost client is the one that is named.
pub proof fn law_owner_of_one_board(base: u64, boards: &Vec<Vec<Claim>>, r: BoardOwner)
    requires
        call_ensures(board_owner, (Some(base), boards), r),
        boards@.len() == 1,
    ensures
        (forall|i: int| 0 <= i < boards@[0]@.len() ==> (#[trigger] boards@[0]@[i]).owner == base) <==> r is Yours,
        boards@[0]@.len() > 0 && boards@[0]@[0].owner != base ==> r is Painting,
        boards@[0]@.len() > 0 && boards@[0]@[0].owner == base ==> !(r is Painting),
        boards@[0]@.len() > 0 && boards@[0]@[0].owner != base ==> (boards@[0]@[0].label matches Some(l)
            ==> (l@.len() > 0 ==> (r matches BoardOwner::Painting(n) && n@ == l@))),
{
    lemma_foreign(boards@[0]@, base, 0);
    reveal_with_fuel(owner_of, 2);
    assert(r@ == surface_owner(boards@[0]@, base));
}

proof fn lemma_foreign(claims: Seq<Claim>, base: u64, from: nat)
    ensures
        match first_foreign(claims, base, from) {
            Some(i) => from <= i < claims.len() && claims[i as int].owner != base && forall|j: int|
                from <= j < i ==> (#[trigger] claims[j]).owner == base,
            None => forall|j: int| from <= j < claims.len() ==> (#[trigger] claims[j]).owner == base,
        },
    decreases claims.len() - from,
{
    if from < claims.len() && claims[from as int].owner == base {
        lemma_foreign(claims, base, from + 1);
    }
}

/// While the connections are closed every board is yours.
pub proof fn law_closed_boards_are_yours(boards: &Vec<Vec<Claim>>, r: BoardOwner)
    requires
        call_ensures(board_owner, (None::<u64>, boards), r),
    ensures
        r is Yours,
{
}

/// An owner is called by its label, and "another app" where it has none.
pub proof fn law_owner_is_called_by_its_label(label: &Option<String>, r: String)
    requires
        call_ensures(name_of_owner, (label,), r),
    ensures
        *label matches Some(l) ==> (l@.len() > 0 ==> r@ == l@),
        *label is None ==> r@ == "another app"@,
        *label matches Some(l) ==> (l@.len() == 0 ==> r@ == "another app"@),
{
}

/// A game is covered where it is nowhere on top and some other client is; that client is named.
pub proof fn law_covered_game_names_the_other(tops: &[(u64, Option<String>)], game: u64, base: u64, r: Option<String>, i: int)
    requires
        call_ensures(covered_by_decision, (tops, game, base), r),
        0 <= i < tops@.len(),
    ensures
        tops@[i].0 == game ==> r is None,
        (forall|j: int| 0 <= j < tops@.len() ==> (#[trigger] tops@[j]).0 != game) && tops@[i].0 != base
            ==> r is Some,
        (forall|j: int| 0 <= j < tops@.len() ==> (#[trigger] tops@[j]).0 == base) ==> r is None,
{
    if tops@[i].0 == game {
        assert(tops_somewhere(tops@, game));
    }
    lemma_rival(tops@, game, base, 0, i);
    law_winner_is_not_covered(tops@, game, base);
}

proof fn lemma_rival(tops: Seq<(u64, Option<String>)>, game: u64, base: u64, from: nat, i: int)
    requires
        from <= i < tops.len(),
    ensures
        tops[i].0 != game && tops[i].0 != base ==> first_rival(tops, game, base, from) is Some,
    decreases i - from,
{
    if from < i {
        lemma_rival(tops, game, base, from + 1, i);
    }
}

/// A client paints the kinds of board on which it is on top, and those alone.
pub proof fn law_client_paints_where_it_is_on_top(boards: Seq<Board>, owner: u64, k: nat, i: int)
    requires
        k <= boards.len(),
        0 <= i < k,
        boards[i].claims@.len() > 0,
        boards[i].claims@[0].owner == owner,
    ensures
        painted_kinds(boards, owner, k).contains(word_of(boards[i].kind)),
    decreases k,
{
    let before = painted_kinds(boards, owner, (k - 1) as nat);
    let all = painted_kinds(boards, owner, k);
    let w = word_of(boards[i].kind);
    if i < k - 1 {
        law_client_paints_where_it_is_on_top(boards, owner, (k - 1) as nat, i);
        let x = choose|x: int| 0 <= x < before.len() && before[x] == w;
        assert(all[x] == w);
    } else if !before.contains(w) {
        assert(all[before.len() as int] == w);
    }
}

/// A client that is on top nowhere paints nothing.
pub proof fn law_client_beneath_paints_nothing(boards: Seq<Board>, owner: u64, k: nat)
    requires
        k <= boards.len(),
        forall|i: int|
            0 <= i < k ==> (#[trigger] boards[i]).claims@.len() == 0 || boards[i].claims@[0].owner != owner,
    ensures
        painted_kinds(boards, owner, k).len() == 0,
    decreases k,
{
    if k > 0 {
        law_client_beneath_paints_nothing(boards, owner, (k - 1) as nat);
        assert(boards[k - 1].claims@.len() == 0 || boards[k - 1].claims@[0].owner != owner);
    }
}

/// Every client of the roster is told by its own name.
pub proof fn law_clients_are_told(roster: &Vec<(u64, String)>, boards: &Vec<Board>, muted: bool, r: Vec<ClientStatus>, i: int)
    requires
        call_ensures(client_statuses, (roster, boards, muted), r),
        0 <= i < roster@.len(),
    ensures
        r@.len() == roster@.len(),
        r@[i].name@ == roster@[i].1@,
        r@[i].muted == muted,
{
}

// ── streams of a game ───────────────────────────────────────────────────────────────────────────

/// A light counts where any of its colors is on, behind the lead that belongs to no light.
pub proof fn law_lit_lights_are_counted(units: Seq<(u8, u8, u8)>, lead: nat, u: (u8, u8, u8))
    ensures
        lit_count(units.push(u), lead, units.len() + 1) == lit_count(units, lead, units.len()) + (
        if units.len() >= lead && (u.0 != 0 || u.1 != 0 || u.2 != 0) {
            1nat
        } else {
            0
        }),
        lit_count(Seq::<(u8, u8, u8)>::empty(), lead, 0) == 0,
{
    lemma_lit_prefix(units, u, lead, units.len());
}

proof fn lemma_lit_prefix(units: Seq<(u8, u8, u8)>, u: (u8, u8, u8), lead: nat, k: nat)
    requires
        k <= units.len(),
    ensures
        lit_count(units.push(u), lead, k) == lit_count(units, lead, k),
    decreases k,
{
    if k > 0 {
        lemma_lit_prefix(units, u, lead, (k - 1) as nat);
        assert(units.push(u)[k - 1] == units[k - 1]);
    }
}

/// A game whose lights are all of one color shows that color, in steps of sixteen.
pub proof fn law_one_color_is_dominant(units: &Vec<(u8, u8, u8)>, lead: usize, r: usize)
    requires
        call_ensures(lit_units, (units, lead), r),
        forall|i: int| 0 <= i < units@.len() ==> (#[trigger] units@[i]).0 != 0,
    ensures
        r == (if units@.len() < lead {
            0
        } else {
            units@.len() - lead
        }),
{
    lemma_all_lit(units@, lead as nat, units@.len());
}

proof fn lemma_all_lit(units: Seq<(u8, u8, u8)>, lead: nat, k: nat)
    requires
        k <= units.len(),
        forall|i: int| 0 <= i < units.len() ==> (#[trigger] units[i]).0 != 0,
    ensures
        lit_count(units, lead, k) == (if k < lead {
            0
        } else {
            k - lead
        }),
    decreases k,
{
    if k > 0 {
        lemma_all_lit(units, lead, (k - 1) as nat);
        assert(units[k - 1].0 != 0);
    }
}

/// Every stream shows its own activity: device, effect and moment; what is dark shows none.
pub proof fn law_streams_show_their_activities(acts: &Vec<Activity>, r: Vec<NativeChromaStream>, i: int)
    requires
        call_ensures(streams_of, (acts,), r),
        0 <= i < r@.len(),
    ensures
        exists|a: int|
            0 <= a < acts@.len() && r@[i].timestamp_ms == (#[trigger] acts@[a]).timestamp_ms && r@[i].effect@
                == lowercase(acts@[a].effect@) && r@[i].lit > 0,
{
    lemma_lit_acts(acts@, acts@.len());
    let a = lit_activities(acts@, acts@.len())[i];
    assert(r@[i].timestamp_ms == acts@[a].timestamp_ms);
}

proof fn lemma_lit_acts(acts: Seq<Activity>, k: nat)
    requires
        k <= acts.len(),
    ensures
        forall|q: int|
            0 <= q < lit_activities(acts, k).len() ==> 0 <= #[trigger] lit_activities(acts, k)[q] < k
                && shows_light(acts[lit_activities(acts, k)[q]]),
    decreases k,
{
    if k > 0 {
        lemma_lit_acts(acts, (k - 1) as nat);
        let before = lit_activities(acts, (k - 1) as nat);
        let all = lit_activities(acts, k);
        assert forall|q: int| 0 <= q < all.len() implies 0 <= #[trigger] all[q] < k && shows_light(
            acts[all[q]],
        ) by {
            if q < before.len() {
                assert(all[q] == before[q]);
            }
        }
    }
}

/// A native game is told by its process, with its devices, while it is connected.
pub proof fn law_native_game_is_told(n: NativeReadings, native: &Option<NativeReadings>, base: u64, r: (bool, Option<NativeChroma>))
    requires
        call_ensures(native_chroma_status, (native, base), r),
        *native == Some(n),
    ensures
        r.0,
        r.1 is Some <==> n.connected && n.summary is Some,
        r.1 matches Some(g) ==> (n.process matches Some(p) ==> g.game@ == p@) && (n.process is None
            ==> g.game@ == "a game"@) && (n.summary matches Some((d, e)) && g.devices == d && g.effect@
            == lowercase(e@)),
{
}

// ── the status and its card ─────────────────────────────────────────────────────────────────────

/// The status tells the servers and OBS as they are; of a lost OBS nothing is told.
pub proof fn law_status_tells_what_serves(h: HostReadings, host: &Option<HostReadings>, r: Status)
    requires
        call_ensures(status, (host,), r),
        *host == Some(h),
    ensures
        r.active && r.devices == h.bridge.surfaces@.len(),
        r.chroma_serving <==> h.chroma_sessions is Some,
        r.openrgb_serving <==> h.openrgb_clients is Some,
        r.chroma_native_serving <==> h.native is Some,
        r.obs_connected <==> h.obs == Some(true),
        r.obs_connected ==> r.obs_scene@ == h.mirror.scene@ && r.obs_streaming == h.mirror.streaming
            && r.obs_recording == h.mirror.recording,
        !r.obs_connected ==> r.obs_scene@.len() == 0 && !r.obs_streaming && !r.obs_recording,
        h.chroma_sessions matches Some(s) ==> r.chroma_clients@.len() == s@.len(),
        h.openrgb_clients matches Some(s) ==> r.openrgb_clients@.len() == s@.len(),
        h.native is Some ==> r.chroma_native_error is None,
{
}

/// Of closed connections nothing is told.
pub proof fn law_closed_status_tells_nothing(host: &Option<HostReadings>, r: Status)
    requires
        call_ensures(status, (host,), r),
        *host is None,
    ensures
        !r.active && r.devices == 0 && !r.chroma_serving && !r.openrgb_serving && !r.obs_connected,
        r.chroma_clients@.len() == 0 && r.openrgb_clients@.len() == 0 && r.game_devices@.len() == 0,
{
}

/// The card shows the switches as they are set and a lamp only for what is on and serves.
pub proof fn law_card_shows_the_switches(s: &Status, p: HostPrefs, c: HostCard)
    requires
        call_ensures(refresh_host_status, (s, p), c),
    ensures
        c.enabled == s.active && c.chroma == p.chroma && c.openrgb == p.openrgb && c.obs == p.obs
            && c.lighting_wins == p.lighting_wins,
        c.chroma_live <==> p.chroma && s.chroma_serving,
        c.openrgb_live <==> p.openrgb && s.openrgb_serving,
        c.obs_live <==> p.obs && s.obs_connected,
        s.chroma_clients@.len() == 0 && p.chroma && s.active && s.chroma_serving ==> c.chroma_status@
            == "ready on 127.0.0.1:"@ + decimal(54235),
        s.openrgb_clients@.len() == 0 && p.openrgb && s.active && s.openrgb_serving ==> c.openrgb_status@
            == "ready on 127.0.0.1:"@ + decimal(6742),
        s.chroma_clients@.len() == 0 && p.chroma && s.active && !s.chroma_serving ==> c.chroma_status@
            == "port "@ + decimal(54235) + " is in use, maybe by Razer Synapse"@,
        !p.obs ==> c.obs_status@ == "off"@,
        p.obs && s.active && s.obs_connected && s.obs_scene@.len() > 0 && s.obs_streaming
            && !s.obs_recording ==> c.obs_status@ == "connected to OBS · scene: "@ + s.obs_scene@
            + " · LIVE"@ + Seq::<char>::empty(),
        s.active && s.devices == 1 ==> c.devices_line@ == "Neuron is sharing "@ + decimal(1) + " device."@,
        s.active && s.devices > 1 ==> c.devices_line@ == "Neuron is sharing "@ + decimal(s.devices as nat)
            + " devices."@,
        !s.active ==> c.devices_line@.len() == 0,
{
}

/// One client that paints is named with the boards that it paints; one that waits or idles is named as
/// such.
pub proof fn law_one_client_is_named(cs: &Vec<ClientStatus>, r: Option<String>)
    requires
        call_ensures(client_text, (cs,), r),
        cs@.len() == 1,
        cs@[0].name@.len() > 0,
    ensures
        cs@[0].painting@.len() == 1 ==> (r matches Some(s) && s@ == cs@[0].name@ + " is painting your "@
            + cs@[0].painting@[0]@),
        cs@[0].painting@.len() == 0 && cs@[0].has_claim ==> (r matches Some(s) && s@ == cs@[0].name@
            + " is waiting underneath your lighting"@),
        cs@[0].painting@.len() == 0 && !cs@[0].has_claim ==> (r matches Some(s) && s@ == cs@[0].name@
            + " is connected, not painting yet"@),
{
    let c = cs@[0];
    reveal_with_fuel(names, 2);
    reveal_with_fuel(kinds_painted, 2);
    reveal_with_fuel(kinds_with, 2);
    assert(names(cs@, false, 1) =~= seq![c.name@]);
    if c.painting@.len() > 0 {
        assert(names(cs@, true, 1) =~= seq![c.name@]);
        assert(texts(c.painting@).len() == c.painting@.len());
    }
    if c.painting@.len() == 1 {
        assert(texts(c.painting@)[0] == c.painting@[0]@);
        assert(kinds_painted(cs@, 1) =~= seq![c.painting@[0]@]);
    }
    if c.has_claim {
        assert(any_claim(cs@));
    }
}

/// A saved password fills an empty field and no other.
pub proof fn law_saved_password_fills_an_empty_field(shown: &str, saved: &str, r: Option<String>)
    requires
        call_ensures(seeded_password, (shown, saved), r),
    ensures
        r is Some <==> shown@.len() == 0 && saved@.len() > 0,
        r matches Some(p) ==> p@ == saved@,
{
}

// ── more of the boards ──────────────────────────────────────────────────────────────────────────

/// A unit whose board has a stack has lighting, and so has the whole; closed connections have none.
pub proof fn law_lit_unit_has_lighting<D>(
    host: &Option<HostModel<D>>,
    h: HostModel<D>,
    pid: u16,
    unit: &str,
    key: Seq<char>,
    one: bool,
    any: bool,
    open: bool,
)
    requires
        *host == Some(h),
        h.wf(),
        call_ensures(has_lighting::<D>, (host, pid, unit), one),
        call_ensures(any_lighting::<D>, (host,), any),
        call_ensures(active::<D>, (host,), open),
    ensures
        open,
        addressed(h.bridge, pid, unit@) == seq![key] ==> (one <==> h.base@.contains_key(key)),
        addressed(h.bridge, pid, unit@).len() == 0 ==> !one,
        h.base@.contains_key(key) ==> any,
        one ==> any,
        (forall|k: Seq<char>| !#[trigger] h.base@.contains_key(k)) ==> !any && !one,
{
    let a = addressed(h.bridge, pid, unit@);
    if a == seq![key] {
        assert(a[0] == key);
    }
    if one {
        let i = choose|i: int| 0 <= i < a.len() && h.base@.contains_key(#[trigger] a[i]);
        assert(h.base@.contains_key(a[i]));
    }
}

/// Closed connections light nothing.
pub proof fn law_closed_lights_nothing<D>(host: &Option<HostModel<D>>, pid: u16, unit: &str, one: bool, any: bool, open: bool)
    requires
        *host is None,
        call_ensures(has_lighting::<D>, (host, pid, unit), one),
        call_ensures(any_lighting::<D>, (host,), any),
        call_ensures(active::<D>, (host,), open),
    ensures
        !one && !any && !open,
{
}

/// A board that the kernel lost is forgotten, and what it had is handed back; the others keep theirs.
pub proof fn law_lost_board_is_forgotten<D>(h: &mut HostModel<D>, key: &str, other: Seq<char>, r: Option<BaseLayer<D>>)
    requires
        old(h).wf(),
        other != key@,
        call_ensures(HostModel::<D>::lost, (h, key), r),
    ensures
        !final(h).base@.contains_key(key@),
        r is Some <==> old(h).base@.contains_key(key@),
        r matches Some(b) ==> b == old(h).base@[key@],
        final(h).base@.contains_key(other) <==> old(h).base@.contains_key(other),
        old(h).base@.contains_key(other) ==> final(h).base@[other] == old(h).base@[other],
{
}

/// A heartbeat hands back exactly the boards whose layer is dead, with what they had, and keeps the rest.
pub proof fn law_heartbeat_hands_back_the_dead<D>(
    host: &mut Option<HostModel<D>>,
    h: HostModel<D>,
    alive: &Vec<bool>,
    i: int,
    names: Vec<String>,
    r: Vec<(String, BaseLayer<D>)>,
)
    requires
        *old(host) == Some(h),
        h.wf(),
        alive@.len() == h.base.entries@.len(),
        call_ensures(lost_surfaces::<D>, (&h, alive), names),
        call_ensures(heartbeat::<D>, (host, alive), r),
        0 <= i < alive@.len(),
    ensures
        r@.len() == names@.len(),
        texts(names@).contains(h.base.entries@[i].0@) <==> !alive@[i],
        *final(host) matches Some(n) && (n.base@.contains_key(h.base.entries@[i].0@) <==> alive@[i]),
{
    let e = h.base.entries@;
    let dead = dead_keys(e, alive@, alive@.len());
    law_lost_layers_are_handed_back(e, alive@, alive@.len(), i);
    assert(texts(names@).len() == names@.len());
    lemma_entry(e, i);
    if !alive@[i] {
        let x = choose|x: int| 0 <= x < dead.len() && dead[x] == e[i].0@;
        law_cleared_is_dark(h.base@, dead, dead.len(), x);
    } else {
        law_clearing_spares_others(h.base@, dead, dead.len(), e[i].0@);
    }
}

/// The games' scope lists every unit with a board once for each, ordered by the name that is shown.
pub proof fn law_scope_is_ordered_by_name(b: &Bridge, r: Vec<GameDeviceScope>, i: int, j: int)
    requires
        call_ensures(game_device_scope, (b,), r),
        0 <= i < j < r@.len(),
    ensures
        !text_less(r@[j].name@, r@[i].name@),
        r@[i].name@ == r@[j].name@ ==> !text_less(r@[j].id@, r@[i].id@),
        scope_pairs(*b, b.units@.len()).len() == r@.len(),
{
    let s = pairs(r@);
    assert(s[i] == (r@[i].id@, r@[i].name@));
    assert(s[j] == (r@[j].id@, r@[j].name@));
    assert(s.to_multiset().len() == s.len()) by {
        s.to_multiset_ensures();
    }
    scope_pairs(*b, b.units@.len()).to_multiset_ensures();
}

/// The native face begins with no game, and a layer for each board that was granted one.
pub proof fn law_native_face_begins_without_a_game(surfaces: &Vec<Surface>, ids: &Vec<Option<u64>>, r: ChromaShm, q: int)
    requires
        ids@.len() == surfaces@.len(),
        call_ensures(spawn_chroma_shm, (surfaces, ids), r),
        0 <= q < r.layers@.len(),
    ensures
        r.last_game is None && r.last_live is None,
        r.layers@.len() <= surfaces@.len(),
        exists|i: int|
            0 <= i < surfaces@.len() && (#[trigger] surfaces@[i]).key@ == r.layers@[q].key@ && ids@[i] == Some(
                r.layers@[q].id,
            ) && surfaces@[i].leds == r.layers@[q].leds,
{
    lemma_granted(surfaces@, ids@, surfaces@.len());
    let g = granted(surfaces@, ids@, surfaces@.len());
    assert(recipes(r.layers@).len() == r.layers@.len());
    assert(g[q].key == r.layers@[q].key@ && g[q].id == r.layers@[q].id && g[q].leds == r.layers@[q].leds);
    let i = choose|i: int|
        0 <= i < surfaces@.len() && (#[trigger] surfaces@[i]).key@ == g[q].key && ids@[i] == Some(g[q].id)
            && surfaces@[i].leds == g[q].leds;
    assert(surfaces@[i].key@ == r.layers@[q].key@);
}

proof fn lemma_granted(surfaces: Seq<Surface>, ids: Seq<Option<u64>>, k: nat)
    requires
        k <= surfaces.len(),
        ids.len() == surfaces.len(),
    ensures
        granted(surfaces, ids, k).len() <= k,
        forall|q: int|
            0 <= q < granted(surfaces, ids, k).len() ==> exists|i: int|
                0 <= i < k && (#[trigger] surfaces[i]).key@ == (#[trigger] granted(surfaces, ids, k)[q]).key && ids[i]
                    == Some(granted(surfaces, ids, k)[q].id) && surfaces[i].leds == granted(surfaces, ids, k)[q].leds,
    decreases k,
{
    if k > 0 {
        lemma_granted(surfaces, ids, (k - 1) as nat);
        let before = granted(surfaces, ids, (k - 1) as nat);
        let all = granted(surfaces, ids, k);
        assert forall|q: int| 0 <= q < all.len() implies exists|i: int|
            0 <= i < k && (#[trigger] surfaces[i]).key@ == (#[trigger] all[q]).key && ids[i] == Some(all[q].id)
                && surfaces[i].leds == all[q].leds by {
            if q < before.len() {
                assert(all[q] == before[q]);
                let i = choose|i: int|
                    0 <= i < k - 1 && (#[trigger] surfaces[i]).key@ == before[q].key && ids[i] == Some(before[q].id)
                        && surfaces[i].leds == before[q].leds;
                assert(surfaces[i].key@ == all[q].key);
            } else {
                assert(surfaces[k - 1].key@ == all[q].key);
            }
        }
    }
}

/// A subscription is as it was got; the stamp does not move with it.
pub proof fn law_subscription_is_as_got(e: &mut HostEvents, got: bool)
    requires
        call_ensures(HostEvents::resubscribed, (e, got), ()),
    ensures
        final(e).subscribed == got && final(e).stamp == old(e).stamp,
{
}

/// At most three colors are told, each that of a light that is lit, and none twice.
pub proof fn law_three_colors_at_most(units: &Vec<(u8, u8, u8)>, lead: usize, r: Vec<(u8, u8, u8)>, a: int, b: int)
    requires
        call_ensures(dominant_colors, (units, lead), r),
        0 <= a < r@.len(),
    ensures
        r@.len() <= 3,
        exists|i: int|
            lead <= i < units@.len() && is_lit(#[trigger] units@[i]) && r@[a] == (
                units@[i].0 & 0xf0,
                units@[i].1 & 0xf0,
                units@[i].2 & 0xf0,
            ),
        0 <= b < r@.len() && a != b ==> color_count(units@, lead as nat, units@.len(), r@[a]) > 0,
        a < b < r@.len() ==> color_count(units@, lead as nat, units@.len(), r@[a]) >= color_count(
            units@,
            lead as nat,
            units@.len(),
            r@[b],
        ),
{
    let n = units@.len();
    let seen = colors_seen(units@, lead as nat, n);
    let counts = color_counts(units@, lead as nat);
    let top = choose|top: Seq<int>| #[trigger]
        top_three(counts, top) && r@ == Seq::new(top.len(), |x: int| seen[top[x]]);
    assert(r@[a] == seen[top[a]]);
    lemma_seen(units@, lead as nat, n);
    let i = choose|i: int|
        lead <= i < n && is_lit(#[trigger] units@[i]) && seen[top[a]] == bucket(units@[i]);
    assert(is_lit(units@[i]));
    lemma_counted(units@, lead as nat, n, i);
    if a < b < r@.len() {
        assert(r@[b] == seen[top[b]]);
        assert(ranks_before(counts, top[a], top[b]));
    }
}

proof fn lemma_seen(units: Seq<(u8, u8, u8)>, lead: nat, k: nat)
    requires
        k <= units.len(),
    ensures
        forall|x: int|
            0 <= x < colors_seen(units, lead, k).len() ==> exists|i: int|
                lead <= i < k && is_lit(#[trigger] units[i]) && #[trigger] colors_seen(units, lead, k)[x]
                    == bucket(units[i]),
    decreases k,
{
    if k > 0 {
        lemma_seen(units, lead, (k - 1) as nat);
        let before = colors_seen(units, lead, (k - 1) as nat);
        let all = colors_seen(units, lead, k);
        assert forall|x: int| 0 <= x < all.len() implies exists|i: int|
            lead <= i < k && is_lit(#[trigger] units[i]) && #[trigger] all[x] == bucket(
                units[i],
            ) by {
            if x < before.len() {
                assert(all[x] == before[x]);
                let i = choose|i: int|
                    lead <= i < k - 1 && is_lit(#[trigger] units[i]) && before[x] == bucket(
                        units[i],
                    );
                assert(is_lit(units[i]));
            } else {
                assert(is_lit(units[k - 1]));
            }
        }
    }
}

proof fn lemma_counted(units: Seq<(u8, u8, u8)>, lead: nat, k: nat, i: int)
    requires
        k <= units.len(),
        lead <= i < k,
        is_lit(units[i]),
    ensures
        color_count(units, lead, k, bucket(units[i])) > 0,
    decreases k,
{
    if i < k - 1 {
        lemma_counted(units, lead, (k - 1) as nat, i);
    }
}

/// The color of every light that is lit is counted once more by it.
pub proof fn law_colors_are_counted(units: Seq<(u8, u8, u8)>, lead: nat, u: (u8, u8, u8), c: (u8, u8, u8))
    ensures
        color_count(units.push(u), lead, units.len() + 1, c) == color_count(units, lead, units.len(), c) + (
        if units.len() >= lead && (u.0 != 0 || u.1 != 0 || u.2 != 0) && c == (
            u.0 & 0xf0,
            u.1 & 0xf0,
            u.2 & 0xf0,
        ) {
            1nat
        } else {
            0
        }),
{
    lemma_color_prefix(units, u, lead, c, units.len());
}

proof fn lemma_color_prefix(units: Seq<(u8, u8, u8)>, u: (u8, u8, u8), lead: nat, c: (u8, u8, u8), k: nat)
    requires
        k <= units.len(),
    ensures
        color_count(units.push(u), lead, k, c) == color_count(units, lead, k, c),
    decreases k,
{
    if k > 0 {
        lemma_color_prefix(units, u, lead, c, (k - 1) as nat);
        assert(units.push(u)[k - 1] == units[k - 1]);
    }
}

/// What a heartbeat hands back is each lost board with the layer that it had.
pub proof fn law_handed_back_is_what_was_had<D>(
    host: &mut Option<HostModel<D>>,
    h: HostModel<D>,
    alive: &Vec<bool>,
    q: int,
    r: Vec<(String, BaseLayer<D>)>,
)
    requires
        *old(host) == Some(h),
        h.wf(),
        alive@.len() == h.base.entries@.len(),
        call_ensures(heartbeat::<D>, (host, alive), r),
        0 <= q < r@.len(),
    ensures
        exists|i: int|
            0 <= i < alive@.len() && !alive@[i] && (#[trigger] h.base.entries@[i]).0@ == r@[q].0@
                && h.base.entries@[i].1 == r@[q].1,
{
    let e = h.base.entries@;
    let dead = dead_keys(e, alive@, alive@.len());
    lemma_dead_are_earlier(e, alive@, alive@.len());
    assert(dead[q] == r@[q].0@);
    let i = choose|i: int| 0 <= i < alive@.len() && (#[trigger] e[i]).0@ == dead[q];
    law_lost_layers_are_handed_back(e, alive@, alive@.len(), i);
    assert(dead.contains(e[i].0@));
    lemma_entry(e, i);
    assert(h.base.entries@[i].0@ == r@[q].0@);
}

/// A read of a product parks exactly the writers of its boards; a read of all parks every writer of a board,
/// each for itself.
pub proof fn law_reads_park_their_writers(
    b: Bridge,
    o: Option<&Bridge>,
    pid: u16,
    writers: &Vec<String>,
    keys: Vec<String>,
    r: Option<IoGate>,
    all: Vec<IoGate>,
    i: int,
    s: int,
)
    requires
        o == Some(&b),
        call_ensures(keys_for_pid, (&b, pid), keys),
        call_ensures(io_gate, (o, pid, writers), r),
        call_ensures(io_gate_all, (o, writers), all),
    ensures
        0 <= i < keys@.len() && texts(writers@).contains(keys@[i]@) ==> (r matches Some(g) && texts(
            g.parked@,
        ).contains(keys@[i]@)),
        r matches Some(g) ==> g.parked@.len() > 0 && (0 <= i < g.parked@.len() ==> texts(writers@).contains(
            g.parked@[i]@,
        ) && texts(keys@).contains(g.parked@[i]@)),
        0 <= s < b.surfaces@.len() && texts(writers@).contains(b.surfaces@[s].key@) ==> all@.len() > 0,
        0 <= s < all@.len() ==> all@[s].parked@.len() == 1 && texts(writers@).contains(all@[s].parked@[0]@),
        keys@.len() == 0 ==> r is None,
{
    let ks = texts(keys@);
    let ws = texts(writers@);
    assert(ks.len() == keys@.len());
    if 0 <= i < keys@.len() {
        assert(ks[i] == keys@[i]@);
        law_parked_are_the_products_writers(ks, ws, ks.len(), i);
        if ws.contains(keys@[i]@) {
            let p = with_writer(ks, ws, ks.len());
            let x = choose|x: int| 0 <= x < p.len() && p[x] == ks[i];
            assert(p.len() > 0);
        }
    }
    if let Some(g) = r {
        assert(texts(g.parked@).len() == g.parked@.len());
        if 0 <= i < g.parked@.len() {
            law_parked_are_the_products_writers(ks, ws, ks.len(), i);
            assert(texts(g.parked@)[i] == g.parked@[i]@);
        }
    }
    let bs = all_keys(b.surfaces@);
    let p = with_writer(bs, ws, b.surfaces@.len());
    if 0 <= s < b.surfaces@.len() && ws.contains(b.surfaces@[s].key@) {
        assert(bs[s] == b.surfaces@[s].key@);
        law_parked_are_the_products_writers(bs, ws, bs.len(), s);
        let x = choose|x: int| 0 <= x < p.len() && p[x] == bs[s];
        assert(p.len() > 0);
    }
    if 0 <= s < all@.len() {
        law_parked_are_the_products_writers(bs, ws, bs.len(), s);
        let t = texts(all@[s].parked@);
        assert(t == seq![p[s]]);
        assert(t.len() == all@[s].parked@.len());
        assert(t[0] == all@[s].parked@[0]@);
    }
}

/// Closed connections have nothing to clear.
pub proof fn law_closed_clears_nothing<D>(a: &mut Option<HostModel<D>>, b: &mut Option<HostModel<D>>, pid: u16, unit: &str, r: Vec<u64>, s: Vec<u64>)
    requires
        *old(a) is None && *old(b) is None,
        call_ensures(clear_lighting::<D>, (a, pid, unit), r),
        call_ensures(clear_all_lighting::<D>, (b,), s),
    ensures
        r@.len() == 0 && s@.len() == 0 && *final(a) is None && *final(b) is None,
{
}

/// A switch is read in any case, and only where every letter is the same.
pub proof fn law_switch_words_match_letter_by_letter(a: Seq<char>, b: Seq<char>, i: int)
    requires
        same_but_case(a, b),
        0 <= i < a.len(),
    ensures
        a.len() == b.len(),
        a[i] == b[i] || (a[i] as int) - (b[i] as int) == 32 || (b[i] as int) - (a[i] as int) == 32,
{
    assert(ascii_lower(a[i]) == ascii_lower(b[i]));
}

/// Clearing one board that has a stack gives back that stack's layer, and clearing a dark one nothing.
pub proof fn law_cleared_board_gives_its_layer<D>(m: Map<Seq<char>, BaseLayer<D>>, key: Seq<char>, other: Seq<char>)
    requires
        key != other,
    ensures
        m.contains_key(key) ==> released(m, seq![key], 1) == seq![m[key].layer],
        !m.contains_key(key) ==> released(m, seq![key], 1).len() == 0,
        m.contains_key(key) && m.contains_key(other) ==> released(m, seq![key, other], 2) == seq![
            m[key].layer,
            m[other].layer,
        ],
{
    reveal_with_fuel(released, 3);
    reveal_with_fuel(dropped, 3);
    let ks = seq![key, other];
    assert(dropped(m, ks, 1) == m.remove(key));
    if m.contains_key(key) && m.contains_key(other) {
        assert(released(m, ks, 1) =~= seq![m[key].layer]);
        assert(released(m, ks, 2) =~= seq![m[key].layer, m[other].layer]);
    }
    if m.contains_key(key) {
        assert(released(m, seq![key], 1) =~= seq![m[key].layer]);
    }
}

} // verus!
