//! What the device page, the profiles, the rules of the apps and the import have to do with one another.

use vstd::prelude::*;

use crate::devices::{
    audio_detail_text, audio_rows, light_capable_units, lit_boards, nearest_row,
    patch_selected_audio_detail, pid_of_row, reading_without_unit, refresh_devices,
    refresh_plated_row, refresh_selected_plate, row_with_id, select_device_at, selected_audio_id,
    unit_views, Before, DeviceRow, Endpoint, Flow, ScannedDevice, SelectTarget, Selection,
};
use crate::naming::without_all;
use crate::profiles::{
    applying, decimals, import_pane, law_first_matching_rule_wins, lighting_after_apply,
    note_focused_app, note_live_profile, on_pane, pane_lines, profile_name_edited,
    refresh_app_rules, refresh_profiles, AppRule, ImportLine, ImportPane, ImportWizard, LiveProfile,
    Profile, ProfileRow,
};
use crate::text::{
    decimal, decimal_int, finishes_with, has_text, hex_digits, is_space, lowercase, number, texts,
    trimmed,
};
use crate::text_laws::{
    law_clean_text_is_trimmed, law_four_hex_digits_read_back, law_joined_from_the_front,
    law_joined_of_one,
};
use crate::weave_laws::law_suffix_is_taken_off;

verus! {

// ── the device page ─────────────────────────────────────────────────────────────────────────────

/// The page shows the devices first, then the microphones, then the outputs, each in its order and with
/// its own values in its own places.
pub proof fn law_page_shows_devices_in_order(
    devs: &Vec<ScannedDevice>,
    mics: &Vec<Endpoint>,
    outs: &Vec<Endpoint>,
    previous: &str,
    r: (Vec<DeviceRow>, usize),
    i: int,
)
    requires
        call_ensures(refresh_devices, (devs, mics, outs, previous), r),
    ensures
        r.0@.len() == devs@.len() + mics@.len() + outs@.len(),
        0 <= i < devs@.len() ==> ({
            let row = r.0@[i];
            let d = devs@[i];
            &&& row.name@ == d.name@ && row.codename@ == d.codename@ && row.mode@ == d.mode@
            &&& row.connected == d.connected && row.charging == d.charging && row.caps == d.caps
            &&& row.firmware@ == d.firmware@ && row.dpi@ == d.dpi@ && row.polling@ == d.polling@
            &&& row.brightness@ == d.brightness@ && row.battery@ == d.battery@
            &&& row.storage@ == d.storage@ && row.icon@ == d.icon@ && row.kind@ == d.icon@
            &&& row.id@ == d.instance@
            &&& row.pid@.len() == 4 && number(row.pid@, 16, 0xFFFF) == Some(d.pid as nat)
            &&& d.caps.plate ==> (d.last_plate matches Some(p) ==> row.plate@ == p@)
            &&& !d.caps.plate || d.last_plate is None ==> row.plate@.len() == 0
        }),
        0 <= i < mics@.len() ==> ({
            let row = r.0@[devs@.len() + i];
            row.name@ == mics@[i].name@ && row.id@ == mics@[i].id@ && row.kind@ == "mic"@ && row.connected
                && row.pid@.len() == 0 && !row.caps.light && !row.caps.dpi
        }),
        0 <= i < outs@.len() ==> ({
            let row = r.0@[devs@.len() + mics@.len() + i];
            row.name@ == outs@[i].name@ && row.id@ == outs@[i].id@ && row.kind@ == "output"@
                && row.connected && row.pid@.len() == 0 && !row.caps.light && !row.caps.dpi
        }),
{
    if 0 <= i < devs@.len() {
        law_four_hex_digits_read_back(devs@[i].pid as nat);
        assert(r.0@[i].name@ == devs@[i].name@);
    }
    if 0 <= i < mics@.len() {
        assert(r.0@[devs@.len() + i].name@ == mics@[i].name@);
    }
    if 0 <= i < outs@.len() {
        assert(r.0@[devs@.len() + mics@.len() + i].name@ == outs@[i].name@);
    }
}

/// What was selected before a scan is selected after it; the first row is where it is gone.
pub proof fn law_selection_is_found_again(
    devs: &Vec<ScannedDevice>,
    mics: &Vec<Endpoint>,
    outs: &Vec<Endpoint>,
    previous: &str,
    r: (Vec<DeviceRow>, usize),
    i: int,
)
    requires
        call_ensures(refresh_devices, (devs, mics, outs, previous), r),
    ensures
        previous@.len() > 0 && 0 <= i < r.0@.len() && r.0@[i].id@ == previous@ ==> r.1 <= i && r.0@[r.1 as int].id@
            == previous@,
        (forall|j: int| 0 <= j < r.0@.len() ==> (#[trigger] r.0@[j]).id@ != previous@) ==> r.1 == 0,
        previous@.len() == 0 ==> r.1 == 0,
{
    lemma_found(r.0@, previous@, 0);
}

proof fn lemma_found(rows: Seq<DeviceRow>, id: Seq<char>, from: nat)
    ensures
        match row_with_id(rows, id, from) {
            Some(k) => from <= k < rows.len() && rows[k as int].id@ == id && forall|j: int|
                from <= j < k ==> (#[trigger] rows[j]).id@ != id,
            None => forall|j: int| from <= j < rows.len() ==> (#[trigger] rows[j]).id@ != id,
        },
    decreases rows.len() - from,
{
    if from < rows.len() && rows[from as int].id@ != id {
        lemma_found(rows, id, from + 1);
    }
}

/// An audio row tells its kind and its volume, or that it is muted.
pub proof fn law_audio_row_tells_its_volume(kind: &str, muted: bool, percent: i32, r: String)
    requires
        call_ensures(audio_detail_text, (kind, muted, percent), r),
    ensures
        muted ==> r@ == kind@ + " · muted"@,
        !muted && percent >= 0 ==> r@ == kind@ + " · "@ + decimal(percent as nat) + "%"@,
{
}

/// The selected row is the one that was asked for, the nearest where there is none.
pub proof fn law_nearest_row(n: usize, idx: i32, r: Option<usize>)
    requires
        n <= i32::MAX,
        call_ensures(nearest_row, (n, idx), r),
    ensures
        r is None <==> n == 0,
        0 <= idx < n ==> r == Some(idx as usize),
        idx < 0 && n > 0 ==> r == Some(0usize),
        idx >= n && n > 0 ==> (r matches Some(k) && k + 1 == n),
{
}

/// What is selected is shown, and its target is itself: an endpoint by its id, a device by its product and
/// unit.
pub proof fn law_selected_row_is_the_target(
    rows: &Vec<DeviceRow>,
    idx: i32,
    last_plate: &Option<String>,
    b: &Before,
    s: Selection,
)
    requires
        rows@.len() <= i32::MAX,
        0 <= idx < rows@.len(),
        call_ensures(select_device_at, (rows, idx, last_plate, b), s),
    ensures
        s.index == idx,
        s.name@ == rows@[idx as int].name@ && s.kind@ == rows@[idx as int].kind@ && s.caps
            == rows@[idx as int].caps,
        rows@[idx as int].kind@ == "mic"@ ==> (s.target matches Some(SelectTarget::Audio { flow, id }) && flow
            == Flow::Capture && id@ == rows@[idx as int].id@),
        rows@[idx as int].kind@ == "output"@ ==> (s.target matches Some(SelectTarget::Audio { flow, id })
            && flow == Flow::Render && id@ == rows@[idx as int].id@),
        rows@[idx as int].kind@ != "mic"@ && rows@[idx as int].kind@ != "output"@ ==> (s.target matches Some(
            SelectTarget::Hid { pid, unit, changed },
        ) && unit@ == rows@[idx as int].id@ && (forall|p: u16|
            rows@[idx as int].pid@ == #[trigger] hex_digits(p as nat, 4) ==> pid == p && s.hyperpoll == (p
                == 0x00B3) && changed == (b.pid != p || b.unit@ != unit@))),
{
    reveal_strlit("mic");
    reveal_strlit("output");
    assert("mic"@.len() == 3 && "output"@.len() == 6);
    assert forall|p: u16| rows@[idx as int].pid@ == #[trigger] hex_digits(p as nat, 4) implies number(
        rows@[idx as int].pid@,
        16,
        0xFFFF,
    ) == Some(p as nat) by {
        law_four_hex_digits_read_back(p as nat);
    }
}

/// A page without rows has nothing selected.
pub proof fn law_empty_page_selects_nothing(rows: &Vec<DeviceRow>, idx: i32, last_plate: &Option<String>, b: &Before, s: Selection)
    requires
        rows@.len() == 0,
        call_ensures(select_device_at, (rows, idx, last_plate, b), s),
    ensures
        s.index == -1 && s.target is None && s.name@ == "—"@ && s.plate@.len() == 0,
        !s.caps.light && !s.caps.plate,
        s.caps.dpi == b.caps.dpi && s.caps.poll == b.caps.poll,
{
}

/// Only audio rows have an audio id and a volume to patch; they have the row's own.
pub proof fn law_audio_row_is_patched(rows: &Vec<DeviceRow>, idx: i32, percent: i32, a: Option<String>, b: Option<String>)
    requires
        call_ensures(selected_audio_id, (rows, idx), a),
        call_ensures(patch_selected_audio_detail, (rows, idx, true, percent), b),
    ensures
        a is Some <==> b is Some,
        a is Some <==> 0 <= idx < rows@.len() && (rows@[idx as int].kind@ == "mic"@ || rows@[idx as int].kind@
            == "output"@),
        a matches Some(id) ==> id@ == rows@[idx as int].id@,
        b matches Some(t) ==> t@ == rows@[idx as int].kind@ + " · muted"@,
{
}

/// A product's number that was written in four places is read back; what is no number is none.
pub proof fn law_product_number_is_read_back(pid: u16, t: &str, r: u16, s: &str, none: u16)
    requires
        t@ == hex_digits(pid as nat, 4),
        call_ensures(pid_of_row, (t,), r),
        s@.len() == 0,
        call_ensures(pid_of_row, (s,), none),
    ensures
        r == pid,
        none == 0,
{
    law_four_hex_digits_read_back(pid as nat);
}

/// A shown plate changes only to another, and to none where the device has no plates.
pub proof fn law_plate_changes_to_another(can: bool, shown: &str, last: &Option<String>, r: Option<String>)
    requires
        call_ensures(refresh_selected_plate, (can, shown, last), r),
    ensures
        r matches Some(p) ==> p@ != shown@,
        !can && shown@.len() > 0 ==> (r matches Some(p) && p@.len() == 0),
        can ==> (*last matches Some(p) ==> (r matches Some(q) ==> q@ == p@) && (r is None <==> p@ == shown@)),
{
    if !can && shown@.len() > 0 {
        assert(shown@ != Seq::<char>::empty());
    }
}

/// Exactly the rows whose plate changed are told, each with its new plate.
pub proof fn law_changed_plates_are_told(rows: &Vec<DeviceRow>, last: &Vec<Option<String>>, r: Vec<(usize, String)>, q: int)
    requires
        last@.len() == rows@.len(),
        call_ensures(refresh_plated_row, (rows, last), r),
        0 <= q < r@.len(),
    ensures
        r@[q].0 < rows@.len() && rows@[r@[q].0 as int].caps.plate,
        r@[q].1@ != rows@[r@[q].0 as int].plate@,
        last@[r@[q].0 as int] matches Some(p) ==> r@[q].1@ == p@,
        last@[r@[q].0 as int] is None ==> r@[q].1@.len() == 0,
{
}

/// Every row with lights and a product is a board with lights, by its product and unit.
pub proof fn law_lit_rows_are_boards(rows: Seq<DeviceRow>, k: nat, i: int, pid: u16)
    requires
        k <= rows.len(),
        0 <= i < k,
        rows[i].caps.light,
        rows[i].pid@ == hex_digits(pid as nat, 4),
        pid != 0,
    ensures
        lit_boards(rows, k).contains((pid as nat, rows[i].id@)),
    decreases k,
{
    law_four_hex_digits_read_back(pid as nat);
    let before = lit_boards(rows, (k - 1) as nat);
    let all = lit_boards(rows, k);
    let b = (pid as nat, rows[i].id@);
    if i < k - 1 {
        law_lit_rows_are_boards(rows, (k - 1) as nat, i, pid);
        let x = choose|x: int| 0 <= x < before.len() && before[x] == b;
        assert(all[x] == b);
    } else {
        assert(all[before.len() as int] == b);
    }
}

/// Rows without lights are no boards.
pub proof fn law_dark_rows_are_no_boards(rows: &Vec<DeviceRow>, r: Vec<(u16, String)>)
    requires
        call_ensures(light_capable_units, (rows,), r),
        forall|i: int| 0 <= i < rows@.len() ==> !(#[trigger] rows@[i]).caps.light,
    ensures
        r@.len() == 0,
{
    lemma_dark(rows@, rows@.len());
    assert(unit_views(r@).len() == r@.len());
}

proof fn lemma_dark(rows: Seq<DeviceRow>, k: nat)
    requires
        k <= rows.len(),
        forall|i: int| 0 <= i < rows.len() ==> !(#[trigger] rows[i]).caps.light,
    ensures
        lit_boards(rows, k).len() == 0,
    decreases k,
{
    if k > 0 {
        lemma_dark(rows, (k - 1) as nat);
        assert(!rows[k - 1].caps.light);
    }
}

// ── profiles ────────────────────────────────────────────────────────────────────────────────────

/// A card shows its own profile: each number with its unit, nothing where it sets none, and the active
/// profile by its name.
pub proof fn law_card_shows_its_profile(
    profiles: &Vec<Profile>,
    active: &str,
    r: (Vec<ProfileRow>, Vec<String>),
    i: int,
)
    requires
        call_ensures(refresh_profiles, (profiles, active), r),
        0 <= i < profiles@.len(),
    ensures
        r.0@.len() == profiles@.len() && r.1@.len() == profiles@.len(),
        r.1@[i]@ == profiles@[i].name@,
        ({
            let c = r.0@[i];
            let p = profiles@[i];
            &&& c.name@ == p.name@ && c.summary@ == p.summary@ && c.lighting@ == p.lighting@
            &&& c.gaming == p.gaming
            &&& c.active <==> p.name@ == active@
            &&& p.polling_hz matches Some(n) ==> c.polling@ == decimal(n as nat) + " Hz"@
            &&& p.brightness matches Some(n) ==> c.brightness@ == decimal(n as nat) + "%"@
            &&& p.idle_secs matches Some(n) ==> c.idle@ == decimal(n as nat) + "s"@
            &&& p.in_game_polling matches Some((w, d)) ==> c.in_game@ == decimal(w as nat) + "/"@ + decimal(
                d as nat,
            ) + "Hz"@
            &&& p.polling_hz is None ==> c.polling@.len() == 0
            &&& p.brightness is None ==> c.brightness@.len() == 0
            &&& p.idle_secs is None ==> c.idle@.len() == 0
            &&& p.in_game_polling is None ==> c.in_game@.len() == 0
            &&& p.dpi_stages@.len() == 0 ==> (p.dpi matches Some(n) ==> c.dpi@ == decimal(n as nat))
            &&& p.dpi_stages@.len() == 1 ==> c.dpi@ == decimal(p.dpi_stages@[0] as nat)
            &&& p.dpi_stages@.len() == 2 ==> c.dpi@ == decimal(p.dpi_stages@[0] as nat) + "/"@ + decimal(
                p.dpi_stages@[1] as nat,
            )
        }),
{
    let c = r.0@[i];
    let p = profiles@[i];
    assert(c.name@ == p.name@);
    let ds = decimals(p.dpi_stages@);
    if p.dpi_stages@.len() == 1 {
        assert(ds =~= seq![decimal(p.dpi_stages@[0] as nat)]);
        law_joined_of_one(ds[0], "/"@);
    }
    if p.dpi_stages@.len() == 2 {
        assert(ds =~= seq![ds[0]] + seq![ds[1]]);
        law_joined_from_the_front(ds[0], seq![ds[1]], "/"@);
        law_joined_of_one(ds[1], "/"@);
    }
}

/// A profile that went live is shown and held; a rule that was being edited is let go where it changed.
pub proof fn law_live_profile_is_noted(live: &mut LiveProfile, name: &str, rebuild: bool)
    requires
        call_ensures(note_live_profile, (live, name), rebuild),
    ensures
        final(live).shown@ == name@ && final(live).held@ == name@,
        old(live).shown@ != name@ ==> final(live).editing_rule == -1,
        old(live).shown@ == name@ ==> final(live).editing_rule == old(live).editing_rule,
        rebuild <==> old(live).held@ != name@,
{
}

/// The same profile again rebuilds nothing.
pub proof fn law_same_profile_rebuilds_nothing(a: &mut LiveProfile, b: &mut LiveProfile, name: &str, r: bool, s: bool)
    requires
        call_ensures(note_live_profile, (a, name), r),
        *old(b) == *final(a),
        call_ensures(note_live_profile, (b, name), s),
    ensures
        !s,
        final(b).editing_rule == final(a).editing_rule,
{
}

/// The rule whose app is part of the focused one's name wins, whatever the case; the first of several.
pub proof fn law_rule_wins_by_its_app(rules: &Vec<AppRule>, focused: &str, r: i32, i: int)
    requires
        rules@.len() <= i32::MAX,
        call_ensures(note_focused_app, (rules, focused), r),
        0 <= i < rules@.len(),
    ensures
        rules@[i].app@.len() > 0 && has_text(lowercase(focused@), lowercase(rules@[i].app@)) ==> 0 <= r
            <= i,
        r >= 0 ==> r < rules@.len() && rules@[r as int].app@.len() > 0 && has_text(
            lowercase(focused@),
            lowercase(rules@[r as int].app@),
        ),
        r >= -1,
{
    law_first_matching_rule_wins(rules@, focused@, 0);
}

/// The rules are shown in their order, an app beside its profile, and marked as they win.
pub proof fn law_rules_are_shown(
    rules: &Vec<AppRule>,
    focused: &str,
    r: (Vec<(String, String)>, i32),
    w: i32,
    i: int,
)
    requires
        rules@.len() <= i32::MAX,
        call_ensures(refresh_app_rules, (rules, focused), r),
        call_ensures(note_focused_app, (rules, focused), w),
        0 <= i < rules@.len(),
    ensures
        r.0@.len() == rules@.len(),
        r.0@[i].0@ == rules@[i].app@ && r.0@[i].1@ == rules@[i].profile@,
        r.1 == w,
{
    assert(r.0@[i].0@ == rules@[i].app@);
}

/// A profile that was applied brings its own lighting, where it has any; otherwise what was there stays.
pub proof fn law_profile_brings_its_lighting<T>(applied: bool, own: Option<Vec<T>>, before: Vec<T>, r: Option<Vec<T>>)
    requires
        call_ensures(lighting_after_apply::<T>, (applied, own, before), r),
    ensures
        applied ==> (own matches Some(s) ==> (s@.len() > 0 ==> (r matches Some(t) && t@ == s@))),
        !applied || own is None ==> (before@.len() > 0 ==> (r matches Some(t) && t@ == before@)),
        !applied || own is None ==> (before@.len() == 0 ==> r is None),
        applied ==> (own matches Some(s) ==> (s@.len() == 0 && before@.len() > 0 ==> (r matches Some(t) && t@
            == before@))),
{
}

/// What an import holds is told on the pane of its kind, in its order, and on no other.
pub proof fn law_import_lines_are_on_their_pane(lines: Seq<ImportLine>, k: nat, i: int)
    requires
        k <= lines.len(),
        0 <= i < k,
    ensures
        lines[i].category@ == "perf"@ || lines[i].category@ == "lighting"@ <==> pane_lines(
            lines,
            ImportPane::Performance,
            k,
        ).contains(i),
        lines[i].category@ == "binding"@ <==> pane_lines(lines, ImportPane::Bindings, k).contains(i),
        lines[i].category@ == "note"@ <==> pane_lines(lines, ImportPane::Notes, k).contains(i),
{
    lemma_on_pane(lines, ImportPane::Performance, k, i);
    lemma_on_pane(lines, ImportPane::Bindings, k, i);
    lemma_on_pane(lines, ImportPane::Notes, k, i);
}

proof fn lemma_on_pane(lines: Seq<ImportLine>, pane: ImportPane, k: nat, i: int)
    requires
        k <= lines.len(),
        0 <= i < lines.len(),
    ensures
        pane_lines(lines, pane, k).contains(i) <==> i < k && on_pane(
            lines[i].category@,
            pane,
        ),
    decreases k,
{
    if k > 0 {
        lemma_on_pane(lines, pane, (k - 1) as nat, i);
        let before = pane_lines(lines, pane, (k - 1) as nat);
        let all = pane_lines(lines, pane, k);
        if before.contains(i) {
            let x = choose|x: int| 0 <= x < before.len() && before[x] == i;
            assert(all[x] == i);
        }
        if i == k - 1 && on_pane(lines[i].category@, pane) {
            assert(all[before.len() as int] == i);
        }
        if all.contains(i) {
            let x = choose|x: int| 0 <= x < all.len() && all[x] == i;
            if x < before.len() {
                assert(before[x] == i);
            }
        }
    }
}

/// A file that was picked is kept; none leaves the one from before. An import that went well closes the
/// wizard, one that failed leaves it as it is and says why.
pub proof fn law_import_wizard(
    w: &mut ImportWizard,
    v: &mut ImportWizard,
    path: &str,
    picked: bool,
    result: &Result<String, String>,
    said: String,
)
    requires
        call_ensures(ImportWizard::picked, (w, path), picked),
        call_ensures(ImportWizard::applied, (v, result), said),
    ensures
        picked <==> path@.len() > 0,
        picked ==> final(w).path@ == path@,
        !picked ==> final(w).path@ == old(w).path@ && final(w).status@ == "no file selected."@,
        *result matches Ok(m) ==> !final(v).pending && !final(v).ready && !final(v).open && final(v).path@.len() == 0 && said@ == m@ + " — press apply on the profile to make it live"@,
        *result matches Err(m) ==> said@ == m@ && final(v).status@ == m@ && final(v).pending == old(v).pending
            && final(v).path@ == old(v).path@,
{
}

/// The picker is asked for once: a second request while it opens does nothing.
pub proof fn law_picker_opens_once(w: &mut ImportWizard, v: &mut ImportWizard, a: bool, b: bool)
    requires
        call_ensures(ImportWizard::browse, (w,), a),
        *old(v) == *final(w),
        call_ensures(ImportWizard::browse, (v,), b),
    ensures
        !b,
        final(w).path == old(w).path && final(w).ready == old(w).ready,
{
}

/// Applying is told by the profile's name; a name that is among the known ones is known.
pub proof fn law_applying_is_told(name: &str, r: String, keys: &Vec<String>, i: int, known: bool)
    requires
        call_ensures(applying, (name,), r),
        call_ensures(profile_name_edited, (keys, name), known),
        0 <= i < keys@.len(),
    ensures
        r@ == "applying '"@ + name@ + "'..."@,
        keys@[i]@ == name@ ==> known,
        (forall|j: int| 0 <= j < keys@.len() ==> (#[trigger] keys@[j])@ != name@) ==> !known,
{
    assert(texts(keys@)[i] == keys@[i]@);
    if known {
        let j = choose|j: int| 0 <= j < texts(keys@).len() && texts(keys@)[j] == name@;
        assert(keys@[j]@ == name@);
    }
}

/// A reading is its number without its unit.
pub proof fn law_reading_loses_its_unit(s: &str, unit: &str, value: Seq<char>, r: String)
    requires
        call_ensures(reading_without_unit, (s, unit), r),
        s@ == value + unit@,
        unit@.len() > 0 && !is_space(unit@.last()),
        value.len() > 0 && !is_space(value[0]),
        !finishes_with(value, unit@),
    ensures
        r@ == trimmed(value),
{
    assert(s@[0] == value[0]);
    assert(s@.last() == unit@.last());
    law_clean_text_is_trimmed(s@);
    law_suffix_is_taken_off(value, unit@);
}

/// The endpoints of one direction are rows of that direction, in their order.
pub proof fn law_endpoints_are_rows_of_their_direction(es: &Vec<Endpoint>, a: Vec<DeviceRow>, b: Vec<DeviceRow>, i: int)
    requires
        call_ensures(audio_rows, (es, Flow::Capture), a),
        call_ensures(audio_rows, (es, Flow::Render), b),
        0 <= i < es@.len(),
    ensures
        a@.len() == es@.len() && b@.len() == es@.len(),
        a@[i].kind@ == "mic"@ && b@[i].kind@ == "output"@,
        a@[i].name@ == es@[i].name@ && a@[i].id@ == es@[i].id@ && b@[i].name@ == es@[i].name@ && b@[i].id@
            == es@[i].id@,
        es@[i].muted ==> a@[i].detail@ == "mic"@ + " · muted"@,
        !es@[i].muted ==> b@[i].detail@ == "output"@ + " · "@ + decimal_int(es@[i].percent as int) + "%"@,
{
    assert(a@[i].name@ == es@[i].name@);
    assert(b@[i].name@ == es@[i].name@);
}

/// A pane holds lines of its own kind alone.
pub proof fn law_pane_holds_its_own_kind(lines: &Vec<ImportLine>, r: Vec<usize>, s: Vec<usize>, q: int)
    requires
        call_ensures(import_pane, (lines, ImportPane::Bindings), r),
        call_ensures(import_pane, (lines, ImportPane::Notes), s),
    ensures
        0 <= q < r@.len() ==> r@[q] < lines@.len() && lines@[r@[q] as int].category@ == "binding"@,
        0 <= q < s@.len() ==> s@[q] < lines@.len() && lines@[s@[q] as int].category@ == "note"@,
{
    lemma_pane_sound(lines@, ImportPane::Bindings, lines@.len());
    lemma_pane_sound(lines@, ImportPane::Notes, lines@.len());
    if 0 <= q < r@.len() {
        assert(r@[q] == pane_lines(lines@, ImportPane::Bindings, lines@.len())[q]);
    }
    if 0 <= q < s@.len() {
        assert(s@[q] == pane_lines(lines@, ImportPane::Notes, lines@.len())[q]);
    }
}

proof fn lemma_pane_sound(lines: Seq<ImportLine>, pane: ImportPane, k: nat)
    requires
        k <= lines.len(),
    ensures
        forall|q: int|
            0 <= q < pane_lines(lines, pane, k).len() ==> 0 <= #[trigger] pane_lines(lines, pane, k)[q] < k
                && on_pane(lines[pane_lines(lines, pane, k)[q]].category@, pane),
    decreases k,
{
    if k > 0 {
        lemma_pane_sound(lines, pane, (k - 1) as nat);
        let before = pane_lines(lines, pane, (k - 1) as nat);
        let all = pane_lines(lines, pane, k);
        assert forall|q: int| 0 <= q < all.len() implies 0 <= #[trigger] all[q] < k && on_pane(
            lines[all[q]].category@,
            pane,
        ) by {
            if q < before.len() {
                assert(all[q] == before[q]);
            }
        }
    }
}

/// An endpoint has none of what a device has: its readings are dashes, and it can do nothing.
pub proof fn law_endpoint_rows_have_dashes(es: &Vec<Endpoint>, f: Flow, r: Vec<DeviceRow>, i: int)
    requires
        call_ensures(audio_rows, (es, f), r),
        0 <= i < es@.len(),
    ensures
        r@[i].firmware@ == "—"@ && r@[i].dpi@ == "—"@ && r@[i].polling@ == "—"@ && r@[i].brightness@ == "—"@,
        r@[i].battery@.len() == 0 && r@[i].storage@.len() == 0 && r@[i].plate@.len() == 0 && r@[i].codename@.len()
            == 0 && r@[i].mode@.len() == 0 && r@[i].pid@.len() == 0,
        r@[i].connected && !r@[i].charging && r@[i].icon@ == r@[i].kind@,
        !r@[i].caps.dpi && !r@[i].caps.poll && !r@[i].caps.light && !r@[i].caps.bright && !r@[i].caps.scroll
            && !r@[i].caps.store && !r@[i].caps.idle && !r@[i].caps.plate,
{
    assert(r@[i].name@ == es@[i].name@);
}

/// Asking for a file, or picking one, changes nothing else of the wizard.
pub proof fn law_wizard_keeps_the_rest(w: &mut ImportWizard, v: &mut ImportWizard, path: &str, a: bool, b: bool)
    requires
        call_ensures(ImportWizard::browse, (w,), a),
        call_ensures(ImportWizard::picked, (v, path), b),
    ensures
        final(w).pending == old(w).pending && final(w).open == old(w).open && final(w).sheet_open == old(
            w).sheet_open && final(w).ready == old(w).ready && final(w).path == old(w).path && final(w).status@
            == "opening file picker…"@,
        final(v).pending == old(v).pending && final(v).open == old(v).open && final(v).sheet_open == old(
            v).sheet_open && final(v).ready == old(v).ready,
        b ==> final(v).status@ == old(v).status@,
{
}

} // verus!
