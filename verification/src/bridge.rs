//! The bridged boards: their surfaces, how a board is addressed, and who may paint it.

use vstd::prelude::*;

use crate::text::{chars_of, copy_texts, list_has, same_text, texts};

verus! {

/// What sort of board a surface is.
#[derive(Clone, Copy, Debug, PartialEq, Eq, Structural)]
pub enum SurfaceKind {
    Keyboard,
    Mouse,
    Mousepad,
    Headset,
    Keypad,
    Generic,
}

/// One paintable surface.
pub struct Surface {
    pub key: String,
    pub name: String,
    pub kind: SurfaceKind,
    pub leds: usize,
}

/// The bridged boards: the surfaces, the surface of each physical unit, and the surfaces of each
/// product.
pub struct Bridge {
    pub surfaces: Vec<Surface>,
    pub units: Vec<(String, String)>,
    pub pids: Vec<(u16, Vec<String>)>,
}

// ── words and codes for a kind ──────────────────────────────────────────────────────────────────

/// The word that the connections card uses for a kind.
pub open spec fn word_of(kind: SurfaceKind) -> Seq<char> {
    match kind {
        SurfaceKind::Keyboard => "keyboard"@,
        SurfaceKind::Mouse => "mouse"@,
        SurfaceKind::Mousepad => "mousepad"@,
        SurfaceKind::Headset => "headset"@,
        SurfaceKind::Keypad => "keypad"@,
        SurfaceKind::Generic => "device"@,
    }
}

/// The word that the connections card uses for a kind.
pub fn kind_word(kind: SurfaceKind) -> (r: &'static str)
    ensures
        r@ == word_of(kind),
{
    match kind {
        SurfaceKind::Keyboard => "keyboard",
        SurfaceKind::Mouse => "mouse",
        SurfaceKind::Mousepad => "mousepad",
        SurfaceKind::Headset => "headset",
        SurfaceKind::Keypad => "keypad",
        SurfaceKind::Generic => "device",
    }
}

/// The code that the native Chroma protocol has for a kind.
pub open spec fn chroma_code(kind: SurfaceKind) -> u8 {
    match kind {
        SurfaceKind::Keyboard => 0x01,
        SurfaceKind::Mouse => 0x02,
        SurfaceKind::Headset => 0x04,
        SurfaceKind::Mousepad => 0x08,
        SurfaceKind::Keypad => 0x10,
        SurfaceKind::Generic => 0x80,
    }
}

/// The code that the native Chroma protocol has for a kind.
pub fn chroma_device_type(kind: SurfaceKind) -> (r: u8)
    ensures
        r == chroma_code(kind),
{
    match kind {
        SurfaceKind::Keyboard => 0x01,
        SurfaceKind::Mouse => 0x02,
        SurfaceKind::Headset => 0x04,
        SurfaceKind::Mousepad => 0x08,
        SurfaceKind::Keypad => 0x10,
        SurfaceKind::Generic => 0x80,
    }
}

/// The name that the readout uses for a device code of the native protocol.
pub open spec fn code_word(code: u8) -> Seq<char> {
    if code == 0x01 {
        "keyboard"@
    } else if code == 0x02 {
        "mouse"@
    } else if code == 0x04 {
        "headset"@
    } else if code == 0x08 {
        "mousepad"@
    } else if code == 0x10 {
        "keypad"@
    } else if code == 0x20 {
        "chromalink"@
    } else {
        "device"@
    }
}

/// The name that the readout uses for a device code of the native protocol.
pub fn chroma_device_name(code: u8) -> (r: &'static str)
    ensures
        r@ == code_word(code),
{
    if code == 0x01 {
        "keyboard"
    } else if code == 0x02 {
        "mouse"
    } else if code == 0x04 {
        "headset"
    } else if code == 0x08 {
        "mousepad"
    } else if code == 0x10 {
        "keypad"
    } else if code == 0x20 {
        "chromalink"
    } else {
        "device"
    }
}

/// A kind is called the same by its code and by itself.
pub proof fn law_code_and_word_agree(kind: SurfaceKind)
    ensures
        code_word(chroma_code(kind)) == word_of(kind),
{
}

// ── addressing ──────────────────────────────────────────────────────────────────────────────────

/// The surface of a physical unit, from index `from` on.
pub open spec fn unit_key(units: Seq<(String, String)>, unit: Seq<char>, from: nat) -> Option<
    Seq<char>,
>
    decreases units.len() - from,
{
    if from >= units.len() {
        None
    } else if units[from as int].0@ == unit {
        Some(units[from as int].1@)
    } else {
        unit_key(units, unit, from + 1)
    }
}

/// The surfaces of a product, from index `from` on.
pub open spec fn pid_keys(pids: Seq<(u16, Vec<String>)>, pid: u16, from: nat) -> Seq<Seq<char>>
    decreases pids.len() - from,
{
    if from >= pids.len() {
        Seq::empty()
    } else if pids[from as int].0 == pid {
        texts(pids[from as int].1@)
    } else {
        pid_keys(pids, pid, from + 1)
    }
}

/// The surfaces that an operation on `(pid, unit)` touches. A named unit is exactly its own surface,
/// or none where it is not bridged, never a sibling's; no unit is every surface of the product.
pub open spec fn addressed(b: Bridge, pid: u16, unit: Seq<char>) -> Seq<Seq<char>> {
    if unit.len() > 0 {
        match unit_key(b.units@, unit, 0) {
            Some(k) => seq![k],
            None => Seq::empty(),
        }
    } else {
        pid_keys(b.pids@, pid, 0)
    }
}

/// The surface of a physical unit.
pub fn key_for_unit(b: &Bridge, unit: &str) -> (r: Option<String>)
    ensures
        match r {
            Some(k) => unit_key(b.units@, unit@, 0) == Some(k@),
            None => unit_key(b.units@, unit@, 0) is None,
        },
{
    let mut i: usize = 0;
    while i < b.units.len()
        invariant
            i <= b.units@.len(),
            unit_key(b.units@, unit@, 0) == unit_key(b.units@, unit@, i as nat),
        decreases b.units@.len() - i,
    {
        if same_text(b.units[i].0.as_str(), unit) {
            return Some(b.units[i].1.clone());
        }
        i = i + 1;
    }
    None
}

/// The surfaces of a product.
pub fn keys_for_pid(b: &Bridge, pid: u16) -> (r: Vec<String>)
    ensures
        texts(r@) == pid_keys(b.pids@, pid, 0),
{
    let mut i: usize = 0;
    while i < b.pids.len()
        invariant
            i <= b.pids@.len(),
            pid_keys(b.pids@, pid, 0) == pid_keys(b.pids@, pid, i as nat),
        decreases b.pids@.len() - i,
    {
        if b.pids[i].0 == pid {
            return copy_texts(&b.pids[i].1);
        }
        i = i + 1;
    }
    let none: Vec<String> = Vec::new();
    proof {
        assert(texts(none@) =~= Seq::<Seq<char>>::empty());
    }
    none
}

/// The surfaces that an operation on `(pid, unit)` touches.
pub fn surface_keys(b: &Bridge, pid: u16, unit: &str) -> (r: Vec<String>)
    ensures
        texts(r@) == addressed(*b, pid, unit@),
{
    if unit.is_empty() {
        return keys_for_pid(b, pid);
    }
    let mut out: Vec<String> = Vec::new();
    match key_for_unit(b, unit) {
        Some(k) => {
            out.push(k);
        },
        None => {},
    }
    proof {
        assert(texts(out@) =~= addressed(*b, pid, unit@));
    }
    out
}

/// A named unit never reaches another unit's surface, whatever product it is of.
pub proof fn law_unit_addresses_itself_alone(b: Bridge, pid: u16, other: u16, unit: Seq<char>)
    requires
        unit.len() > 0,
    ensures
        addressed(b, pid, unit).len() <= 1,
        addressed(b, pid, unit) == addressed(b, other, unit),
{
}

// ── the devices a game can reach ────────────────────────────────────────────────────────────────

/// A bridged unit, as the settings page lists it.
#[derive(Debug, PartialEq)]
pub struct GameDeviceScope {
    pub id: String,
    pub name: String,
}

/// The name of the first surface with this key, from index `from` on.
pub open spec fn surface_name(surfaces: Seq<Surface>, key: Seq<char>, from: nat) -> Option<Seq<char>>
    decreases surfaces.len() - from,
{
    if from >= surfaces.len() {
        None
    } else if surfaces[from as int].key@ == key {
        Some(surfaces[from as int].name@)
    } else {
        surface_name(surfaces, key, from + 1)
    }
}

/// Unit and surface name of each of the first `k` units that has a surface.
pub open spec fn scope_pairs(b: Bridge, k: nat) -> Seq<(Seq<char>, Seq<char>)>
    decreases k,
{
    if k == 0 || k > b.units@.len() {
        Seq::empty()
    } else {
        let before = scope_pairs(b, (k - 1) as nat);
        let u = b.units@[k - 1];
        match surface_name(b.surfaces@, u.1@, 0) {
            Some(name) => before.push((u.0@, name)),
            None => before,
        }
    }
}

/// `a` comes before `b` in the order of their characters.
pub open spec fn text_less(a: Seq<char>, b: Seq<char>) -> bool
    decreases a.len(),
{
    if b.len() == 0 {
        false
    } else if a.len() == 0 {
        true
    } else if a[0] != b[0] {
        a[0] < b[0]
    } else {
        text_less(a.drop_first(), b.drop_first())
    }
}

/// `(id, name)` pairs in the order of their names, then of their ids.
pub open spec fn pair_less(a: (Seq<char>, Seq<char>), b: (Seq<char>, Seq<char>)) -> bool {
    text_less(a.1, b.1) || (a.1 == b.1 && text_less(a.0, b.0))
}

/// No pair stands behind one that it comes before.
pub open spec fn pairs_sorted(s: Seq<(Seq<char>, Seq<char>)>) -> bool {
    forall|i: int, j: int| 0 <= i < j < s.len() ==> !pair_less(#[trigger] s[j], #[trigger] s[i])
}

/// What a list of units holds.
pub open spec fn pairs(v: Seq<GameDeviceScope>) -> Seq<(Seq<char>, Seq<char>)> {
    Seq::new(v.len(), |i: int| (v[i].id@, v[i].name@))
}

/// The order of texts is total and transitive.
pub proof fn lemma_text_order(a: Seq<char>, b: Seq<char>, c: Seq<char>)
    ensures
        !(text_less(a, b) && text_less(b, a)),
        !text_less(a, b) && !text_less(b, a) ==> a == b,
        text_less(a, b) && !text_less(c, b) ==> text_less(a, c),
    decreases a.len() + b.len() + c.len(),
{
    if a.len() > 0 && b.len() > 0 {
        let (x, y) = (a.drop_first(), b.drop_first());
        if a[0] == b[0] {
            lemma_text_order(x, y, Seq::empty());
            if x == y {
                assert(a =~= seq![a[0]] + x);
                assert(b =~= seq![b[0]] + y);
            }
        }
        if c.len() > 0 {
            lemma_text_order(x, y, c.drop_first());
        }
    } else if a.len() == 0 && b.len() == 0 {
        assert(a =~= b);
    }
}

proof fn lemma_pair_order(
    a: (Seq<char>, Seq<char>),
    b: (Seq<char>, Seq<char>),
    c: (Seq<char>, Seq<char>),
)
    ensures
        !(pair_less(a, b) && pair_less(b, a)),
        pair_less(a, b) && !pair_less(c, b) ==> pair_less(a, c),
{
    lemma_text_order(a.1, b.1, c.1);
    lemma_text_order(c.1, b.1, a.1);
    lemma_text_order(b.1, a.1, c.1);
    lemma_text_order(b.1, c.1, a.1);
    lemma_text_order(a.0, b.0, c.0);
    lemma_text_order(c.0, b.0, a.0);
    lemma_text_order(b.0, c.0, a.0);
    lemma_text_order(c.1, a.1, b.1);
}

fn less_from(a: &[char], b: &[char], i: usize) -> (r: bool)
    requires
        i <= a@.len(),
        i <= b@.len(),
    ensures
        r == text_less(a@.skip(i as int), b@.skip(i as int)),
    decreases a@.len() - i,
{
    let an: usize = a.len();
    let bn: usize = b.len();
    if i == bn {
        return false;
    }
    if i == an {
        return true;
    }
    if a[i] != b[i] {
        return a[i] < b[i];
    }
    proof {
        assert(a@.skip(i as int).drop_first() =~= a@.skip(i as int + 1));
        assert(b@.skip(i as int).drop_first() =~= b@.skip(i as int + 1));
    }
    less_from(a, b, i + 1)
}

/// Whether `a` comes before `b` in the order of their characters.
pub fn text_precedes(a: &str, b: &str) -> (r: bool)
    ensures
        r == text_less(a@, b@),
{
    let x = chars_of(a);
    let y = chars_of(b);
    proof {
        assert(x@.skip(0) =~= x@);
        assert(y@.skip(0) =~= y@);
    }
    less_from(&x, &y, 0)
}

fn scope_precedes(a: &GameDeviceScope, b: &GameDeviceScope) -> (r: bool)
    ensures
        r == pair_less((a.id@, a.name@), (b.id@, b.name@)),
{
    if text_precedes(a.name.as_str(), b.name.as_str()) {
        return true;
    }
    same_text(a.name.as_str(), b.name.as_str()) && text_precedes(a.id.as_str(), b.id.as_str())
}

fn insert_sorted(v: &mut Vec<GameDeviceScope>, x: GameDeviceScope)
    requires
        pairs_sorted(pairs(old(v)@)),
    ensures
        pairs_sorted(pairs(final(v)@)),
        pairs(final(v)@).to_multiset() == pairs(old(v)@).to_multiset().insert((x.id@, x.name@)),
{
    let ghost before = pairs(v@);
    let ghost p = (x.id@, x.name@);
    let mut i: usize = 0;
    while i < v.len() && !scope_precedes(&x, &v[i])
        invariant
            i <= v@.len(),
            before == pairs(v@),
            p == (x.id@, x.name@),
            forall|j: int| 0 <= j < i ==> !pair_less(p, #[trigger] before[j]),
        decreases v@.len() - i,
    {
        i = i + 1;
    }
    v.insert(i, x);
    proof {
        let after = pairs(v@);
        assert(after =~= before.insert(i as int, p));
        vstd::seq_lib::to_multiset_insert(before, i as int, p);
        assert forall|a: int, b: int| 0 <= a < b < after.len() implies !pair_less(
            #[trigger] after[b],
            #[trigger] after[a],
        ) by {
            let oa = if a < i {
                a
            } else {
                a - 1
            };
            let ob = if b < i {
                b
            } else {
                b - 1
            };
            if b == i {
                assert(after[a] == before[a]);
            } else if a == i {
                assert(after[b] == before[ob]);
                // p comes before before[i], which does not stand behind before[ob]
                if ob > i {
                    assert(!pair_less(before[ob], before[i as int]));
                }
                lemma_pair_order(p, before[i as int], before[ob]);
                lemma_pair_order(p, before[ob], p);
            } else {
                assert(after[a] == before[oa]);
                assert(after[b] == before[ob]);
            }
        }
    }
}

fn name_of_surface(b: &Bridge, key: &str) -> (r: Option<String>)
    ensures
        match r {
            Some(s) => surface_name(b.surfaces@, key@, 0) == Some(s@),
            None => surface_name(b.surfaces@, key@, 0) is None,
        },
{
    let mut i: usize = 0;
    while i < b.surfaces.len()
        invariant
            i <= b.surfaces@.len(),
            surface_name(b.surfaces@, key@, 0) == surface_name(b.surfaces@, key@, i as nat),
        decreases b.surfaces@.len() - i,
    {
        if same_text(b.surfaces[i].key.as_str(), key) {
            return Some(b.surfaces[i].name.clone());
        }
        i = i + 1;
    }
    None
}

/// The bridged units with the names of their surfaces, in the order of the names, then of the ids.
pub fn game_device_scope(b: &Bridge) -> (r: Vec<GameDeviceScope>)
    ensures
        pairs_sorted(pairs(r@)),
        pairs(r@).to_multiset() == scope_pairs(*b, b.units@.len()).to_multiset(),
{
    let mut out: Vec<GameDeviceScope> = Vec::new();
    let mut i: usize = 0;
    proof {
        assert(pairs(out@) =~= scope_pairs(*b, 0));
    }
    while i < b.units.len()
        invariant
            i <= b.units@.len(),
            pairs_sorted(pairs(out@)),
            pairs(out@).to_multiset() == scope_pairs(*b, i as nat).to_multiset(),
        decreases b.units@.len() - i,
    {
        match name_of_surface(b, b.units[i].1.as_str()) {
            Some(name) => {
                let ghost before = scope_pairs(*b, i as nat);
                let x = GameDeviceScope { id: b.units[i].0.clone(), name };
                proof {
                    vstd::seq_lib::to_multiset_build(before, (x.id@, x.name@));
                }
                insert_sorted(&mut out, x);
            },
            None => {},
        }
        i = i + 1;
    }
    out
}

// ── who may paint ───────────────────────────────────────────────────────────────────────────────

/// How foreign paint is laid over what is beneath it.
#[derive(Clone, Copy, Debug, PartialEq, Eq, Structural)]
pub enum BlendMode {
    Over,
    Add,
    Multiply,
    Screen,
}

/// The blend that a paint mode means; anything unknown merges.
pub open spec fn blend_of(mode: Seq<char>) -> BlendMode {
    if mode == "replace"@ {
        BlendMode::Over
    } else if mode == "boost"@ {
        BlendMode::Add
    } else if mode == "tint"@ {
        BlendMode::Multiply
    } else {
        BlendMode::Screen
    }
}

/// The blend that a paint mode means.
pub fn blend_from_mode_str(mode: &str) -> (r: BlendMode)
    ensures
        r == blend_of(mode@),
{
    if same_text(mode, "replace") {
        BlendMode::Over
    } else if same_text(mode, "boost") {
        BlendMode::Add
    } else if same_text(mode, "tint") {
        BlendMode::Multiply
    } else {
        BlendMode::Screen
    }
}

/// Some unit of `disabled` has the surface `key`.
pub open spec fn hands_off(b: Bridge, disabled: Seq<String>, key: Seq<char>) -> bool {
    exists|i: int|
        0 <= i < disabled.len() && unit_key(b.units@, (#[trigger] disabled[i])@, 0) == Some(key)
}

/// The keys of the first `k` surfaces that no disabled unit has.
pub open spec fn allowed_keys(b: Bridge, disabled: Seq<String>, k: nat) -> Seq<Seq<char>>
    decreases k,
{
    if k == 0 || k > b.surfaces@.len() {
        Seq::empty()
    } else {
        let before = allowed_keys(b, disabled, (k - 1) as nat);
        let key = b.surfaces@[k - 1].key@;
        if hands_off(b, disabled, key) {
            before
        } else {
            before.push(key)
        }
    }
}

fn is_hands_off(b: &Bridge, disabled: &Vec<String>, key: &str) -> (r: bool)
    ensures
        r == hands_off(*b, disabled@, key@),
{
    let mut i: usize = 0;
    while i < disabled.len()
        invariant
            i <= disabled@.len(),
            forall|j: int|
                0 <= j < i ==> unit_key(b.units@, (#[trigger] disabled@[j])@, 0) != Some(key@),
        decreases disabled@.len() - i,
    {
        match key_for_unit(b, disabled[i].as_str()) {
            Some(k) => {
                if same_text(k.as_str(), key) {
                    proof {
                        assert(unit_key(b.units@, disabled@[i as int]@, 0) == Some(key@));
                    }
                    return true;
                }
            },
            None => {},
        }
        i = i + 1;
    }
    false
}

/// The surfaces that foreign paint may reach: all (`None`) where no unit is disabled, else those that
/// no disabled unit has.
pub fn paint_surfaces(b: &Bridge, disabled: &Vec<String>) -> (r: Option<Vec<String>>)
    ensures
        match r {
            None => disabled@.len() == 0,
            Some(keys) => disabled@.len() > 0 && texts(keys@) == allowed_keys(
                *b,
                disabled@,
                b.surfaces@.len(),
            ),
        },
{
    if disabled.len() == 0 {
        return None;
    }
    let mut out: Vec<String> = Vec::new();
    let mut i: usize = 0;
    proof {
        assert(texts(out@) =~= allowed_keys(*b, disabled@, 0));
    }
    while i < b.surfaces.len()
        invariant
            i <= b.surfaces@.len(),
            texts(out@) == allowed_keys(*b, disabled@, i as nat),
        decreases b.surfaces@.len() - i,
    {
        if !is_hands_off(b, disabled, b.surfaces[i].key.as_str()) {
            let k = b.surfaces[i].key.clone();
            proof {
                crate::text::lemma_texts_push(out@, k);
            }
            out.push(k);
        }
        i = i + 1;
    }
    Some(out)
}

/// A disabled unit's surface is never among those that foreign paint may reach.
pub proof fn law_disabled_is_never_painted(b: Bridge, disabled: Seq<String>, key: Seq<char>, k: nat)
    requires
        hands_off(b, disabled, key),
    ensures
        !allowed_keys(b, disabled, k).contains(key),
    decreases k,
{
    if 0 < k <= b.surfaces@.len() {
        law_disabled_is_never_painted(b, disabled, key, (k - 1) as nat);
        let all = allowed_keys(b, disabled, k);
        let before = allowed_keys(b, disabled, (k - 1) as nat);
        if all.contains(key) {
            let i = choose|i: int| 0 <= i < all.len() && all[i] == key;
            if i < before.len() {
                assert(before[i] == key);
            }
        }
    }
}

// ── parking the writers ─────────────────────────────────────────────────────────────────────────

/// The members of `keys` among the first `k` that have a writer.
pub open spec fn with_writer(keys: Seq<Seq<char>>, writers: Seq<Seq<char>>, k: nat) -> Seq<Seq<char>>
    decreases k,
{
    if k == 0 || k > keys.len() {
        Seq::empty()
    } else {
        let before = with_writer(keys, writers, (k - 1) as nat);
        if writers.contains(keys[k - 1]) {
            before.push(keys[k - 1])
        } else {
            before
        }
    }
}

fn keep_writers(keys: &Vec<String>, writers: &Vec<String>) -> (r: Vec<String>)
    ensures
        texts(r@) == with_writer(texts(keys@), texts(writers@), keys@.len()),
{
    let mut out: Vec<String> = Vec::new();
    let mut i: usize = 0;
    proof {
        assert(texts(out@) =~= with_writer(texts(keys@), texts(writers@), 0));
    }
    while i < keys.len()
        invariant
            i <= keys@.len(),
            texts(out@) == with_writer(texts(keys@), texts(writers@), i as nat),
        decreases keys@.len() - i,
    {
        if list_has(writers, keys[i].as_str()) {
            let k = keys[i].clone();
            proof {
                crate::text::lemma_texts_push(out@, k);
            }
            out.push(k);
        }
        i = i + 1;
    }
    out
}

/// The writers that stand still while a device is read; they go on once the read is over.
#[derive(Debug, PartialEq, Eq)]
pub struct IoGate {
    pub parked: Vec<String>,
}

impl IoGate {
    /// The read is over: the writers that go on, each of those that stood still.
    pub fn release(self) -> (r: Vec<String>)
        ensures
            r == self.parked,
    {
        self.parked
    }
}

/// Parks what a read of a product must park: the writer of every one of its surfaces that has one, so
/// that of two identical devices both stand still. `None` where there is nothing to park.
pub fn io_gate(b: Option<&Bridge>, pid: u16, writers: &Vec<String>) -> (r: Option<IoGate>)
    ensures
        match b {
            None => r is None,
            Some(b) => {
                let keys = pid_keys(b.pids@, pid, 0);
                let parked = with_writer(keys, texts(writers@), keys.len());
                match r {
                    Some(g) => texts(g.parked@) == parked && parked.len() > 0,
                    None => parked.len() == 0,
                }
            },
        },
{
    match b {
        None => None,
        Some(b) => {
            let keys = keys_for_pid(b, pid);
            let parked = keep_writers(&keys, writers);
            if parked.len() == 0 {
                None
            } else {
                Some(IoGate { parked })
            }
        },
    }
}

/// The keys of all surfaces.
pub open spec fn all_keys(surfaces: Seq<Surface>) -> Seq<Seq<char>> {
    Seq::new(surfaces.len(), |i: int| surfaces[i].key@)
}

/// Parks what a read of the whole fleet must park, each writer under a gate of its own.
pub fn io_gate_all(b: Option<&Bridge>, writers: &Vec<String>) -> (r: Vec<IoGate>)
    ensures
        match b {
            None => r@.len() == 0,
            Some(b) => {
                let parked = with_writer(all_keys(b.surfaces@), texts(writers@), b.surfaces@.len());
                &&& r@.len() == parked.len()
                &&& forall|i: int| 0 <= i < r@.len() ==> texts((#[trigger] r@[i]).parked@) == seq![parked[i]]
            },
        },
{
    match b {
        None => Vec::new(),
        Some(b) => {
            let mut keys: Vec<String> = Vec::new();
            let mut i: usize = 0;
            while i < b.surfaces.len()
                invariant
                    i <= b.surfaces@.len(),
                    keys@.len() == i,
                    forall|j: int| 0 <= j < i ==> keys@[j]@ == b.surfaces@[j].key@,
                decreases b.surfaces@.len() - i,
            {
                keys.push(b.surfaces[i].key.clone());
                i = i + 1;
            }
            proof {
                assert(texts(keys@) =~= all_keys(b.surfaces@));
            }
            let parked = keep_writers(&keys, writers);
            let mut out: Vec<IoGate> = Vec::new();
            let mut k: usize = 0;
            while k < parked.len()
                invariant
                    k <= parked@.len(),
                    out@.len() == k,
                    forall|j: int|
                        0 <= j < k ==> texts((#[trigger] out@[j]).parked@) == seq![parked@[j]@],
                decreases parked@.len() - k,
            {
                let mut one: Vec<String> = Vec::new();
                one.push(parked[k].clone());
                proof {
                    assert(texts(one@) =~= seq![parked@[k as int]@]);
                }
                out.push(IoGate { parked: one });
                k = k + 1;
            }
            proof {
                assert forall|j: int| 0 <= j < out@.len() implies texts((#[trigger] out@[j]).parked@)
                    == seq![texts(parked@)[j]] by {}
            }
            out
        },
    }
}

} // verus!
