//! Which collections of which devices get a reader, and the capabilities that arming one proves.

use vstd::prelude::*;

use crate::registry::{
    def_has_pid, dpi_pid, has_pid, is_dpi_pid, DeviceDef, Registry, RAZER_VID,
};
use crate::text::{copy_texts, find_text, texts, trim, trimmed};

verus! {

/// One readable collection of a connected device.
pub struct Collection {
    pub vid: u16,
    pub pid: u16,
    pub usage_page: u16,
    pub usage: u16,
    /// The collection's path, which tells it apart from every other.
    pub path: String,
    /// The device's product name.
    pub product: String,
    /// For each registry entry, whether its declared event pipe has this collection's shape.
    pub pipes: Vec<bool>,
    /// Whether a family pushes events on this collection's shape.
    pub family: bool,
}

/// A settings-report collection of a Razer DPI mouse: the generic-desktop page with no usage, or a
/// vendor page. Another vendor's collection is none, though its product number be the same.
pub open spec fn is_mouse_pipe(devices: Seq<DeviceDef>, c: Collection) -> bool {
    c.vid == RAZER_VID && is_dpi_pid(devices, c.pid) && ((c.usage_page == 0x0001 && c.usage
        == 0x0000) || c.usage_page >= 0xFF00)
}

/// The registry entry `i` claims the collection: its vendor, its product, its declared pipe.
pub open spec fn claims(devices: Seq<DeviceDef>, c: Collection, i: int) -> bool {
    0 <= i < devices.len() && i < c.pipes@.len() && devices[i].vendor_id == c.vid && has_pid(
        devices[i],
        c.pid,
    ) && c.pipes@[i]
}

/// The first registry entry from `from` on that claims the collection.
pub open spec fn claimant(devices: Seq<DeviceDef>, c: Collection, from: nat) -> Option<nat>
    decreases devices.len() - from,
{
    if from >= devices.len() {
        None
    } else if claims(devices, c, from as int) {
        Some(from)
    } else {
        claimant(devices, c, from + 1)
    }
}

/// The collection earns a reader.
pub open spec fn wanted(devices: Seq<DeviceDef>, c: Collection) -> bool {
    is_mouse_pipe(devices, c) || claimant(devices, c, 0) is Some || c.family
}

/// The index of the first registry entry that claims the collection.
pub fn event_def(reg: &Registry, c: &Collection) -> (r: Option<usize>)
    ensures
        match r {
            Some(i) => claimant(reg.devices@, *c, 0) == Some(i as nat),
            None => claimant(reg.devices@, *c, 0) is None,
        },
{
    let mut i: usize = 0;
    while i < reg.devices.len()
        invariant
            i <= reg.devices@.len(),
            claimant(reg.devices@, *c, 0) == claimant(reg.devices@, *c, i as nat),
        decreases reg.devices@.len() - i,
    {
        if i < c.pipes.len() && reg.devices[i].vendor_id == c.vid && def_has_pid(
            &reg.devices[i],
            c.pid,
        ) && c.pipes[i] {
            return Some(i);
        }
        i = i + 1;
    }
    None
}

/// Whether the collection earns a reader.
pub fn wants_reader(reg: &Registry, c: &Collection) -> (r: bool)
    ensures
        r == wanted(reg.devices@, *c),
{
    let mouse = c.vid == RAZER_VID && dpi_pid(reg, c.pid) && ((c.usage_page == 0x0001 && c.usage
        == 0x0000) || c.usage_page >= 0xFF00);
    mouse || event_def(reg, c).is_some() || c.family
}

/// The paths that have a reader. No path is listed twice.
pub struct Armed {
    pub paths: Vec<String>,
}

/// The members of `ss` differ pairwise.
pub open spec fn distinct(ss: Seq<Seq<char>>) -> bool {
    forall|i: int, j: int| 0 <= i < j < ss.len() ==> #[trigger] ss[i] != #[trigger] ss[j]
}

impl Armed {
    /// No path is armed twice.
    pub open spec fn wf(self) -> bool {
        distinct(texts(self.paths@))
    }

    /// No path armed.
    pub fn new() -> (r: Self)
        ensures
            r.wf(),
            texts(r.paths@) == Seq::<Seq<char>>::empty(),
    {
        let r = Armed { paths: Vec::new() };
        proof {
            assert(texts(r.paths@) =~= Seq::<Seq<char>>::empty());
        }
        r
    }

    /// Claims a path; false where it is claimed already.
    pub fn claim(&mut self, path: &str) -> (r: bool)
        requires
            old(self).wf(),
        ensures
            final(self).wf(),
            r == !texts(old(self).paths@).contains(path@),
            texts(final(self).paths@) == if r {
                texts(old(self).paths@).push(path@)
            } else {
                texts(old(self).paths@)
            },
    {
        if find_text(&self.paths, path).is_some() {
            return false;
        }
        let ghost before = texts(self.paths@);
        self.paths.push(path.to_owned());
        proof {
            assert(texts(self.paths@) =~= before.push(path@));
            assert(distinct(before.push(path@))) by {
                assert forall|i: int, j: int| 0 <= i < j < before.push(path@).len() implies before.push(
                    path@,
                )[i] != before.push(path@)[j] by {
                    assert(before.push(path@)[i] == before[i]);
                    if j == before.len() {
                        assert(before.contains(before[i]));
                    }
                }
            }
        }
        true
    }

    /// Gives a path up, so that it can be claimed again.
    pub fn release(&mut self, path: &str)
        requires
            old(self).wf(),
        ensures
            final(self).wf(),
            !texts(final(self).paths@).contains(path@),
            forall|p: Seq<char>|
                p != path@ ==> (texts(final(self).paths@).contains(p) <==> texts(
                    old(self).paths@,
                ).contains(p)),
    {
        let ghost before = texts(self.paths@);
        match find_text(&self.paths, path) {
            Some(i) => {
                self.paths.remove(i);
                proof {
                    let after = texts(self.paths@);
                    assert(after =~= before.remove(i as int));
                    assert(before[i as int] == path@);
                    assert forall|j: int| 0 <= j < after.len() implies after[j] != path@ by {
                        if j < i {
                            assert(after[j] == before[j]);
                        } else {
                            assert(after[j] == before[j + 1]);
                        }
                    }
                    assert forall|p: Seq<char>| p != path@ implies (after.contains(p)
                        <==> before.contains(p)) by {
                        if before.contains(p) {
                            let k = choose|k: int| 0 <= k < before.len() && before[k] == p;
                            if k < i {
                                assert(after[k] == p);
                            } else {
                                assert(after[k - 1] == p);
                            }
                        }
                        if after.contains(p) {
                            let k = choose|k: int| 0 <= k < after.len() && after[k] == p;
                            if k < i {
                                assert(before[k] == p);
                            } else {
                                assert(before[k + 1] == p);
                            }
                        }
                    }
                }
            },
            None => {},
        }
    }
}

/// A reader to start: the collection's index, and the registry entry that claims it.
#[derive(Clone, Copy, Debug, PartialEq, Eq, Structural)]
pub struct Arm {
    pub index: usize,
    pub def: Option<usize>,
}

/// The paths that are armed once the first `k` collections were looked at.
pub open spec fn paths_after(
    devices: Seq<DeviceDef>,
    cs: Seq<Collection>,
    k: nat,
    paths: Seq<Seq<char>>,
) -> Seq<Seq<char>>
    decreases k, 0nat,
{
    if k == 0 || k > cs.len() {
        paths
    } else {
        let before = paths_after(devices, cs, (k - 1) as nat, paths);
        if arms(devices, cs, (k - 1) as nat, paths) {
            before.push(cs[k - 1].path@)
        } else {
            before
        }
    }
}

/// The collection `i` gets a reader: it earns one, and its path has none yet.
pub open spec fn arms(
    devices: Seq<DeviceDef>,
    cs: Seq<Collection>,
    i: nat,
    paths: Seq<Seq<char>>,
) -> bool
    decreases i, 1nat,
{
    i < cs.len() && wanted(devices, cs[i as int]) && !paths_after(devices, cs, i, paths).contains(
        cs[i as int].path@,
    )
}

/// The indices among the first `k` collections that get a reader, in order.
pub open spec fn armed_indices(
    devices: Seq<DeviceDef>,
    cs: Seq<Collection>,
    k: nat,
    paths: Seq<Seq<char>>,
) -> Seq<nat>
    decreases k,
{
    if k == 0 || k > cs.len() {
        Seq::empty()
    } else {
        let before = armed_indices(devices, cs, (k - 1) as nat, paths);
        if arms(devices, cs, (k - 1) as nat, paths) {
            before.push((k - 1) as nat)
        } else {
            before
        }
    }
}

/// Claims every collection that earns a reader and has none, and lists the readers to start.
pub fn arm_new(reg: &Registry, armed: &mut Armed, cs: &Vec<Collection>) -> (r: Vec<Arm>)
    requires
        old(armed).wf(),
    ensures
        final(armed).wf(),
        texts(final(armed).paths@) == paths_after(
            reg.devices@,
            cs@,
            cs@.len(),
            texts(old(armed).paths@),
        ),
        r@.len() == armed_indices(reg.devices@, cs@, cs@.len(), texts(old(armed).paths@)).len(),
        forall|q: int|
            0 <= q < r@.len() ==> {
                &&& (#[trigger] r@[q]).index == armed_indices(
                    reg.devices@,
                    cs@,
                    cs@.len(),
                    texts(old(armed).paths@),
                )[q]
                &&& r@[q].index < cs@.len()
                &&& match r@[q].def {
                    Some(d) => claimant(reg.devices@, cs@[r@[q].index as int], 0) == Some(d as nat),
                    None => claimant(reg.devices@, cs@[r@[q].index as int], 0) is None,
                }
            },
{
    let ghost paths = texts(armed.paths@);
    let ghost devices = reg.devices@;
    let mut out: Vec<Arm> = Vec::new();
    let mut i: usize = 0;
    while i < cs.len()
        invariant
            i <= cs@.len(),
            devices == reg.devices@,
            armed.wf(),
            texts(armed.paths@) == paths_after(devices, cs@, i as nat, paths),
            out@.len() == armed_indices(devices, cs@, i as nat, paths).len(),
            forall|q: int|
                0 <= q < out@.len() ==> {
                    &&& (#[trigger] out@[q]).index == armed_indices(devices, cs@, i as nat, paths)[q]
                    &&& out@[q].index < cs@.len()
                    &&& match out@[q].def {
                        Some(d) => claimant(devices, cs@[out@[q].index as int], 0) == Some(d as nat),
                        None => claimant(devices, cs@[out@[q].index as int], 0) is None,
                    }
                },
        decreases cs@.len() - i,
    {
        let c = &cs[i];
        proof {
            assert(arms(devices, cs@, i as nat, paths) == (wanted(devices, *c) && !paths_after(
                devices,
                cs@,
                i as nat,
                paths,
            ).contains(c.path@)));
        }
        if wants_reader(reg, c) {
            if armed.claim(c.path.as_str()) {
                out.push(Arm { index: i, def: event_def(reg, c) });
            }
        }
        i = i + 1;
    }
    out
}

proof fn lemma_paths_only_grow(
    devices: Seq<DeviceDef>,
    cs: Seq<Collection>,
    i: nat,
    k: nat,
    paths: Seq<Seq<char>>,
    p: Seq<char>,
)
    requires
        i <= k <= cs.len(),
        paths_after(devices, cs, i, paths).contains(p),
    ensures
        paths_after(devices, cs, k, paths).contains(p),
    decreases k - i,
{
    if i < k {
        lemma_paths_only_grow(devices, cs, i, (k - 1) as nat, paths, p);
        let before = paths_after(devices, cs, (k - 1) as nat, paths);
        let at = choose|at: int| 0 <= at < before.len() && before[at] == p;
        assert(paths_after(devices, cs, k, paths)[at] == p);
    }
}

proof fn lemma_all_wanted_are_armed(
    devices: Seq<DeviceDef>,
    cs: Seq<Collection>,
    i: nat,
    paths: Seq<Seq<char>>,
)
    requires
        i < cs.len(),
        wanted(devices, cs[i as int]),
    ensures
        paths_after(devices, cs, cs.len(), paths).contains(cs[i as int].path@),
{
    let before = paths_after(devices, cs, i, paths);
    let after = paths_after(devices, cs, i + 1, paths);
    if arms(devices, cs, i, paths) {
        assert(after.last() == cs[i as int].path@);
        assert(after.contains(after.last()));
    }
    lemma_paths_only_grow(devices, cs, i + 1, cs.len(), paths, cs[i as int].path@);
}

/// Looking at the same collections once more arms nothing: every one that earns a reader has one.
pub proof fn law_second_look_arms_nothing(
    devices: Seq<DeviceDef>,
    cs: Seq<Collection>,
    k: nat,
    paths: Seq<Seq<char>>,
)
    requires
        k <= cs.len(),
    ensures
        armed_indices(devices, cs, k, paths_after(devices, cs, cs.len(), paths)).len() == 0,
        paths_after(devices, cs, k, paths_after(devices, cs, cs.len(), paths)) == paths_after(
            devices,
            cs,
            cs.len(),
            paths,
        ),
    decreases k,
{
    if k > 0 {
        law_second_look_arms_nothing(devices, cs, (k - 1) as nat, paths);
        if wanted(devices, cs[k - 1]) {
            lemma_all_wanted_are_armed(devices, cs, (k - 1) as nat, paths);
        }
    }
}

// ── the capability surface ──────────────────────────────────────────────────────────────────────

/// The products whose mute the hardware owns, as proved by a collection of theirs being armed.
pub struct CapabilitySurface {
    /// Products whose mute state can be read.
    pub read: Vec<String>,
    /// Products whose mute can be set as well.
    pub write: Vec<String>,
}

/// `ss` after `s` was learned: once only.
pub open spec fn learned(ss: Seq<Seq<char>>, s: Seq<char>) -> Seq<Seq<char>> {
    if ss.contains(s) {
        ss
    } else {
        ss.push(s)
    }
}

/// Every member of `ss` names something: it holds more than white space, and has none at its ends.
pub open spec fn all_named(ss: Seq<Seq<char>>) -> bool {
    forall|i: int| 0 <= i < ss.len() ==> (#[trigger] ss[i]).len() > 0 && trimmed(ss[i]) == ss[i]
}

impl CapabilitySurface {
    /// Every product is named, listed once, and readable where it is settable.
    pub open spec fn wf(self) -> bool {
        &&& all_named(texts(self.read@))
        &&& all_named(texts(self.write@))
        &&& distinct(texts(self.read@))
        &&& distinct(texts(self.write@))
        &&& forall|p: Seq<char>| #[trigger]
            texts(self.write@).contains(p) ==> texts(self.read@).contains(p)
    }

    /// Nothing learned yet.
    pub fn new() -> (r: Self)
        ensures
            r.wf(),
            texts(r.read@) == Seq::<Seq<char>>::empty(),
            texts(r.write@) == Seq::<Seq<char>>::empty(),
    {
        let r = CapabilitySurface { read: Vec::new(), write: Vec::new() };
        proof {
            assert(texts(r.read@) =~= Seq::<Seq<char>>::empty());
            assert(texts(r.write@) =~= Seq::<Seq<char>>::empty());
        }
        r
    }
}

fn learn(v: &mut Vec<String>, s: &str)
    requires
        all_named(texts(old(v)@)),
        distinct(texts(old(v)@)),
        s@.len() > 0,
        trimmed(s@) == s@,
    ensures
        texts(final(v)@) == learned(texts(old(v)@), s@),
        all_named(texts(final(v)@)),
        distinct(texts(final(v)@)),
        texts(final(v)@).contains(s@),
{
    let ghost before = texts(v@);
    if find_text(v, s).is_none() {
        v.push(s.to_owned());
        proof {
            assert(texts(v@) =~= before.push(s@));
            assert(texts(v@).last() == s@);
            assert forall|i: int, j: int| 0 <= i < j < texts(v@).len() implies texts(v@)[i] != texts(
                v@,
            )[j] by {
                assert(texts(v@)[i] == before[i]);
                if j == before.len() {
                    assert(before.contains(before[i]));
                }
            }
        }
    }
}

/// Learns what arming a collection proves: the product's mute can be read, and set where the family
/// proved that it can. A blank product proves nothing.
pub fn note_audio_capability(surface: &mut CapabilitySurface, writable: bool, product: &str)
    requires
        old(surface).wf(),
    ensures
        final(surface).wf(),
        trimmed(product@).len() == 0 ==> *final(surface) == *old(surface),
        trimmed(product@).len() > 0 ==> texts(final(surface).read@) == learned(
            texts(old(surface).read@),
            trimmed(product@),
        ),
        trimmed(product@).len() > 0 ==> texts(final(surface).write@) == if writable {
            learned(texts(old(surface).write@), trimmed(product@))
        } else {
            texts(old(surface).write@)
        },
{
    let name = trim(product);
    if name.as_str().is_empty() {
        return;
    }
    proof {
        crate::text::law_trimmed_has_no_outer_space(product@);
    }
    let ghost read0 = texts(surface.read@);
    let ghost write0 = texts(surface.write@);
    learn(&mut surface.read, name.as_str());
    if writable {
        learn(&mut surface.write, name.as_str());
    }
    proof {
        let read1 = texts(surface.read@);
        let write1 = texts(surface.write@);
        assert forall|p: Seq<char>| #[trigger] write1.contains(p) implies read1.contains(p) by {
            if p != name@ {
                if !write0.contains(p) {
                    let k = choose|k: int| 0 <= k < write1.len() && write1[k] == p;
                    assert(write0.len() == k || write0[k] == p);
                }
                assert(read0.contains(p));
                let k = choose|k: int| 0 <= k < read0.len() && read0[k] == p;
                assert(read1[k] == p);
            }
        }
    }
}

/// The products whose mute the hardware owns.
pub fn hardware_mute_products(surface: &CapabilitySurface) -> (r: Vec<String>)
    ensures
        r@ == surface.read@,
{
    copy_texts(&surface.read)
}

/// The products whose mute the hardware owns and we may set.
pub fn mute_writable_products(surface: &CapabilitySurface) -> (r: Vec<String>)
    ensures
        r@ == surface.write@,
{
    copy_texts(&surface.write)
}

/// What was learned stays: learning only ever adds, and learning twice adds once.
pub proof fn law_learning_only_adds(ss: Seq<Seq<char>>, s: Seq<char>, p: Seq<char>)
    ensures
        learned(ss, s).contains(s),
        ss.contains(p) ==> learned(ss, s).contains(p),
        learned(learned(ss, s), s) == learned(ss, s),
{
    if !ss.contains(s) {
        assert(ss.push(s).last() == s);
    }
    if ss.contains(p) {
        let k = choose|k: int| 0 <= k < ss.len() && ss[k] == p;
        assert(learned(ss, s)[k] == p);
    }
}

} // verus!
