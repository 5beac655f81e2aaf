//! The app's own lighting as the base layer of the bridged boards: which layer paints which surface,
//! when a layer is reused and when it is claimed anew, and how it comes back after the kernel lost it.

use vstd::prelude::*;

use crate::bridge::{addressed, surface_keys, Bridge};
use crate::text::texts;
use crate::textmap::{has_key, keys_distinct, lemma_entry, TextMap};

verus! {

/// The app's base layer on one surface: the arbiter's layer, the band that it is pinned at, and the
/// stack that it renders, kept so that it can be claimed anew.
pub struct BaseLayer<D> {
    pub layer: u64,
    pub band: i32,
    pub defs: D,
}

/// The open connections: the bridged boards and the app's base layers, by surface.
pub struct HostModel<D> {
    pub bridge: Bridge,
    /// The arbiter's id for the app.
    pub base_owner: u64,
    pub base: TextMap<BaseLayer<D>>,
}

impl<D> HostModel<D> {
    /// No surface has two base layers.
    pub open spec fn wf(self) -> bool {
        self.base.wf()
    }
}

/// `fps` within what a stream may run at.
pub open spec fn paced(fps: u32, max: u32) -> u32 {
    if fps < 1 {
        1
    } else if fps > max {
        max
    } else {
        fps
    }
}

/// `fps` within what a stream may run at.
pub fn stream_pace(fps: u32, max: u32) -> (r: u32)
    requires
        max >= 1,
    ensures
        r == paced(fps, max),
        1 <= r <= max,
{
    if fps < 1 {
        1
    } else if fps > max {
        max
    } else {
        fps
    }
}

/// The band for the base layer: above every visitor where the user's lighting always wins.
pub fn base_band(always_wins: bool, on_top: i32, beneath: i32) -> (r: i32)
    ensures
        r == if always_wins {
            on_top
        } else {
            beneath
        },
{
    if always_wins {
        on_top
    } else {
        beneath
    }
}

// ── queries ─────────────────────────────────────────────────────────────────────────────────────

/// Whether the connections are open.
pub fn active<D>(host: &Option<HostModel<D>>) -> (r: bool)
    ensures
        r == (*host is Some),
{
    host.is_some()
}

/// Some addressed surface has a base layer.
pub open spec fn lit<D>(h: HostModel<D>, pid: u16, unit: Seq<char>) -> bool {
    exists|i: int|
        0 <= i < addressed(h.bridge, pid, unit).len() && h.base@.contains_key(
            #[trigger] addressed(h.bridge, pid, unit)[i],
        )
}

/// Whether the app's lighting is on a board; without a unit, on any board of the product.
pub fn has_lighting<D>(host: &Option<HostModel<D>>, pid: u16, unit: &str) -> (r: bool)
    requires
        *host matches Some(h) ==> h.wf(),
    ensures
        r == (*host matches Some(h) && lit(h, pid, unit@)),
{
    match host {
        None => false,
        Some(h) => {
            let keys = surface_keys(&h.bridge, pid, unit);
            let mut i: usize = 0;
            while i < keys.len()
                invariant
                    i <= keys@.len(),
                    *host == Some(*h),
                    h.wf(),
                    texts(keys@) == addressed(h.bridge, pid, unit@),
                    forall|j: int|
                        0 <= j < i ==> !h.base@.contains_key(
                            #[trigger] addressed(h.bridge, pid, unit@)[j],
                        ),
                decreases keys@.len() - i,
            {
                proof {
                    assert(texts(keys@)[i as int] == keys@[i as int]@);
                }
                if h.base.contains(keys[i].as_str()) {
                    return true;
                }
                i = i + 1;
            }
            false
        },
    }
}

/// Whether the app's lighting is on any board.
pub fn any_lighting<D>(host: &Option<HostModel<D>>) -> (r: bool)
    requires
        *host matches Some(h) ==> h.wf(),
    ensures
        match *host {
            Some(h) => r <==> exists|k: Seq<char>| h.base@.contains_key(k),
            None => !r,
        },
{
    match host {
        None => false,
        Some(h) => {
            proof {
                if h.base.entries@.len() > 0 {
                    lemma_entry(h.base.entries@, 0);
                    assert(h.base@.contains_key(h.base.entries@[0].0@));
                } else {
                    assert forall|k: Seq<char>| !h.base@.contains_key(k) by {
                        assert(!has_key(h.base.entries@, k));
                    }
                }
            }
            h.base.entries.len() > 0
        },
    }
}

/// The surfaces that a stack for `(pid, unit)` goes to. `None` where the connections are closed or
/// the board is not bridged, so that the caller streams it by itself.
pub fn lighting_targets<D>(host: &Option<HostModel<D>>, pid: u16, unit: &str) -> (r: Option<
    Vec<String>,
>)
    ensures
        match *host {
            None => r is None,
            Some(h) => match r {
                Some(keys) => texts(keys@) == addressed(h.bridge, pid, unit@) && keys@.len() > 0,
                None => addressed(h.bridge, pid, unit@).len() == 0,
            },
        },
{
    match host {
        None => None,
        Some(h) => {
            let keys = surface_keys(&h.bridge, pid, unit);
            if keys.len() == 0 {
                None
            } else {
                Some(keys)
            }
        },
    }
}

// ── applying a stack ────────────────────────────────────────────────────────────────────────────

/// What the arbiter is asked next for a surface.
#[derive(Clone, Copy, Debug, PartialEq, Eq, Structural)]
pub enum BaseStep {
    /// Give this layer the new content.
    Reuse(u64),
    /// Release this layer, if any, and claim a fresh one.
    Claim(Option<u64>),
    /// The stack is on the surface.
    Done,
}

/// The base layers without the one of `key`, where it is at another band.
pub open spec fn begun<D>(m: Map<Seq<char>, BaseLayer<D>>, key: Seq<char>, band: i32) -> (
    BaseStep,
    Map<Seq<char>, BaseLayer<D>>,
) {
    if !m.contains_key(key) {
        (BaseStep::Claim(None), m)
    } else if m[key].band == band {
        (BaseStep::Reuse(m[key].layer), m)
    } else {
        (BaseStep::Claim(Some(m[key].layer)), m.remove(key))
    }
}

impl<D> HostModel<D> {
    /// Starts to put a stack on a surface: a layer at the right band is reused, any other is given
    /// up for a fresh one.
    pub fn begin(&mut self, key: &str, band: i32) -> (r: BaseStep)
        requires
            old(self).wf(),
        ensures
            final(self).wf(),
            final(self).bridge == old(self).bridge,
            final(self).base_owner == old(self).base_owner,
            (r, final(self).base@) == begun(old(self).base@, key@, band),
    {
        let found = match self.base.get(key) {
            Some(b) => Some((b.layer, b.band)),
            None => None,
        };
        match found {
            None => BaseStep::Claim(None),
            Some((layer, at)) => {
                if at == band {
                    BaseStep::Reuse(layer)
                } else {
                    let _ = self.base.remove(key);
                    BaseStep::Claim(Some(layer))
                }
            },
        }
    }

    /// The arbiter took, or did not take, the new content for the layer of `key`. Where it did, the
    /// stack is kept for a later recovery; where it did not, the layer is gone and a fresh one is
    /// wanted.
    pub fn reused(&mut self, key: &str, defs: D, taken: bool) -> (r: BaseStep)
        requires
            old(self).wf(),
            old(self).base@.contains_key(key@),
        ensures
            final(self).wf(),
            final(self).bridge == old(self).bridge,
            final(self).base_owner == old(self).base_owner,
            taken ==> r == BaseStep::Done && final(self).base@ == old(self).base@.insert(
                key@,
                (BaseLayer { defs, ..old(self).base@[key@] }),
            ),
            !taken ==> r == BaseStep::Claim(Some(old(self).base@[key@].layer))
                && final(self).base@ == old(self).base@.remove(key@),
    {
        let ghost m = self.base@;
        match self.base.remove(key) {
            Some(old_layer) => {
                if taken {
                    let layer: u64 = old_layer.layer;
                    let band: i32 = old_layer.band;
                    self.base.insert(key, BaseLayer { layer, band, defs });
                    proof {
                        assert(self.base@ =~= m.insert(
                            key@,
                            (BaseLayer { defs, ..m[key@] }),
                        ));
                    }
                    BaseStep::Done
                } else {
                    BaseStep::Claim(Some(old_layer.layer))
                }
            },
            None => BaseStep::Done,
        }
    }

    /// The arbiter answered the claim for `key`; whether the stack is on the surface.
    pub fn claimed(&mut self, key: &str, band: i32, defs: D, layer: Option<u64>) -> (landed: bool)
        requires
            old(self).wf(),
        ensures
            final(self).wf(),
            final(self).bridge == old(self).bridge,
            final(self).base_owner == old(self).base_owner,
            landed == (layer is Some),
            final(self).base@ == match layer {
                Some(l) => old(self).base@.insert(key@, (BaseLayer { layer: l, band, defs })),
                None => old(self).base@,
            },
    {
        match layer {
            Some(l) => {
                self.base.insert(key, BaseLayer { layer: l, band, defs });
                true
            },
            None => false,
        }
    }

    /// A surface lost its layer: the stack and band to claim it anew with.
    pub fn lost(&mut self, key: &str) -> (r: Option<BaseLayer<D>>)
        requires
            old(self).wf(),
        ensures
            final(self).wf(),
            final(self).bridge == old(self).bridge,
            final(self).base_owner == old(self).base_owner,
            final(self).base@ == old(self).base@.remove(key@),
            match r {
                Some(b) => old(self).base@.contains_key(key@) && b == old(self).base@[key@],
                None => !old(self).base@.contains_key(key@),
            },
    {
        self.base.remove(key)
    }
}

/// A stack on its way to the surfaces that it goes to, one after another.
pub struct LightingRun {
    pub keys: Vec<String>,
    /// Whether the stack landed, for each surface that is done.
    pub landed: Vec<bool>,
    pub band: i32,
}

impl LightingRun {
    /// No more surfaces are done than there are.
    pub open spec fn wf(self) -> bool {
        self.landed@.len() <= self.keys@.len()
    }

    /// The next surface.
    pub fn surface(&self) -> (r: Option<&str>)
        ensures
            match r {
                Some(k) => self.landed@.len() < self.keys@.len() && k@
                    == self.keys@[self.landed@.len() as int]@,
                None => self.landed@.len() >= self.keys@.len(),
            },
    {
        if self.landed.len() < self.keys.len() {
            Some(self.keys[self.landed.len()].as_str())
        } else {
            None
        }
    }

    /// A surface is done. One that the bridge cannot reach did not land.
    pub fn finished(&mut self, landed: bool)
        requires
            old(self).landed@.len() < old(self).keys@.len(),
        ensures
            final(self).wf(),
            final(self).keys == old(self).keys,
            final(self).band == old(self).band,
            final(self).landed@ == old(self).landed@.push(landed),
    {
        self.landed.push(landed);
    }

    /// Whether the stack landed on at least one surface.
    pub fn landed_somewhere(&self) -> (r: bool)
        ensures
            r == self.landed@.contains(true),
    {
        let mut i: usize = 0;
        while i < self.landed.len()
            invariant
                i <= self.landed@.len(),
                forall|j: int| 0 <= j < i ==> !self.landed@[j],
            decreases self.landed@.len() - i,
        {
            if self.landed[i] {
                return true;
            }
            i = i + 1;
        }
        false
    }
}

/// Sends a stack to a board, or without a unit to every board of a product, at the band that the
/// user's choice asks for. `None` where the connections are closed or the board is not bridged, so
/// that the caller streams it by itself.
pub fn set_lighting<D>(
    host: &Option<HostModel<D>>,
    pid: u16,
    unit: &str,
    always_wins: bool,
    on_top: i32,
    beneath: i32,
) -> (r: Option<LightingRun>)
    ensures
        match *host {
            None => r is None,
            Some(h) => match r {
                Some(run) => {
                    &&& texts(run.keys@) == addressed(h.bridge, pid, unit@)
                    &&& run.keys@.len() > 0
                    &&& run.landed@.len() == 0
                    &&& run.band == if always_wins {
                        on_top
                    } else {
                        beneath
                    }
                },
                None => addressed(h.bridge, pid, unit@).len() == 0,
            },
        },
{
    match lighting_targets(host, pid, unit) {
        Some(keys) => Some(
            LightingRun { keys, landed: Vec::new(), band: base_band(always_wins, on_top, beneath) },
        ),
        None => None,
    }
}

/// The surfaces whose frame rate changes with that of a board, or without a unit of a product.
pub fn set_fps<D>(host: &Option<HostModel<D>>, pid: u16, unit: &str) -> (r: Vec<String>)
    ensures
        texts(r@) == match *host {
            Some(h) => addressed(h.bridge, pid, unit@),
            None => Seq::empty(),
        },
{
    match host {
        Some(h) => surface_keys(&h.bridge, pid, unit),
        None => {
            let none: Vec<String> = Vec::new();
            proof {
                assert(texts(none@) =~= Seq::empty());
            }
            none
        },
    }
}

// ── recovery ────────────────────────────────────────────────────────────────────────────────────

/// The surfaces whose layer the arbiter no longer knows; `alive` answers for each entry in order.
pub open spec fn dead_keys<D>(
    e: Seq<(String, BaseLayer<D>)>,
    alive: Seq<bool>,
    k: nat,
) -> Seq<Seq<char>>
    decreases k,
{
    if k == 0 || k > e.len() {
        Seq::empty()
    } else {
        let before = dead_keys(e, alive, (k - 1) as nat);
        if alive[k - 1] {
            before
        } else {
            before.push(e[k - 1].0@)
        }
    }
}

/// The layers to ask the arbiter about, in the order in which `lost_surfaces` takes the answers.
pub fn base_layers<D>(h: &HostModel<D>) -> (r: Vec<u64>)
    ensures
        r@.len() == h.base.entries@.len(),
        forall|i: int| 0 <= i < r@.len() ==> #[trigger] r@[i] == h.base.entries@[i].1.layer,
{
    let mut out: Vec<u64> = Vec::new();
    let mut i: usize = 0;
    while i < h.base.entries.len()
        invariant
            i <= h.base.entries@.len(),
            out@.len() == i,
            forall|j: int| 0 <= j < i ==> #[trigger] out@[j] == h.base.entries@[j].1.layer,
        decreases h.base.entries@.len() - i,
    {
        out.push(h.base.entries[i].1.layer);
        i = i + 1;
    }
    out
}

/// The surfaces whose layer the arbiter no longer knows, given its answers.
pub fn lost_surfaces<D>(h: &HostModel<D>, alive: &Vec<bool>) -> (r: Vec<String>)
    requires
        alive@.len() == h.base.entries@.len(),
    ensures
        texts(r@) == dead_keys(h.base.entries@, alive@, alive@.len()),
{
    let mut out: Vec<String> = Vec::new();
    let mut i: usize = 0;
    proof {
        assert(texts(out@) =~= dead_keys(h.base.entries@, alive@, 0));
    }
    while i < alive.len()
        invariant
            i <= alive@.len(),
            alive@.len() == h.base.entries@.len(),
            texts(out@) == dead_keys(h.base.entries@, alive@, i as nat),
        decreases alive@.len() - i,
    {
        if !alive[i] {
            let k = h.base.entries[i].0.clone();
            proof {
                crate::text::lemma_texts_push(out@, k);
            }
            out.push(k);
        }
        i = i + 1;
    }
    out
}

proof fn lemma_dead_key<D>(e: Seq<(String, BaseLayer<D>)>, alive: Seq<bool>, k: nat, i: int) -> (at:
    int)
    requires
        k <= e.len(),
        0 <= i < dead_keys(e, alive, k).len(),
    ensures
        0 <= at < k,
        e[at].0@ == dead_keys(e, alive, k)[i],
    decreases k,
{
    let before = dead_keys(e, alive, (k - 1) as nat);
    if i < before.len() {
        lemma_dead_key(e, alive, (k - 1) as nat, i)
    } else {
        k - 1
    }
}

proof fn lemma_dead_keys_differ<D>(
    e: Seq<(String, BaseLayer<D>)>,
    alive: Seq<bool>,
    k: nat,
    i: int,
    j: int,
)
    requires
        keys_distinct(e),
        k <= e.len(),
        0 <= i < j < dead_keys(e, alive, k).len(),
    ensures
        dead_keys(e, alive, k)[i] != dead_keys(e, alive, k)[j],
    decreases k,
{
    let before = dead_keys(e, alive, (k - 1) as nat);
    if j < before.len() {
        lemma_dead_keys_differ(e, alive, (k - 1) as nat, i, j);
    } else {
        let at = lemma_dead_key(e, alive, (k - 1) as nat, i);
        assert(e[at].0@ != e[k - 1].0@);
    }
}

/// The lost surfaces are surfaces with a base layer, and none is named twice.
pub proof fn law_lost_surfaces_are_own<D>(base: TextMap<BaseLayer<D>>, alive: Seq<bool>)
    requires
        base.wf(),
        alive.len() == base.entries@.len(),
    ensures
        forall|i: int|
            0 <= i < dead_keys(base.entries@, alive, alive.len()).len() ==> base@.contains_key(
                #[trigger] dead_keys(base.entries@, alive, alive.len())[i],
            ),
        dead_keys(base.entries@, alive, alive.len()).no_duplicates(),
{
    let e = base.entries@;
    let dead = dead_keys(e, alive, alive.len());
    assert forall|i: int| 0 <= i < dead.len() implies base@.contains_key(#[trigger] dead[i]) by {
        let at = lemma_dead_key(e, alive, alive.len(), i);
        lemma_entry(e, at);
    }
    assert forall|i: int, j: int| 0 <= i < dead.len() && 0 <= j < dead.len() && i != j implies dead[i]
        != dead[j] by {
        if i < j {
            lemma_dead_keys_differ(e, alive, alive.len(), i, j);
        } else {
            lemma_dead_keys_differ(e, alive, alive.len(), j, i);
        }
    }
}

/// Takes out the base layers that the arbiter no longer knows, given its answers for `base_layers` in
/// order: each lost surface, with the stack and the band to claim it anew with.
pub fn heartbeat<D>(host: &mut Option<HostModel<D>>, alive: &Vec<bool>) -> (r: Vec<
    (String, BaseLayer<D>),
>)
    requires
        *old(host) matches Some(h) ==> h.wf() && alive@.len() == h.base.entries@.len(),
    ensures
        match *old(host) {
            None => *final(host) is None && r@.len() == 0,
            Some(h) => {
                let dead = dead_keys(h.base.entries@, alive@, alive@.len());
                &&& *final(host) is Some
                &&& ((*final(host))->0).wf()
                &&& ((*final(host))->0).bridge == h.bridge
                &&& ((*final(host))->0).base_owner == h.base_owner
                &&& ((*final(host))->0).base@ == dropped(h.base@, dead, dead.len())
                &&& r@.len() == dead.len()
                &&& forall|i: int|
                    0 <= i < r@.len() ==> (#[trigger] r@[i]).0@ == dead[i] && r@[i].1
                        == h.base@[dead[i]]
            },
        },
{
    let mut out: Vec<(String, BaseLayer<D>)> = Vec::new();
    match host.take() {
        None => {},
        Some(h0) => {
            let ghost start = h0.base@;
            let ghost dead = dead_keys(h0.base.entries@, alive@, alive@.len());
            proof {
                law_lost_surfaces_are_own(h0.base, alive@);
            }
            let keys = lost_surfaces(&h0, alive);
            let mut h = h0;
            let mut i: usize = 0;
            while i < keys.len()
                invariant
                    i <= keys@.len(),
                    texts(keys@) == dead,
                    dead.no_duplicates(),
                    forall|j: int| 0 <= j < dead.len() ==> start.contains_key(#[trigger] dead[j]),
                    h.wf(),
                    h.bridge == h0.bridge,
                    h.base_owner == h0.base_owner,
                    h.base@ == dropped(start, dead, i as nat),
                    out@.len() == i,
                    forall|j: int|
                        0 <= j < i ==> (#[trigger] out@[j]).0@ == dead[j] && out@[j].1
                            == start[dead[j]],
                decreases keys@.len() - i,
            {
                proof {
                    assert(texts(keys@)[i as int] == keys@[i as int]@);
                    lemma_not_dropped(start, dead, i as nat, dead[i as int]);
                }
                match h.lost(keys[i].as_str()) {
                    Some(b) => {
                        out.push((keys[i].clone(), b));
                    },
                    None => {},
                }
                i = i + 1;
            }
            *host = Some(h);
        },
    }
    out
}

// ── dropping the lighting ───────────────────────────────────────────────────────────────────────

/// The base layers after those of the first `k` keys were dropped.
pub open spec fn dropped<D>(
    m: Map<Seq<char>, BaseLayer<D>>,
    keys: Seq<Seq<char>>,
    k: nat,
) -> Map<Seq<char>, BaseLayer<D>>
    decreases k,
{
    if k == 0 || k > keys.len() {
        m
    } else {
        dropped(m, keys, (k - 1) as nat).remove(keys[k - 1])
    }
}

/// The layers to release when those of the first `k` keys are dropped, in order.
pub open spec fn released<D>(
    m: Map<Seq<char>, BaseLayer<D>>,
    keys: Seq<Seq<char>>,
    k: nat,
) -> Seq<u64>
    decreases k,
{
    if k == 0 || k > keys.len() {
        Seq::empty()
    } else {
        let before = released(m, keys, (k - 1) as nat);
        let left = dropped(m, keys, (k - 1) as nat);
        if left.contains_key(keys[k - 1]) {
            before.push(left[keys[k - 1]].layer)
        } else {
            before
        }
    }
}

/// Drops the base layers of a board, or of all boards of a product; the layers to release.
pub fn clear_lighting<D>(host: &mut Option<HostModel<D>>, pid: u16, unit: &str) -> (r: Vec<u64>)
    requires
        *old(host) matches Some(h) ==> h.wf(),
    ensures
        match *old(host) {
            None => *final(host) is None && r@.len() == 0,
            Some(h) => {
                let keys = addressed(h.bridge, pid, unit@);
                &&& *final(host) is Some
                &&& ((*final(host))->0).wf()
                &&& ((*final(host))->0).bridge == h.bridge
                &&& ((*final(host))->0).base_owner == h.base_owner
                &&& ((*final(host))->0).base@ == dropped(h.base@, keys, keys.len())
                &&& r@ == released(h.base@, keys, keys.len())
            },
        },
{
    let mut out: Vec<u64> = Vec::new();
    match host.take() {
        None => {},
        Some(h0) => {
            let mut h = h0;
            let ghost start = h.base@;
            let ghost all = addressed(h.bridge, pid, unit@);
            let ghost bridge = h.bridge;
            let keys = surface_keys(&h.bridge, pid, unit);
            let mut i: usize = 0;
            while i < keys.len()
                invariant
                    i <= keys@.len(),
                    texts(keys@) == all,
                    h.wf(),
                    h.bridge == bridge,
                    h.base_owner == h0.base_owner,
                    h.base@ == dropped(start, all, i as nat),
                    out@ == released(start, all, i as nat),
                decreases keys@.len() - i,
            {
                proof {
                    assert(texts(keys@)[i as int] == keys@[i as int]@);
                }
                match h.base.remove(keys[i].as_str()) {
                    Some(b) => {
                        out.push(b.layer);
                    },
                    None => {},
                }
                i = i + 1;
            }
            *host = Some(h);
        },
    }
    out
}

/// Drops every base layer; the layers to release.
pub fn clear_all_lighting<D>(host: &mut Option<HostModel<D>>) -> (r: Vec<u64>)
    requires
        *old(host) matches Some(h) ==> h.wf(),
    ensures
        match *old(host) {
            None => *final(host) is None && r@.len() == 0,
            Some(h) => {
                &&& *final(host) is Some
                &&& ((*final(host))->0).wf()
                &&& ((*final(host))->0).bridge == h.bridge
                &&& ((*final(host))->0).base_owner == h.base_owner
                &&& ((*final(host))->0).base@ == Map::<Seq<char>, BaseLayer<D>>::empty()
                &&& r@.len() == h.base.entries@.len()
                &&& forall|i: int| 0 <= i < r@.len() ==> #[trigger] r@[i] == h.base.entries@[i].1.layer
            },
        },
{
    match host.take() {
        None => Vec::new(),
        Some(h) => {
            let out = base_layers(&h);
            *host = Some(
                HostModel { bridge: h.bridge, base_owner: h.base_owner, base: TextMap::new() },
            );
            out
        },
    }
}

// ── laws ────────────────────────────────────────────────────────────────────────────────────────

/// Once a board's lighting is cleared, none of the surfaces that it addresses has a base layer.
pub proof fn law_cleared_is_dark<D>(
    m: Map<Seq<char>, BaseLayer<D>>,
    keys: Seq<Seq<char>>,
    k: nat,
    i: int,
)
    requires
        0 <= i < k <= keys.len(),
    ensures
        !dropped(m, keys, k).contains_key(keys[i]),
    decreases k,
{
    if i < k - 1 {
        law_cleared_is_dark(m, keys, (k - 1) as nat, i);
    }
}

proof fn lemma_not_dropped<D>(
    m: Map<Seq<char>, BaseLayer<D>>,
    keys: Seq<Seq<char>>,
    k: nat,
    key: Seq<char>,
)
    requires
        k <= keys.len(),
        forall|j: int| 0 <= j < k ==> #[trigger] keys[j] != key,
    ensures
        dropped(m, keys, k).contains_key(key) == m.contains_key(key),
        m.contains_key(key) ==> dropped(m, keys, k)[key] == m[key],
    decreases k,
{
    if k > 0 {
        lemma_not_dropped(m, keys, (k - 1) as nat, key);
    }
}

/// Clearing a board's lighting leaves every other surface's base layer as it was.
pub proof fn law_clearing_spares_others<D>(
    m: Map<Seq<char>, BaseLayer<D>>,
    keys: Seq<Seq<char>>,
    k: nat,
    other: Seq<char>,
)
    requires
        k <= keys.len(),
        !keys.contains(other),
    ensures
        dropped(m, keys, k).contains_key(other) == m.contains_key(other),
        m.contains_key(other) ==> dropped(m, keys, k)[other] == m[other],
{
    assert forall|j: int| 0 <= j < k implies #[trigger] keys[j] != other by {
        assert(keys.contains(keys[j]));
    }
    lemma_not_dropped(m, keys, k, other);
}

/// The base layers after the first `k` of the lost surfaces were claimed anew with what `was` kept.
pub open spec fn reclaimed<D>(
    was: Map<Seq<char>, BaseLayer<D>>,
    left: Map<Seq<char>, BaseLayer<D>>,
    dead: Seq<Seq<char>>,
    layers: Seq<u64>,
    k: nat,
) -> Map<Seq<char>, BaseLayer<D>>
    decreases k,
{
    if k == 0 || k > dead.len() {
        left
    } else {
        reclaimed(was, left, dead, layers, (k - 1) as nat).insert(
            dead[k - 1],
            (BaseLayer { layer: layers[k - 1], ..was[dead[k - 1]] }),
        )
    }
}

proof fn lemma_reclaimed<D>(
    was: Map<Seq<char>, BaseLayer<D>>,
    left: Map<Seq<char>, BaseLayer<D>>,
    dead: Seq<Seq<char>>,
    layers: Seq<u64>,
    k: nat,
    key: Seq<char>,
)
    requires
        k <= dead.len(),
    ensures
        (exists|j: int| 0 <= j < k && #[trigger] dead[j] == key) ==> {
            let now = reclaimed(was, left, dead, layers, k);
            now.contains_key(key) && now[key].band == was[key].band && now[key].defs == was[key].defs
        },
        !(exists|j: int| 0 <= j < k && #[trigger] dead[j] == key) ==> {
            let now = reclaimed(was, left, dead, layers, k);
            now.contains_key(key) == left.contains_key(key) && (left.contains_key(key) ==> now[key]
                == left[key])
        },
    decreases k,
{
    if k > 0 {
        lemma_reclaimed(was, left, dead, layers, (k - 1) as nat, key);
        if dead[k - 1] != key {
            if exists|j: int| 0 <= j < k && #[trigger] dead[j] == key {
                let j = choose|j: int| 0 <= j < k && #[trigger] dead[j] == key;
                assert(0 <= j < k - 1 && dead[j] == key);
            }
        } else {
            assert(0 <= k - 1 < k && dead[k - 1] == key);
        }
    }
}

/// After the kernel lost some layers and each was claimed anew, every surface that was lit is lit
/// again with its stack at its band, and no other surface is.
pub proof fn law_rebirth_recovers<D>(
    was: TextMap<BaseLayer<D>>,
    alive: Seq<bool>,
    layers: Seq<u64>,
    key: Seq<char>,
)
    requires
        was.wf(),
        alive.len() == was.entries@.len(),
        layers.len() == dead_keys(was.entries@, alive, alive.len()).len(),
    ensures
        ({
            let dead = dead_keys(was.entries@, alive, alive.len());
            let now = reclaimed(was@, dropped(was@, dead, dead.len()), dead, layers, dead.len());
            &&& now.contains_key(key) == was@.contains_key(key)
            &&& was@.contains_key(key) ==> now[key].band == was@[key].band && now[key].defs
                == was@[key].defs
        }),
{
    let dead = dead_keys(was.entries@, alive, alive.len());
    let left = dropped(was@, dead, dead.len());
    law_lost_surfaces_are_own(was, alive);
    lemma_reclaimed(was@, left, dead, layers, dead.len(), key);
    if exists|j: int| 0 <= j < dead.len() && #[trigger] dead[j] == key {
    } else {
        assert forall|j: int| 0 <= j < dead.len() implies #[trigger] dead[j] != key by {}
        lemma_not_dropped(was@, dead, dead.len(), key);
    }
}

/// A stack that landed at a band is reused the next time that band is wanted, and given up the first
/// time that another one is.
pub proof fn law_reuse_follows_band<D>(
    m: Map<Seq<char>, BaseLayer<D>>,
    key: Seq<char>,
    b: BaseLayer<D>,
    other: i32,
)
    requires
        other != b.band,
    ensures
        begun(m.insert(key, b), key, b.band).0 == BaseStep::Reuse(b.layer),
        begun(m.insert(key, b), key, other).0 == BaseStep::Claim(Some(b.layer)),
        !begun(m.insert(key, b), key, other).1.contains_key(key),
{
}

} // verus!
