//! The native Chroma face: which game is the active one, when its layers are kept, refreshed or
//! claimed anew, and why the face did not come up.

use vstd::prelude::*;

use crate::bridge::{chroma_code, chroma_device_type, Surface};

verus! {

/// How long a game layer lives without a refresh, in milliseconds.
pub const SHM_LEASE_TTL_MS: u64 = 12_000;

/// How long the layers are kept alive after a game was last seen, in milliseconds.
pub const SHM_FADE_GRACE_MS: u64 = 1_200;

/// A layer that starts faded out.
pub const FADED_OUT: u8 = 0;

/// A layer that starts at full strength.
pub const FULL: u8 = 100;

/// One game layer: the surface that it paints, and the arbiter's layer.
pub struct ShmLayer {
    pub key: String,
    pub device_type: u8,
    pub leds: usize,
    pub id: u64,
}

/// The native face while it serves.
pub struct ChromaShm {
    pub layers: Vec<ShmLayer>,
    /// When a game was last seen, in milliseconds.
    pub last_live: Option<u64>,
    /// The process of the game that was active at the last tick.
    pub last_game: Option<u32>,
}

/// A game became the active one: it connected, or took over from another. One that leaves does not
/// count.
pub open spec fn activated(previous: Option<u32>, current: Option<u32>) -> bool {
    current is Some && previous != current
}

/// Whether a game became the active one since the last tick.
pub fn shm_game_activated(previous: Option<u32>, current: Option<u32>) -> (r: bool)
    ensures
        r == activated(previous, current),
{
    match current {
        Some(pid) => match previous {
            Some(p) => p != pid,
            None => true,
        },
        None => false,
    }
}

/// Whether the layers are to be kept alive: no game was ever seen, or one was within the grace.
pub open spec fn kept(last_live: Option<u64>, now: u64) -> bool {
    match last_live {
        None => true,
        Some(t) => now - t < SHM_FADE_GRACE_MS,
    }
}

/// What a tick asks for.
#[derive(Clone, Copy, Debug, PartialEq, Eq, Structural)]
pub enum ShmTick {
    /// Let the leases lapse.
    Lapse,
    /// Release every layer and claim it anew at this strength, so that it comes to the top.
    ReclaimAll(u8),
    /// Refresh every layer, and claim one that is gone anew at this strength.
    Refresh(u8),
}

/// What a tick asks for, and what is remembered of it.
pub open spec fn ticked(
    last_live: Option<u64>,
    last_game: Option<u32>,
    present: bool,
    first_app: Option<u32>,
    now: u64,
) -> (ShmTick, Option<u64>, Option<u32>) {
    let live = if present {
        Some(now)
    } else {
        last_live
    };
    let game = if present {
        first_app
    } else {
        None
    };
    let what = if !kept(live, now) {
        ShmTick::Lapse
    } else if activated(last_game, game) {
        ShmTick::ReclaimAll(FADED_OUT)
    } else {
        ShmTick::Refresh(
            if present {
                FULL
            } else {
                FADED_OUT
            },
        )
    };
    (what, live, game)
}

impl ChromaShm {
    /// A tick of the host: `present` says that a game is connected, `first_app` which process
    /// registered first.
    pub fn tick(&mut self, present: bool, first_app: Option<u32>, now: u64) -> (r: ShmTick)
        ensures
            (r, final(self).last_live, final(self).last_game) == ticked(
                old(self).last_live,
                old(self).last_game,
                present,
                first_app,
                now,
            ),
            final(self).layers == old(self).layers,
    {
        if present {
            self.last_live = Some(now);
        }
        let current = if present {
            first_app
        } else {
            None
        };
        let fresh = shm_game_activated(self.last_game, current);
        self.last_game = current;
        let keep = match self.last_live {
            None => true,
            Some(t) => now.saturating_sub(t) < SHM_FADE_GRACE_MS,
        };
        if !keep {
            ShmTick::Lapse
        } else if fresh {
            ShmTick::ReclaimAll(FADED_OUT)
        } else if present {
            ShmTick::Refresh(FULL)
        } else {
            ShmTick::Refresh(FADED_OUT)
        }
    }

    /// The arbiter answered the new claim for the layer at `i`: a refused one keeps its old id.
    pub fn reclaimed(&mut self, i: usize, id: Option<u64>)
        requires
            i < old(self).layers@.len(),
        ensures
            final(self).last_live == old(self).last_live,
            final(self).last_game == old(self).last_game,
            final(self).layers@ == old(self).layers@.update(
                i as int,
                (ShmLayer {
                    id: match id {
                        Some(new) => new,
                        None => old(self).layers@[i as int].id,
                    },
                    ..old(self).layers@[i as int]
                }),
            ),
    {
        match id {
            Some(new) => {
                let key = self.layers[i].key.clone();
                let device_type: u8 = self.layers[i].device_type;
                let leds: usize = self.layers[i].leds;
                self.layers.set(i, ShmLayer { key, device_type, leds, id: new });
            },
            None => {},
        }
        proof {
            assert(self.layers@ =~= old(self).layers@.update(
                i as int,
                (ShmLayer {
                    id: match id {
                        Some(new) => new,
                        None => old(self).layers@[i as int].id,
                    },
                    ..old(self).layers@[i as int]
                }),
            ));
        }
    }
}

/// What a layer is claimed with.
pub struct ShmRecipe {
    pub key: Seq<char>,
    pub device_type: u8,
    pub leds: usize,
    pub id: u64,
}

/// The layers of the first `k` surfaces whose claim was granted.
pub open spec fn granted(surfaces: Seq<Surface>, ids: Seq<Option<u64>>, k: nat) -> Seq<ShmRecipe>
    decreases k,
{
    if k == 0 || k > surfaces.len() {
        Seq::empty()
    } else {
        let before = granted(surfaces, ids, (k - 1) as nat);
        let s = surfaces[k - 1];
        match ids[k - 1] {
            Some(id) => before.push(
                ShmRecipe { key: s.key@, device_type: chroma_code(s.kind), leds: s.leds, id },
            ),
            None => before,
        }
    }
}

/// What a list of layers holds.
pub open spec fn recipes(v: Seq<ShmLayer>) -> Seq<ShmRecipe> {
    Seq::new(
        v.len(),
        |i: int|
            ShmRecipe {
                key: v[i].key@,
                device_type: v[i].device_type,
                leds: v[i].leds,
                id: v[i].id,
            },
    )
}

/// The face as it comes up: one dormant layer per surface whose claim was granted, and no game seen.
pub fn spawn_chroma_shm(surfaces: &Vec<Surface>, ids: &Vec<Option<u64>>) -> (r: ChromaShm)
    requires
        ids@.len() == surfaces@.len(),
    ensures
        recipes(r.layers@) == granted(surfaces@, ids@, surfaces@.len()),
        r.last_live is None,
        r.last_game is None,
{
    let mut layers: Vec<ShmLayer> = Vec::new();
    let mut i: usize = 0;
    proof {
        assert(recipes(layers@) =~= granted(surfaces@, ids@, 0));
    }
    while i < surfaces.len()
        invariant
            i <= surfaces@.len(),
            ids@.len() == surfaces@.len(),
            recipes(layers@) == granted(surfaces@, ids@, i as nat),
        decreases surfaces@.len() - i,
    {
        let ghost before = layers@;
        match ids[i] {
            Some(id) => {
                layers.push(
                    ShmLayer {
                        key: surfaces[i].key.clone(),
                        device_type: chroma_device_type(surfaces[i].kind),
                        leds: surfaces[i].leds,
                        id,
                    },
                );
                proof {
                    assert(recipes(layers@) =~= granted(surfaces@, ids@, i as nat + 1));
                }
            },
            None => {},
        }
        i = i + 1;
    }
    ChromaShm { layers, last_live: None, last_game: None }
}

/// Why the native face could not be created.
#[derive(Clone, Copy, Debug, PartialEq, Eq, Structural)]
pub enum CreateError {
    /// Another server owns the objects.
    AlreadyServing,
    /// The system refused.
    Io,
}

/// What the card says of it.
pub fn create_error_text(e: CreateError) -> (r: &'static str)
    ensures
        r@ == match e {
            CreateError::AlreadyServing =>
                "another Chroma server (Razer Synapse) already owns the native connection"@,
            CreateError::Io => "needs elevation — start via the elevated tray task"@,
        },
{
    match e {
        CreateError::AlreadyServing =>
            "another Chroma server (Razer Synapse) already owns the native connection",
        CreateError::Io => "needs elevation — start via the elevated tray task",
    }
}

// ── laws ────────────────────────────────────────────────────────────────────────────────────────

/// A game that stays, and one that leaves, is no activation; the layers go on as they are.
pub proof fn law_leaving_is_no_activation(previous: Option<u32>)
    ensures
        !activated(previous, None),
        !activated(previous, previous),
{
}

/// A game that became the active one is brought to the top, faded out, on that very tick.
pub proof fn law_activation_reclaims(
    last_live: Option<u64>,
    last_game: Option<u32>,
    pid: u32,
    now: u64,
)
    requires
        last_game != Some(pid),
    ensures
        ticked(last_live, last_game, true, Some(pid), now).0 == ShmTick::ReclaimAll(FADED_OUT),
{
}

/// A game that was here and has been gone for the grace is let lapse, on that tick and on every later
/// one until a game connects.
pub proof fn law_gone_game_lapses(last_live: u64, last_game: Option<u32>, now: u64, later: u64)
    requires
        now - last_live >= SHM_FADE_GRACE_MS,
        later >= now,
    ensures
        ticked(Some(last_live), last_game, false, None, now).0 == ShmTick::Lapse,
        ticked(
            ticked(Some(last_live), last_game, false, None, now).1,
            ticked(Some(last_live), last_game, false, None, now).2,
            false,
            None,
            later,
        ).0 == ShmTick::Lapse,
{
}

} // verus!
