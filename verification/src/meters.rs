//! The latches of a level meter, counted in updates: how long its clip lamp stays lit and when its
//! held peak begins to fall. The levels themselves are the caller's.

use vstd::prelude::*;

verus! {

/// For how many updates a hit keeps the lamp lit, the one of the hit counted in: two seconds at
/// thirty updates a second.
pub const CLIP_UPDATES: u32 = 60;

/// For how many updates a peak is held before it falls: a second.
pub const HOLD_UPDATES: u32 = 30;

/// The clip lamp.
#[derive(Clone, Copy, Debug, PartialEq, Eq, Structural)]
pub struct ClipLamp {
    /// The updates for which it is still lit.
    pub left: u32,
}

/// For how many updates the lamp is still lit after one more.
pub open spec fn clip_next(left: nat, hit: bool) -> nat {
    if hit {
        CLIP_UPDATES as nat
    } else if left == 0 {
        0
    } else {
        (left - 1) as nat
    }
}

/// For how many updates the lamp is still lit, from the updates since it was made.
pub open spec fn clip_left(hits: Seq<bool>) -> nat
    decreases hits.len(),
{
    if hits.len() == 0 {
        0
    } else {
        clip_next(clip_left(hits.drop_last()), hits.last())
    }
}

impl ClipLamp {
    /// A lamp that saw nothing yet: dark.
    pub fn new() -> (r: Self)
        ensures
            r.left == 0,
    {
        ClipLamp { left: 0 }
    }

    /// One update; `hit` says that the level came close to the most there is.
    pub fn update(&mut self, hit: bool)
        ensures
            final(self).left == clip_next(old(self).left as nat, hit),
    {
        if hit {
            self.left = CLIP_UPDATES;
        } else if self.left > 0 {
            self.left = self.left - 1;
        }
    }

    /// Whether the lamp is lit.
    pub fn lit(&self) -> (r: bool)
        ensures
            r == (self.left > 0),
    {
        self.left > 0
    }
}

/// The held peak.
#[derive(Clone, Copy, Debug, PartialEq, Eq, Structural)]
pub struct PeakHold {
    /// The updates since the level last reached the peak.
    pub age: u32,
}

impl PeakHold {
    /// A peak just reached.
    pub fn new() -> (r: Self)
        ensures
            r.age == 0,
    {
        PeakHold { age: 0 }
    }

    /// One update; `reached` says that the level reached the peak. Whether the peak falls.
    pub fn update(&mut self, reached: bool) -> (falls: bool)
        ensures
            final(self).age == if reached {
                0
            } else if old(self).age == u32::MAX {
                u32::MAX as int
            } else {
                old(self).age + 1
            },
            falls == (final(self).age > HOLD_UPDATES),
    {
        if reached {
            self.age = 0;
        } else {
            self.age = self.age.saturating_add(1);
        }
        self.age > HOLD_UPDATES
    }
}

/// The lamp is lit exactly where one of the last sixty updates was a hit; so it is dark before the
/// first hit.
pub proof fn law_lamp_shows_recent_hits(hits: Seq<bool>)
    ensures
        clip_left(hits) > 0 <==> exists|i: int|
            0 <= i < hits.len() && hits.len() - CLIP_UPDATES <= i && #[trigger] hits[i],
{
    lemma_last_hit(hits);
}

/// The last hit fixes for how long the lamp is lit.
proof fn lemma_last_hit(hits: Seq<bool>)
    ensures
        clip_left(hits) <= CLIP_UPDATES,
        clip_left(hits) > 0 ==> {
            let i = hits.len() + clip_left(hits) - CLIP_UPDATES - 1;
            0 <= i < hits.len() && hits[i]
        },
        forall|i: int|
            0 <= i < hits.len() && #[trigger] hits[i] ==> clip_left(hits) >= CLIP_UPDATES - (hits.len()
                - 1 - i),
    decreases hits.len(),
{
    if hits.len() > 0 {
        let before = hits.drop_last();
        lemma_last_hit(before);
        assert forall|i: int| 0 <= i < hits.len() && #[trigger] hits[i] implies clip_left(hits)
            >= CLIP_UPDATES - (hits.len() - 1 - i) by {
            if i < before.len() {
                assert(before[i]);
            }
        }
    }
}

} // verus!
