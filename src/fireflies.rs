//! The live flock: population control, per-frame updates, and separating
//! the fireflies that reached a goal from those still flying.
use vstd::prelude::*;
use crate::firefly::{movement, players_ok, Firefly, MAX_COUNT};
use crate::player::Player;
use crate::random::{random_range, Random};
use crate::world::{World, WorldView};

verus! {

/// Chance in a hundred, per frame, that a new firefly appears.
pub const SPAWN_CHANCE: u32 = 10;

/// The firefly is attracted and sits in a goal tile.
pub open spec fn collectible(f: Firefly, w: WorldView) -> bool {
    f.attracted_to.is_some() && w.in_goal(f.position)
}

/// The fireflies of `s` that are collectible, in order.
pub open spec fn collected(s: Seq<Firefly>, w: WorldView) -> Seq<Firefly>
    decreases s.len(),
{
    if s.len() == 0 {
        seq![]
    } else if collectible(s.last(), w) {
        collected(s.drop_last(), w).push(s.last())
    } else {
        collected(s.drop_last(), w)
    }
}

/// The fireflies of `s` that are not collectible, in order.
pub open spec fn remaining(s: Seq<Firefly>, w: WorldView) -> Seq<Firefly>
    decreases s.len(),
{
    if s.len() == 0 {
        seq![]
    } else if collectible(s.last(), w) {
        remaining(s.drop_last(), w)
    } else {
        remaining(s.drop_last(), w).push(s.last())
    }
}

pub open spec fn flock_ok(s: Seq<Firefly>) -> bool {
    forall|i: int| 0 <= i < s.len() ==> (#[trigger] s[i]).wf()
}

proof fn lemma_split_ok(s: Seq<Firefly>, w: WorldView)
    requires
        flock_ok(s),
    ensures
        flock_ok(collected(s, w)),
        flock_ok(remaining(s, w)),
        collected(s, w).len() + remaining(s, w).len() == s.len(),
    decreases s.len(),
{
    if s.len() > 0 {
        assert(flock_ok(s.drop_last()));
        lemma_split_ok(s.drop_last(), w);
        assert(s.last().wf());
    }
}

proof fn lemma_split_sorted(s: Seq<Firefly>, w: WorldView)
    ensures
        forall|i: int| 0 <= i < collected(s, w).len() ==> collectible(#[trigger] collected(s, w)[i], w),
        forall|i: int| 0 <= i < remaining(s, w).len() ==> !collectible(#[trigger] remaining(s, w)[i], w),
    decreases s.len(),
{
    if s.len() > 0 {
        let t = s.drop_last();
        lemma_split_sorted(t, w);
        assert forall|i: int| 0 <= i < collected(s, w).len() implies collectible(
            #[trigger] collected(s, w)[i],
            w,
        ) by {
            if collectible(s.last(), w) && i < collected(t, w).len() {
                assert(collected(s, w)[i] == collected(t, w)[i]);
            }
        }
        assert forall|i: int| 0 <= i < remaining(s, w).len() implies !collectible(
            #[trigger] remaining(s, w)[i],
            w,
        ) by {
            if !collectible(s.last(), w) && i < remaining(t, w).len() {
                assert(remaining(s, w)[i] == remaining(t, w)[i]);
            }
        }
    }
}

/// `after` is `before` one frame on, for some state of the generator; the
/// trail particles aside.
pub open spec fn moved_on(before: Firefly, after: Firefly, w: WorldView, players: Seq<Player>) -> bool {
    exists|s: u32|
        (Firefly { particles: after.particles, ..#[trigger] movement(before, w, players, s).0 })
            == after
}

/// `moved` is the flock `before` one frame on: each firefly moved on, and
/// perhaps one newcomer at the end.
pub open spec fn flock_moved_on(
    before: Seq<Firefly>,
    moved: Seq<Firefly>,
    w: WorldView,
    players: Seq<Player>,
) -> bool {
    &&& moved.len() == before.len() || (moved.len() == before.len() + 1 && before.len() < MAX_COUNT)
    &&& forall|i: int| 0 <= i < before.len() ==> moved_on(before[i], #[trigger] moved[i], w, players)
}

pub struct Fireflies {
    pub fireflies: Vec<Firefly>,
}

impl Fireflies {
    pub open spec fn wf(&self) -> bool {
        flock_ok(self.fireflies@) && self.fireflies@.len() <= MAX_COUNT
    }

    pub fn new() -> (r: Fireflies)
        ensures
            r.wf(),
            r.fireflies@.len() == 0,
    {
        Fireflies { fireflies: Vec::new() }
    }

    pub fn should_collect_firefly(firefly: &Firefly, world: &World) -> (r: bool)
        requires
            world@.wf(),
        ensures
            r == collectible(*firefly, world@),
    {
        firefly.attracted_to.is_some() && firefly.is_in_goal(world)
    }

    /// Takes out the collectible fireflies, in order, and keeps the others,
    /// in order.
    fn collect_fireflies(&mut self, world: &World) -> (r: Vec<Firefly>)
        requires
            world@.wf(),
            flock_ok(old(self).fireflies@),
        ensures
            final(self).fireflies@ == remaining(old(self).fireflies@, world@),
            r@ == collected(old(self).fireflies@, world@),
            flock_ok(final(self).fireflies@),
            flock_ok(r@),
            final(self).fireflies@.len() + r@.len() == old(self).fireflies@.len(),
    {
        let ghost start = self.fireflies@;
        let mut kept: Vec<Firefly> = Vec::new();
        let mut removed: Vec<Firefly> = Vec::new();
        let mut rest: Vec<Firefly> = Vec::new();
        std::mem::swap(&mut rest, &mut self.fireflies);
        assert(rest@ =~= start.subrange(0, start.len() as int));
        let n = rest.len();
        let mut k: usize = 0;
        while k < n
            invariant
                world@.wf(),
                n == start.len(),
                k <= n,
                rest@ =~= start.subrange(k as int, n as int),
                kept@ == remaining(start.subrange(0, k as int), world@),
                removed@ == collected(start.subrange(0, k as int), world@),
            decreases n - k,
        {
            proof {
                assert(start.subrange(0, k as int + 1).drop_last() =~= start.subrange(0, k as int));
            }
            let f = rest.remove(0);
            assert(f == start[k as int]);
            if Self::should_collect_firefly(&f, world) {
                removed.push(f);
            } else {
                kept.push(f);
            }
            k = k + 1;
        }
        proof {
            assert(start.subrange(0, n as int) =~= start);
            lemma_split_ok(start, world@);
        }
        self.fireflies = kept;
        removed
    }

    /// One frame: perhaps a new firefly while below the cap, then every
    /// firefly moves; returns the ones collected this frame.
    pub fn update(&mut self, world: &World, players: &Vec<Player>, rng: &mut Random) -> (r: Vec<
        Firefly,
    >)
        requires
            old(self).wf(),
            world@.wf(),
            players_ok(players@),
        ensures
            final(self).wf(),
            exists|moved: Seq<Firefly>|
                flock_moved_on(old(self).fireflies@, moved, world@, players@) && r@ == #[trigger] collected(
                    moved,
                    world@,
                ) && final(self).fireflies@ == remaining(moved, world@),
            forall|i: int| 0 <= i < r@.len() ==> collectible(#[trigger] r@[i], world@),
            forall|i: int|
                0 <= i < final(self).fireflies@.len() ==> !collectible(
                    #[trigger] final(self).fireflies@[i],
                    world@,
                ),
            flock_ok(r@),
    {
        let ghost before = self.fireflies@;
        if self.fireflies.len() < MAX_COUNT && random_range(rng, 0, 100) < SPAWN_CHANCE {
            match Firefly::new_random(world, rng) {
                Some(f) => {
                    self.fireflies.push(f);
                },
                None => {},
            }
        }
        let ghost spawned = self.fireflies@;
        assert(spawned.len() == before.len() || (spawned.len() == before.len() + 1 && before.len()
            < MAX_COUNT));
        assert(forall|i: int| 0 <= i < before.len() ==> spawned[i] == before[i]);
        let n = self.fireflies.len();
        let mut i: usize = 0;
        while i < n
            invariant
                world@.wf(),
                players_ok(players@),
                n == self.fireflies@.len() == spawned.len() <= MAX_COUNT,
                i <= n,
                flock_ok(self.fireflies@),
                forall|j: int| i <= j < n ==> #[trigger] self.fireflies@[j] == spawned[j],
                forall|j: int|
                    0 <= j < i ==> moved_on(spawned[j], #[trigger] self.fireflies@[j], world@, players@),
            decreases n - i,
        {
            let mut f = self.fireflies.remove(i);
            let ghost s = rng.state;
            let ghost f0 = f;
            f.update(world, players, rng);
            assert(moved_on(f0, f, world@, players@)) by {
                assert((Firefly { particles: f.particles, ..movement(f0, world@, players@, s).0 }) == f);
            }
            self.fireflies.insert(i, f);
            i = i + 1;
        }
        assert(flock_moved_on(before, self.fireflies@, world@, players@)) by {
            assert forall|j: int| 0 <= j < before.len() implies moved_on(
                before[j],
                #[trigger] self.fireflies@[j],
                world@,
                players@,
            ) by {
                assert(spawned[j] == before[j]);
            }
        }
        let ghost moved = self.fireflies@;
        let r = self.collect_fireflies(world);
        proof {
            lemma_split_sorted(moved, world@);
        }
        r
    }
}

} // verus!
