//! The cached light values of held chunks: when they may be stored, and
//! when a light that moved makes them stale.

use vstd::prelude::*;
use crate::client::chunk::{chunk_at, is_resident, SlotView, WorldView};
use crate::client::store::{ChunkStore, ChunkWaiter};
use crate::coords::ChunkCoord;

verus! {

/// Whether light values can be stored for the chunk at `c`: the chunk is
/// held, its face list is valid, and there is one value for each face.
pub open spec fn lighting_fits(world: WorldView, c: ChunkCoord, lighting: Seq<u32>) -> bool {
    &&& is_resident(world, c)
    &&& chunk_at(world, c).mesh matches Some(mesh)
    &&& mesh.len() == lighting.len()
}

/// The store after light values for the chunk at `c` have been offered:
/// stored if they fit, discarded otherwise.
pub open spec fn light_spec(world: WorldView, c: ChunkCoord, lighting: Seq<u32>) -> WorldView {
    if lighting_fits(world, c, lighting) {
        world.insert(c, SlotView::Resident(chunk_at(world, c).with_lighting(lighting)))
    } else {
        world
    }
}

/// The chunk behind `c` with its cached light values dropped, if it is
/// held.
pub open spec fn unlight_one(world: WorldView, c: ChunkCoord) -> WorldView {
    if is_resident(world, c) {
        world.insert(c, SlotView::Resident(chunk_at(world, c).without_lighting()))
    } else {
        world
    }
}

/// Whether the chunk at `k` is at most `reach` chunks away from the chunk
/// at `c` along every axis.
pub open spec fn in_reach(c: ChunkCoord, k: ChunkCoord, reach: int) -> bool {
    &&& c.0 - reach <= k.0 <= c.0 + reach
    &&& c.1 - reach <= k.1 <= c.1 + reach
    &&& c.2 - reach <= k.2 <= c.2 + reach
}

/// The store after a light in the chunk at `c` has moved: every held chunk
/// within its reach has lost its cached light values.
pub open spec fn relight_spec(world: WorldView, c: ChunkCoord, reach: int) -> WorldView {
    Map::new(
        |k: ChunkCoord| world.contains_key(k),
        |k: ChunkCoord|
            if in_reach(c, k, reach) && world[k] is Resident {
                SlotView::Resident(chunk_at(world, k).without_lighting())
            } else {
                world[k]
            },
    )
}

/// Whether the chunk at `k` comes before step `(i, j, l)` when the chunks
/// within `reach` of `c` are walked x first, then y, then z.
pub open spec fn reach_before(
    c: ChunkCoord,
    k: ChunkCoord,
    reach: int,
    i: int,
    j: int,
    l: int,
) -> bool {
    let a = k.0 - (c.0 - reach);
    let b = k.1 - (c.1 - reach);
    let d = k.2 - (c.2 - reach);
    in_reach(c, k, reach) && (a < i || (a == i && (b < j || (b == j && d < l))))
}

/// The store when the walk through the chunks within `reach` of `c` has
/// come to step `(i, j, l)`.
pub open spec fn relight_partial(
    world: WorldView,
    c: ChunkCoord,
    reach: int,
    i: int,
    j: int,
    l: int,
) -> WorldView {
    Map::new(
        |k: ChunkCoord| world.contains_key(k),
        |k: ChunkCoord|
            if reach_before(c, k, reach, i, j, l) && world[k] is Resident {
                SlotView::Resident(chunk_at(world, k).without_lighting())
            } else {
                world[k]
            },
    )
}

impl ChunkStore {
    /// The cached light values of the chunk at `(x, y, z)`, if the chunk is
    /// held and its light values are valid.
    pub fn lighting(&self, x: i32, y: i32, z: i32) -> (lighting: Option<&Vec<u32>>)
        ensures
            lighting is Some <==> is_resident(self@, (x as int, y as int, z as int)) && chunk_at(
                self@,
                (x as int, y as int, z as int),
            ).lighting is Some,
            lighting matches Some(l) ==> chunk_at(self@, (x as int, y as int, z as int)).lighting
                == Some(l@),
    {
        match self.get(x, y, z) {
            Some(ChunkWaiter::Resident(chunk)) => chunk.lighting(),
            _ => None,
        }
    }

    /// Stores the light values computed for the face list of the chunk at
    /// `(x, y, z)`. They are stored, and `true` is returned, only if the
    /// chunk is held, its face list is valid and there is one value for
    /// each face: light values are computed from a face list, never before
    /// it.
    pub fn install_lighting(&mut self, x: i32, y: i32, z: i32, lighting: Vec<u32>) -> (stored:
        bool)
        requires
            old(self).wf(),
        ensures
            final(self).wf(),
            final(self)@ == light_spec(old(self)@, (x as int, y as int, z as int), lighting@),
            stored == lighting_fits(old(self)@, (x as int, y as int, z as int), lighting@),
    {
        let fits: bool = match self.get(x, y, z) {
            Some(ChunkWaiter::Resident(chunk)) => match chunk.mesh() {
                Some(mesh) => mesh.len() == lighting.len(),
                None => false,
            },
            _ => false,
        };
        if !fits {
            return false;
        }
        proof {
            self.lemma_wf();
        }
        match self.take(x, y, z) {
            Some(ChunkWaiter::Resident(mut chunk)) => {
                chunk.set_lighting(lighting);
                self.put(x, y, z, ChunkWaiter::Resident(chunk));
            },
            _ => {},
        }
        true
    }

    /// Drops the cached light values of the chunk at a coordinate, if the
    /// chunk is held. The coordinate may lie outside the range that the
    /// store can hold.
    fn unlight_at(&mut self, x: i64, y: i64, z: i64)
        requires
            old(self).wf(),
        ensures
            final(self).wf(),
            final(self)@ == unlight_one(old(self)@, (x as int, y as int, z as int)),
    {
        if x < i32::MIN as i64 || x > i32::MAX as i64 || y < i32::MIN as i64 || y > i32::MAX as i64
            || z < i32::MIN as i64 || z > i32::MAX as i64 {
            proof {
                self.lemma_coords_in_range();
            }
            return ;
        }
        let resident: bool = match self.get(x as i32, y as i32, z as i32) {
            Some(ChunkWaiter::Resident(_)) => true,
            _ => false,
        };
        if resident {
            proof {
                self.lemma_wf();
            }
            match self.take(x as i32, y as i32, z as i32) {
                Some(ChunkWaiter::Resident(mut chunk)) => {
                    chunk.invalidate_lighting();
                    self.put(x as i32, y as i32, z as i32, ChunkWaiter::Resident(chunk));
                    assert(self@ =~= unlight_one(old(self)@, (x as int, y as int, z as int)));
                },
                _ => {},
            }
        }
    }

    /// Makes stale what a moved light may have lit: drops the cached light
    /// values of every held chunk that is at most `reach` chunks away from
    /// the chunk at `(x, y, z)` along every axis. Only the chunks within
    /// that reach are looked at.
    pub fn invalidate_lighting(&mut self, x: i32, y: i32, z: i32, reach: u32)
        requires
            old(self).wf(),
        ensures
            final(self).wf(),
            final(self)@ == relight_spec(old(self)@, (x as int, y as int, z as int), reach as int),
    {
        let ghost world = self@;
        let ghost c: ChunkCoord = (x as int, y as int, z as int);
        let ghost r = reach as int;
        let side: i64 = 2 * (reach as i64) + 1;
        let mut i: i64 = 0;
        proof {
            assert(self@ =~= relight_partial(world, c, r, 0, 0, 0));
        }
        while i < side
            invariant
                self.wf(),
                side == 2 * r + 1,
                r == reach as int,
                0 <= i <= side,
                c == (x as int, y as int, z as int),
                self@ == relight_partial(world, c, r, i as int, 0, 0),
            decreases side - i,
        {
            let mut j: i64 = 0;
            while j < side
                invariant
                    self.wf(),
                    side == 2 * r + 1,
                    r == reach as int,
                    0 <= i < side,
                    0 <= j <= side,
                    c == (x as int, y as int, z as int),
                    self@ == relight_partial(world, c, r, i as int, j as int, 0),
                decreases side - j,
            {
                let mut l: i64 = 0;
                while l < side
                    invariant
                        self.wf(),
                        side == 2 * r + 1,
                        r == reach as int,
                        0 <= i < side,
                        0 <= j < side,
                        0 <= l <= side,
                        c == (x as int, y as int, z as int),
                        self@ == relight_partial(world, c, r, i as int, j as int, l as int),
                    decreases side - l,
                {
                    let ghost k: ChunkCoord = (x - r + i, y - r + j, z - r + l);
                    self.unlight_at(
                        x as i64 - reach as i64 + i,
                        y as i64 - reach as i64 + j,
                        z as i64 - reach as i64 + l,
                    );
                    proof {
                        let (ii, jj, ll) = (i as int, j as int, l as int);
                        assert forall|d: ChunkCoord| reach_before(c, d, r, ii, jj, ll + 1) <==> (
                        reach_before(c, d, r, ii, jj, ll) || d == k) by {}
                        assert(!reach_before(c, k, r, ii, jj, ll));
                        assert(self@ =~= relight_partial(world, c, r, ii, jj, ll + 1));
                    }
                    l = l + 1;
                }
                proof {
                    let (ii, jj) = (i as int, j as int);
                    assert forall|d: ChunkCoord| reach_before(c, d, r, ii, jj, side as int)
                        <==> reach_before(c, d, r, ii, jj + 1, 0) by {}
                    assert(relight_partial(world, c, r, ii, jj, side as int) =~= relight_partial(
                        world,
                        c,
                        r,
                        ii,
                        jj + 1,
                        0,
                    ));
                }
                j = j + 1;
            }
            proof {
                let ii = i as int;
                assert forall|d: ChunkCoord| reach_before(c, d, r, ii, side as int, 0)
                    <==> reach_before(c, d, r, ii + 1, 0, 0) by {}
                assert(relight_partial(world, c, r, ii, side as int, 0) =~= relight_partial(
                    world,
                    c,
                    r,
                    ii + 1,
                    0,
                    0,
                ));
            }
            i = i + 1;
        }
        proof {
            assert forall|d: ChunkCoord| reach_before(c, d, r, side as int, 0, 0) <==> in_reach(
                c,
                d,
                r,
            ) by {}
            assert(self@ =~= relight_spec(world, c, r));
        }
    }
}

} // verus!
