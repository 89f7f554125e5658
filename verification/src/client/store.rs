//! The chunk store: which chunk coordinates have been asked for, and which
//! chunks are held.

use vstd::prelude::*;
use std::collections::HashMap;
use vstd::std_specs::iter::IteratorSpec;
use crate::client::chunk::{Chunk, SlotView, WorldView};
use crate::coords::{
    chunk_key, coord_in_range, key_coord, key_in_range, key_of, lemma_key_injective, lemma_key_round_trip,
    ChunkCoord,
};

verus! {

/// Presence state of one chunk coordinate.
pub enum ChunkWaiter {
    /// Asked for at the given time (in milliseconds), not yet received.
    Pending(u64),
    Resident(Chunk),
}

impl View for ChunkWaiter {
    type V = SlotView;

    open spec fn view(&self) -> SlotView {
        match self {
            ChunkWaiter::Pending(sent_at) => SlotView::Pending(*sent_at),
            ChunkWaiter::Resident(chunk) => SlotView::Resident(chunk@),
        }
    }
}

/// Validity of a store's content: coordinates fit in 32 bits, and a held
/// chunk is valid and sits at its own coordinate.
pub open spec fn world_wf(world: WorldView) -> bool {
    forall|c: ChunkCoord| #[trigger]
        world.contains_key(c) ==> {
            &&& coord_in_range(c)
            &&& world[c] matches SlotView::Resident(chunk) ==> chunk.wf() && chunk.coord == c
        }
}

/// A chunk coordinate as the store's view names it.
pub open spec fn coord_view(c: (i32, i32, i32)) -> ChunkCoord {
    (c.0 as int, c.1 as int, c.2 as int)
}

/// A list of chunk coordinates as the store's view names them.
pub open spec fn coord_views(coords: Seq<(i32, i32, i32)>) -> Seq<ChunkCoord> {
    coords.map_values(|c: (i32, i32, i32)| coord_view(c))
}

/// The slot of each chunk coordinate that has one.
pub struct ChunkStore {
    slots: HashMap<u128, ChunkWaiter>,
}

impl View for ChunkStore {
    type V = WorldView;

    closed spec fn view(&self) -> WorldView {
        Map::new(
            |c: ChunkCoord| coord_in_range(c) && self.slots@.contains_key(key_of(c) as u128),
            |c: ChunkCoord| self.slots@[key_of(c) as u128]@,
        )
    }
}

impl ChunkStore {
    /// Validity: the content is valid, see [`world_wf`], and every slot
    /// belongs to a coordinate.
    pub closed spec fn wf(&self) -> bool {
        &&& world_wf(self@)
        &&& forall|k: u128| #[trigger] self.slots@.contains_key(k) ==> key_in_range(k as int)
    }

    /// A valid store has valid content.
    pub proof fn lemma_wf(&self)
        requires
            self.wf(),
        ensures
            world_wf(self@),
    {
    }

    /// The store holds no slot for a coordinate that does not fit in 32
    /// bits.
    pub proof fn lemma_coords_in_range(&self)
        ensures
            forall|c: ChunkCoord| #[trigger] self@.contains_key(c) ==> coord_in_range(c),
    {
    }

    /// A store without slots.
    pub fn new() -> (store: ChunkStore)
        ensures
            store.wf(),
            store@ == Map::<ChunkCoord, SlotView>::empty(),
    {
        let store = ChunkStore { slots: HashMap::new() };
        assert(store@ =~= Map::<ChunkCoord, SlotView>::empty());
        store
    }

    /// The slot of a coordinate, if it has one.
    pub fn get(&self, x: i32, y: i32, z: i32) -> (slot: Option<&ChunkWaiter>)
        ensures
            slot is Some <==> self@.contains_key((x as int, y as int, z as int)),
            slot matches Some(s) ==> self@[(x as int, y as int, z as int)] == s@,
    {
        broadcast use vstd::std_specs::hash::group_hash_axioms;
        let key: u128 = chunk_key(x, y, z);
        self.slots.get(&key)
    }
    /// Whether the coordinate has a slot.
    pub fn contains(&self, x: i32, y: i32, z: i32) -> (held: bool)
        ensures
            held == self@.contains_key((x as int, y as int, z as int)),
    {
        broadcast use vstd::std_specs::hash::group_hash_axioms;
        let key: u128 = chunk_key(x, y, z);
        self.slots.contains_key(&key)
    }

    /// Puts a slot at a coordinate, in place of the one that was there.
    pub(crate) fn put(&mut self, x: i32, y: i32, z: i32, slot: ChunkWaiter)
        requires
            old(self).wf(),
            slot matches ChunkWaiter::Resident(chunk) ==> chunk.wf() && chunk@.coord == (
                x as int,
                y as int,
                z as int,
            ),
        ensures
            final(self).wf(),
            final(self)@ == old(self)@.insert((x as int, y as int, z as int), slot@),
    {
        broadcast use vstd::std_specs::hash::group_hash_axioms;
        let key: u128 = chunk_key(x, y, z);
        let ghost c: ChunkCoord = (x as int, y as int, z as int);
        let ghost view = slot@;
        self.slots.insert(key, slot);
        proof {
            assert forall|d: ChunkCoord| coord_in_range(d) && d != c implies key_of(d) as u128
                != key by {
                lemma_key_round_trip(d);
                if key_of(d) == key_of(c) {
                    lemma_key_injective(c, d);
                }
            }
            assert(self@ =~= old(self)@.insert(c, view));
        }
    }

    /// Takes the slot of a coordinate out of the store.
    pub(crate) fn take(&mut self, x: i32, y: i32, z: i32) -> (slot: Option<ChunkWaiter>)
        requires
            old(self).wf(),
        ensures
            final(self).wf(),
            final(self)@ == old(self)@.remove((x as int, y as int, z as int)),
            slot is Some <==> old(self)@.contains_key((x as int, y as int, z as int)),
            slot matches Some(s) ==> {
                &&& s@ == old(self)@[(x as int, y as int, z as int)]
                &&& s matches ChunkWaiter::Resident(chunk) ==> chunk.wf() && chunk@.coord == (
                    x as int,
                    y as int,
                    z as int,
                )
            },
    {
        broadcast use vstd::std_specs::hash::group_hash_axioms;
        let key: u128 = chunk_key(x, y, z);
        let ghost c: ChunkCoord = (x as int, y as int, z as int);
        let slot = self.slots.remove(&key);
        proof {
            assert forall|d: ChunkCoord| coord_in_range(d) && d != c implies key_of(d) as u128
                != key by {
                lemma_key_round_trip(d);
                if key_of(d) == key_of(c) {
                    lemma_key_injective(c, d);
                }
            }
            assert(self@ =~= old(self)@.remove(c));
            if slot is Some {
                assert(old(self)@.contains_key(c));
            }
        }
        slot
    }
    /// The coordinates that have a slot, each once, in no particular order.
    pub fn coords(&self) -> (coords: Vec<(i32, i32, i32)>)
        requires
            self.wf(),
        ensures
            coord_views(coords@).no_duplicates(),
            forall|c: ChunkCoord| self@.contains_key(c) <==> coord_views(coords@).contains(c),
    {
        broadcast use vstd::std_specs::hash::group_hash_axioms;
        let ghost keys = self.slots.keys().remaining().unref();
        let mut coords: Vec<(i32, i32, i32)> = Vec::new();
        for k in it: self.slots.keys()
            invariant
                self.wf(),
                it.seq().unref() == keys,
                keys.to_set() == self.slots@.dom(),
                keys.no_duplicates(),
                coords.len() == it.index(),
                forall|i: int|
                    0 <= i < coords.len() ==> key_of(#[trigger] coord_views(coords@)[i]) == keys[i],
        {
            let ghost done = coords@;
            assert(*k == keys[done.len() as int]);
            assert(keys.to_set().contains(*k));
            let c = key_coord(*k);
            coords.push(c);
            assert forall|i: int| 0 <= i < coords.len() implies key_of(
                #[trigger] coord_views(coords@)[i],
            ) == keys[i] by {
                if i < done.len() {
                    assert(coord_views(coords@)[i] == coord_views(done)[i]);
                }
            }
        }
        proof {
            let views = coord_views(coords@);
            assert forall|i: int, j: int| 0 <= i < views.len() && 0 <= j < views.len() && i != j implies views[i] != views[j] by {
                assert(key_of(views[i]) == keys[i]);
                assert(key_of(views[j]) == keys[j]);
            }
            assert forall|c: ChunkCoord| self@.contains_key(c) implies views.contains(c) by {
                let k = key_of(c) as u128;
                lemma_key_round_trip(c);
                assert(keys.to_set().contains(k));
                let i = choose|i: int| 0 <= i < keys.len() && keys[i] == k;
                assert(key_of(views[i]) == keys[i]);
                lemma_key_injective(views[i], c);
            }
            assert forall|c: ChunkCoord| views.contains(c) implies self@.contains_key(c) by {
                let i = choose|i: int| 0 <= i < views.len() && views[i] == c;
                assert(key_of(views[i]) == keys[i]);
                assert(keys.to_set().contains(keys[i]));
            }
        }
        coords
    }
}

} // verus!
