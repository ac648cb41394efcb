//! The pool of receive buffers that is registered with the kernel ring.
//!
//! The pool is one contiguous mapping of `capacity * slot_size` bytes, cut
//! into slots by id. A slot is either free (in the ring, for the kernel to
//! fill) or lent (selected by the kernel for a receive and not yet handed
//! back). The pool itself owns no memory: it keeps the books, and says where
//! in the mapping each slot lies.

use vstd::prelude::*;
use vstd::set_lib::*;

verus! {

/// Where one slot lies in the pool's mapping.
#[derive(Clone, Copy, Debug, PartialEq, Eq, Structural)]
pub struct Region {
    /// The slot's id.
    pub id: u16,
    /// Offset of the slot's first byte from the start of the mapping.
    pub offset: usize,
    /// Length of the slot in bytes.
    pub len: usize,
}

/// Why the pool refused a request.
#[derive(Clone, Copy, Debug, PartialEq, Eq, Structural)]
pub enum PoolError {
    /// `capacity * slot_size` does not fit the address space.
    MappingTooLarge,
    /// The id is not one of the pool's slots.
    UnknownSlot,
    /// The slot is lent already.
    AlreadyLent,
    /// The slot is not lent.
    NotLent,
}

/// The books of a pool: how many slots of what size, and which are lent.
pub struct PoolModel {
    pub capacity: nat,
    pub slot_size: nat,
    pub lent: Set<int>,
}

impl PoolModel {
    /// All slot ids of the pool.
    pub open spec fn slots(self) -> Set<int> {
        set_int_range(0, self.capacity as int)
    }

    /// The slots that are not lent.
    pub open spec fn free(self) -> Set<int> {
        self.slots().difference(self.lent)
    }

    /// Only slots of the pool are lent, ids fit sixteen bits and the mapping
    /// fits the address space.
    pub open spec fn wf(self) -> bool {
        &&& self.lent.subset_of(self.slots())
        &&& self.capacity <= u16::MAX
        &&& self.capacity * self.slot_size <= usize::MAX
    }

    /// A pool of `capacity` slots, all free.
    pub open spec fn fresh(capacity: nat, slot_size: nat) -> PoolModel {
        PoolModel { capacity, slot_size, lent: Set::empty() }
    }

    /// Length of the mapping in bytes.
    pub open spec fn mapping_len(self) -> nat {
        self.capacity * self.slot_size
    }

    /// Where slot `id` lies.
    pub open spec fn region(self, id: u16) -> Region {
        Region { id, offset: (id * self.slot_size) as usize, len: self.slot_size as usize }
    }

    /// What lending slot `id` answers.
    pub open spec fn lend_outcome(self, id: u16) -> Result<Region, PoolError> {
        if id >= self.capacity {
            Err(PoolError::UnknownSlot)
        } else if self.lent.contains(id as int) {
            Err(PoolError::AlreadyLent)
        } else {
            Ok(self.region(id))
        }
    }

    /// The books after lending slot `id`: unchanged where it is refused.
    pub open spec fn after_lend(self, id: u16) -> PoolModel {
        if self.lend_outcome(id) is Ok {
            PoolModel { lent: self.lent.insert(id as int), ..self }
        } else {
            self
        }
    }

    /// What recycling slot `id` answers.
    pub open spec fn recycle_outcome(self, id: u16) -> Result<Region, PoolError> {
        if id >= self.capacity {
            Err(PoolError::UnknownSlot)
        } else if !self.lent.contains(id as int) {
            Err(PoolError::NotLent)
        } else {
            Ok(self.region(id))
        }
    }

    /// The books after recycling slot `id`: unchanged where it is refused.
    pub open spec fn after_recycle(self, id: u16) -> PoolModel {
        if self.recycle_outcome(id) is Ok {
            PoolModel { lent: self.lent.remove(id as int), ..self }
        } else {
            self
        }
    }
}

/// The pool's books, kept as one flag per slot and a count of the lent ones.
pub struct BufferPool {
    slot_size: usize,
    lent: Vec<bool>,
    lent_count: usize,
}

impl View for BufferPool {
    type V = PoolModel;

    closed spec fn view(&self) -> PoolModel {
        PoolModel {
            capacity: self.lent@.len(),
            slot_size: self.slot_size as nat,
            lent: Set::new(|i: int| 0 <= i < self.lent@.len() && self.lent@[i]),
        }
    }
}

impl BufferPool {
    /// The stored count agrees with the flags.
    pub closed spec fn consistent(&self) -> bool {
        self.lent_count == self@.lent.len()
    }

    /// The pool's invariant.
    pub open spec fn wf(&self) -> bool {
        &&& self.consistent()
        &&& self@.wf()
    }

    /// Lays out `capacity` slots of `slot_size` bytes each, all free. Fails
    /// only where the mapping would not fit the address space.
    pub fn reserve(capacity: u16, slot_size: usize) -> (pool: Result<BufferPool, PoolError>)
        ensures
            match pool {
                Ok(p) => {
                    &&& capacity * slot_size <= usize::MAX
                    &&& p.wf()
                    &&& p@ == PoolModel::fresh(capacity as nat, slot_size as nat)
                },
                Err(e) => e == PoolError::MappingTooLarge && capacity * slot_size > usize::MAX,
            },
    {
        let slots: usize = capacity as usize;
        if slots.checked_mul(slot_size).is_none() {
            return Err(PoolError::MappingTooLarge);
        }
        let mut lent: Vec<bool> = Vec::new();
        let mut filled: usize = 0;
        while filled < slots
            invariant
                filled <= slots,
                lent@.len() == filled,
                forall|i: int| 0 <= i < filled ==> !lent@[i],
            decreases slots - filled,
        {
            lent.push(false);
            filled += 1;
        }
        let pool = BufferPool { slot_size, lent, lent_count: 0 };
        proof {
            assert(pool@.lent =~= Set::<int>::empty());
        }
        Ok(pool)
    }

    /// Number of slots.
    pub fn capacity(&self) -> (n: u16)
        requires
            self.wf(),
        ensures
            n == self@.capacity,
    {
        self.lent.len() as u16
    }

    /// Size of one slot in bytes.
    pub fn slot_size(&self) -> (n: usize)
        ensures
            n == self@.slot_size,
    {
        self.slot_size
    }

    /// Length in bytes of the mapping that backs the pool.
    pub fn mapping_len(&self) -> (n: usize)
        requires
            self.wf(),
        ensures
            n == self@.mapping_len(),
    {
        self.lent.len() * self.slot_size
    }

    /// Number of lent slots.
    pub fn lent_count(&self) -> (n: usize)
        requires
            self.wf(),
        ensures
            n == self@.lent.len(),
    {
        self.lent_count
    }

    /// Number of free slots.
    pub fn free_count(&self) -> (n: usize)
        requires
            self.wf(),
        ensures
            n == self@.free().len(),
            n + self@.lent.len() == self@.capacity,
    {
        proof {
            conservation(self@);
        }
        self.lent.len() - self.lent_count
    }

    /// Whether slot `id` is lent.
    pub fn is_lent(&self, id: u16) -> (lent: bool)
        ensures
            lent == self@.lent.contains(id as int),
    {
        let slot: usize = id as usize;
        slot < self.lent.len() && self.lent[slot]
    }

    /// Whether slot `id` is free.
    pub fn is_free(&self, id: u16) -> (free: bool)
        ensures
            free == self@.free().contains(id as int),
    {
        let slot: usize = id as usize;
        slot < self.lent.len() && !self.lent[slot]
    }

    /// Where slot `id` lies in the mapping, if the pool has such a slot.
    pub fn region(&self, id: u16) -> (region: Option<Region>)
        requires
            self.wf(),
        ensures
            region == if id < self@.capacity {
                Some(self@.region(id))
            } else {
                None::<Region>
            },
            region is Some ==> region.unwrap().offset + region.unwrap().len
                <= self@.mapping_len(),
    {
        let slot: usize = id as usize;
        if slot < self.lent.len() {
            proof {
                region_in_mapping(self@, id);
            }
            Some(Region { id, offset: slot * self.slot_size, len: self.slot_size })
        } else {
            None
        }
    }

    /// Records that the kernel selected slot `id` for a receive. A slot that
    /// is lent already is refused, and so is an id that the pool does not
    /// have; the books then stay as they were.
    pub fn lend(&mut self, id: u16) -> (region: Result<Region, PoolError>)
        requires
            old(self).wf(),
        ensures
            final(self).wf(),
            region == old(self)@.lend_outcome(id),
            final(self)@ == old(self)@.after_lend(id),
    {
        let slot: usize = id as usize;
        if slot >= self.lent.len() {
            return Err(PoolError::UnknownSlot);
        }
        if self.lent[slot] {
            return Err(PoolError::AlreadyLent);
        }
        proof {
            conservation(self@);
            region_in_mapping(self@, id);
        }
        self.lent.set(slot, true);
        self.lent_count = self.lent_count + 1;
        proof {
            assert(self@.lent =~= old(self)@.lent.insert(id as int));
        }
        Ok(Region { id, offset: slot * self.slot_size, len: self.slot_size })
    }

    /// Hands slot `id` back to the ring. Only a lent slot can be recycled;
    /// otherwise the books stay as they were.
    pub fn recycle(&mut self, id: u16) -> (region: Result<Region, PoolError>)
        requires
            old(self).wf(),
        ensures
            final(self).wf(),
            region == old(self)@.recycle_outcome(id),
            final(self)@ == old(self)@.after_recycle(id),
    {
        let slot: usize = id as usize;
        if slot >= self.lent.len() {
            return Err(PoolError::UnknownSlot);
        }
        if !self.lent[slot] {
            return Err(PoolError::NotLent);
        }
        proof {
            conservation(self@);
            region_in_mapping(self@, id);
        }
        self.lent.set(slot, false);
        self.lent_count = self.lent_count - 1;
        proof {
            assert(self@.lent =~= old(self)@.lent.remove(id as int));
        }
        Ok(Region { id, offset: slot * self.slot_size, len: self.slot_size })
    }
}

/// Every slot is either free or lent and never both, so the two counts add
/// up to the capacity.
pub proof fn conservation(pool: PoolModel)
    requires
        pool.wf(),
    ensures
        pool.free().disjoint(pool.lent),
        pool.free().union(pool.lent) == pool.slots(),
        pool.free().finite(),
        pool.lent.finite(),
        pool.free().len() + pool.lent.len() == pool.capacity,
{
    lemma_int_range(0, pool.capacity as int);
    lemma_len_subset(pool.lent, pool.slots());
    lemma_len_subset(pool.free(), pool.slots());
    lemma_set_disjoint_lens(pool.free(), pool.lent);
    assert(pool.free().union(pool.lent) =~= pool.slots());
}

/// Lending and recycling keep the books in order, whether they succeed or
/// are refused.
pub proof fn books_stay_in_order(pool: PoolModel, id: u16)
    requires
        pool.wf(),
    ensures
        pool.after_lend(id).wf(),
        pool.after_recycle(id).wf(),
        pool.after_lend(id).capacity == pool.capacity,
        pool.after_recycle(id).capacity == pool.capacity,
{
}

/// A slot that was lent is refused a second time, until it is recycled:
/// recycling it brings back the books as they were before it was lent.
pub proof fn lent_once_until_recycled(pool: PoolModel, id: u16)
    requires
        pool.wf(),
        pool.lend_outcome(id) is Ok,
    ensures
        pool.after_lend(id).lend_outcome(id) == Err::<Region, PoolError>(PoolError::AlreadyLent),
        pool.after_lend(id).after_lend(id) == pool.after_lend(id),
        pool.after_lend(id).recycle_outcome(id) == pool.lend_outcome(id),
        pool.after_lend(id).after_recycle(id) == pool,
{
    assert(pool.lent.insert(id as int).remove(id as int) =~= pool.lent);
}

/// Only a lent slot is recycled, and a slot is recycled once for each time
/// it was lent.
pub proof fn recycled_once(pool: PoolModel, id: u16)
    requires
        pool.wf(),
        pool.recycle_outcome(id) is Ok,
    ensures
        pool.lend_outcome(id) == Err::<Region, PoolError>(PoolError::AlreadyLent),
        pool.after_recycle(id).recycle_outcome(id) == Err::<Region, PoolError>(
            PoolError::NotLent,
        ),
        pool.after_recycle(id).lend_outcome(id) == pool.recycle_outcome(id),
        pool.after_recycle(id).after_lend(id) == pool,
{
    assert(pool.lent.remove(id as int).insert(id as int) =~= pool.lent);
}

/// Two different slots of a pool do not overlap in the mapping.
pub proof fn slots_do_not_overlap(pool: PoolModel, low: u16, high: u16)
    requires
        pool.wf(),
        low < high < pool.capacity,
    ensures
        pool.region(low).offset + pool.region(low).len <= pool.region(high).offset,
{
    region_in_mapping(pool, low);
    region_in_mapping(pool, high);
    assert(low * pool.slot_size + pool.slot_size <= high * pool.slot_size) by (nonlinear_arith)
        requires
            low < high,
    ;
}

/// A slot of the pool lies inside the mapping, so its offset and end fit the
/// address space.
pub proof fn region_in_mapping(pool: PoolModel, id: u16)
    requires
        pool.wf(),
        id < pool.capacity,
    ensures
        id * pool.slot_size + pool.slot_size <= pool.mapping_len(),
        pool.region(id).offset == id * pool.slot_size,
        pool.region(id).len == pool.slot_size,
{
    assert(id * pool.slot_size + pool.slot_size <= pool.capacity * pool.slot_size)
        by (nonlinear_arith)
        requires
            id < pool.capacity,
    ;
    assert(0 <= id * pool.slot_size) by (nonlinear_arith);
    assert(pool.slot_size <= pool.capacity * pool.slot_size) by (nonlinear_arith)
        requires
            id < pool.capacity,
    ;
}

} // verus!
