//! Thread ids.

use vstd::prelude::*;

verus! {

/// Hands out thread ids, the smallest unused one unless an id was given back.
pub struct RecycleAllocator {
    /// The smallest id never handed out.
    pub current: usize,
    /// Ids that were given back, the latest last.
    pub recycled: Vec<usize>,
}

impl RecycleAllocator {
    /// Every id that was given back was handed out before.
    pub open spec fn wf(&self) -> bool {
        forall|i: int| 0 <= i < self.recycled@.len() ==> self.recycled@[i] < self.current
    }

    /// An allocator that has handed out nothing.
    pub fn new() -> (a: RecycleAllocator)
        ensures
            a.current == 0,
            a.recycled@ == Seq::<usize>::empty(),
            a.wf(),
    {
        RecycleAllocator { current: 0, recycled: Vec::new() }
    }

    /// The id given back last, or else the smallest id never handed out.
    pub fn alloc_id(&mut self) -> (id: usize)
        requires
            old(self).recycled@.len() == 0 ==> old(self).current < usize::MAX,
        ensures
            old(self).recycled@.len() > 0 ==> {
                &&& id == old(self).recycled@.last()
                &&& final(self).recycled@ == old(self).recycled@.drop_last()
                &&& final(self).current == old(self).current
            },
            old(self).recycled@.len() == 0 ==> {
                &&& id == old(self).current
                &&& final(self).recycled@ == old(self).recycled@
                &&& final(self).current == old(self).current + 1
            },
            old(self).wf() ==> final(self).wf() && id < final(self).current,
    {
        match self.recycled.pop() {
            Some(id) => id,
            None => {
                self.current += 1;
                self.current - 1
            },
        }
    }

    /// Takes back `id`, which was handed out and is not free already.
    pub fn dealloc_id(&mut self, id: usize)
        requires
            id < old(self).current,
            !old(self).recycled@.contains(id),
        ensures
            final(self).recycled@ == old(self).recycled@.push(id),
            final(self).current == old(self).current,
            old(self).wf() ==> final(self).wf(),
    {
        self.recycled.push(id);
    }
}

} // verus!
