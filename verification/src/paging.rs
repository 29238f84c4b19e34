use vstd::prelude::*;

verus! {

/// One range of virtual addresses tied to physical memory.
#[derive(Clone, Copy, Debug, PartialEq, Eq, Structural)]
pub struct Mapping {
    pub phys: usize,
    pub virt: usize,
    pub len: usize,
    pub writable: bool,
    pub user: bool,
}

/// The virtual-memory mappings that a thread owns, in the order in which
/// they were made. The page tables are written from this record.
pub struct PageManager {
    mappings: Vec<Mapping>,
}

impl View for PageManager {
    type V = Seq<Mapping>;

    closed spec fn view(&self) -> Seq<Mapping> {
        self.mappings@
    }
}

impl PageManager {
    /// A page manager without mappings.
    pub fn new() -> (manager: PageManager)
        ensures
            manager@ == Seq::<Mapping>::empty(),
    {
        PageManager { mappings: Vec::new() }
    }

    /// Maps the `len` bytes of virtual addresses from `virt` on to the
    /// physical addresses from `phys` on.
    pub fn map_range(&mut self, phys: usize, virt: usize, len: usize, writable: bool, user: bool)
        ensures
            final(self)@ == old(self)@.push((Mapping { phys, virt, len, writable, user })),
    {
        self.mappings.push(Mapping { phys, virt, len, writable, user });
    }

    /// Number of mappings.
    pub fn len(&self) -> (n: usize)
        ensures
            n == self@.len(),
    {
        self.mappings.len()
    }

    /// The mapping made as number `index`.
    pub fn mapping(&self, index: usize) -> (m: Mapping)
        requires
            index < self@.len(),
        ensures
            m == self@[index as int],
    {
        self.mappings[index]
    }

    /// The mapping that starts at virtual address `virt`: the first one
    /// made, where there are several.
    pub fn find(&self, virt: usize) -> (found: Option<Mapping>)
        ensures
            match found {
                Some(m) => exists|i: int|
                    0 <= i < self@.len() && self@[i] == m && m.virt == virt && forall|k: int|
                        0 <= k < i ==> (#[trigger] self@[k]).virt != virt,
                None => forall|k: int| 0 <= k < self@.len() ==> (#[trigger] self@[k]).virt != virt,
            },
    {
        let mut i: usize = 0;
        while i < self.mappings.len()
            invariant
                i <= self.mappings@.len(),
                forall|k: int| 0 <= k < i ==> (#[trigger] self.mappings@[k]).virt != virt,
            decreases self.mappings@.len() - i,
        {
            if self.mappings[i].virt == virt {
                assert(self@[i as int] == self.mappings@[i as int]);
                return Some(self.mappings[i]);
            }
            i += 1;
        }
        None
    }
}

} // verus!
