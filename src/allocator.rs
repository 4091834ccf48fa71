//! The front-allocator capability and the restocking allocator that grows a
//! front allocator's memory from the firmware on demand.
use vstd::prelude::*;
use vstd::multiset::Multiset;

use crate::boot_services::{
    descriptor_extent, disjoint_from_all, extent_of_pages, overlaps_any, page_extent, pages_for, page_count,
    AllocateType, FirmwareAvailability, MemoryDescriptor, MemoryExtent, MemoryType, PAGE_SIZE,
};
use crate::protocol::Error;

verus! {

/// A flat, unmapped physical address.
#[derive(Copy, Clone, Debug, PartialEq, Eq, Structural)]
pub struct PhysicalAddress(pub u64);

/// Alignments this library serves: the powers of two up to a page.
pub open spec fn valid_align(a: usize) -> bool {
    a == 1 || a == 2 || a == 4 || a == 8 || a == 16 || a == 32 || a == 64 || a == 128 || a == 256
        || a == 512 || a == 1024 || a == 2048 || a == 4096
}

/// An allocation request: a size in bytes and a valid alignment.
#[derive(Copy, Clone, Debug, PartialEq, Eq)]
pub struct Layout {
    size: usize,
    align: usize,
}

impl Layout {
    #[verifier::type_invariant]
    spec fn inv(self) -> bool {
        valid_align(self.align)
    }

    pub closed spec fn size_spec(&self) -> usize {
        self.size
    }

    pub closed spec fn align_spec(&self) -> usize {
        self.align
    }

    /// The layout of `size` bytes at `align`, when `align` is a power of two
    /// no greater than a page.
    pub fn from_size_align(size: usize, align: usize) -> (r: Option<Layout>)
        ensures
            r is Some <==> valid_align(align),
            r matches Some(l) ==> l.size_spec() == size && l.align_spec() == align,
    {
        if align == 1 || align == 2 || align == 4 || align == 8 || align == 16 || align == 32
            || align == 64 || align == 128 || align == 256 || align == 512 || align == 1024
            || align == 2048 || align == 4096 {
            Some(Layout { size, align })
        } else {
            None
        }
    }

    #[verifier::when_used_as_spec(size_spec)]
    pub fn size(&self) -> (r: usize)
        ensures
            r == self.size_spec(),
    {
        self.size
    }

    #[verifier::when_used_as_spec(align_spec)]
    pub fn align(&self) -> (r: usize)
        ensures
            r == self.align_spec(),
            valid_align(r),
    {
        proof {
            use_type_invariant(self);
        }
        self.align
    }
}

/// Whether the `n` bytes from `a` and the `m` bytes from `b` share a byte.
pub open spec fn ranges_overlap(a: int, n: int, b: int, m: int) -> bool {
    a < b + m && b < a + n
}

/// The front allocator could not satisfy a request.
#[derive(Copy, Clone, Debug, PartialEq, Eq, Structural)]
pub enum AllocErr {
    OutOfMemory,
}

/// A capacity-limited allocator that serves requests only from memory it has
/// been given. It never calls the firmware itself.
pub trait FrontAllocator: Sized {
    /// The allocator's internal consistency.
    spec fn inv(&self) -> bool;

    /// The extents donated so far, in order of donation.
    spec fn fed(&self) -> Seq<MemoryExtent>;

    /// The allocations handed out and not yet released.
    spec fn live(&self) -> Multiset<(u64, Layout)>;

    /// Whether `allocate(layout)` succeeds from the memory held now.
    spec fn can_serve(&self, layout: Layout) -> bool;

    /// Serves `layout`: on success, an address aligned to it whose bytes lie
    /// in one donated extent. A failure leaves the allocator as it was.
    fn allocate(&mut self, layout: Layout) -> (r: Result<u64, AllocErr>)
        requires
            old(self).inv(),
        ensures
            final(self).inv(),
            r is Ok <==> old(self).can_serve(layout),
            r is Err ==> *final(self) == *old(self),
            final(self).fed() == old(self).fed(),
            r matches Ok(p) ==> {
                &&& final(self).live() == old(self).live().insert((p, layout))
                &&& p as int % layout.align_spec() as int == 0
                &&& forall|q: (u64, Layout)|
                    #[trigger] old(self).live().contains(q) ==> !ranges_overlap(
                        p as int,
                        layout.size_spec() as int,
                        q.0 as int,
                        q.1.size_spec() as int,
                    )
                &&& exists|i: int|
                    0 <= i < old(self).fed().len() && (#[trigger] old(self).fed()[i]).contains_range(
                        p as int,
                        layout.size_spec() as int,
                    )
            },
    ;

    /// Releases an allocation that `allocate` handed out with the same layout
    /// and that has not been released since.
    fn dealloc(&mut self, ptr: u64, layout: Layout)
        requires
            old(self).inv(),
            old(self).live().contains((ptr, layout)),
        ensures
            final(self).inv(),
            final(self).fed() == old(self).fed(),
            final(self).live() == old(self).live().remove((ptr, layout)),
    ;

    /// Donates `size` bytes from `addr`. The extent must not overlap any
    /// extent donated before.
    fn feed_memory(&mut self, addr: PhysicalAddress, size: usize)
        requires
            old(self).inv(),
            (MemoryExtent { base: addr.0, size_bytes: size }).well_formed(),
            disjoint_from_all(MemoryExtent { base: addr.0, size_bytes: size }, old(self).fed()),
        ensures
            final(self).inv(),
            final(self).fed() == old(self).fed().push(MemoryExtent { base: addr.0, size_bytes: size }),
            final(self).live() == old(self).live(),
    ;

    /// The extents this allocator owns, in order of donation.
    fn owned_extents(&self) -> (r: Vec<MemoryExtent>)
        requires
            self.inv(),
        ensures
            r@ == self.fed(),
    ;
}

/// A firmware page request: `pages` pages of loader data, anywhere.
#[derive(Copy, Clone, Debug, PartialEq, Eq, Structural)]
pub struct PageRequest {
    pub allocate_type: AllocateType,
    pub memory_type: MemoryType,
    pub pages: usize,
}

/// What `allocate` hands back: the result, or a page request for the firmware
/// whose outcome goes to `finish_alloc`.
#[derive(Copy, Clone, Debug, PartialEq, Eq)]
pub enum AllocStep {
    Done(Result<u64, AllocErr>),
    NeedPages(PageRequest),
}

/// The request made for `size` bytes: loader data, any address, and enough
/// whole pages, when that many pages and their bytes can be counted.
pub open spec fn request_for(size: usize) -> Option<PageRequest> {
    if 0 < pages_for(size as nat) && pages_for(size as nat) * PAGE_SIZE <= usize::MAX {
        Some(
            PageRequest {
                allocate_type: AllocateType::AllocateAnyPages,
                memory_type: MemoryType::LoaderData,
                pages: pages_for(size as nat) as usize,
            },
        )
    } else {
        None
    }
}

/// The extent donated when the firmware answers a request for `pages`
/// pages with `outcome`: the pages it returned, if they form a well-formed
/// extent that overlaps nothing donated before.
pub open spec fn firmware_extent(
    pages: usize,
    outcome: Result<u64, Error>,
    fed: Seq<MemoryExtent>,
) -> Option<MemoryExtent> {
    match outcome {
        Ok(addr) => match page_extent(addr, pages as u64) {
            Some(e) => if disjoint_from_all(e, fed) {
                Some(e)
            } else {
                None
            },
            None => None,
        },
        Err(_) => None,
    }
}

/// A failed page request donates nothing. With `finish_alloc`'s contract,
/// the single retry then meets the front allocator as the first attempt in
/// `allocate` left it, unchanged and unable to serve: the allocation ends in
/// `OutOfMemory` after one page request and two front attempts.
pub proof fn lemma_firmware_failure_donates_nothing(
    pages: usize,
    err: Error,
    fed: Seq<MemoryExtent>,
)
    ensures
        firmware_extent(pages, Err(err), fed) is None,
{
}

/// The extents donated after scavenging `entries` on top of `fed`: each free
/// entry in order, unless it overlaps something donated before it.
pub open spec fn scavenged(entries: Seq<MemoryDescriptor>, fed: Seq<MemoryExtent>) -> Seq<
    MemoryExtent,
>
    decreases entries.len(),
{
    if entries.len() == 0 {
        fed
    } else {
        let before = scavenged(entries.drop_last(), fed);
        match descriptor_extent(entries.last()) {
            Some(e) => if disjoint_from_all(e, before) {
                before.push(e)
            } else {
                before
            },
            None => before,
        }
    }
}

/// Restocking never donates memory twice: the extent a firmware restock
/// adds overlaps nothing the front allocator held, and scavenging the memory
/// map keeps what was held and adds extents each of which overlaps nothing
/// held or added before it.
pub proof fn lemma_restock_donations_disjoint(
    pages: usize,
    outcome: Result<u64, Error>,
    entries: Seq<MemoryDescriptor>,
    fed: Seq<MemoryExtent>,
)
    ensures
        firmware_extent(pages, outcome, fed) matches Some(e) ==> disjoint_from_all(e, fed),
        scavenged(entries, fed).len() >= fed.len(),
        scavenged(entries, fed).take(fed.len() as int) == fed,
        forall|i: int|
            fed.len() <= i < scavenged(entries, fed).len() ==> disjoint_from_all(
                #[trigger] scavenged(entries, fed)[i],
                scavenged(entries, fed).take(i),
            ),
    decreases entries.len(),
{
    if entries.len() > 0 {
        lemma_restock_donations_disjoint(pages, outcome, entries.drop_last(), fed);
        let before = scavenged(entries.drop_last(), fed);
        let after = scavenged(entries, fed);
        if after.len() > before.len() {
            assert(after == before.push(after.last()));
            assert(after.take(before.len() as int) =~= before);
            assert(after.take(fed.len() as int) =~= before.take(fed.len() as int));
            assert forall|i: int| fed.len() <= i < after.len() implies disjoint_from_all(
                #[trigger] after[i],
                after.take(i),
            ) by {
                if i < before.len() {
                    assert(after.take(i) =~= before.take(i));
                }
            }
        }
    }
}

/// Wraps a front allocator and restocks it when it runs dry: from firmware
/// pages while boot services are active, from the captured memory map after.
pub struct Allocator<F: FrontAllocator> {
    fully_stocked: bool,
    front: F,
    donated: Vec<MemoryExtent>,
    memory_map: Vec<MemoryDescriptor>,
    map_cursor: usize,
    attempts: Ghost<nat>,
}

impl<F: FrontAllocator> Allocator<F> {
    pub closed spec fn wf(&self) -> bool {
        &&& self.front.inv()
        &&& self.donated@ == self.front.fed()
        &&& self.map_cursor <= self.memory_map@.len()
    }

    /// Set once no memory is left to restock from; never cleared.
    pub closed spec fn fully_stocked_spec(&self) -> bool {
        self.fully_stocked
    }

    /// How many times the front allocator has been asked to allocate.
    pub closed spec fn front_attempts(&self) -> nat {
        self.attempts@
    }

    /// The same front allocator, latch and memory map as `other`.
    pub open spec fn same_state(&self, other: &Self) -> bool {
        &&& self.front_spec() == other.front_spec()
        &&& self.fully_stocked_spec() == other.fully_stocked_spec()
        &&& self.unscavenged() == other.unscavenged()
    }

    pub closed spec fn front_spec(&self) -> F {
        self.front
    }

    /// The memory-map entries not yet scavenged.
    pub closed spec fn unscavenged(&self) -> Seq<MemoryDescriptor> {
        self.memory_map@.subrange(self.map_cursor as int, self.memory_map@.len() as int)
    }

    /// Wraps `front`, which may already own memory.
    pub fn new(front: F) -> (r: Self)
        requires
            front.inv(),
        ensures
            r.wf(),
            !r.fully_stocked_spec(),
            r.front_spec() == front,
            r.unscavenged().len() == 0,
            r.front_attempts() == 0,
    {
        let owned = front.owned_extents();
        let r = Allocator {
            fully_stocked: false,
            front,
            donated: owned,
            memory_map: Vec::new(),
            map_cursor: 0,
            attempts: Ghost(0),
        };
        r
    }

    #[verifier::when_used_as_spec(fully_stocked_spec)]
    pub fn fully_stocked(&self) -> (r: bool)
        ensures
            r == self.fully_stocked_spec(),
    {
        self.fully_stocked
    }

    pub fn front(&self) -> (r: &F)
        ensures
            *r == self.front_spec(),
    {
        &self.front
    }

    /// Hands over the memory map captured when the boot phase ended, for
    /// restocking once the firmware can no longer be called.
    pub fn set_memory_map(&mut self, entries: Vec<MemoryDescriptor>)
        requires
            old(self).wf(),
        ensures
            final(self).wf(),
            final(self).unscavenged() == entries@,
            final(self).front_spec() == old(self).front_spec(),
            final(self).fully_stocked_spec() == old(self).fully_stocked_spec(),
            final(self).front_attempts() == old(self).front_attempts(),
    {
        self.memory_map = entries;
        self.map_cursor = 0;
        assert(self.unscavenged() =~= self.memory_map@);
    }

    /// Donates `e` unless it overlaps memory donated before.
    fn donate(&mut self, e: MemoryExtent) -> (donated: bool)
        requires
            old(self).wf(),
            e.well_formed(),
        ensures
            final(self).wf(),
            donated == disjoint_from_all(e, old(self).front.fed()),
            donated ==> final(self).front.fed() == old(self).front.fed().push(e),
            !donated ==> final(self).front == old(self).front,
            final(self).front.live() == old(self).front.live(),
            final(self).fully_stocked == old(self).fully_stocked,
            final(self).attempts == old(self).attempts,
            final(self).memory_map == old(self).memory_map,
            final(self).map_cursor == old(self).map_cursor,
    {
        if overlaps_any(e, &self.donated) {
            return false;
        }
        self.front.feed_memory(PhysicalAddress(e.base), e.size_bytes);
        self.donated.push(e);
        true
    }

    /// Donates every free entry of the memory map not yet scavenged, then
    /// records that nothing is left to restock from.
    fn scavenge_memory_map(&mut self)
        requires
            old(self).wf(),
        ensures
            final(self).wf(),
            final(self).front.fed() == scavenged(old(self).unscavenged(), old(self).front.fed()),
            final(self).front.live() == old(self).front.live(),
            final(self).fully_stocked,
            final(self).unscavenged().len() == 0,
            final(self).attempts == old(self).attempts,
    {
        let ghost start = self.map_cursor as int;
        let ghost fed0 = self.front.fed();
        let ghost live0 = self.front.live();
        let ghost map0 = self.memory_map@;
        while self.map_cursor < self.memory_map.len()
            invariant
                self.wf(),
                self.memory_map@ == map0,
                self.attempts == old(self).attempts,
                0 <= start <= self.map_cursor <= map0.len(),
                self.front.fed() == scavenged(map0.subrange(start, self.map_cursor as int), fed0),
                self.front.live() == live0,
            decreases self.memory_map@.len() - self.map_cursor,
        {
            let i = self.map_cursor;
            let d = self.memory_map[i];
            let ghost before = self.front.fed();
            assert(map0.subrange(start, i + 1).drop_last() =~= map0.subrange(start, i as int));
            assert(map0.subrange(start, i + 1).last() == d);
            match d.free_extent() {
                Some(e) => {
                    self.donate(e);
                },
                None => {},
            }
            self.map_cursor = i + 1;
        }
        assert(map0.subrange(start, map0.len() as int) =~= old(self).unscavenged());
        self.fully_stocked = true;
    }

    /// Serves `layout` from the front allocator. When it fails and restocking
    /// is still possible, restocks and retries exactly once; while the
    /// firmware is active the restock is a page request whose outcome goes to
    /// `finish_alloc`, which makes the retry.
    pub fn allocate(&mut self, layout: Layout, firmware: FirmwareAvailability) -> (r: AllocStep)
        requires
            old(self).wf(),
        ensures
            final(self).wf(),
            old(self).fully_stocked_spec() ==> final(self).fully_stocked_spec(),
            final(self).front_attempts() == old(self).front_attempts() + (if !old(
                self,
            ).front_spec().can_serve(layout) && !old(self).fully_stocked_spec() && firmware
                == FirmwareAvailability::Unavailable {
                2int
            } else {
                1int
            }),
            old(self).front_spec().can_serve(layout) ==> {
                &&& r matches AllocStep::Done(Ok(p))
                &&& final(self).front_spec().live() == old(self).front_spec().live().insert(
                    (p, layout),
                )
                &&& final(self).front_spec().fed() == old(self).front_spec().fed()
                &&& final(self).fully_stocked_spec() == old(self).fully_stocked_spec()
                &&& final(self).unscavenged() == old(self).unscavenged()
            },
            !old(self).front_spec().can_serve(layout) && old(self).fully_stocked_spec() ==> {
                &&& r == AllocStep::Done(Err(AllocErr::OutOfMemory))
                &&& final(self).same_state(old(self))
            },
            !old(self).front_spec().can_serve(layout) && !old(self).fully_stocked_spec() && firmware
                == FirmwareAvailability::Active ==> {
                &&& request_for(layout.size_spec()) matches Some(q) ==> r == AllocStep::NeedPages(q)
                &&& request_for(layout.size_spec()) is None ==> r == AllocStep::Done(
                    Err(AllocErr::OutOfMemory),
                )
                &&& final(self).same_state(old(self))
            },
            !old(self).front_spec().can_serve(layout) && !old(self).fully_stocked_spec() && firmware
                == FirmwareAvailability::Unavailable ==> {
                &&& final(self).fully_stocked_spec()
                &&& final(self).unscavenged().len() == 0
                &&& final(self).front_spec().fed() == scavenged(
                    old(self).unscavenged(),
                    old(self).front_spec().fed(),
                )
                &&& r matches AllocStep::Done(res)
                &&& res is Err ==> !final(self).front_spec().can_serve(layout)
                &&& res is Err ==> final(self).front_spec().live() == old(self).front_spec().live()
                &&& res matches Ok(p) ==> final(self).front_spec().live() == old(
                    self,
                ).front_spec().live().insert((p, layout))
            },
    {
        let first = self.front.allocate(layout);
        self.attempts = Ghost(self.attempts@ + 1);
        if let Ok(p) = first {
            return AllocStep::Done(Ok(p));
        }
        self.restock(layout, firmware)
    }

    /// The rarely taken path: restocks the front allocator for `layout`.
    fn restock(&mut self, layout: Layout, firmware: FirmwareAvailability) -> (r: AllocStep)
        requires
            old(self).wf(),
            !old(self).front.can_serve(layout),
        ensures
            final(self).wf(),
            final(self).attempts@ == old(self).attempts@ + (if !old(self).fully_stocked && firmware
                == FirmwareAvailability::Unavailable {
                1int
            } else {
                0int
            }),
            old(self).fully_stocked ==> r == AllocStep::Done(Err(AllocErr::OutOfMemory))
                && *final(self) == *old(self),
            !old(self).fully_stocked && firmware == FirmwareAvailability::Active ==> {
                &&& request_for(layout.size_spec()) matches Some(q) ==> r == AllocStep::NeedPages(q)
                &&& request_for(layout.size_spec()) is None ==> r == AllocStep::Done(
                    Err(AllocErr::OutOfMemory),
                )
                &&& *final(self) == *old(self)
            },
            !old(self).fully_stocked && firmware == FirmwareAvailability::Unavailable ==> {
                &&& final(self).fully_stocked
                &&& final(self).unscavenged().len() == 0
                &&& final(self).front.fed() == scavenged(old(self).unscavenged(), old(self).front.fed())
                &&& r matches AllocStep::Done(res)
                &&& res is Err ==> !final(self).front.can_serve(layout)
                &&& res is Err ==> final(self).front.live() == old(self).front.live()
                &&& res matches Ok(p) ==> final(self).front.live() == old(self).front.live().insert(
                    (p, layout),
                )
            },
    {
        if self.fully_stocked {
            return AllocStep::Done(Err(AllocErr::OutOfMemory));
        }
        match firmware {
            FirmwareAvailability::Active => {
                let pages = page_count(layout.size());
                if pages == 0 || pages > usize::MAX / PAGE_SIZE {
                    assert(pages > 0 ==> (pages * 4096 <= usize::MAX <==> pages <= usize::MAX / 4096))
                        by (nonlinear_arith);
                    return AllocStep::Done(Err(AllocErr::OutOfMemory));
                }
                assert(pages * 4096 <= usize::MAX) by (nonlinear_arith)
                    requires
                        pages <= usize::MAX / 4096,
                ;
                AllocStep::NeedPages(
                    PageRequest {
                        allocate_type: AllocateType::AllocateAnyPages,
                        memory_type: MemoryType::LoaderData,
                        pages,
                    },
                )
            },
            FirmwareAvailability::Unavailable => {
                self.scavenge_memory_map();
                let retry = self.front.allocate(layout);
                self.attempts = Ghost(self.attempts@ + 1);
                AllocStep::Done(retry)
            },
        }
    }

    /// Completes an allocation for which `allocate` asked the firmware for
    /// `pages` pages: donates the pages that the firmware returned, unless
    /// they overlap memory donated before, and retries the front allocator
    /// once. A firmware failure donates nothing; the retry then fails.
    pub fn finish_alloc(&mut self, layout: Layout, pages: usize, outcome: Result<u64, Error>) -> (r:
        Result<u64, AllocErr>)
        requires
            old(self).wf(),
        ensures
            final(self).wf(),
            final(self).fully_stocked_spec() == old(self).fully_stocked_spec(),
            final(self).unscavenged() == old(self).unscavenged(),
            final(self).front_attempts() == old(self).front_attempts() + 1,
            final(self).front_spec().fed() == match firmware_extent(
                pages,
                outcome,
                old(self).front_spec().fed(),
            ) {
                Some(e) => old(self).front_spec().fed().push(e),
                None => old(self).front_spec().fed(),
            },
            firmware_extent(pages, outcome, old(self).front_spec().fed()) is None ==> (r is Ok
                <==> old(self).front_spec().can_serve(layout)),
            r is Err ==> !final(self).front_spec().can_serve(layout),
            r is Err ==> final(self).front_spec().live() == old(self).front_spec().live(),
            r matches Ok(p) ==> final(self).front_spec().live() == old(
                self,
            ).front_spec().live().insert((p, layout)),
    {
        if let Ok(addr) = outcome {
            if let Some(e) = extent_of_pages(addr, pages as u64) {
                self.donate(e);
            }
        }
        let retry = self.front.allocate(layout);
        self.attempts = Ghost(self.attempts@ + 1);
        retry
    }

    /// Releases an allocation through the front allocator.
    pub fn dealloc(&mut self, ptr: u64, layout: Layout)
        requires
            old(self).wf(),
            old(self).front_spec().live().contains((ptr, layout)),
        ensures
            final(self).wf(),
            final(self).front_spec().fed() == old(self).front_spec().fed(),
            final(self).front_spec().live() == old(self).front_spec().live().remove((ptr, layout)),
            final(self).fully_stocked_spec() == old(self).fully_stocked_spec(),
            final(self).unscavenged() == old(self).unscavenged(),
            final(self).front_attempts() == old(self).front_attempts(),
    {
        self.front.dealloc(ptr, layout)
    }
}

} // verus!
