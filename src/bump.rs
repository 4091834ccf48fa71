//! A bump front allocator: it hands out memory from each donated extent in
//! address order and never reuses released memory.
use vstd::prelude::*;
use vstd::multiset::Multiset;

use crate::allocator::{
    firmware_extent, ranges_overlap, request_for, valid_align, AllocErr, FrontAllocator, Layout, PhysicalAddress,
};
use crate::boot_services::{extents_overlap, page_extent, pages_for, MemoryExtent, PAGE_SIZE};
use crate::protocol::Error;

verus! {

/// One donated extent and the number of its bytes already handed out.
#[derive(Copy, Clone, Debug, PartialEq, Eq, Structural)]
pub struct BumpSlot {
    pub extent: MemoryExtent,
    pub used: usize,
}

/// The smallest multiple of `a` that is at least `x`.
pub open spec fn align_up(x: int, a: int) -> int {
    ((x + a - 1) / a) * a
}

/// Where a request for `l` would start in slot `s`.
pub open spec fn slot_start(s: BumpSlot, l: Layout) -> int {
    align_up(s.extent.base + s.used, l.align_spec() as int)
}

/// Whether slot `s` has room for `l` after its used bytes.
pub open spec fn slot_fits(s: BumpSlot, l: Layout) -> bool {
    &&& slot_start(s, l) <= u64::MAX
    &&& slot_start(s, l) + l.size_spec() <= s.extent.end()
}

/// The live block `q` lies in the used bytes of slot `s`.
pub open spec fn slot_holds(s: BumpSlot, q: (u64, Layout)) -> bool {
    s.extent.base <= q.0 && q.0 + q.1.size_spec() <= s.extent.base + s.used
}

proof fn lemma_align_up(x: int, a: int)
    requires
        x >= 0,
        a > 0,
    ensures
        x <= align_up(x, a) < x + a,
        align_up(x, a) % a == 0,
{
    let q = (x + a - 1) / a;
    assert(q * a <= x + a - 1 < q * a + a) by (nonlinear_arith)
        requires
            a > 0,
            q == (x + a - 1) / a,
    ;
    assert((q * a) % a == 0) by (nonlinear_arith)
        requires
            a > 0,
    ;
}

pub struct BumpAllocator {
    slots: Vec<BumpSlot>,
    live: Ghost<Multiset<(u64, Layout)>>,
}

impl BumpAllocator {
    pub closed spec fn slots_spec(&self) -> Seq<BumpSlot> {
        self.slots@
    }

    pub fn new() -> (r: BumpAllocator)
        ensures
            r.inv(),
            r.fed().len() == 0,
            r.live().len() == 0,
            r.slots_spec().len() == 0,
            forall|l: Layout| !r.can_serve(l),
    {
        BumpAllocator { slots: Vec::new(), live: Ghost(Multiset::empty()) }
    }

    /// Number of extents donated so far.
    pub fn extent_count(&self) -> (r: usize)
        ensures
            r == self.fed().len(),
    {
        self.slots.len()
    }

    /// Bytes of slot `i` not yet handed out.
    pub fn remaining(&self, i: usize) -> (r: usize)
        requires
            self.inv(),
            i < self.slots_spec().len(),
        ensures
            r == self.slots_spec()[i as int].extent.size_bytes - self.slots_spec()[i as int].used,
    {
        self.slots[i].extent.size_bytes - self.slots[i].used
    }
}

impl FrontAllocator for BumpAllocator {
    closed spec fn inv(&self) -> bool {
        &&& forall|i: int|
            0 <= i < self.slots@.len() ==> {
                &&& (#[trigger] self.slots@[i]).extent.well_formed()
                &&& self.slots@[i].used <= self.slots@[i].extent.size_bytes
            }
        &&& forall|i: int, j: int|
            0 <= i < self.slots@.len() && 0 <= j < self.slots@.len() && i != j ==> !extents_overlap(
                #[trigger] self.slots@[i].extent,
                #[trigger] self.slots@[j].extent,
            )
        &&& forall|q: (u64, Layout)|
            #[trigger] self.live@.contains(q) ==> exists|j: int|
                0 <= j < self.slots@.len() && slot_holds(#[trigger] self.slots@[j], q)
    }

    closed spec fn fed(&self) -> Seq<MemoryExtent> {
        self.slots@.map_values(|s: BumpSlot| s.extent)
    }

    closed spec fn live(&self) -> Multiset<(u64, Layout)> {
        self.live@
    }

    closed spec fn can_serve(&self, layout: Layout) -> bool {
        exists|i: int| 0 <= i < self.slots@.len() && slot_fits(#[trigger] self.slots@[i], layout)
    }

    fn allocate(&mut self, layout: Layout) -> (r: Result<u64, AllocErr>)
        ensures
            r matches Ok(p) ==> exists|i: int|
                0 <= i < old(self).slots_spec().len() && #[trigger] slot_fits(
                    old(self).slots_spec()[i],
                    layout,
                ) && p == slot_start(old(self).slots_spec()[i], layout)
                    && final(self).slots_spec() == old(self).slots_spec().update(
                    i,
                    BumpSlot {
                        extent: old(self).slots_spec()[i].extent,
                        used: (p - old(self).slots_spec()[i].extent.base + layout.size_spec()) as usize,
                    },
                ),
    {
        let align = layout.align();
        let size = layout.size();
        let mut i: usize = 0;
        while i < self.slots.len()
            invariant
                i <= self.slots@.len(),
                *self == *old(self),
                self.inv(),
                valid_align(align),
                align == layout.align_spec(),
                size == layout.size_spec(),
                forall|j: int| 0 <= j < i ==> !slot_fits(#[trigger] self.slots@[j], layout),
            decreases self.slots@.len() - i,
        {
            let s = self.slots[i];
            let cur: u128 = s.extent.base as u128 + s.used as u128;
            let a: u128 = align as u128;
            let q: u128 = (cur + a - 1) / a;
            proof {
                lemma_align_up(cur as int, a as int);
                assert(q * a == align_up(cur as int, a as int));
            }
            let start: u128 = q * a;
            let end: u128 = s.extent.base as u128 + s.extent.size_bytes as u128;
            if start <= u64::MAX as u128 && start + size as u128 <= end {
                let used = (start - s.extent.base as u128 + size as u128) as usize;
                let ghost old_fed = self.fed();
                let ghost ii = i as int;
                assert forall|q: (u64, Layout)| #[trigger] old(self).live@.contains(q) implies !ranges_overlap(
                    start as int,
                    size as int,
                    q.0 as int,
                    q.1.size_spec() as int,
                ) by {
                    let j = choose|j: int|
                        0 <= j < old(self).slots@.len() && slot_holds(
                            #[trigger] old(self).slots@[j],
                            q,
                        );
                    if j != ii {
                        assert(!extents_overlap(old(self).slots@[ii].extent, old(self).slots@[j].extent));
                    }
                }
                self.slots.set(i, BumpSlot { extent: s.extent, used });
                self.live = Ghost(self.live@.insert((start as u64, layout)));
                assert forall|q: (u64, Layout)| #[trigger] self.live@.contains(q) implies exists|j: int|
                    0 <= j < self.slots@.len() && slot_holds(#[trigger] self.slots@[j], q) by {
                    if q == (start as u64, layout) {
                        assert(slot_holds(self.slots@[ii], q));
                    } else {
                        assert(old(self).live@.contains(q));
                        let j = choose|j: int|
                            0 <= j < old(self).slots@.len() && slot_holds(
                                #[trigger] old(self).slots@[j],
                                q,
                            );
                        assert(slot_holds(self.slots@[j], q));
                    }
                }
                assert(self.fed() =~= old_fed);
                assert(old_fed[i as int] == s.extent);
                assert(self.slots@[i as int] == BumpSlot { extent: s.extent, used });
                assert(old(self).slots@[i as int] == s);
                assert(start == slot_start(s, layout));
                assert(slot_fits(old(self).slots@[i as int], layout));
                assert(used == (start - s.extent.base + size) as usize);
                let ghost p = start as u64;
                assert(p == slot_start(old(self).slots_spec()[i as int], layout));
                assert(self.slots_spec() == old(self).slots_spec().update(
                    i as int,
                    BumpSlot {
                        extent: old(self).slots_spec()[i as int].extent,
                        used: (p - old(self).slots_spec()[i as int].extent.base + layout.size_spec()) as usize,
                    },
                ));
                assert(self.slots@ == old(self).slots@.update(i as int, BumpSlot { extent: s.extent, used }));
                return Ok(start as u64);
            }
            i = i + 1;
        }
        Err(AllocErr::OutOfMemory)
    }

    fn dealloc(&mut self, ptr: u64, layout: Layout) {
        self.live = Ghost(self.live@.remove((ptr, layout)));
        assert forall|q: (u64, Layout)| #[trigger] self.live@.contains(q) implies exists|j: int|
            0 <= j < self.slots@.len() && slot_holds(#[trigger] self.slots@[j], q) by {
            broadcast use vstd::multiset::group_multiset_axioms;
            assert(self.live@.count(q) <= old(self).live@.count(q));
            assert(old(self).live@.contains(q));
            let j = choose|j: int|
                0 <= j < old(self).slots@.len() && slot_holds(#[trigger] old(self).slots@[j], q);
            assert(slot_holds(self.slots@[j], q));
        }
    }

    fn owned_extents(&self) -> (r: Vec<MemoryExtent>) {
        let mut r: Vec<MemoryExtent> = Vec::new();
        let mut i: usize = 0;
        while i < self.slots.len()
            invariant
                i <= self.slots@.len(),
                r@ == self.fed().take(i as int),
            decreases self.slots@.len() - i,
        {
            r.push(self.slots[i].extent);
            assert(self.fed().take(i as int + 1) =~= self.fed().take(i as int).push(
                self.slots@[i as int].extent,
            ));
            i = i + 1;
        }
        assert(self.fed().take(i as int) =~= self.fed());
        r
    }

    fn feed_memory(&mut self, addr: PhysicalAddress, size: usize)
        ensures
            final(self).slots_spec() == old(self).slots_spec().push(
                BumpSlot { extent: MemoryExtent { base: addr.0, size_bytes: size }, used: 0 },
            ),
    {
        let e = MemoryExtent { base: addr.0, size_bytes: size };
        let ghost old_fed = self.fed();
        self.slots.push(BumpSlot { extent: e, used: 0 });
        assert forall|i: int| 0 <= i < old(self).slots@.len() implies !extents_overlap(
            self.slots@[i].extent,
            e,
        ) by {
            assert(old_fed[i] == old(self).slots@[i].extent);
        }
        assert forall|q: (u64, Layout)| #[trigger] self.live@.contains(q) implies exists|j: int|
            0 <= j < self.slots@.len() && slot_holds(#[trigger] self.slots@[j], q) by {
            let j = choose|j: int|
                0 <= j < old(self).slots@.len() && slot_holds(#[trigger] old(self).slots@[j], q);
            assert(self.slots@[j] == old(self).slots@[j]);
        }
        assert(self.fed() =~= old_fed.push(e));
    }
}

/// The extents a bump allocator was fed are those of its slots, in order.
pub proof fn lemma_fed_is_slots(b: BumpAllocator)
    ensures
        b.fed() == b.slots_spec().map_values(|s: BumpSlot| s.extent),
{
}

/// Capacity of a donated extent: a slot that has room for `l` after its used
/// bytes, counting up to `align - 1` bytes of padding, serves `l`. Since each
/// allocation advances its slot by its size plus that padding at most (see
/// `allocate`), an extent of `n` pages serves requests until their sizes and
/// paddings add up to `n * PAGE_SIZE`; with byte alignment nothing is lost.
pub proof fn lemma_slot_capacity(b: BumpAllocator, i: int, l: Layout)
    requires
        b.inv(),
        0 <= i < b.slots_spec().len(),
        valid_align(l.align_spec()),
        l.size_spec() > 0,
        b.slots_spec()[i].used + l.size_spec() + l.align_spec() - 1
            <= b.slots_spec()[i].extent.size_bytes,
    ensures
        b.can_serve(l),
{
    let s = b.slots@[i];
    assert(s.extent.well_formed());
    lemma_align_up(s.extent.base + s.used, l.align_spec() as int);
    assert(slot_fits(s, l));
}

/// How far one allocation advances its slot: by its size plus fewer than
/// `align` bytes of padding.
pub proof fn lemma_slot_advance(s: BumpSlot, l: Layout)
    requires
        valid_align(l.align_spec()),
        slot_fits(s, l),
    ensures
        s.used + l.size_spec() <= slot_start(s, l) - s.extent.base + l.size_spec() <= s.used
            + l.size_spec() + l.align_spec() - 1,
{
    lemma_align_up(s.extent.base + s.used, l.align_spec() as int);
}

/// Once a fresh bump allocator has been given one page-aligned extent, it
/// can serve any single request for up to the whole extent, at any alignment
/// up to a page: donating `n` pages makes `n * PAGE_SIZE` bytes available.
pub proof fn lemma_fed_extent_serves(b: BumpAllocator, l: Layout)
    requires
        b.inv(),
        b.slots_spec().len() == 1,
        b.slots_spec()[0].used == 0,
        b.slots_spec()[0].extent.base as int % PAGE_SIZE as int == 0,
        l.size_spec() <= b.fed()[0].size_bytes,
        valid_align(l.align_spec()),
    ensures
        b.can_serve(l),
{
    let s = b.slots@[0];
    let base = s.extent.base as int;
    let a = l.align_spec() as int;
    assert(b.fed()[0] == s.extent);
    assert(base % a == 0) by (nonlinear_arith)
        requires
            base % 4096 == 0,
            a == 1 || a == 2 || a == 4 || a == 8 || a == 16 || a == 32 || a == 64 || a == 128 || a
                == 256 || a == 512 || a == 1024 || a == 2048 || a == 4096,
            base >= 0,
    ;
    lemma_align_up(base, a);
    let u = align_up(base, a);
    assert(u == base) by (nonlinear_arith)
        requires
            base % a == 0,
            u % a == 0,
            base <= u < base + a,
            a > 0,
            base >= 0,
    ;
    assert(s.extent.well_formed());
    assert(slot_fits(s, l));
}

/// One restock cycle makes room for the request that caused it: the pages
/// requested for `l`, returned page-aligned by the firmware to an allocator
/// that holds nothing, are donated whole, and a bump allocator holding just
/// them serves `l`.
pub proof fn lemma_restock_serves_request(b: BumpAllocator, l: Layout, addr: u64)
    requires
        valid_align(l.align_spec()),
        addr as int % PAGE_SIZE as int == 0,
        request_for(l.size_spec()) is Some,
        page_extent(addr, request_for(l.size_spec())->Some_0.pages as u64) is Some,
        b.inv(),
        b.slots_spec() == seq![
            BumpSlot {
                extent: page_extent(addr, request_for(l.size_spec())->Some_0.pages as u64)->Some_0,
                used: 0,
            },
        ],
    ensures
        firmware_extent(
            request_for(l.size_spec())->Some_0.pages,
            Ok::<u64, Error>(addr),
            Seq::empty(),
        ) == page_extent(addr, request_for(l.size_spec())->Some_0.pages as u64),
        b.can_serve(l),
{
    let q = request_for(l.size_spec())->Some_0;
    let e = page_extent(addr, q.pages as u64)->Some_0;
    let size = l.size_spec() as int;
    let pages = pages_for(size as nat) as int;
    assert(pages * 4096 >= size) by (nonlinear_arith)
        requires
            pages == (size + 4095) / 4096,
            size >= 0,
    ;
    assert(e.size_bytes == pages * 4096);
    assert(b.fed()[0] == e);
    lemma_fed_extent_serves(b, l);
}

} // verus!
