use efi_alloc::allocator::{AllocErr, AllocStep, Layout, PageRequest};
use efi_alloc::boot_services::{
    page_count, AllocateType, FirmwareAvailability, MemoryDescriptor, MemoryType, PAGE_SIZE,
};
use efi_alloc::bump::BumpAllocator;
use efi_alloc::protocol::Error;
use efi_alloc::{Allocator, FrontAllocator, PhysicalAddress};

fn layout(size: usize, align: usize) -> Layout {
    Layout::from_size_align(size, align).unwrap()
}

#[test]
fn page_count_rounds_up() {
    assert_eq!(page_count(1), 1);
    assert_eq!(page_count(4096), 1);
    assert_eq!(page_count(4097), 2);
    assert_eq!(page_count(0), 0);
    assert_eq!(page_count(3 * 4096), 3);
    assert_eq!(page_count(usize::MAX), usize::MAX / 4096 + 1);
}

#[test]
fn empty_front_restocks_once_from_firmware() {
    let mut a = Allocator::new(BumpAllocator::new());
    let l = layout(64, 8);
    let step = a.allocate(l, FirmwareAvailability::new());
    let expected = PageRequest {
        allocate_type: AllocateType::AllocateAnyPages,
        memory_type: MemoryType::LoaderData,
        pages: 1,
    };
    assert_eq!(step, AllocStep::NeedPages(expected));
    assert_eq!(a.finish_alloc(l, 1, Ok(0x10_0000)), Ok(0x10_0000));
    assert_eq!(a.front().extent_count(), 1);
    assert!(!a.fully_stocked());
    // The donated page serves the next request without another restock.
    assert_eq!(a.allocate(l, FirmwareAvailability::new()), AllocStep::Done(Ok(0x10_0040)));
    assert_eq!(a.front().extent_count(), 1);
}

#[test]
fn large_request_asks_for_enough_pages() {
    let mut a = Allocator::new(BumpAllocator::new());
    let l = layout(4097, 16);
    match a.allocate(l, FirmwareAvailability::Active) {
        AllocStep::NeedPages(q) => assert_eq!(q.pages, 2),
        other => panic!("unexpected {:?}", other),
    }
    assert_eq!(a.finish_alloc(l, 2, Ok(0x20_0000)), Ok(0x20_0000));
    assert_eq!(a.front().remaining(0), 2 * PAGE_SIZE - 4097);
}

#[test]
fn firmware_failure_ends_in_out_of_memory() {
    let mut a = Allocator::new(BumpAllocator::new());
    let l = layout(64, 8);
    let step = a.allocate(l, FirmwareAvailability::Active);
    let pages = match step {
        AllocStep::NeedPages(q) => q.pages,
        other => panic!("unexpected {:?}", other),
    };
    let failed: Result<u64, Error> = Err(Error { code: 9 });
    assert_eq!(a.finish_alloc(l, pages, failed), Err(AllocErr::OutOfMemory));
    assert_eq!(a.front().extent_count(), 0);
}

#[test]
fn fully_stocked_never_asks_the_firmware() {
    let mut a = Allocator::new(BumpAllocator::new());
    let l = layout(64, 8);
    // After the boot phase, an empty memory map leaves nothing to restock from.
    let mut firmware = FirmwareAvailability::new();
    firmware.revoke();
    assert_eq!(a.allocate(l, firmware), AllocStep::Done(Err(AllocErr::OutOfMemory)));
    assert!(a.fully_stocked());
    // Even with the firmware reported active again, no page request is made.
    assert_eq!(
        a.allocate(l, FirmwareAvailability::Active),
        AllocStep::Done(Err(AllocErr::OutOfMemory))
    );
    assert_eq!(a.front().extent_count(), 0);
}

#[test]
fn fed_pages_serve_their_whole_size() {
    let mut b = BumpAllocator::new();
    b.feed_memory(PhysicalAddress(0x4000), 2 * PAGE_SIZE);
    let l = layout(64, 1);
    let mut served = 0usize;
    while let Ok(_) = b.allocate(l) {
        served += 64;
    }
    assert_eq!(served, 2 * PAGE_SIZE);
    assert_eq!(b.remaining(0), 0);
}

#[test]
fn overlapping_firmware_pages_are_not_donated() {
    let mut a = Allocator::new(BumpAllocator::new());
    let l = layout(4096, 8);
    assert_eq!(a.finish_alloc(l, 1, Ok(0x8000)), Ok(0x8000));
    // The same page again overlaps what was donated: it is refused.
    assert_eq!(a.finish_alloc(l, 1, Ok(0x8000)), Err(AllocErr::OutOfMemory));
    assert_eq!(a.front().extent_count(), 1);
    // An adjacent page does not overlap.
    assert_eq!(a.finish_alloc(l, 1, Ok(0x9000)), Ok(0x9000));
    assert_eq!(a.front().extent_count(), 2);
}

#[test]
fn revoked_firmware_scavenges_free_memory_map_entries() {
    let mut a = Allocator::new(BumpAllocator::new());
    a.set_memory_map(vec![
        MemoryDescriptor {
            memory_type: MemoryType::LoaderData,
            physical_start: 0x1000,
            number_of_pages: 4,
        },
        MemoryDescriptor {
            memory_type: MemoryType::ConventionalMemory,
            physical_start: 0x10_0000,
            number_of_pages: 2,
        },
        MemoryDescriptor {
            memory_type: MemoryType::ConventionalMemory,
            physical_start: 0x20_0000,
            number_of_pages: 0,
        },
        MemoryDescriptor {
            memory_type: MemoryType::ConventionalMemory,
            physical_start: 0x30_0000,
            number_of_pages: 1,
        },
    ]);
    let l = layout(8192, 4096);
    assert_eq!(
        a.allocate(l, FirmwareAvailability::Unavailable),
        AllocStep::Done(Ok(0x10_0000))
    );
    assert_eq!(a.front().extent_count(), 2);
    assert!(a.fully_stocked());
    // Nothing is donated twice.
    assert_eq!(
        a.allocate(l, FirmwareAvailability::Unavailable),
        AllocStep::Done(Err(AllocErr::OutOfMemory))
    );
    assert_eq!(a.front().extent_count(), 2);
}

#[test]
fn dealloc_goes_to_the_front_allocator() {
    let mut a = Allocator::new(BumpAllocator::new());
    let l = layout(32, 8);
    let p = a.finish_alloc(l, 1, Ok(0x7000)).unwrap();
    a.dealloc(p, l);
    assert_eq!(a.front().remaining(0), PAGE_SIZE - 32);
}

#[test]
fn layout_alignment_must_be_a_small_power_of_two() {
    assert!(Layout::from_size_align(8, 3).is_none());
    assert!(Layout::from_size_align(8, 0).is_none());
    assert!(Layout::from_size_align(8, 8192).is_none());
    let l = Layout::from_size_align(24, 4096).unwrap();
    assert_eq!(l.size(), 24);
    assert_eq!(l.align(), 4096);
}

#[test]
fn bump_allocations_are_aligned() {
    let mut b = BumpAllocator::new();
    b.feed_memory(PhysicalAddress(0x1001), 0x3000);
    assert_eq!(b.allocate(layout(3, 1)), Ok(0x1001));
    assert_eq!(b.allocate(layout(16, 16)), Ok(0x1010));
    assert_eq!(b.allocate(layout(1, 4096)), Ok(0x2000));
    assert_eq!(b.allocate(layout(0x2001, 1)), Err(AllocErr::OutOfMemory));
    assert_eq!(b.allocate(layout(0x2000, 1)), Ok(0x2001));
    assert_eq!(b.remaining(0), 0);
}

#[test]
fn availability_is_revoked_once() {
    let mut f = FirmwareAvailability::new();
    assert!(f.is_active());
    f.revoke();
    assert!(!f.is_active());
    assert_eq!(f, FirmwareAvailability::Unavailable);
}

#[test]
fn overlapping_memory_map_entries_are_donated_once() {
    let mut a = Allocator::new(BumpAllocator::new());
    a.set_memory_map(vec![
        MemoryDescriptor {
            memory_type: MemoryType::ConventionalMemory,
            physical_start: 0x10_0000,
            number_of_pages: 2,
        },
        MemoryDescriptor {
            memory_type: MemoryType::ConventionalMemory,
            physical_start: 0x10_1000,
            number_of_pages: 4,
        },
        MemoryDescriptor {
            memory_type: MemoryType::ConventionalMemory,
            physical_start: 0x10_2000,
            number_of_pages: 1,
        },
    ]);
    let l = layout(16, 8);
    assert_eq!(
        a.allocate(l, FirmwareAvailability::Unavailable),
        AllocStep::Done(Ok(0x10_0000))
    );
    assert_eq!(a.front().extent_count(), 2);
    assert_eq!(a.front().remaining(1), PAGE_SIZE);
}

#[test]
fn firmware_codes_of_request_kinds() {
    assert_eq!(AllocateType::AllocateAnyPages.code(), 0);
    assert_eq!(AllocateType::AllocateAddress.code(), 2);
    assert_eq!(MemoryType::LoaderData.code(), 2);
    assert_eq!(MemoryType::ConventionalMemory.code(), 7);
    assert_eq!(MemoryType::from_code(7), Some(MemoryType::ConventionalMemory));
    assert_eq!(MemoryType::from_code(16), None);
    assert!(MemoryType::ConventionalMemory.is_free());
    assert!(!MemoryType::LoaderData.is_free());
}

#[test]
fn zero_sized_request_makes_no_page_request() {
    let mut a = Allocator::new(BumpAllocator::new());
    assert_eq!(
        a.allocate(layout(0, 1), FirmwareAvailability::Active),
        AllocStep::Done(Err(AllocErr::OutOfMemory))
    );
    assert!(!a.fully_stocked());
}

#[test]
fn front_that_already_owns_memory_is_wrapped() {
    let mut b = BumpAllocator::new();
    b.feed_memory(PhysicalAddress(0x5000), PAGE_SIZE);
    let mut a = Allocator::new(b);
    assert!(!a.fully_stocked());
    assert_eq!(a.front().extent_count(), 1);
    let l = layout(64, 8);
    assert_eq!(a.allocate(l, FirmwareAvailability::Active), AllocStep::Done(Ok(0x5000)));
    // Firmware pages that overlap the owned page are not donated.
    assert_eq!(a.finish_alloc(l, 1, Ok(0x5000)), Ok(0x5040));
    assert_eq!(a.front().extent_count(), 1);
    assert_eq!(a.front().owned_extents().len(), 1);
}

#[test]
fn live_blocks_never_overlap() {
    let mut b = BumpAllocator::new();
    b.feed_memory(PhysicalAddress(0x1000), PAGE_SIZE);
    let l = layout(100, 64);
    let p = b.allocate(l).unwrap();
    b.dealloc(p, l);
    let q = b.allocate(l).unwrap();
    assert!(q >= p + 100);
}
