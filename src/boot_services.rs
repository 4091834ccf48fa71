//! What the restocking logic knows of the firmware's boot services: page
//! requests, memory classifications, memory-map entries and whether the
//! services can still be called.
use vstd::prelude::*;

verus! {

/// Size in bytes of a firmware page.
pub const PAGE_SIZE: usize = 4096;

/// Where the firmware may place the pages of a request.
#[derive(Copy, Clone, Debug, PartialEq, Eq, Structural)]
pub enum AllocateType {
    AllocateAnyPages,
    AllocateMaxAddress,
    AllocateAddress,
}

impl AllocateType {
    /// The value the firmware's page-allocation call takes.
    pub fn code(self) -> (r: u32)
        ensures
            self == AllocateType::AllocateAnyPages ==> r == 0,
            self == AllocateType::AllocateMaxAddress ==> r == 1,
            self == AllocateType::AllocateAddress ==> r == 2,
    {
        match self {
            AllocateType::AllocateAnyPages => 0,
            AllocateType::AllocateMaxAddress => 1,
            AllocateType::AllocateAddress => 2,
        }
    }
}

/// The firmware's classification of a memory region.
#[derive(Copy, Clone, Debug, PartialEq, Eq, Structural)]
pub enum MemoryType {
    ReservedMemoryType,
    LoaderCode,
    LoaderData,
    BootServicesCode,
    BootServicesData,
    RuntimeServicesCode,
    RuntimeServicesData,
    ConventionalMemory,
    UnusableMemory,
    ACPIReclaimMemory,
    ACPIMemoryNVS,
    MemoryMappedIO,
    MemoryMappedIOPortSpace,
    PalCode,
    PersistentMemory,
    MaxMemoryType,
}

/// The firmware's numeric value of each memory type.
pub open spec fn memory_type_code(m: MemoryType) -> u32 {
    match m {
        MemoryType::ReservedMemoryType => 0,
        MemoryType::LoaderCode => 1,
        MemoryType::LoaderData => 2,
        MemoryType::BootServicesCode => 3,
        MemoryType::BootServicesData => 4,
        MemoryType::RuntimeServicesCode => 5,
        MemoryType::RuntimeServicesData => 6,
        MemoryType::ConventionalMemory => 7,
        MemoryType::UnusableMemory => 8,
        MemoryType::ACPIReclaimMemory => 9,
        MemoryType::ACPIMemoryNVS => 10,
        MemoryType::MemoryMappedIO => 11,
        MemoryType::MemoryMappedIOPortSpace => 12,
        MemoryType::PalCode => 13,
        MemoryType::PersistentMemory => 14,
        MemoryType::MaxMemoryType => 15,
    }
}

impl MemoryType {
    pub fn code(self) -> (r: u32)
        ensures
            r == memory_type_code(self),
    {
        match self {
            MemoryType::ReservedMemoryType => 0,
            MemoryType::LoaderCode => 1,
            MemoryType::LoaderData => 2,
            MemoryType::BootServicesCode => 3,
            MemoryType::BootServicesData => 4,
            MemoryType::RuntimeServicesCode => 5,
            MemoryType::RuntimeServicesData => 6,
            MemoryType::ConventionalMemory => 7,
            MemoryType::UnusableMemory => 8,
            MemoryType::ACPIReclaimMemory => 9,
            MemoryType::ACPIMemoryNVS => 10,
            MemoryType::MemoryMappedIO => 11,
            MemoryType::MemoryMappedIOPortSpace => 12,
            MemoryType::PalCode => 13,
            MemoryType::PersistentMemory => 14,
            MemoryType::MaxMemoryType => 15,
        }
    }

    /// The memory type with firmware value `code`, if there is one.
    pub fn from_code(code: u32) -> (r: Option<MemoryType>)
        ensures
            r is Some <==> code <= 15,
            r matches Some(m) ==> memory_type_code(m) == code,
    {
        match code {
            0 => Some(MemoryType::ReservedMemoryType),
            1 => Some(MemoryType::LoaderCode),
            2 => Some(MemoryType::LoaderData),
            3 => Some(MemoryType::BootServicesCode),
            4 => Some(MemoryType::BootServicesData),
            5 => Some(MemoryType::RuntimeServicesCode),
            6 => Some(MemoryType::RuntimeServicesData),
            7 => Some(MemoryType::ConventionalMemory),
            8 => Some(MemoryType::UnusableMemory),
            9 => Some(MemoryType::ACPIReclaimMemory),
            10 => Some(MemoryType::ACPIMemoryNVS),
            11 => Some(MemoryType::MemoryMappedIO),
            12 => Some(MemoryType::MemoryMappedIOPortSpace),
            13 => Some(MemoryType::PalCode),
            14 => Some(MemoryType::PersistentMemory),
            15 => Some(MemoryType::MaxMemoryType),
            _ => None,
        }
    }

    /// Whether a region of this type is free for the loader to use.
    pub fn is_free(self) -> (r: bool)
        ensures
            r == (self == MemoryType::ConventionalMemory),
    {
        match self {
            MemoryType::ConventionalMemory => true,
            _ => false,
        }
    }
}

/// `ceil(size / PAGE_SIZE)`.
pub open spec fn pages_for(size: nat) -> nat {
    ((size + PAGE_SIZE - 1) / (PAGE_SIZE as int)) as nat
}

/// Number of pages needed to hold `size` bytes.
pub fn page_count(size: usize) -> (r: usize)
    ensures
        r == pages_for(size as nat),
        r as int * PAGE_SIZE >= size,
        r as int * PAGE_SIZE < size + PAGE_SIZE,
{
    let whole = size / PAGE_SIZE;
    let r = if size % PAGE_SIZE == 0 { whole } else { whole + 1 };
    assert(r == pages_for(size as nat) && r as int * 4096 >= size && r as int * 4096 < size + 4096)
        by (nonlinear_arith)
        requires
            whole == size as int / 4096,
            r == (if size as int % 4096 == 0 { whole as int } else { whole + 1 }),
            pages_for(size as nat) == (size + 4095) / 4096,
    ;
    r
}

/// A contiguous range of physical memory: `size_bytes` bytes from `base`.
#[derive(Copy, Clone, Debug, PartialEq, Eq, Structural)]
pub struct MemoryExtent {
    pub base: u64,
    pub size_bytes: usize,
}

impl MemoryExtent {
    pub open spec fn end(self) -> int {
        self.base + self.size_bytes
    }

    /// Non-empty, and inside the 64-bit physical address space.
    pub open spec fn well_formed(self) -> bool {
        self.size_bytes > 0 && self.end() <= u64::MAX + 1
    }

    pub open spec fn contains_range(self, start: int, len: int) -> bool {
        self.base <= start && start + len <= self.end()
    }
}

pub open spec fn extents_overlap(a: MemoryExtent, b: MemoryExtent) -> bool {
    a.base < b.end() && b.base < a.end()
}

/// `e` shares no byte with any extent of `fed`.
pub open spec fn disjoint_from_all(e: MemoryExtent, fed: Seq<MemoryExtent>) -> bool {
    forall|i: int| 0 <= i < fed.len() ==> !extents_overlap(e, #[trigger] fed[i])
}

/// Whether `e` overlaps some extent of `fed`.
pub fn overlaps_any(e: MemoryExtent, fed: &Vec<MemoryExtent>) -> (r: bool)
    ensures
        r == !disjoint_from_all(e, fed@),
{
    let mut i: usize = 0;
    while i < fed.len()
        invariant
            i <= fed.len(),
            disjoint_from_all(e, fed@.take(i as int)),
        decreases fed.len() - i,
    {
        let f = fed[i];
        if (e.base as u128) < (f.base as u128) + (f.size_bytes as u128)
            && (f.base as u128) < (e.base as u128) + (e.size_bytes as u128) {
            assert(fed@[i as int] == f);
            return true;
        }
        assert(fed@.take(i as int + 1) =~= fed@.take(i as int).push(f));
        i = i + 1;
    }
    assert(fed@.take(i as int) =~= fed@);
    false
}

/// The extent of `pages` pages from `base`, when it is well formed and its
/// size fits in a `usize`.
pub open spec fn page_extent(base: u64, pages: u64) -> Option<MemoryExtent> {
    if pages > 0 && pages * PAGE_SIZE <= usize::MAX && base + pages * PAGE_SIZE <= u64::MAX + 1 {
        Some(MemoryExtent { base, size_bytes: (pages * PAGE_SIZE) as usize })
    } else {
        None
    }
}

pub fn extent_of_pages(base: u64, pages: u64) -> (r: Option<MemoryExtent>)
    ensures
        r == page_extent(base, pages),
        r matches Some(e) ==> e.well_formed(),
{
    if pages == 0 || pages > (usize::MAX / PAGE_SIZE) as u64 {
        assert(pages > 0 ==> (pages * 4096 <= usize::MAX <==> pages <= usize::MAX / 4096))
            by (nonlinear_arith);
        return None;
    }
    assert(pages * 4096 <= usize::MAX) by (nonlinear_arith)
        requires
            pages <= usize::MAX / 4096,
    ;
    let size = pages as usize * PAGE_SIZE;
    if (base as u128) + (size as u128) > (u64::MAX as u128) + 1 {
        return None;
    }
    Some(MemoryExtent { base, size_bytes: size })
}

/// The free extent that a memory-map entry describes, if any.
pub open spec fn descriptor_extent(d: MemoryDescriptor) -> Option<MemoryExtent> {
    if d.memory_type == MemoryType::ConventionalMemory {
        page_extent(d.physical_start, d.number_of_pages)
    } else {
        None
    }
}

/// One entry of the firmware's memory map.
#[derive(Copy, Clone, Debug, PartialEq, Eq, Structural)]
pub struct MemoryDescriptor {
    pub memory_type: MemoryType,
    pub physical_start: u64,
    pub number_of_pages: u64,
}

impl MemoryDescriptor {
    pub fn free_extent(&self) -> (r: Option<MemoryExtent>)
        ensures
            r == descriptor_extent(*self),
            r matches Some(e) ==> e.well_formed(),
    {
        if self.memory_type.is_free() {
            extent_of_pages(self.physical_start, self.number_of_pages)
        } else {
            None
        }
    }
}

/// Whether the firmware's boot services can still be called. The one
/// transition is from `Active` to `Unavailable`, when the boot phase ends.
#[derive(Copy, Clone, Debug, PartialEq, Eq, Structural)]
pub enum FirmwareAvailability {
    Active,
    Unavailable,
}

impl FirmwareAvailability {
    /// The state at process entry.
    pub fn new() -> (r: FirmwareAvailability)
        ensures
            r == FirmwareAvailability::Active,
    {
        FirmwareAvailability::Active
    }

    /// Records that the boot phase has ended; there is no way back.
    pub fn revoke(&mut self)
        ensures
            *final(self) == FirmwareAvailability::Unavailable,
    {
        *self = FirmwareAvailability::Unavailable;
    }

    pub fn is_active(&self) -> (r: bool)
        ensures
            r == (*self == FirmwareAvailability::Active),
    {
        match self {
            FirmwareAvailability::Active => true,
            FirmwareAvailability::Unavailable => false,
        }
    }
}

} // verus!
