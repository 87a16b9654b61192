use azora_kernel::constitutional::ConstitutionalOracle;
use azora_kernel::memory::{
    AccessType, ConstitutionalAllocator, ConstitutionalFlags, MemoryError, MemoryManager, ProcessId,
    SovereigntyLevel, HEAP_BASE, PAGE_SIZE, TOTAL_MEMORY, TOTAL_PAGES,
};
use azora_kernel::sovereignty::SovereigntyManager;

const LEVELS: [SovereigntyLevel; 4] = [
    SovereigntyLevel::Sovereign,
    SovereigntyLevel::Protected,
    SovereigntyLevel::Public,
    SovereigntyLevel::Private,
];

#[test]
fn zero_pages_is_invalid_for_every_level() {
    let oracle = ConstitutionalOracle::init();
    let sovereignty = SovereigntyManager::init(&oracle);
    let mut memory = MemoryManager::init(&oracle, &sovereignty);
    for level in LEVELS {
        assert_eq!(memory.allocate_pages(0, level), Err(MemoryError::InvalidSize));
    }
    assert_eq!(memory.free_page_count(), TOTAL_PAGES);
}

#[test]
fn sovereign_pages_refused_to_kernel_context() {
    let oracle = ConstitutionalOracle::init();
    let sovereignty = SovereigntyManager::init(&oracle);
    let mut memory = MemoryManager::init(&oracle, &sovereignty);
    for n in [1usize, 4, TOTAL_PAGES, TOTAL_PAGES + 1] {
        assert_eq!(
            memory.allocate_pages(n, SovereigntyLevel::Sovereign),
            Err(MemoryError::ConstitutionalViolation(
                "Only sovereign processes can allocate sovereign memory".to_string()
            ))
        );
    }
    assert_eq!(memory.free_page_count(), TOTAL_PAGES);
}

#[test]
fn protected_and_private_pages_refused() {
    let oracle = ConstitutionalOracle::init();
    let sovereignty = SovereigntyManager::init(&oracle);
    let mut memory = MemoryManager::init(&oracle, &sovereignty);
    assert_eq!(
        memory.allocate_pages(2, SovereigntyLevel::Protected),
        Err(MemoryError::ConstitutionalViolation("Allocation requires constitutional review".to_string()))
    );
    assert_eq!(
        memory.allocate_pages(2, SovereigntyLevel::Private),
        Err(MemoryError::ConstitutionalViolation("Private memory allocation requires user consent".to_string()))
    );
}

#[test]
fn allocate_then_free_restores_counters() {
    let oracle = ConstitutionalOracle::init();
    let sovereignty = SovereigntyManager::init(&oracle);
    let mut memory = MemoryManager::init(&oracle, &sovereignty);
    let before = memory.get_stats();
    let handle = memory.allocate_pages(3, SovereigntyLevel::Public).unwrap();
    assert_eq!(handle, HEAP_BASE);
    let during = memory.get_stats();
    assert_eq!(during.sovereignty_stats.public_pages, 3);
    assert_eq!(during.allocated_memory, 3 * PAGE_SIZE);
    assert_eq!(during.free_memory, TOTAL_MEMORY - 3 * PAGE_SIZE);
    assert_eq!(memory.free_pages(handle, 3), Ok(()));
    let after = memory.get_stats();
    assert_eq!(after.free_memory, before.free_memory);
    assert_eq!(after.allocated_memory, before.allocated_memory);
    assert_eq!(after.sovereignty_stats.public_pages, before.sovereignty_stats.public_pages);
    assert_eq!(after.sovereignty_stats.sovereign_pages, 0);
    assert_eq!(memory.free_page_count(), TOTAL_PAGES);
}

#[test]
fn handles_are_distinct_and_freed_independently() {
    let oracle = ConstitutionalOracle::init();
    let sovereignty = SovereigntyManager::init(&oracle);
    let mut memory = MemoryManager::init(&oracle, &sovereignty);
    let a = memory.allocate_pages(1, SovereigntyLevel::Public).unwrap();
    let b = memory.allocate_pages(2, SovereigntyLevel::Public).unwrap();
    assert_eq!(b, a + PAGE_SIZE);
    assert_eq!(memory.free_page_count(), TOTAL_PAGES - 3);
    assert_eq!(memory.free_pages(a, 1), Ok(()));
    assert_eq!(memory.free_pages(a, 1), Err(MemoryError::PermissionDenied));
    assert_eq!(memory.free_pages(b, 1), Err(MemoryError::InvalidSize));
    assert_eq!(memory.free_pages(b, 2), Ok(()));
    assert_eq!(memory.free_page_count(), TOTAL_PAGES);
}

#[test]
fn unknown_handle_is_permission_denied() {
    let oracle = ConstitutionalOracle::init();
    let sovereignty = SovereigntyManager::init(&oracle);
    let mut memory = MemoryManager::init(&oracle, &sovereignty);
    assert_eq!(memory.free_pages(HEAP_BASE, 1), Err(MemoryError::PermissionDenied));
    assert_eq!(memory.free_pages(0, 0), Err(MemoryError::PermissionDenied));
}

#[test]
fn pool_exhaustion_is_out_of_memory() {
    let oracle = ConstitutionalOracle::init();
    let sovereignty = SovereigntyManager::init(&oracle);
    let mut memory = MemoryManager::init(&oracle, &sovereignty);
    assert_eq!(memory.allocate_pages(TOTAL_PAGES + 1, SovereigntyLevel::Public), Err(MemoryError::OutOfMemory));
    assert_eq!(memory.allocate_pages(usize::MAX, SovereigntyLevel::Public), Err(MemoryError::OutOfMemory));
    let all = memory.allocate_pages(TOTAL_PAGES, SovereigntyLevel::Public).unwrap();
    assert_eq!(memory.free_page_count(), 0);
    assert_eq!(memory.allocate_pages(1, SovereigntyLevel::Public), Err(MemoryError::OutOfMemory));
    assert_eq!(memory.free_pages(all, TOTAL_PAGES), Ok(()));
    assert!(memory.allocate_pages(1, SovereigntyLevel::Public).is_ok());
}

#[test]
fn owner_is_recorded_by_allocate_pages_for() {
    let oracle = ConstitutionalOracle::init();
    let sovereignty = SovereigntyManager::init(&oracle);
    let mut memory = MemoryManager::init(&oracle, &sovereignty);
    let a = memory.allocate_pages_for(ProcessId(7), 2, SovereigntyLevel::Public).unwrap();
    assert_eq!(memory.get_stats().sovereignty_stats.public_pages, 2);
    assert_eq!(memory.free_pages(a, 2), Ok(()));
    assert!(memory.verify_sovereignty_access(a, AccessType::Read, SovereigntyLevel::Public));
}

#[test]
fn byte_allocator_rounds_up_to_pages() {
    let oracle = ConstitutionalOracle::init();
    let sovereignty = SovereigntyManager::init(&oracle);
    let mut allocator = ConstitutionalAllocator::new();
    assert_eq!(allocator.alloc_bytes(16), None);
    allocator.init(MemoryManager::init(&oracle, &sovereignty));
    assert_eq!(allocator.alloc_bytes(0), None);
    let a = allocator.alloc_bytes(1).unwrap();
    let b = allocator.alloc_bytes(PAGE_SIZE + 1).unwrap();
    assert_eq!(b, a + PAGE_SIZE);
    let c = allocator.alloc_bytes(PAGE_SIZE).unwrap();
    assert_eq!(c, b + 2 * PAGE_SIZE);
    allocator.dealloc_bytes(b, PAGE_SIZE + 1);
    let d = allocator.alloc_bytes(1).unwrap();
    assert_eq!(d, c + PAGE_SIZE);
}

#[test]
fn flag_bits_follow_declaration_order() {
    let flags = ConstitutionalFlags::for_allocation(SovereigntyLevel::Sovereign);
    assert_eq!(flags.bits(), 0b101);
    assert_eq!(ConstitutionalFlags::for_allocation(SovereigntyLevel::Public).bits(), 0b1);
    let all = ConstitutionalFlags::from_bits_truncate(0xffff_ffff);
    assert_eq!(all.bits(), 0xff);
    let some = ConstitutionalFlags::from_bits_truncate(0b1000_0010);
    assert!(some.pivc_verified && some.shared_memory && !some.compliant);
    assert_eq!(some.bits(), 0b1000_0010);
}
