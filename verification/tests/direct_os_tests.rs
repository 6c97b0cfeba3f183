use lib::DirectOsAllocator;

#[test]
fn direct_os_allocator_new() {
    let _a: DirectOsAllocator = DirectOsAllocator::new();
}
