use aether::error::AetherError;
use aether::ports::PortAllocator;
use std::cell::Cell;
use std::collections::HashSet;

fn sequential_probe(first: u16) -> impl Fn() -> Result<u16, AetherError> {
    let next = Cell::new(first);
    move || {
        let p = next.get();
        next.set(p + 1);
        Ok(p)
    }
}

#[test]
fn test_allocate_single_port() {
    let mut allocator = PortAllocator::new();
    let ports = allocator.allocate(1, sequential_probe(40000)).unwrap();
    assert_eq!(ports.len(), 1);
    assert!(ports[0] > 0);
}

#[test]
fn test_allocate_multiple_ports() {
    let mut allocator = PortAllocator::new();
    let ports = allocator.allocate(5, sequential_probe(40100)).unwrap();
    assert_eq!(ports.len(), 5);

    let unique: HashSet<u16> = ports.iter().copied().collect();
    assert_eq!(unique.len(), 5);
}

#[test]
fn test_release_ports() {
    let mut allocator = PortAllocator::new();
    let ports = allocator.allocate(2, sequential_probe(40200)).unwrap();
    allocator.release(&ports);
    assert_eq!(allocator.reserved_count(), 0);
}

#[test]
fn test_port_allocator() {
    let mut allocator = PortAllocator::new();
    let ports = allocator.allocate(10, sequential_probe(40300)).unwrap();

    assert_eq!(ports.len(), 10);

    let unique: HashSet<_> = ports.iter().collect();
    assert_eq!(unique.len(), 10);
}

#[test]
fn allocation_refuses_a_port_already_reserved() {
    let mut allocator = PortAllocator::new();
    let probe = || Ok(41000u16);
    let ports = allocator.allocate(1, probe).unwrap();
    assert_eq!(ports, vec![41000]);
    let err = allocator.allocate(1, probe).unwrap_err();
    assert_eq!(err, AetherError::PortAllocation("port 41000 is not free".to_string()));
    assert!(allocator.is_reserved(41000));
    assert_eq!(allocator.reserved_count(), 1);
}

#[test]
fn allocation_refuses_port_zero_and_passes_probe_errors() {
    let mut allocator = PortAllocator::new();
    let err = allocator.allocate(1, || Ok(0u16)).unwrap_err();
    assert_eq!(err, AetherError::PortAllocation("port 0 is not free".to_string()));
    let err = allocator
        .allocate(2, || Err(AetherError::PortAllocation("Failed to bind: denied".to_string())))
        .unwrap_err();
    assert_eq!(err, AetherError::PortAllocation("Failed to bind: denied".to_string()));
    assert_eq!(allocator.reserved_count(), 0);
}

#[test]
fn allocate_zero_ports_is_empty() {
    let mut allocator = PortAllocator::new();
    let ports = allocator.allocate(0, sequential_probe(1)).unwrap();
    assert!(ports.is_empty());
}

#[test]
fn releasing_unreserved_port_changes_nothing() {
    let mut allocator = PortAllocator::new();
    allocator.allocate(2, sequential_probe(42000)).unwrap();
    allocator.release(&[43000]);
    assert_eq!(allocator.reserved_count(), 2);
    allocator.release(&[42000, 42000]);
    assert_eq!(allocator.reserved_count(), 1);
    assert!(allocator.is_reserved(42001));
    assert!(!allocator.is_reserved(42000));
}

#[test]
fn take_ports_stops_at_first_refused() {
    let mut allocator = PortAllocator::new();
    assert_eq!(allocator.take_ports(&vec![5000, 5001]), Ok(vec![5000, 5001]));
    assert_eq!(
        allocator.take_ports(&vec![5002, 5003, 5002, 5004]),
        Err(AetherError::PortAllocation("port 5002 is not free".to_string()))
    );
    assert!(allocator.is_reserved(5003));
    assert!(!allocator.is_reserved(5004));
    assert_eq!(
        allocator.take_ports(&vec![5001]),
        Err(AetherError::PortAllocation("port 5001 is not free".to_string()))
    );
    assert_eq!(allocator.reserved_count(), 4);
}

#[test]
fn failing_probe_reserves_nothing() {
    let mut allocator = PortAllocator::new();
    let calls = Cell::new(0u16);
    let probe = || {
        calls.set(calls.get() + 1);
        if calls.get() == 2 {
            Err(AetherError::PortAllocation("Failed to bind: busy".to_string()))
        } else {
            Ok(45000 + calls.get())
        }
    };
    assert!(allocator.allocate(3, probe).is_err());
    assert_eq!(allocator.reserved_count(), 0);
}
