use stellar_save::address::Address;
use stellar_save::group::Group;

#[test]
fn test_group_creation() {
    let creator = Address(101);
    
    let group = Group::new(
        1,
        creator.clone(),
        10_000_000, // 1 XLM
        604800,     // 1 week
        5,          // 5 members
        1234567890,
    );

    assert_eq!(group.id, 1);
    assert_eq!(group.creator, creator);
    assert_eq!(group.contribution_amount, 10_000_000);
    assert_eq!(group.cycle_duration, 604800);
    assert_eq!(group.max_members, 5);
    assert_eq!(group.current_cycle, 0);
    assert_eq!(group.is_active, true);
    assert_eq!(group.created_at, 1234567890);
}

#[test]
fn test_is_complete() {
    let creator = Address(101);
    
    let mut group = Group::new(1, creator, 10_000_000, 604800, 3, 1234567890);
    
    assert!(!group.is_complete());
    
    group.current_cycle = 2;
    assert!(!group.is_complete());
    
    group.current_cycle = 3;
    assert!(group.is_complete());
}

#[test]
fn test_advance_cycle() {
    let creator = Address(101);
    
    let mut group = Group::new(1, creator, 10_000_000, 604800, 3, 1234567890);
    
    assert_eq!(group.current_cycle, 0);
    assert!(group.is_active);
    
    group.advance_cycle();
    assert_eq!(group.current_cycle, 1);
    assert!(group.is_active);
    
    group.advance_cycle();
    assert_eq!(group.current_cycle, 2);
    assert!(group.is_active);
    
    group.advance_cycle();
    assert_eq!(group.current_cycle, 3);
    assert!(!group.is_active); // Auto-deactivated when complete
}

#[test]
fn test_deactivate_reactivate() {
    let creator = Address(101);
    
    let mut group = Group::new(1, creator, 10_000_000, 604800, 3, 1234567890);
    
    assert!(group.is_active);
    
    group.deactivate();
    assert!(!group.is_active);
    
    group.reactivate();
    assert!(group.is_active);
}

#[test]
fn test_total_pool_amount() {
    let creator = Address(101);
    
    let group = Group::new(1, creator, 10_000_000, 604800, 5, 1234567890);
    
    assert_eq!(group.total_pool_amount(), 50_000_000); // 5 XLM total
}

#[test]
fn group_test_validate() {
    let creator = Address(101);
    
    let group = Group::new(1, creator, 10_000_000, 604800, 5, 1234567890);
    assert!(group.validate());
}
