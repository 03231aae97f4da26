use stellar_save::address::Address;
use stellar_save::storage::{ContributionKey, CounterKey, GroupKey, MemberKey, PayoutKey, StorageKey, StorageKeyBuilder};

#[test]
fn test_storage_key_ordering() {
    // Test that storage keys can be ordered (important for range queries)
    let key1 = StorageKeyBuilder::group_data(1);
    let key2 = StorageKeyBuilder::group_data(2);
    
    assert!(key1 < key2);
}

#[test]
fn test_group_key_builders() {
    let group_id = 42;
    
    let data_key = StorageKeyBuilder::group_data(group_id);
    let members_key = StorageKeyBuilder::group_members(group_id);
    let status_key = StorageKeyBuilder::group_status(group_id);
    
    // Verify the keys are different
    assert_ne!(data_key, members_key);
    assert_ne!(data_key, status_key);
    assert_ne!(members_key, status_key);
    
    // Verify they contain the correct group ID
    match data_key {
        StorageKey::Group(GroupKey::Data(id)) => assert_eq!(id, group_id),
        _ => panic!("Wrong key type"),
    }
}

#[test]
fn test_member_key_builders() {
    let group_id = 1;
    let address = Address(101);
    
    let profile_key = StorageKeyBuilder::member_profile(group_id, address.clone());
    let contrib_key = StorageKeyBuilder::member_contribution_status(group_id, address.clone());
    let payout_key = StorageKeyBuilder::member_payout_eligibility(group_id, address.clone());
    
    // Verify all keys are different
    assert_ne!(profile_key, contrib_key);
    assert_ne!(profile_key, payout_key);
    assert_ne!(contrib_key, payout_key);
    
    // Verify they contain the correct data
    match profile_key {
        StorageKey::Member(MemberKey::Profile(id, addr)) => {
            assert_eq!(id, group_id);
            assert_eq!(addr, address);
        },
        _ => panic!("Wrong key type"),
    }
}

#[test]
fn test_contribution_key_builders() {
    let group_id = 1;
    let cycle = 2;
    let address = Address(101);
    
    let individual_key = StorageKeyBuilder::contribution_individual(group_id, cycle, address.clone());
    let total_key = StorageKeyBuilder::contribution_cycle_total(group_id, cycle);
    let count_key = StorageKeyBuilder::contribution_cycle_count(group_id, cycle);
    
    // Verify all keys are different
    assert_ne!(individual_key, total_key);
    assert_ne!(individual_key, count_key);
    assert_ne!(total_key, count_key);
    
    // Verify they contain the correct data
    match individual_key {
        StorageKey::Contribution(ContributionKey::Individual(id, c, addr)) => {
            assert_eq!(id, group_id);
            assert_eq!(c, cycle);
            assert_eq!(addr, address);
        },
        _ => panic!("Wrong key type"),
    }
}

#[test]
fn test_payout_key_builders() {
    let group_id = 1;
    let cycle = 2;
    
    let record_key = StorageKeyBuilder::payout_record(group_id, cycle);
    let recipient_key = StorageKeyBuilder::payout_recipient(group_id, cycle);
    let status_key = StorageKeyBuilder::payout_status(group_id, cycle);
    
    // Verify all keys are different
    assert_ne!(record_key, recipient_key);
    assert_ne!(record_key, status_key);
    assert_ne!(recipient_key, status_key);
    
    // Verify they contain the correct data
    match record_key {
        StorageKey::Payout(PayoutKey::Record(id, c)) => {
            assert_eq!(id, group_id);
            assert_eq!(c, cycle);
        },
        _ => panic!("Wrong key type"),
    }
}

#[test]
fn test_counter_key_builders() {
    let next_id_key = StorageKeyBuilder::next_group_id();
    let total_groups_key = StorageKeyBuilder::total_groups();
    let active_groups_key = StorageKeyBuilder::active_groups();
    let total_members_key = StorageKeyBuilder::total_members();
    let version_key = StorageKeyBuilder::contract_version();
    
    // Verify all keys are different
    let keys = [
        &next_id_key, &total_groups_key, &active_groups_key, 
        &total_members_key, &version_key
    ];
    
    for i in 0..keys.len() {
        for j in i+1..keys.len() {
            assert_ne!(keys[i], keys[j], "Keys at positions {} and {} should be different", i, j);
        }
    }
    
    // Verify key types
    match next_id_key {
        StorageKey::Counter(CounterKey::NextGroupId) => {},
        _ => panic!("Wrong key type for next_group_id"),
    }
}

#[test]
fn test_key_equality_and_cloning() {
    let key1 = StorageKeyBuilder::group_data(1);
    let key2 = StorageKeyBuilder::group_data(1);
    let key3 = key1.clone();
    
    assert_eq!(key1, key2);
    assert_eq!(key1, key3);
}

#[test]
fn test_different_key_categories() {
    let address = Address(101);
    
    let group_key = StorageKeyBuilder::group_data(1);
    let member_key = StorageKeyBuilder::member_profile(1, address);
    let contrib_key = StorageKeyBuilder::contribution_cycle_total(1, 1);
    let payout_key = StorageKeyBuilder::payout_record(1, 1);
    let counter_key = StorageKeyBuilder::next_group_id();
    
    // Verify all different categories produce different keys
    let keys = [&group_key, &member_key, &contrib_key, &payout_key, &counter_key];
    
    for i in 0..keys.len() {
        for j in i+1..keys.len() {
            assert_ne!(keys[i], keys[j], "Keys at positions {} and {} should be different", i, j);
        }
    }
}
