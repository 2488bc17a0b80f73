use entry_removal::address::{decode_address, Address};
use entry_removal::entry::{Entry, EntryResult};
use entry_removal::errors::RemovalError;
use entry_removal::pipeline::invoke_remove_entry;
use entry_removal::system::{Faults, System};
use entry_removal::validation::{
    validate, EntryAction, EntryLifecycle, ValidationData, ValidationPackage, ValidationRules,
};

fn data_entry(content: &[u8]) -> Entry {
    Entry::Data(content.to_vec())
}

#[test]
fn remove_uncommitted_returns_unspecified() {
    let mut sys = System::new();
    let never_committed = Address::from_bytes(vec![1, 2, 3]);
    let args = never_committed.encode();
    let r = invoke_remove_entry(&mut sys, &args);
    assert!(matches!(r, Err(RemovalError::Unspecified)));
    assert_eq!(sys.chain().len(), 0);
    assert!(sys.removal_metadata(&never_committed).is_none());
}

#[test]
fn remove_committed_entry_full_scenario() {
    let mut sys = System::new();
    let hello = data_entry(b"hello");
    let h1 = sys.commit(hello.clone(), None).unwrap();
    assert_eq!(h1, hello.address());

    let args = h1.encode();
    let r = invoke_remove_entry(&mut sys, &args);
    assert!(r.is_ok());

    // The tombstone is committed with replaces = H1 and references H1.
    assert_eq!(sys.chain().len(), 2);
    let item = sys.chain().get(1);
    let t1 = Entry::Deletion(h1.clone()).address();
    assert_eq!(item.entry, Entry::Deletion(h1.clone()));
    assert_eq!(item.address, t1);
    assert_eq!(item.replaces, Some(h1.clone()));

    // Removal metadata { H1 -> T1 } was propagated.
    assert_eq!(sys.removal_metadata(&h1), Some(t1.clone()));

    // A later resolve of H1 reports it removed, referencing T1.
    let res = sys.resolve_latest(&h1).unwrap();
    match res {
        EntryResult::Found { entry, address, removed_by } => {
            assert_eq!(entry, hello);
            assert_eq!(address, h1);
            assert_eq!(removed_by, Some(t1));
        },
        EntryResult::NotFound => panic!("expected the entry to be found"),
    }
}

#[test]
fn remove_updated_entry_tombstones_latest() {
    let mut sys = System::new();
    let first = data_entry(b"one");
    let a1 = sys.commit(first, None).unwrap();
    let second = data_entry(b"two");
    let a2 = sys.record_update(&a1, second).unwrap();
    assert_ne!(a1, a2);

    // Request removal by the original (stale) address.
    let args = a1.encode();
    let r = invoke_remove_entry(&mut sys, &args);
    assert!(r.is_ok());

    // The tombstone references the resolved latest address A2, never A1.
    let item = sys.chain().get(sys.chain().len() - 1);
    assert_eq!(item.entry, Entry::Deletion(a2.clone()));
    assert_eq!(item.replaces, Some(a2.clone()));

    // Removal metadata is keyed by the latest address.
    let t = Entry::Deletion(a2.clone()).address();
    assert_eq!(sys.removal_metadata(&a2), Some(t.clone()));
    assert!(sys.removal_metadata(&a1).is_none());

    // Resolving the stale address lands on the latest version, marked removed.
    match sys.resolve_latest(&a1).unwrap() {
        EntryResult::Found { address, removed_by, .. } => {
            assert_eq!(address, a2);
            assert_eq!(removed_by, Some(t));
        },
        EntryResult::NotFound => panic!("expected the entry to be found"),
    }
}

#[test]
fn validation_rejection_leaves_no_trace() {
    let mut sys = System::new();
    let hello = data_entry(b"hello");
    let h1 = sys.commit(hello, None).unwrap();
    sys.set_rules(ValidationRules { no_delete: vec![h1.clone()] });

    let args = h1.encode();
    let r = invoke_remove_entry(&mut sys, &args);
    match r {
        Err(RemovalError::ValidationFailed(f)) => {
            assert_eq!(f.reason, "the active rules forbid removing this entry");
        },
        other => panic!("expected a validation failure, got {:?}", other),
    }
    // No chain commit and no propagation happened.
    assert_eq!(sys.chain().len(), 1);
    assert!(sys.removal_metadata(&h1).is_none());
}

#[test]
fn commit_failure_stops_propagation() {
    let mut sys = System::new();
    let h1 = sys.commit(data_entry(b"hello"), None).unwrap();
    let mut faults = Faults::default();
    faults.commit_fails = true;
    sys.set_faults(faults);

    let args = h1.encode();
    let r = invoke_remove_entry(&mut sys, &args);
    assert!(matches!(r, Err(RemovalError::CommitFailed)));
    assert_eq!(sys.chain().len(), 1);
    assert!(sys.removal_metadata(&h1).is_none());
}

#[test]
fn propagation_failure_keeps_the_commit() {
    let mut sys = System::new();
    let h1 = sys.commit(data_entry(b"hello"), None).unwrap();
    let mut faults = Faults::default();
    faults.propagate_fails = true;
    sys.set_faults(faults);

    let args = h1.encode();
    let r = invoke_remove_entry(&mut sys, &args);
    assert!(matches!(r, Err(RemovalError::PropagationFailed)));
    // The tombstone stays committed even though nothing was propagated.
    assert_eq!(sys.chain().len(), 2);
    assert_eq!(sys.chain().get(1).entry, Entry::Deletion(h1.clone()));
    assert!(sys.removal_metadata(&h1).is_none());
}

#[test]
fn resolve_failure_is_unspecified() {
    let mut sys = System::new();
    let h1 = sys.commit(data_entry(b"hello"), None).unwrap();
    let mut faults = Faults::default();
    faults.resolve_fails = true;
    sys.set_faults(faults);

    let args = h1.encode();
    let r = invoke_remove_entry(&mut sys, &args);
    assert!(matches!(r, Err(RemovalError::Unspecified)));
    assert_eq!(sys.chain().len(), 1);
    assert!(sys.removal_metadata(&h1).is_none());
}

#[test]
fn package_failure_is_unspecified() {
    let mut sys = System::new();
    let h1 = sys.commit(data_entry(b"hello"), None).unwrap();
    let mut faults = Faults::default();
    faults.package_fails = true;
    sys.set_faults(faults);

    let args = h1.encode();
    let r = invoke_remove_entry(&mut sys, &args);
    assert!(matches!(r, Err(RemovalError::Unspecified)));
    assert_eq!(sys.chain().len(), 1);
    assert!(sys.removal_metadata(&h1).is_none());
}

#[test]
fn malformed_argument_is_rejected_with_no_effect() {
    let mut sys = System::new();
    let h1 = sys.commit(data_entry(b"hello"), None).unwrap();

    // Not hex digits.
    let r = invoke_remove_entry(&mut sys, b"zz!");
    assert!(matches!(r, Err(RemovalError::ArgumentDeserializationFailed)));
    // Odd length.
    let r = invoke_remove_entry(&mut sys, b"00f");
    assert!(matches!(r, Err(RemovalError::ArgumentDeserializationFailed)));

    assert_eq!(sys.chain().len(), 1);
    assert!(sys.removal_metadata(&h1).is_none());
}

#[test]
fn propagation_is_idempotent() {
    let mut sys = System::new();
    let deleted = Address::from_bytes(vec![7, 7]);
    let tombstone = Address::from_bytes(vec![8, 8]);

    sys.propagate_removal(&deleted, &tombstone).unwrap();
    assert_eq!(sys.removal_metadata(&deleted), Some(tombstone.clone()));

    // The same pair again: metadata equivalent to a single propagation.
    sys.propagate_removal(&deleted, &tombstone).unwrap();
    assert_eq!(sys.removal_metadata(&deleted), Some(tombstone.clone()));

    // Deletion is monotonic: a different tombstone does not overwrite it.
    let other = Address::from_bytes(vec![9, 9]);
    sys.propagate_removal(&deleted, &other).unwrap();
    assert_eq!(sys.removal_metadata(&deleted), Some(tombstone));
}

#[test]
fn address_hex_round_trip() {
    let a = Address::from_bytes(vec![0, 255, 16, 171]);
    let encoded = a.encode();
    assert_eq!(encoded, b"00ff10ab".to_vec());
    let decoded = decode_address(&encoded).unwrap();
    assert_eq!(decoded, a);

    // Uppercase digits are accepted too.
    let decoded = decode_address(b"00FF10AB").unwrap();
    assert_eq!(decoded, a);

    assert!(decode_address(b"0g").is_none());
    let empty = decode_address(b"").unwrap();
    assert_eq!(empty, Address::from_bytes(vec![]));
}

#[test]
fn tombstone_address_differs_from_removed_address() {
    let a = data_entry(b"hello").address();
    let t = Entry::Deletion(a.clone()).address();
    assert_ne!(a, t);
}

#[test]
fn validator_checks_entry_kind_and_package() {
    let sys = System::new();
    let rules = ValidationRules { no_delete: Vec::new() };
    let tombstone = Entry::Deletion(data_entry(b"hello").address());
    let package = sys.build_validation_package(&tombstone).unwrap();

    // A matching tombstone under the delete action passes.
    let data = ValidationData {
        package,
        lifecycle: EntryLifecycle::Chain,
        action: EntryAction::Delete,
    };
    assert!(validate(&tombstone, &data, &rules).is_ok());

    // A non-deletion entry is rejected under the delete action.
    let plain = data_entry(b"hello");
    let package = sys.build_validation_package(&plain).unwrap();
    let data = ValidationData {
        package,
        lifecycle: EntryLifecycle::Chain,
        action: EntryAction::Delete,
    };
    let f = validate(&plain, &data, &rules).unwrap_err();
    assert_eq!(f.reason, "delete validation requires a deletion entry");

    // Evidence assembled for a different entry is rejected.
    let data = ValidationData {
        package: ValidationPackage { subject: data_entry(b"other").address() },
        lifecycle: EntryLifecycle::Chain,
        action: EntryAction::Delete,
    };
    let f = validate(&tombstone, &data, &rules).unwrap_err();
    assert_eq!(f.reason, "validation package does not match the entry");
}

#[test]
fn rejected_then_allowed_removal_succeeds() {
    let mut sys = System::new();
    let h1 = sys.commit(data_entry(b"hello"), None).unwrap();
    sys.set_rules(ValidationRules { no_delete: vec![h1.clone()] });
    let args = h1.encode();
    assert!(invoke_remove_entry(&mut sys, &args).is_err());

    sys.set_rules(ValidationRules { no_delete: Vec::new() });
    assert!(invoke_remove_entry(&mut sys, &args).is_ok());
    assert_eq!(sys.removal_metadata(&h1), Some(Entry::Deletion(h1.clone()).address()));
}
