use io_thread_controller::names::NameSet;
use io_thread_controller::state::{RegistryRead, StateError, VmOwnership, VmStateStore};
use io_thread_controller::util::Path;

fn store() -> VmStateStore {
    VmStateStore::new(&Path::new("/", "/var/lib/ownership.json"))
}

fn listed(set: &NameSet) -> Vec<String> {
    set.to_vec()
}

/// What is saved loads back.
#[test]
fn ownership_round_trips_in_one_file() {
    let store = store();
    let mut expected = VmOwnership::default();
    expected.record("managed", true).unwrap();
    expected.record("../unmanaged", false).unwrap();

    let write = store.save(&expected, 7).unwrap();
    assert_eq!(write.path.as_str(), "/var/lib/ownership.json");
    assert_eq!(write.tmp_extension, "json.tmp-7");

    let loaded = store.load(RegistryRead::Parsed(write.contents)).unwrap();
    assert_eq!(listed(&loaded.managed_vms), listed(&expected.managed_vms));
    assert_eq!(listed(&loaded.unmanaged_vms), listed(&expected.unmanaged_vms));
}

/// A missing ownership file loads as the empty state.
#[test]
fn missing_state_uses_defaults() {
    let store = VmStateStore::new(&Path::new("/", "missing.json"));
    let loaded = store.load(RegistryRead::Missing).unwrap();
    let expected = VmOwnership::default();
    assert_eq!(listed(&loaded.managed_vms), listed(&expected.managed_vms));
    assert_eq!(listed(&loaded.unmanaged_vms), listed(&expected.unmanaged_vms));
    assert!(listed(&loaded.managed_vms).is_empty());
}

/// A VM listed both as managed and as unmanaged is refused on load.
#[test]
fn overlapping_classifications_are_rejected() {
    let same = vec!["same".to_string()];
    let state = VmOwnership {
        managed_vms: NameSet::from_names(&same),
        unmanaged_vms: NameSet::from_names(&same),
    };
    assert!(state.validate().is_err());
    assert!(store().save(&state, 1).is_err());
    match store().load(RegistryRead::Parsed(state)) {
        Err(StateError::VmError(why)) => {
            assert_eq!(why, "managed_vms and unmanaged_vms overlap")
        }
        _ => panic!("expected an error"),
    }
}

#[test]
fn unreadable_and_malformed_files_are_errors() {
    match store().load(RegistryRead::Unreadable("denied".to_string())) {
        Err(error) => assert_eq!(error.to_string(), "denied"),
        Ok(_) => panic!("expected an error"),
    }
    match store().load(RegistryRead::Malformed("expected value".to_string())) {
        Err(StateError::SerdeJson(why)) => assert_eq!(why, "expected value"),
        _ => panic!("expected an error"),
    }
}

#[test]
fn classifications_are_recorded_once() {
    let mut state = VmOwnership::default();
    assert_eq!(state.classification("vm"), None);
    state.record("vm", false).unwrap();
    assert_eq!(state.classification("vm"), Some(false));
    let error = state.record("vm", true).unwrap_err();
    assert_eq!(
        error.to_string(),
        "VM error: VM vm already has an ownership classification"
    );
    assert_eq!(state.classification("vm"), Some(false));
    assert_eq!(state.classification("other"), None);
    assert!(state.validate().is_ok());
    assert_eq!(state.clone().classification("vm"), Some(false));
}

#[test]
fn name_sets_are_sorted_without_repetition() {
    let names = vec!["b".to_string(), "a".to_string(), "b".to_string(), "ä".to_string()];
    let set = NameSet::from_names(&names);
    assert_eq!(set.to_vec(), vec!["a".to_string(), "b".to_string(), "ä".to_string()]);
    assert!(set.contains("a"));
    assert!(!set.contains("c"));
    let mut more = set.clone();
    assert!(more.insert("c"));
    assert!(!more.insert("c"));
    assert!(!set.is_disjoint(&more));
    assert!(set.is_disjoint(&NameSet::new()));
}
