use domo::hand_rolled::{BootstrapOutcome, UserCreation, bootstrap_outcome, find_by, is_success, items,
    role_assignment_accepted, user_creation};

#[test]
fn items_tolerates_both_envelopes() {
    let wrapped = br#"{"items": [{"name": "a"}]}"#;
    let bare = br#"[{"name": "a"}]"#;
    assert_eq!(items(wrapped).len(), 1);
    assert_eq!(items(bare).len(), 1);
    assert_eq!(items(b"{}").len(), 0);
}

#[test]
fn find_by_matches_on_the_named_field() {
    let list = br#"{"items": [{"name": "x", "id": "1"}, {"name": "y", "id": "2"}]}"#;
    let found = find_by(list, "name", "y").unwrap();
    let found: serde_json::Value = serde_json::from_slice(&found).unwrap();
    assert_eq!(found.get("id").unwrap(), "2");
    assert!(find_by(list, "name", "z").is_none());
}

#[test]
fn items_keeps_each_element_whole() {
    let list = br#"[{"name": "a", "n": 1}, 2, "three"]"#;
    let all = items(list);
    assert_eq!(all.len(), 3);
    let first: serde_json::Value = serde_json::from_slice(&all[0]).unwrap();
    assert_eq!(first.get("n").unwrap(), 1);
    assert_eq!(all[1], b"2".to_vec());
    assert_eq!(all[2], br#""three""#.to_vec());
    // An `items` member that is not a list is no list at all.
    assert!(items(br#"{"items": 3}"#).is_empty());
    assert!(items(b"not json").is_empty());
}

#[test]
fn find_by_returns_the_first_match() {
    let list = br#"[{"name": "y", "id": "1"}, {"name": "y", "id": "2"}, {"name": 7}]"#;
    let found: serde_json::Value = serde_json::from_slice(&find_by(list, "name", "y").unwrap()).unwrap();
    assert_eq!(found.get("id").unwrap(), "1");
    assert!(find_by(list, "name", "7").is_none());
}

#[test]
fn bootstrap_statuses_are_classified() {
    assert_eq!(bootstrap_outcome(201), Some(BootstrapOutcome::Created));
    assert_eq!(bootstrap_outcome(200), Some(BootstrapOutcome::Created));
    assert_eq!(bootstrap_outcome(409), Some(BootstrapOutcome::AlreadyInitialised));
    assert_eq!(bootstrap_outcome(403), Some(BootstrapOutcome::GateConsumed));
    assert_eq!(bootstrap_outcome(500), None);
    assert_eq!(bootstrap_outcome(401), None);
}

#[test]
fn tenant_admin_creation_statuses_are_classified() {
    assert_eq!(user_creation(201), UserCreation::Created);
    assert_eq!(user_creation(409), UserCreation::Exists);
    assert_eq!(user_creation(400), UserCreation::Failed);
    assert!(role_assignment_accepted(204));
    assert!(role_assignment_accepted(409));
    assert!(!role_assignment_accepted(404));
    assert!(is_success(299));
    assert!(!is_success(300));
    assert!(!is_success(199));
}
