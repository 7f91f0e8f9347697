use domo::secrets::{PathError, done_marker, path};

#[test]
fn rejects_absolute_and_climbing_paths() {
    assert!(path(".secrets", "/etc/passwd").is_err());
    assert!(path(".secrets", "../outside").is_err());
    assert!(path(".secrets", "pki/../../outside").is_err());
    assert!(path(".secrets", "pki/root.pem").is_ok());
}

#[test]
fn a_relative_path_is_joined_under_the_root() {
    assert_eq!(path(".secrets", "pki/root.pem").unwrap(), ".secrets/pki/root.pem");
    assert_eq!(path("/run/secrets/", "pki/root.pem").unwrap(), "/run/secrets/pki/root.pem");
    assert_eq!(path("", "pki/root.pem").unwrap(), "pki/root.pem");
}

#[test]
fn dots_that_are_not_a_parent_component_are_accepted() {
    assert!(path(".secrets", "pki/..key").is_ok());
    assert!(path(".secrets", "a..b/c").is_ok());
    assert!(path(".secrets", ".hidden").is_ok());
    assert!(path(".secrets", "pki/..").is_err());
    assert!(path(".secrets", "..").is_err());
}

#[test]
fn each_refusal_names_the_path() {
    match path(".secrets", "/etc/passwd") {
        Err(e @ PathError::Absolute(_)) => {
            assert_eq!(e.message(), "secrets path must be relative, got /etc/passwd")
        }
        other => panic!("expected an absolute-path refusal, got {other:?}"),
    }
    match path(".secrets", "pki/../../outside") {
        Err(e @ PathError::Climbing(_)) => assert_eq!(
            e.message(),
            "secrets path must not climb out of the tree: pki/../../outside"
        ),
        other => panic!("expected a climbing refusal, got {other:?}"),
    }
}

#[test]
fn stage_markers_live_under_state() {
    assert_eq!(done_marker("pki"), "state/pki.done");
}
