use domo::bootstrap::smoke::{PREFIX, ResourceLink, depth_of, ensure_prefixed, first_line, is_smoke_group,
    is_smoke_name, sa_id_path};

#[test]
fn fixture_names_carry_the_reserved_prefix() {
    assert!(ensure_prefixed("smoke-probe-device").is_ok());
    let e = ensure_prefixed("probe-device").unwrap_err();
    assert_eq!(e.0, "probe-device");
    assert_eq!(
        e.message(),
        "fixture 'probe-device' does not carry the reserved 'smoke-' prefix"
    );
    assert_eq!(PREFIX, "smoke-");
}

#[test]
fn teardown_recognizes_fixtures_by_their_slug() {
    assert!(is_smoke_name("site:smoke-park"));
    assert!(is_smoke_name("common:building:smoke-tower"));
    assert!(is_smoke_name("smoke-probe-device"));
    assert!(!is_smoke_name("site:lakeside"));
    // Only the slug counts: a prefix elsewhere in the name is not a fixture.
    assert!(!is_smoke_name("smoke-site:lakeside"));
}

#[test]
fn teardown_recognizes_fixture_groups_by_their_resource() {
    assert!(is_smoke_group("installer@site:smoke-park"));
    assert!(!is_smoke_group("installer@site:lakeside"));
    assert!(!is_smoke_group("site:smoke-park"));
    assert!(is_smoke_group("resident@apartment:smoke-tower-1"));
}

#[test]
fn account_ids_are_recorded_per_fixture() {
    assert_eq!(sa_id_path("smoke-probe-device"), "smoke/smoke-probe-device.sa-id");
}

#[test]
fn a_report_line_is_the_trimmed_first_line() {
    assert_eq!(first_line("  refused: no \nstack trace"), "refused: no");
    assert_eq!(first_line(""), "");
    assert_eq!(first_line("\nsecond"), "");
    assert_eq!(first_line("one line"), "one line");
}

#[test]
fn depth_follows_parent_links() {
    let all = [
        ResourceLink { id: 1, parent_id: None },
        ResourceLink { id: 2, parent_id: Some(1) },
        ResourceLink { id: 3, parent_id: Some(2) },
        ResourceLink { id: 4, parent_id: Some(9) },
    ];
    assert_eq!(depth_of(&all[0], &all), 0);
    assert_eq!(depth_of(&all[1], &all), 1);
    assert_eq!(depth_of(&all[2], &all), 2);
    // A parent that is not listed ends the walk one step up.
    assert_eq!(depth_of(&all[3], &all), 1);
}

#[test]
fn a_cycle_cannot_make_the_walk_run_forever() {
    let all = [
        ResourceLink { id: 1, parent_id: Some(2) },
        ResourceLink { id: 2, parent_id: Some(1) },
    ];
    assert!(depth_of(&all[0], &all) <= all.len() + 1);
}

#[test]
fn strings_sort_by_code_point_and_keep_duplicates() {
    let v: Vec<String> = ["b", "a", "ab", "B", "", "a"].iter().map(|s| (*s).to_owned()).collect();
    let mut want = v.clone();
    want.sort();
    assert_eq!(domo::text::sort_strings(v), want);
    assert!(domo::text::str_lt("a", "ab"));
    assert!(!domo::text::str_lt("ab", "ab"));
    assert!(domo::text::str_lt("Z", "a"));
}
