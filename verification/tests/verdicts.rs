use domo::bootstrap::provision::{ListedResource, Named};
use domo::bootstrap::smoke::{BranchError, branch_apartment_slug, leaf_first, teardown_plan};
use domo::bootstrap::verdicts::{
    Report, RoleGrant, deny_rule_nodes, distinct_pair, expected_ancestors, holds_exactly, membership_steps,
    mismatches, reverse_order_holds, same_sequence,
};

#[test]
fn a_report_fails_once_any_case_fails() {
    let mut r = Report::new();
    assert!(r.passed);
    assert_eq!(r.case("ancestors", true, "x", "4 nodes"), "ancestors  4 nodes");
    assert!(r.passed);
    assert_eq!(r.case("membership", false, "deny", "allow"), "membership  expected deny, got allow");
    assert!(!r.passed);
    r.case("later", true, "", "fine");
    assert!(!r.passed);
}

#[test]
fn the_ancestor_walk_is_compared_in_order() {
    let want = expected_ancestors("smoke-tower-a1").unwrap();
    assert_eq!(
        want,
        vec!["apartment:smoke-tower-a1", "building:smoke-tower", "site:smoke-park", "portfolio"]
    );
    let mut reversed = want.clone();
    reversed.reverse();
    assert!(same_sequence(&want, &want));
    assert!(!same_sequence(&reversed, &want));
    assert!(!same_sequence(&want[..3], &want));
    assert!(expected_ancestors("Tower").is_err());
}

#[test]
fn structural_groups_hold_exactly_their_own_role() {
    let one = [RoleGrant { role_name: "installer".into(), resource_id: Some(7) }];
    assert!(holds_exactly(&one, "installer", 7));
    assert!(!holds_exactly(&one, "installer", 8));
    assert!(!holds_exactly(&one, "concierge", 7));
    let unscoped = [RoleGrant { role_name: "installer".into(), resource_id: None }];
    assert!(!holds_exactly(&unscoped, "installer", 7));
    let two = [one[0].clone(), RoleGrant { role_name: "resident".into(), resource_id: Some(7) }];
    assert!(!holds_exactly(&two, "installer", 7));
    assert!(distinct_pair(Some(1), Some(2)));
    assert!(!distinct_pair(Some(1), Some(1)));
    assert!(!distinct_pair(None, Some(1)));
}

#[test]
fn the_membership_sequence_alternates() {
    let steps = membership_steps();
    assert_eq!(steps.iter().map(|s| s.1).collect::<Vec<_>>(), vec![false, true, false, true, false]);
    assert_eq!(steps[0].0, "before-membership");
    let observed = [(false, false), (true, true), (false, true), (true, true), (false, false)];
    assert_eq!(mismatches(&observed), vec![2]);
    assert!(mismatches(&[(true, true)]).is_empty());
    assert!(reverse_order_holds(false, true, false));
    assert!(!reverse_order_holds(true, true, false));
}

#[test]
fn a_deny_rule_is_found_by_its_reason() {
    let reasons = [Some("no_grant".to_owned()), None, Some("denied_by_rule".to_owned())];
    assert_eq!(deny_rule_nodes(&reasons), vec![2]);
}

#[test]
fn the_branch_carries_the_reserved_prefix() {
    assert_eq!(branch_apartment_slug().unwrap(), "smoke-tower-a1");
    let _ = BranchError::Unprefixed(domo::bootstrap::smoke::Unprefixed("x".into()));
}

fn res(id: u128, parent: Option<u128>, name: &str) -> ListedResource {
    ListedResource { id, parent_id: parent, name: name.to_owned(), tenant_id: 1 }
}

#[test]
fn teardown_removes_children_before_parents() {
    let all = [
        res(1, None, "portfolio"),
        res(2, Some(1), "site:smoke-park"),
        res(3, Some(2), "common:site:smoke-lobby"),
        res(4, Some(2), "building:smoke-tower"),
        res(5, Some(4), "apartment:smoke-tower-a1"),
        res(6, Some(5), "device:smoke-probe-light"),
        res(7, Some(1), "site:lakeside"),
        res(8, Some(4), "common:building:smoke-lobby"),
    ];
    assert_eq!(leaf_first(&all), vec![6, 5, 8, 3, 4, 2]);
}

#[test]
fn teardown_touches_only_prefixed_fixtures() {
    let groups = [
        Named { id: 1, name: "installer@site:smoke-park".into() },
        Named { id: 2, name: "installer@site:lakeside".into() },
    ];
    let accounts = [
        Named { id: 3, name: "smoke-probe-device".into() },
        Named { id: 4, name: "mgmt@lakeside".into() },
    ];
    let users = [Named { id: 5, name: "smoke-resident".into() }, Named { id: 6, name: "alice".into() }];
    let resources = [res(7, None, "portfolio"), res(8, Some(7), "site:smoke-park")];
    let plan = teardown_plan(&groups, &resources, &accounts, &users);
    assert_eq!(plan.groups, vec![1]);
    assert_eq!(plan.resources, vec![8]);
    assert_eq!(plan.accounts, vec![3]);
    assert_eq!(plan.users, vec![5]);
}
