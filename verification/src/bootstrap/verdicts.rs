//! The judgements of the live authorization assertions.
//!
//! Each case reports its own line and, on failure, both the expected and the
//! observed value, and a run reports every broken invariant rather than only
//! the first. What AXIAM answered is fetched elsewhere; whether the answer is
//! the one the model demands is decided here.

use vstd::prelude::*;
use vstd::string::*;

use crate::bootstrap::naming::{Kind, NamingError, NamingFault, resource_name, spec_resource_name};
use crate::bootstrap::smoke::{BUILDING, SITE};
use crate::text::str_eq;

verus! {

/// Whether every case so far held.
#[derive(Debug, Clone, Copy, PartialEq, Eq, Structural)]
pub struct Report {
    pub passed: bool,
}

/// One case's report line: its name and what was observed, or, on failure,
/// what was expected and what was observed instead.
pub open spec fn spec_case_line(name: Seq<char>, ok: bool, expected: Seq<char>, observed: Seq<char>) -> Seq<char> {
    if ok {
        name + "  "@ + observed
    } else {
        name + "  expected "@ + expected + ", got "@ + observed
    }
}

impl Report {
    /// A run with no case recorded yet.
    pub fn new() -> (r: Report)
        ensures
            r.passed,
    {
        Report { passed: true }
    }

    /// Record one named case and give its report line.
    pub fn case(&mut self, name: &str, ok: bool, expected: &str, observed: &str) -> (line: String)
        ensures
            final(self).passed == (old(self).passed && ok),
            line@ == spec_case_line(name@, ok, expected@, observed@),
    {
        let mut line = String::from_str(name);
        if ok {
            line.append("  ");
            line.append(observed);
        } else {
            line.append("  expected ");
            line.append(expected);
            line.append(", got ");
            line.append(observed);
            self.passed = false;
        }
        line
    }
}

/// The ancestors a device of the smoke apartment must list, leaf to root.
pub open spec fn spec_expected_ancestors(apartment_slug: Seq<char>) -> Result<Seq<Seq<char>>, NamingFault> {
    match spec_resource_name(Kind::Apartment, apartment_slug) {
        Err(e) => Err(e),
        Ok(a) => Ok(seq![
            a,
            spec_resource_name(Kind::Building, BUILDING@)->Ok_0,
            spec_resource_name(Kind::Site, SITE@)->Ok_0,
            "portfolio"@,
        ]),
    }
}

/// The ancestors a device of the smoke apartment must list, leaf to root:
/// the apartment, its building, its site, and the portfolio. Compared as an
/// ordered sequence, because every later tree walk assumes the order.
pub fn expected_ancestors(apartment_slug: &str) -> (r: Result<Vec<String>, NamingError>)
    ensures
        match r {
            Ok(v) => spec_expected_ancestors(apartment_slug@) == Ok::<Seq<Seq<char>>, NamingFault>(v.deep_view()),
            Err(e) => spec_expected_ancestors(apartment_slug@) == Err::<Seq<Seq<char>>, NamingFault>(e@),
        },
{
    let apartment = match resource_name(Kind::Apartment, apartment_slug) {
        Ok(a) => a,
        Err(e) => return Err(e),
    };
    proof {
        reveal_strlit("smoke-tower");
        reveal_strlit("smoke-park");
    }
    let building = match resource_name(Kind::Building, BUILDING) {
        Ok(b) => b,
        Err(e) => {
            assert(false) by {
                crate::bootstrap::naming::lemma_accepted_slug_is_valid(BUILDING@);
            }
            return Err(e);
        },
    };
    let site = match resource_name(Kind::Site, SITE) {
        Ok(s) => s,
        Err(e) => {
            assert(false) by {
                crate::bootstrap::naming::lemma_accepted_slug_is_valid(SITE@);
            }
            return Err(e);
        },
    };
    let v = vec![apartment, building, site, String::from_str("portfolio")];
    assert(v.deep_view() =~= spec_expected_ancestors(apartment_slug@)->Ok_0);
    Ok(v)
}

/// Whether two lists of names are the same sequence.
pub fn same_sequence(observed: &[String], expected: &[String]) -> (r: bool)
    ensures
        r == (observed.deep_view() == expected.deep_view()),
{
    if observed.len() != expected.len() {
        assert(observed.deep_view().len() != expected.deep_view().len());
        return false;
    }
    let mut i: usize = 0;
    while i < observed.len()
        invariant
            observed.len() == expected.len(),
            i <= observed.len(),
            forall|j: int| 0 <= j < i ==> observed.deep_view()[j] == expected.deep_view()[j],
        decreases observed.len() - i,
    {
        if !str_eq(observed[i].as_str(), expected[i].as_str()) {
            assert(observed.deep_view()[i as int] != expected.deep_view()[i as int]);
            return false;
        }
        i = i + 1;
    }
    assert(observed.deep_view() =~= expected.deep_view());
    true
}

/// Two lookups found two distinct objects.
pub fn distinct_pair(a: Option<u128>, b: Option<u128>) -> (r: bool)
    ensures
        r == (a is Some && b is Some && a->0 != b->0),
{
    match (a, b) {
        (Some(x), Some(y)) => x != y,
        _ => false,
    }
}

/// A role a group holds, with the resource it is scoped to.
#[derive(Debug, Clone)]
pub struct RoleGrant {
    pub role_name: String,
    pub resource_id: Option<u128>,
}

/// A structural group holds exactly its own role, scoped to exactly its own
/// resource: one grant, of that role, at that resource. More than one would
/// accept a group that also holds someone else's role, and an unscoped one
/// would reach the whole portfolio.
pub fn holds_exactly(grants: &[RoleGrant], role: &str, resource_id: u128) -> (r: bool)
    ensures
        r == (grants@.len() == 1 && grants@[0].role_name@ == role@ && grants@[0].resource_id == Some(resource_id)),
{
    grants.len() == 1 && str_eq(grants[0].role_name.as_str(), role) && grants[0].resource_id == Some(resource_id)
}

/// The membership sequence: each state's label and whether access must be
/// allowed in it. Deny before membership, allow after adding, deny after
/// removing, allow after re-adding, deny after the final removal.
pub open spec fn spec_membership_steps() -> Seq<(Seq<char>, bool)> {
    seq![
        ("before-membership"@, false),
        ("after-adding"@, true),
        ("after-removing"@, false),
        ("after-re-adding"@, true),
        ("after-final-removal"@, false),
    ]
}

/// The membership sequence, as the run walks it.
pub fn membership_steps() -> (r: Vec<(&'static str, bool)>)
    ensures
        r@.len() == spec_membership_steps().len(),
        forall|i: int| 0 <= i < r@.len() ==> (#[trigger] r@[i]).0@ == spec_membership_steps()[i].0
            && r@[i].1 == spec_membership_steps()[i].1,
{
    vec![
        ("before-membership", false),
        ("after-adding", true),
        ("after-removing", false),
        ("after-re-adding", true),
        ("after-final-removal", false),
    ]
}

/// The positions at which the observed decision differs from the wanted
/// one, in order.
pub open spec fn spec_mismatches(states: Seq<(bool, bool)>) -> Seq<usize>
    decreases states.len(),
{
    if states.len() == 0 {
        Seq::empty()
    } else if states.last().0 != states.last().1 {
        spec_mismatches(states.drop_last()).push((states.len() - 1) as usize)
    } else {
        spec_mismatches(states.drop_last())
    }
}

/// The states, as (wanted, observed) pairs, that came out wrong.
pub fn mismatches(states: &[(bool, bool)]) -> (r: Vec<usize>)
    ensures
        r@ == spec_mismatches(states@),
{
    let mut r: Vec<usize> = Vec::new();
    let mut i: usize = 0;
    while i < states.len()
        invariant
            i <= states.len(),
            r@ == spec_mismatches(states@.take(i as int)),
        decreases states.len() - i,
    {
        proof {
            assert(states@.take(i + 1).drop_last() =~= states@.take(i as int));
        }
        if states[i].0 != states[i].1 {
            r.push(i);
        }
        i = i + 1;
    }
    assert(states@.take(states.len() as int) =~= states@);
    r
}

/// The reverse order converges too: a member of a group with no binding is
/// refused, the binding added grants, and the group revoked refuses again.
pub fn reverse_order_holds(member_no_binding: bool, member_and_binding: bool, after_revoke: bool) -> (r: bool)
    ensures
        r == (!member_no_binding && member_and_binding && !after_revoke),
{
    !member_no_binding && member_and_binding && !after_revoke
}

/// The reason code of a refusal that a deny rule decided.
pub const DENIED_BY_RULE: &'static str = "denied_by_rule";

/// The nodes whose refusal was decided by a deny rule rather than by the
/// absence of a grant.
pub open spec fn spec_deny_rule_nodes(reasons: Seq<Option<Seq<char>>>) -> Seq<usize>
    decreases reasons.len(),
{
    if reasons.len() == 0 {
        Seq::empty()
    } else if reasons.last() == Some(DENIED_BY_RULE@) {
        spec_deny_rule_nodes(reasons.drop_last()).push((reasons.len() - 1) as usize)
    } else {
        spec_deny_rule_nodes(reasons.drop_last())
    }
}

/// The reason codes as character sequences.
pub open spec fn reason_view(reasons: Seq<Option<String>>) -> Seq<Option<Seq<char>>> {
    reasons.map_values(|r: Option<String>| match r {
        Some(s) => Some(s@),
        None => None,
    })
}

/// The positions of the decisions whose reason reads `denied_by_rule`: the
/// one shape the model must never contain, because a deny above an
/// apartment would beat every grant beneath it.
pub fn deny_rule_nodes(reasons: &[Option<String>]) -> (r: Vec<usize>)
    ensures
        r@ == spec_deny_rule_nodes(reason_view(reasons@)),
{
    let mut r: Vec<usize> = Vec::new();
    let mut i: usize = 0;
    while i < reasons.len()
        invariant
            i <= reasons.len(),
            r@ == spec_deny_rule_nodes(reason_view(reasons@.take(i as int))),
        decreases reasons.len() - i,
    {
        proof {
            assert(reason_view(reasons@.take(i + 1)).drop_last() =~= reason_view(reasons@.take(i as int)));
        }
        let hit = match &reasons[i] {
            Some(s) => str_eq(s.as_str(), DENIED_BY_RULE),
            None => false,
        };
        if hit {
            r.push(i);
        }
        i = i + 1;
    }
    assert(reason_view(reasons@.take(reasons.len() as int)) =~= reason_view(reasons@));
    r
}

} // verus!
