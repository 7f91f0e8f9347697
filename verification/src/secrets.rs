//! Path resolution for the `.secrets/` tree.
//!
//! Nothing may be written outside the tree: the organization root private
//! key lives under it, and a stray write to a path outside would escape the
//! ignore rules that keep it out of version control and container images.
//! The boundary is therefore checked here, before any file is touched.

use vstd::prelude::*;
use vstd::string::*;

use crate::text::{chars_of, concat3};

verus! {

/// A path segment `..` begins at position `i` of `s`.
pub open spec fn parent_segment_at(s: Seq<char>, i: int) -> bool {
    &&& 0 <= i
    &&& i + 2 <= s.len()
    &&& s[i] == '.'
    &&& s[i + 1] == '.'
    &&& (i == 0 || s[i - 1] == '/')
    &&& (i + 2 == s.len() || s[i + 2] == '/')
}

/// A relative path with a `..` component, which would climb out of the
/// directory it is resolved in.
pub open spec fn climbs(s: Seq<char>) -> bool {
    exists|i: int| parent_segment_at(s, i)
}

/// An absolute path: one that starts at the root.
pub open spec fn is_absolute(s: Seq<char>) -> bool {
    s.len() > 0 && s[0] == '/'
}

/// `relative` resolved under `root`, with a separator between them when
/// `root` does not already end in one.
pub open spec fn joined(root: Seq<char>, relative: Seq<char>) -> Seq<char> {
    if root.len() > 0 && root.last() != '/' {
        root + seq!['/'] + relative
    } else {
        root + relative
    }
}

/// Why a secrets path was refused.
#[derive(Debug, Clone)]
pub enum PathError {
    /// The path is absolute.
    Absolute(String),
    /// The path climbs out of the tree with a `..` component.
    Climbing(String),
}

impl PathError {
    /// The operator-facing text of this refusal.
    pub fn message(&self) -> (r: String)
        ensures
            r@ == match self {
                PathError::Absolute(p) => "secrets path must be relative, got "@ + p@,
                PathError::Climbing(p) => "secrets path must not climb out of the tree: "@ + p@,
            },
    {
        match self {
            PathError::Absolute(p) => {
                let mut m = String::from_str("secrets path must be relative, got ");
                m.append(p.as_str());
                m
            },
            PathError::Climbing(p) => {
                let mut m = String::from_str("secrets path must not climb out of the tree: ");
                m.append(p.as_str());
                m
            },
        }
    }
}

/// Whether `v` has a `..` component.
fn has_parent_segment(v: &Vec<char>) -> (r: bool)
    ensures
        r == climbs(v@),
{
    let n = v.len();
    let mut i: usize = 0;
    while i < n && n - i >= 2
        invariant
            n == v.len(),
            i <= n,
            forall|k: int| 0 <= k < i ==> !parent_segment_at(v@, k),
        decreases n - i,
    {
        if v[i] == '.' && v[i + 1] == '.' && (i == 0 || v[i - 1] == '/') && (i + 2 == n || v[i + 2] == '/') {
            assert(parent_segment_at(v@, i as int));
            return true;
        }
        i = i + 1;
    }
    assert forall|k: int| !parent_segment_at(v@, k) by {
        if 0 <= k && k < i {
        }
    }
    false
}

/// Resolve `relative` inside the secrets tree rooted at `root`, refusing to
/// escape it: an absolute path and a path with a `..` component are both
/// refused, the first check first.
pub fn path(root: &str, relative: &str) -> (r: Result<String, PathError>)
    ensures
        is_absolute(relative@) ==> (r matches Err(PathError::Absolute(p)) && p@ == relative@),
        !is_absolute(relative@) && climbs(relative@) ==> (r matches Err(PathError::Climbing(p)) && p@ == relative@),
        !is_absolute(relative@) && !climbs(relative@) ==> (r matches Ok(p) && p@ == joined(root@, relative@)),
{
    let v = chars_of(relative);
    if v.len() > 0 && v[0] == '/' {
        return Err(PathError::Absolute(relative.to_owned()));
    }
    if has_parent_segment(&v) {
        return Err(PathError::Climbing(relative.to_owned()));
    }
    let r = chars_of(root);
    let mut out = String::from_str(root);
    if r.len() > 0 && r[r.len() - 1] != '/' {
        out.append("/");
        proof {
            reveal_strlit("/");
        }
    }
    out.append(relative);
    proof {
        if r@.len() > 0 && r@.last() != '/' {
            assert(out@ =~= root@ + seq!['/'] + relative@);
        }
    }
    Ok(out)
}

/// The marker recording that a bootstrap stage completed.
///
/// Markers are a skip hint only: every stage resolves its objects by natural
/// key before creating them, so a lost marker costs a re-probe, never a
/// duplicate.
pub fn done_marker(stage: &str) -> (r: String)
    ensures
        r@ == "state/"@ + stage@ + ".done"@,
{
    concat3("state/", stage, ".done")
}

} // verus!
