//! Scan roots: which roots are themselves hidden, and what a scan reports.
use vstd::prelude::*;

use crate::text::chars_of;

verus! {

/// A file that a scan found to index.
#[derive(Debug, Clone)]
pub struct ScanHit {
    pub path: String,
}

/// The index just past the path component that starts at `i` (the next `/` or the end).
pub open spec fn component_end(s: Seq<char>, i: int) -> int
    decreases s.len() - i,
{
    if i < 0 || i >= s.len() || s[i] == '/' {
        i
    } else {
        component_end(s, i + 1)
    }
}

/// A normal path component (not `.` or `..`) starts at `i` and begins with a dot.
pub open spec fn hidden_component_at(s: Seq<char>, i: int) -> bool {
    &&& 0 <= i < s.len()
    &&& (i == 0 || s[i - 1] == '/')
    &&& s[i] == '.'
    &&& component_end(s, i) - i != 1
    &&& !(component_end(s, i) - i == 2 && s[i + 1] == '.')
}

/// The path has a normal component that begins with a dot (e.g. `~/.notes`).
pub open spec fn hidden_path(s: Seq<char>) -> bool {
    exists|i: int| hidden_component_at(s, i)
}

proof fn lemma_component_end(s: Seq<char>, i: int)
    requires
        0 <= i <= s.len(),
    ensures
        i <= component_end(s, i) <= s.len(),
        component_end(s, i) < s.len() ==> s[component_end(s, i)] == '/',
        forall|k: int| i <= k < component_end(s, i) ==> s[k] != '/',
    decreases s.len() - i,
{
    if i < s.len() && s[i] != '/' {
        lemma_component_end(s, i + 1);
    }
}

/// Whether the scan root itself lies under a hidden path (such roots are walked with
/// hidden entries included).
pub fn root_is_hidden(root: &str) -> (b: bool)
    ensures
        b == hidden_path(root@),
{
    let v = chars_of(root);
    let mut i: usize = 0;
    while i < v.len()
        invariant
            i <= v.len(),
            v@ == root@,
            forall|k: int| 0 <= k < i ==> !hidden_component_at(v@, k),
        decreases v.len() - i,
    {
        if (i == 0 || v[i - 1] == '/') && v[i] == '.' {
            let mut e = i;
            while e < v.len() && v[e] != '/'
                invariant
                    i <= e <= v.len(),
                    component_end(v@, i as int) == component_end(v@, e as int),
                decreases v.len() - e,
            {
                e = e + 1;
            }
            let len = e - i;
            if len != 1 && !(len == 2 && v[i + 1] == '.') {
                assert(hidden_component_at(v@, i as int));
                return true;
            }
        }
        i = i + 1;
    }
    false
}

} // verus!
