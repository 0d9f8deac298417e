//! Which documents go to the private wiki.
use vstd::prelude::*;

use crate::registry::under;
use crate::text::chars_of;

verus! {

/// Whether the file lies under one of the private roots; `resolved` and the roots are
/// canonical paths (as given when they cannot be resolved).
pub fn is_private_path(resolved: &str, private_roots: &Vec<String>) -> (b: bool)
    ensures
        b == exists|i: int| 0 <= i < private_roots@.len() && under(resolved@, #[trigger] private_roots@[i]@),
{
    let mut i: usize = 0;
    while i < private_roots.len()
        invariant
            i <= private_roots.len(),
            forall|k: int| 0 <= k < i ==> !under(resolved@, #[trigger] private_roots@[k]@),
        decreases private_roots.len() - i,
    {
        if path_under(resolved, private_roots[i].as_str()) {
            return true;
        }
        i = i + 1;
    }
    false
}

/// Whether `path` lies under `base` (both canonical paths).
pub fn path_under(path: &str, base: &str) -> (b: bool)
    ensures
        b == under(path@, base@),
{
    let p = chars_of(path);
    let k = chars_of(base);
    if p.len() < k.len() {
        return false;
    }
    let mut i: usize = 0;
    while i < k.len()
        invariant
            i <= k.len() <= p.len(),
            p@ == path@,
            k@ == base@,
            forall|j: int| 0 <= j < i ==> p@[j] == k@[j],
        decreases k.len() - i,
    {
        if p[i] != k[i] {
            proof {
                if crate::text::is_prefix_of(k@, p@) {
                    assert(p@.subrange(0, k@.len() as int)[i as int] == p@[i as int]);
                    assert(k@[i as int] == p@.subrange(0, k@.len() as int)[i as int]);
                }
            }
            return false;
        }
        i = i + 1;
    }
    assert(p@.subrange(0, k@.len() as int) =~= k@);
    p.len() == k.len() || (k.len() > 0 && k[k.len() - 1] == '/') || p[k.len()] == '/'
}

/// A document is private when its path is under a private root, or when detection is
/// on and the model's summary flags it private (`summary_private` is the summary's
/// `private` value when it is a boolean).
pub open spec fn private_doc(path_private: bool, summary_private: Option<bool>, detect: bool) -> bool {
    path_private || (detect && summary_private == Some(true))
}

/// Path rule or model flag.
pub fn doc_is_private(path_private: bool, summary_private: Option<bool>, detect: bool) -> (b: bool)
    ensures
        b == private_doc(path_private, summary_private, detect),
{
    if path_private {
        return true;
    }
    if !detect {
        return false;
    }
    match summary_private {
        Some(p) => p,
        None => false,
    }
}

/// A private path always makes a private document, whatever the model says.
pub proof fn law_private_path_wins(summary_private: Option<bool>, detect: bool)
    ensures
        private_doc(true, summary_private, detect),
{
}

} // verus!
