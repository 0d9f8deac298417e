//! File-system paths as character strings, with the joining and file-name rules
//! of `std::path` on Unix.
use vstd::prelude::*;

use crate::text::{chars_of, rfind_char, rfind_char_upto, string_of_range, str_eq};

verus! {

/// `base` joined with `name` (what `Path::join` gives on Unix): an absolute `name`
/// replaces `base`; otherwise a `'/'` separates them unless `base` is empty or already
/// ends with one.
pub open spec fn path_join(base: Seq<char>, name: Seq<char>) -> Seq<char> {
    if name.len() > 0 && name[0] == '/' {
        name
    } else if base.len() == 0 || base.last() == '/' {
        base + name
    } else {
        base + seq!['/'] + name
    }
}

/// Joins `name` onto `base`.
pub fn join_path(base: &str, name: &str) -> (r: String)
    ensures
        r@ == path_join(base@, name@),
{
    let bv = chars_of(base);
    let nv = chars_of(name);
    if nv.len() > 0 && nv[0] == '/' {
        return String::from_str(name);
    }
    let mut r = String::from_str(base);
    if !(bv.len() == 0 || bv[bv.len() - 1] == '/') {
        r.append("/");
        proof {
            reveal_strlit("/");
        }
    }
    r.append(name);
    r
}

/// The index of the dot that separates stem and extension in a file name, if any
/// (the last dot, when something precedes it; never for `".."`).
pub open spec fn ext_dot(f: Seq<char>) -> Option<int> {
    if f == seq!['.', '.'] {
        None
    } else {
        match rfind_char(f, '.') {
            Some(i) => if i > 0 {
                Some(i)
            } else {
                None
            },
            None => None,
        }
    }
}

/// The extension of a file name (what `Path::extension` gives).
pub open spec fn extension_of(f: Seq<char>) -> Option<Seq<char>> {
    match ext_dot(f) {
        Some(i) => Some(f.subrange(i + 1, f.len() as int)),
        None => None,
    }
}

/// The stem of a file name (what `Path::file_stem` gives).
pub open spec fn stem_of(f: Seq<char>) -> Seq<char> {
    match ext_dot(f) {
        Some(i) => f.subrange(0, i),
        None => f,
    }
}

proof fn lemma_rfind_char_upto(s: Seq<char>, c: char, upto: int)
    requires
        upto < s.len(),
    ensures
        rfind_char_upto(s, c, upto) matches Some(i) ==> 0 <= i <= upto && s[i] == c,
    decreases upto + 1,
{
    if upto >= 0 && s[upto] != c {
        lemma_rfind_char_upto(s, c, upto - 1);
    }
}

/// The index of the last occurrence of `c` in `v`.
pub fn rfind_char_exec(v: &Vec<char>, c: char) -> (r: Option<usize>)
    ensures
        r matches Some(i) ==> rfind_char(v@, c) == Some(i as int) && i < v.len(),
        r is None ==> rfind_char(v@, c) is None,
{
    let mut k = v.len();
    while k > 0
        invariant
            k <= v.len(),
            rfind_char(v@, c) == rfind_char_upto(v@, c, k - 1),
        decreases k,
    {
        if v[k - 1] == c {
            return Some(k - 1);
        }
        k = k - 1;
    }
    None
}

/// The stem of a markdown file name: `Some(stem)` when the file's extension is `md`.
pub open spec fn md_slug_of(f: Seq<char>) -> Option<Seq<char>> {
    if extension_of(f) == Some("md"@) {
        Some(stem_of(f))
    } else {
        None
    }
}

/// The page slug of a file name, when the file is a markdown page (`<slug>.md`).
pub fn md_slug(file_name: &str) -> (r: Option<String>)
    ensures
        r matches Some(s) ==> md_slug_of(file_name@) == Some(s@),
        r is None ==> md_slug_of(file_name@) is None,
{
    let v = chars_of(file_name);
    if str_eq(file_name, "..") {
        proof {
            reveal_strlit("..");
            assert(file_name@ =~= seq!['.', '.']);
        }
        return None;
    }
    proof {
        reveal_strlit("..");
        assert(file_name@ != seq!['.', '.']) by {
            if file_name@ == seq!['.', '.'] {
                assert(".."@ =~= seq!['.', '.']);
            }
        }
    }
    match rfind_char_exec(&v, '.') {
        Some(i) => {
            if i == 0 {
                return None;
            }
            let ext = string_of_range(&v, i + 1, v.len());
            if str_eq(ext.as_str(), "md") {
                Some(string_of_range(&v, 0, i))
            } else {
                None
            }
        },
        None => None,
    }
}

} // verus!
