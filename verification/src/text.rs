//! Character-level text operations shared by the rest of the library.
//!
//! Every operation here works on the character sequence of a string (its view),
//! and every position is a character index.
use vstd::prelude::*;

verus! {

// ---------------------------------------------------------------------------
// Specifications
// ---------------------------------------------------------------------------

/// `p` is a prefix of `s`.
pub open spec fn is_prefix_of(p: Seq<char>, s: Seq<char>) -> bool {
    p.len() <= s.len() && s.subrange(0, p.len() as int) == p
}

/// `p` is a suffix of `s`.
pub open spec fn is_suffix_of(p: Seq<char>, s: Seq<char>) -> bool {
    p.len() <= s.len() && s.subrange(s.len() - p.len(), s.len() as int) == p
}

/// `t` occurs in `s` starting at index `i`.
pub open spec fn occurs_at(s: Seq<char>, t: Seq<char>, i: int) -> bool {
    0 <= i && i + t.len() <= s.len() && s.subrange(i, i + t.len()) == t
}

/// `t` occurs somewhere in `s`.
pub open spec fn contains_sub(s: Seq<char>, t: Seq<char>) -> bool {
    exists|i: int| occurs_at(s, t, i)
}

/// The first index at or after `from` where `t` occurs in `s`.
pub open spec fn find_from(s: Seq<char>, t: Seq<char>, from: int) -> Option<int>
    decreases s.len() + 1 - from,
{
    if from < 0 || from + t.len() > s.len() {
        None
    } else if occurs_at(s, t, from) {
        Some(from)
    } else {
        find_from(s, t, from + 1)
    }
}

/// The first index where `t` occurs in `s`.
pub open spec fn find_first(s: Seq<char>, t: Seq<char>) -> Option<int> {
    find_from(s, t, 0)
}

/// The last index at or before `upto` where the character `c` occurs in `s`.
pub open spec fn rfind_char_upto(s: Seq<char>, c: char, upto: int) -> Option<int>
    decreases upto + 1,
{
    if upto < 0 {
        None
    } else if upto < s.len() && s[upto] == c {
        Some(upto)
    } else {
        rfind_char_upto(s, c, upto - 1)
    }
}

/// The last index where the character `c` occurs in `s`.
pub open spec fn rfind_char(s: Seq<char>, c: char) -> Option<int> {
    rfind_char_upto(s, c, s.len() - 1)
}

/// Unicode `White_Space`: the characters that `char::is_whitespace` accepts.
pub open spec fn is_ws(c: char) -> bool {
    ||| ('\u{9}' <= c && c <= '\u{d}')
    ||| c == ' '
    ||| c == '\u{85}'
    ||| c == '\u{a0}'
    ||| c == '\u{1680}'
    ||| ('\u{2000}' <= c && c <= '\u{200a}')
    ||| c == '\u{2028}'
    ||| c == '\u{2029}'
    ||| c == '\u{202f}'
    ||| c == '\u{205f}'
    ||| c == '\u{3000}'
}

/// ASCII letters and digits.
pub open spec fn is_ascii_alnum(c: char) -> bool {
    ('a' <= c && c <= 'z') || ('A' <= c && c <= 'Z') || ('0' <= c && c <= '9')
}

/// `s` without its leading whitespace.
pub open spec fn trim_start(s: Seq<char>) -> Seq<char>
    decreases s.len(),
{
    if s.len() > 0 && is_ws(s[0]) {
        trim_start(s.drop_first())
    } else {
        s
    }
}

/// `s` without its trailing whitespace.
pub open spec fn trim_end(s: Seq<char>) -> Seq<char>
    decreases s.len(),
{
    if s.len() > 0 && is_ws(s.last()) {
        trim_end(s.drop_last())
    } else {
        s
    }
}

/// `s` without leading and trailing whitespace (what `str::trim` gives).
pub open spec fn trim(s: Seq<char>) -> Seq<char> {
    trim_end(trim_start(s))
}

/// `s` without the leading occurrences of `c`.
pub open spec fn trim_start_char(s: Seq<char>, c: char) -> Seq<char>
    decreases s.len(),
{
    if s.len() > 0 && s[0] == c {
        trim_start_char(s.drop_first(), c)
    } else {
        s
    }
}

/// `s` without the trailing occurrences of `c`.
pub open spec fn trim_end_char(s: Seq<char>, c: char) -> Seq<char>
    decreases s.len(),
{
    if s.len() > 0 && s.last() == c {
        trim_end_char(s.drop_last(), c)
    } else {
        s
    }
}

/// `s` without leading and trailing occurrences of `c` (what `str::trim_matches(c)` gives).
pub open spec fn trim_char(s: Seq<char>, c: char) -> Seq<char> {
    trim_end_char(trim_start_char(s, c), c)
}

/// The decimal digit character for `d < 10`.
pub open spec fn digit(d: nat) -> char {
    if d == 0 {
        '0'
    } else if d == 1 {
        '1'
    } else if d == 2 {
        '2'
    } else if d == 3 {
        '3'
    } else if d == 4 {
        '4'
    } else if d == 5 {
        '5'
    } else if d == 6 {
        '6'
    } else if d == 7 {
        '7'
    } else if d == 8 {
        '8'
    } else {
        '9'
    }
}

/// Decimal notation of `n`, without leading zeros.
pub open spec fn decimal(n: nat) -> Seq<char>
    decreases n,
{
    if n < 10 {
        seq![digit(n)]
    } else {
        decimal(n / 10).push(digit(n % 10))
    }
}

/// `d` left-padded with `'0'` to at least `width` characters.
pub open spec fn zero_pad(d: Seq<char>, width: nat) -> Seq<char> {
    if d.len() >= width {
        d
    } else {
        Seq::new((width - d.len()) as nat, |i: int| '0') + d
    }
}

/// The lower-case form of `s` that `str::to_lowercase` returns (Unicode case mapping).
pub uninterp spec fn lowercase(s: Seq<char>) -> Seq<char>;

/// `c` with an ASCII upper-case letter mapped to its lower-case letter.
pub open spec fn ascii_lower(c: char) -> char {
    if 'A' <= c && c <= 'Z' {
        ((c as u32) + 32) as char
    } else {
        c
    }
}

/// `s` with its ASCII upper-case letters mapped to lower case.
pub open spec fn ascii_lowered(s: Seq<char>) -> Seq<char> {
    s.map_values(|c: char| ascii_lower(c))
}

/// What `str::to_lowercase` gives of `s` as far as its case mapping is stated: no
/// ASCII upper-case letter, and the ASCII lower case of an ASCII text.
pub open spec fn lowercase_facts(s: Seq<char>) -> bool {
    &&& no_ascii_upper(lowercase(s))
    &&& vstd::utf8::is_ascii_chars(s) ==> lowercase(s) == ascii_lowered(s)
}

/// No character of `s` is an ASCII upper-case letter.
pub open spec fn no_ascii_upper(s: Seq<char>) -> bool {
    forall|i: int| 0 <= i < s.len() ==> !('A' <= #[trigger] s[i] && s[i] <= 'Z')
}

/// The code of `c` with ASCII upper-case letters mapped to lower case.
pub open spec fn ascii_lower_code(c: char) -> u32 {
    if 'A' <= c && c <= 'Z' {
        (c as u32 + 32) as u32
    } else {
        c as u32
    }
}

/// `a` and `b` are equal up to ASCII case (what `str::eq_ignore_ascii_case` tests).
pub open spec fn eq_ignore_ascii_case(a: Seq<char>, b: Seq<char>) -> bool {
    a.len() == b.len() && forall|i: int|
        0 <= i < a.len() ==> ascii_lower_code(#[trigger] a[i]) == ascii_lower_code(b[i])
}

/// The lines of `s`: split after each `'\n'`, dropping the `'\n'` and a `'\r'` just
/// before it; a final empty line is not a line (what `str::lines` gives).
pub open spec fn lines(s: Seq<char>) -> Seq<Seq<char>>
    decreases s.len(),
{
    match find_first(s, seq!['\n']) {
        None => if s.len() == 0 {
            seq![]
        } else {
            seq![s]
        },
        Some(i) => if 0 <= i < s.len() {
            let line = s.subrange(0, i);
            let line = if line.len() > 0 && line.last() == '\r' {
                line.drop_last()
            } else {
                line
            };
            seq![line] + lines(s.subrange(i + 1, s.len() as int))
        } else {
            seq![]
        },
    }
}

/// The parts joined with `sep` between consecutive parts (what `[String]::join` gives).
pub open spec fn join(parts: Seq<Seq<char>>, sep: Seq<char>) -> Seq<char>
    decreases parts.len(),
{
    if parts.len() == 0 {
        seq![]
    } else if parts.len() == 1 {
        parts[0]
    } else {
        join(parts.drop_last(), sep) + sep + parts.last()
    }
}

/// The views of a list of strings.
pub open spec fn views(list: Seq<String>) -> Seq<Seq<char>> {
    list.map_values(|s: String| s@)
}

/// The pieces of `s[from..]` between the non-overlapping occurrences of `t`, found left
/// to right.
pub open spec fn split_from(s: Seq<char>, t: Seq<char>, from: int) -> Seq<Seq<char>>
    decreases s.len() - from,
{
    if from < 0 || from > s.len() || t.len() == 0 {
        seq![]
    } else {
        match find_from(s, t, from) {
            Some(i) => if from <= i && i + t.len() <= s.len() {
                seq![s.subrange(from, i)] + split_from(s, t, i + t.len())
            } else {
                seq![s.subrange(from, s.len() as int)]
            },
            None => seq![s.subrange(from, s.len() as int)],
        }
    }
}

/// The pieces of `s` between the non-overlapping occurrences of the non-empty pattern
/// `t` (what `str::split` gives).
pub open spec fn split_on(s: Seq<char>, t: Seq<char>) -> Seq<Seq<char>> {
    split_from(s, t, 0)
}

/// `a` comes before `b` in the order of `String`'s `Ord`: character by character by code
/// point, a proper prefix first.
pub open spec fn char_seq_lt(a: Seq<char>, b: Seq<char>) -> bool
    decreases a.len(),
{
    if a.len() == 0 {
        b.len() > 0
    } else if b.len() == 0 {
        false
    } else if a[0] != b[0] {
        (a[0] as int) < (b[0] as int)
    } else {
        char_seq_lt(a.drop_first(), b.drop_first())
    }
}

/// The views of a list of character vectors.
pub open spec fn vec_views(list: Seq<Vec<char>>) -> Seq<Seq<char>> {
    list.map_values(|v: Vec<char>| v@)
}

// ---------------------------------------------------------------------------
// Lemmas
// ---------------------------------------------------------------------------

/// A found index really is an occurrence, and no earlier index at or after `from` is.
pub proof fn lemma_find_from(s: Seq<char>, t: Seq<char>, from: int)
    requires
        0 <= from,
    ensures
        find_from(s, t, from) matches Some(i) ==> from <= i && occurs_at(s, t, i) && forall|j: int|
            from <= j < i ==> !occurs_at(s, t, j),
        find_from(s, t, from) is None ==> forall|j: int| from <= j ==> !occurs_at(s, t, j),
    decreases s.len() + 1 - from,
{
    if from + t.len() > s.len() {
    } else if occurs_at(s, t, from) {
    } else {
        lemma_find_from(s, t, from + 1);
    }
}

/// No sequence comes before itself.
pub proof fn lemma_char_seq_lt_irreflexive(a: Seq<char>)
    ensures
        !char_seq_lt(a, a),
    decreases a.len(),
{
    if a.len() > 0 {
        lemma_char_seq_lt_irreflexive(a.drop_first());
    }
}

/// The order is transitive.
pub proof fn lemma_char_seq_lt_transitive(a: Seq<char>, b: Seq<char>, c: Seq<char>)
    requires
        char_seq_lt(a, b),
        char_seq_lt(b, c),
    ensures
        char_seq_lt(a, c),
    decreases a.len(),
{
    if a.len() > 0 && b.len() > 0 && c.len() > 0 && a[0] == b[0] && b[0] == c[0] {
        lemma_char_seq_lt_transitive(a.drop_first(), b.drop_first(), c.drop_first());
    }
}

/// Two different sequences are ordered one way or the other, and not both ways.
pub proof fn lemma_char_seq_lt_total(a: Seq<char>, b: Seq<char>)
    ensures
        a != b ==> char_seq_lt(a, b) || char_seq_lt(b, a),
        !(char_seq_lt(a, b) && char_seq_lt(b, a)),
    decreases a.len(),
{
    if a.len() > 0 && b.len() > 0 {
        if a[0] == b[0] {
            lemma_char_seq_lt_total(a.drop_first(), b.drop_first());
            if a != b {
                assert(a =~= seq![a[0]] + a.drop_first());
                assert(b =~= seq![b[0]] + b.drop_first());
            }
        } else {
            assert((a[0] as int) != (b[0] as int));
        }
    } else if a.len() == 0 && b.len() == 0 {
        assert(a =~= b);
    }
}

/// Trimming `c` from both ends keeps a contiguous part of `s` that neither starts nor
/// ends with `c`.
pub proof fn lemma_trim_char_part(s: Seq<char>, c: char)
    ensures
        exists|a: int, b: int| 0 <= a <= b <= s.len() && trim_char(s, c) == s.subrange(a, b),
        trim_char(s, c).len() > 0 ==> trim_char(s, c)[0] != c && trim_char(s, c).last() != c,
{
    lemma_trim_start_char_part(s, c);
    let t = trim_start_char(s, c);
    let a = choose|a: int| 0 <= a <= s.len() && t == s.subrange(a, s.len() as int);
    lemma_trim_end_char_part(t, c);
    let b = choose|b: int| 0 <= b <= t.len() && trim_end_char(t, c) == t.subrange(0, b);
    assert(trim_char(s, c) =~= s.subrange(a, a + b));
}

proof fn lemma_trim_start_char_part(s: Seq<char>, c: char)
    ensures
        exists|a: int| 0 <= a <= s.len() && trim_start_char(s, c) == s.subrange(a, s.len() as int),
        trim_start_char(s, c).len() > 0 ==> trim_start_char(s, c)[0] != c,
    decreases s.len(),
{
    if s.len() > 0 && s[0] == c {
        lemma_trim_start_char_part(s.drop_first(), c);
        let a = choose|a: int|
            0 <= a <= s.drop_first().len() && trim_start_char(s.drop_first(), c)
                == s.drop_first().subrange(a, s.drop_first().len() as int);
        assert(s.drop_first().subrange(a, s.drop_first().len() as int) =~= s.subrange(
            a + 1,
            s.len() as int,
        ));
    } else {
        assert(s.subrange(0, s.len() as int) =~= s);
    }
}

proof fn lemma_trim_end_char_part(s: Seq<char>, c: char)
    ensures
        exists|b: int| 0 <= b <= s.len() && trim_end_char(s, c) == s.subrange(0, b),
        trim_end_char(s, c).len() > 0 ==> trim_end_char(s, c).last() != c && trim_end_char(s, c)[0]
            == s[0],
    decreases s.len(),
{
    if s.len() > 0 && s.last() == c {
        lemma_trim_end_char_part(s.drop_last(), c);
        let b = choose|b: int|
            0 <= b <= s.drop_last().len() && trim_end_char(s.drop_last(), c)
                == s.drop_last().subrange(0, b);
        assert(s.drop_last().subrange(0, b) =~= s.subrange(0, b));
    } else {
        assert(s.subrange(0, s.len() as int) =~= s);
    }
}

/// `contains_sub` agrees with `find_first`.
pub proof fn lemma_contains_find(s: Seq<char>, t: Seq<char>)
    ensures
        contains_sub(s, t) <==> find_first(s, t) is Some,
{
    lemma_find_from(s, t, 0);
    if find_first(s, t) is Some {
        let i = find_first(s, t)->0;
        assert(occurs_at(s, t, i));
    }
}

/// An occurrence stays an occurrence when text is appended.
pub proof fn lemma_contains_append(a: Seq<char>, t: Seq<char>, b: Seq<char>)
    requires
        contains_sub(a, t),
    ensures
        contains_sub(a + b, t),
{
    let i = choose|i: int| occurs_at(a, t, i);
    assert((a + b).subrange(i, i + t.len()) =~= a.subrange(i, i + t.len()));
    assert(occurs_at(a + b, t, i));
}

/// A string occurs in any text that has it as a middle part.
pub proof fn lemma_contains_middle(a: Seq<char>, t: Seq<char>, b: Seq<char>)
    ensures
        contains_sub(a + t + b, t),
{
    let i = a.len() as int;
    assert((a + t + b).subrange(i, i + t.len()) =~= t);
    assert(occurs_at(a + t + b, t, i));
}

/// An occurrence stays an occurrence when text is prepended.
pub proof fn lemma_contains_prepend(a: Seq<char>, b: Seq<char>, t: Seq<char>)
    requires
        contains_sub(b, t),
    ensures
        contains_sub(a + b, t),
{
    let i = choose|i: int| occurs_at(b, t, i);
    let j = a.len() + i;
    assert((a + b).subrange(j, j + t.len()) =~= b.subrange(i, i + t.len()));
    assert(occurs_at(a + b, t, j));
}

/// Containment is transitive.
pub proof fn lemma_contains_trans(a: Seq<char>, b: Seq<char>, c: Seq<char>)
    requires
        contains_sub(a, b),
        contains_sub(b, c),
    ensures
        contains_sub(a, c),
{
    let i = choose|i: int| occurs_at(a, b, i);
    let j = choose|j: int| occurs_at(b, c, j);
    assert(a.subrange(i + j, i + j + c.len()) =~= b.subrange(j, j + c.len()));
    assert(occurs_at(a, c, i + j));
}

proof fn lemma_trim_start_head(x: Seq<char>)
    ensures
        trim_start(x).len() > 0 ==> !is_ws(trim_start(x)[0]),
    decreases x.len(),
{
    if x.len() > 0 && is_ws(x[0]) {
        lemma_trim_start_head(x.drop_first());
    }
}

proof fn lemma_trim_end_head(x: Seq<char>)
    ensures
        trim_end(x).len() > 0 ==> trim_end(x)[0] == x[0],
    decreases x.len(),
{
    if x.len() > 0 && is_ws(x.last()) {
        lemma_trim_end_head(x.drop_last());
    }
}

/// A trimmed text that is not empty starts with a character that is not white space.
pub proof fn lemma_trim_head(x: Seq<char>)
    ensures
        trim(x).len() > 0 ==> !is_ws(trim(x)[0]),
{
    lemma_trim_start_head(x);
    lemma_trim_end_head(trim_start(x));
}

/// The decimal notation of a number has at least one character.
pub proof fn lemma_decimal_len(n: nat)
    ensures
        decimal(n).len() >= 1,
    decreases n,
{
    if n >= 10 {
        lemma_decimal_len(n / 10);
    }
}

// ---------------------------------------------------------------------------
// Executable operations
// ---------------------------------------------------------------------------

/// Appends one character to a `String` (wraps `String::push`).
#[verifier::external_body]
pub(crate) fn push_char(s: &mut String, c: char)
    ensures
        final(s)@ == old(s)@.push(c),
{
    s.push(c);
}

/// The lower-case form of `s`, by Unicode case mapping (wraps `str::to_lowercase`). The
/// result is named `lowercase`. Two facts of the Unicode mapping are stated: an ASCII
/// text maps character by character to its ASCII lower case, and no character maps to an
/// ASCII upper-case letter.
#[verifier::external_body]
pub(crate) fn to_lowercase(s: &str) -> (r: String)
    ensures
        r@ == lowercase(s@),
        vstd::utf8::is_ascii_chars(s@) ==> r@ == ascii_lowered(s@),
        no_ascii_upper(r@),
{
    s.to_lowercase()
}

/// The characters of `s`, in order.
pub fn chars_of(s: &str) -> (v: Vec<char>)
    ensures
        v@ == s@,
{
    let mut v: Vec<char> = Vec::new();
    for c in it: s.chars()
        invariant
            v@ == it.seq().take(it.index() as int),
    {
        v.push(c);
    }
    v
}

/// A `String` holding the characters `v[from..to]`.
pub fn string_of_range(v: &Vec<char>, from: usize, to: usize) -> (s: String)
    requires
        from <= to <= v.len(),
    ensures
        s@ == v@.subrange(from as int, to as int),
{
    let mut s = String::new();
    let mut i = from;
    while i < to
        invariant
            from <= i <= to <= v.len(),
            s@ == v@.subrange(from as int, i as int),
        decreases to - i,
    {
        push_char(&mut s, v[i]);
        i = i + 1;
        assert(s@ =~= v@.subrange(from as int, i as int));
    }
    s
}

/// A `String` holding the characters of `v`.
pub fn string_of(v: &Vec<char>) -> (s: String)
    ensures
        s@ == v@,
{
    let s = string_of_range(v, 0, v.len());
    assert(v@.subrange(0, v@.len() as int) =~= v@);
    s
}

/// Appends the characters `v[from..to]` to `s`.
pub fn append_range(s: &mut String, v: &Vec<char>, from: usize, to: usize)
    requires
        from <= to <= v.len(),
    ensures
        final(s)@ == old(s)@ + v@.subrange(from as int, to as int),
{
    let ghost start = s@;
    let mut i = from;
    while i < to
        invariant
            from <= i <= to <= v.len(),
            s@ == start + v@.subrange(from as int, i as int),
        decreases to - i,
    {
        push_char(s, v[i]);
        i = i + 1;
        assert(s@ =~= start + v@.subrange(from as int, i as int));
    }
}

/// Whether `t` occurs in `s` at index `i`.
pub fn occurs_at_exec(s: &Vec<char>, t: &Vec<char>, i: usize) -> (b: bool)
    ensures
        b == occurs_at(s@, t@, i as int),
{
    if i > s.len() || t.len() > s.len() - i {
        return false;
    }
    let mut k: usize = 0;
    while k < t.len()
        invariant
            i + t.len() <= s.len(),
            k <= t.len(),
            forall|j: int| 0 <= j < k ==> s@[i + j] == t@[j],
        decreases t.len() - k,
    {
        if s[i + k] != t[k] {
            assert(s@.subrange(i as int, i + t.len())[k as int] != t@[k as int]);
            return false;
        }
        k = k + 1;
    }
    assert(s@.subrange(i as int, i + t.len()) =~= t@);
    true
}

/// The first index at or after `from` where `t` occurs in `s`.
pub fn find_from_exec(s: &Vec<char>, t: &Vec<char>, from: usize) -> (r: Option<usize>)
    ensures
        r matches Some(i) ==> find_from(s@, t@, from as int) == Some(i as int),
        r is None ==> find_from(s@, t@, from as int) is None,
{
    if t.len() == 0 {
        if from <= s.len() {
            assert(occurs_at(s@, t@, from as int)) by {
                assert(s@.subrange(from as int, from as int) =~= t@);
            }
            return Some(from);
        }
        return None;
    }
    let mut i = from;
    while i <= s.len() && t.len() <= s.len() - i
        invariant
            from <= i,
            t.len() >= 1,
            find_from(s@, t@, from as int) == find_from(s@, t@, i as int),
        decreases s.len() + 1 - i,
    {
        if occurs_at_exec(s, t, i) {
            return Some(i);
        }
        i = i + 1;
    }
    None
}

/// Whether `t` occurs somewhere in `s`.
pub fn contains_exec(s: &Vec<char>, t: &Vec<char>) -> (b: bool)
    ensures
        b == contains_sub(s@, t@),
{
    proof {
        lemma_contains_find(s@, t@);
    }
    find_from_exec(s, t, 0).is_some()
}

/// Whether `t` occurs somewhere in `s` (what `str::contains` tests).
pub fn str_contains(s: &str, t: &str) -> (b: bool)
    ensures
        b == contains_sub(s@, t@),
{
    let sv = chars_of(s);
    let tv = chars_of(t);
    contains_exec(&sv, &tv)
}

/// Whether `s` and `t` hold the same characters.
pub fn str_eq(s: &str, t: &str) -> (b: bool)
    ensures
        b == (s@ == t@),
{
    let sv = chars_of(s);
    let tv = chars_of(t);
    if sv.len() != tv.len() {
        return false;
    }
    let b = occurs_at_exec(&sv, &tv, 0);
    assert(sv@.subrange(0, tv@.len() as int) =~= sv@);
    b
}

/// Whether `p` is a prefix of `s`.
pub fn starts_with_exec(s: &Vec<char>, p: &Vec<char>) -> (b: bool)
    ensures
        b == is_prefix_of(p@, s@),
{
    occurs_at_exec(s, p, 0)
}

/// Whether `p` is a suffix of `s`.
pub fn ends_with_exec(s: &Vec<char>, p: &Vec<char>) -> (b: bool)
    ensures
        b == is_suffix_of(p@, s@),
{
    if p.len() > s.len() {
        return false;
    }
    occurs_at_exec(s, p, s.len() - p.len())
}

/// Whether `s` begins with `p` (what `str::starts_with` tests).
pub fn str_starts_with(s: &str, p: &str) -> (b: bool)
    ensures
        b == is_prefix_of(p@, s@),
{
    let sv = chars_of(s);
    let pv = chars_of(p);
    starts_with_exec(&sv, &pv)
}

/// Whether `s` ends with `p` (what `str::ends_with` tests).
pub fn str_ends_with(s: &str, p: &str) -> (b: bool)
    ensures
        b == is_suffix_of(p@, s@),
{
    let sv = chars_of(s);
    let pv = chars_of(p);
    ends_with_exec(&sv, &pv)
}

/// Whether `c` is Unicode white space (what `char::is_whitespace` tests).
pub fn is_ws_exec(c: char) -> (b: bool)
    ensures
        b == is_ws(c),
{
    ('\u{9}' <= c && c <= '\u{d}') || c == ' ' || c == '\u{85}' || c == '\u{a0}' || c
        == '\u{1680}' || ('\u{2000}' <= c && c <= '\u{200a}') || c == '\u{2028}' || c
        == '\u{2029}' || c == '\u{202f}' || c == '\u{205f}' || c == '\u{3000}'
}

/// Whether `c` is an ASCII letter or digit.
pub fn is_ascii_alnum_exec(c: char) -> (b: bool)
    ensures
        b == is_ascii_alnum(c),
{
    ('a' <= c && c <= 'z') || ('A' <= c && c <= 'Z') || ('0' <= c && c <= '9')
}

pub proof fn lemma_trim_start_skip(s: Seq<char>, i: int)
    requires
        0 <= i <= s.len(),
        forall|j: int| 0 <= j < i ==> is_ws(s[j]),
    ensures
        trim_start(s) == trim_start(s.subrange(i, s.len() as int)),
    decreases i,
{
    if i > 0 {
        assert(s.len() > 0 && is_ws(s[0]));
        let t = s.drop_first();
        assert forall|j: int| 0 <= j < i - 1 implies is_ws(t[j]) by {
            assert(t[j] == s[j + 1]);
        }
        lemma_trim_start_skip(t, i - 1);
        assert(t.subrange(i - 1, t.len() as int) =~= s.subrange(i, s.len() as int));
    } else {
        assert(s.subrange(0, s.len() as int) =~= s);
    }
}

proof fn lemma_trim_end_skip(s: Seq<char>, k: int)
    requires
        0 <= k <= s.len(),
        forall|j: int| k <= j < s.len() ==> is_ws(s[j]),
    ensures
        trim_end(s) == trim_end(s.subrange(0, k)),
    decreases s.len() - k,
{
    if k < s.len() {
        assert(is_ws(s.last()));
        let t = s.drop_last();
        lemma_trim_end_skip(t, k);
        assert(t.subrange(0, k) =~= s.subrange(0, k));
    } else {
        assert(s.subrange(0, s.len() as int) =~= s);
    }
}

/// The index at which `v[from..]` continues after its leading white space.
pub fn skip_ws(v: &Vec<char>, from: usize) -> (k: usize)
    requires
        from <= v.len(),
    ensures
        from <= k <= v.len(),
        trim_start(v@.subrange(from as int, v.len() as int)) == v@.subrange(k as int, v.len() as int),
        k < v.len() ==> !is_ws(v@[k as int]),
{
    let mut k = from;
    while k < v.len() && is_ws_exec(v[k])
        invariant
            from <= k <= v.len(),
            forall|j: int| from <= j < k ==> is_ws(v@[j]),
        decreases v.len() - k,
    {
        k = k + 1;
    }
    proof {
        let t = v@.subrange(from as int, v.len() as int);
        assert forall|j: int| 0 <= j < k - from implies is_ws(t[j]) by {
            assert(t[j] == v@[from + j]);
        }
        lemma_trim_start_skip(t, k - from);
        assert(t.subrange(k - from, t.len() as int) =~= v@.subrange(k as int, v.len() as int));
        let u = v@.subrange(k as int, v.len() as int);
        if u.len() > 0 {
            assert(u[0] == v@[k as int]);
        }
    }
    k
}

/// A vector holding `v[from..to]`.
pub fn subvec(v: &Vec<char>, from: usize, to: usize) -> (r: Vec<char>)
    requires
        from <= to <= v.len(),
    ensures
        r@ == v@.subrange(from as int, to as int),
{
    let mut r: Vec<char> = Vec::new();
    let mut i = from;
    while i < to
        invariant
            from <= i <= to <= v.len(),
            r@ == v@.subrange(from as int, i as int),
        decreases to - i,
    {
        r.push(v[i]);
        i = i + 1;
        assert(r@ =~= v@.subrange(from as int, i as int));
    }
    r
}

/// The trimmed characters of `v`.
pub fn trim_vec(v: &Vec<char>) -> (r: Vec<char>)
    ensures
        r@ == trim(v@),
{
    let (a, b) = trim_bounds(v);
    subvec(v, a, b)
}

/// The bounds `[a, b)` of `trim(v)` inside `v`.
pub fn trim_bounds(v: &Vec<char>) -> (r: (usize, usize))
    ensures
        r.0 <= r.1 <= v.len(),
        v@.subrange(r.0 as int, r.1 as int) == trim(v@),
{
    let mut a: usize = 0;
    while a < v.len() && is_ws_exec(v[a])
        invariant
            a <= v.len(),
            forall|j: int| 0 <= j < a ==> is_ws(v@[j]),
        decreases v.len() - a,
    {
        a = a + 1;
    }
    proof {
        lemma_trim_start_skip(v@, a as int);
    }
    let ghost rest = v@.subrange(a as int, v.len() as int);
    assert(trim_start(rest) == rest);
    let mut b: usize = v.len();
    while b > a && is_ws_exec(v[b - 1])
        invariant
            a <= b <= v.len(),
            forall|j: int| b <= j < v.len() ==> is_ws(v@[j]),
        decreases b,
    {
        b = b - 1;
    }
    proof {
        let k = b - a;
        assert forall|j: int| k <= j < rest.len() implies is_ws(rest[j]) by {
            assert(rest[j] == v@[a + j]);
        }
        lemma_trim_end_skip(rest, k);
        assert(rest.subrange(0, k) =~= v@.subrange(a as int, b as int));
        let u = v@.subrange(a as int, b as int);
        if u.len() > 0 {
            assert(u.last() == v@[b - 1]);
        }
    }
    (a, b)
}

/// `s` without leading and trailing white space (what `str::trim` gives).
pub fn trim_string(s: &str) -> (r: String)
    ensures
        r@ == trim(s@),
{
    let v = chars_of(s);
    let (a, b) = trim_bounds(&v);
    string_of_range(&v, a, b)
}

proof fn lemma_trim_start_char_skip(s: Seq<char>, c: char, i: int)
    requires
        0 <= i <= s.len(),
        forall|j: int| 0 <= j < i ==> s[j] == c,
    ensures
        trim_start_char(s, c) == trim_start_char(s.subrange(i, s.len() as int), c),
    decreases i,
{
    if i > 0 {
        let t = s.drop_first();
        assert forall|j: int| 0 <= j < i - 1 implies t[j] == c by {
            assert(t[j] == s[j + 1]);
        }
        lemma_trim_start_char_skip(t, c, i - 1);
        assert(t.subrange(i - 1, t.len() as int) =~= s.subrange(i, s.len() as int));
    } else {
        assert(s.subrange(0, s.len() as int) =~= s);
    }
}

proof fn lemma_trim_end_char_skip(s: Seq<char>, c: char, k: int)
    requires
        0 <= k <= s.len(),
        forall|j: int| k <= j < s.len() ==> s[j] == c,
    ensures
        trim_end_char(s, c) == trim_end_char(s.subrange(0, k), c),
    decreases s.len() - k,
{
    if k < s.len() {
        let t = s.drop_last();
        lemma_trim_end_char_skip(t, c, k);
        assert(t.subrange(0, k) =~= s.subrange(0, k));
    } else {
        assert(s.subrange(0, s.len() as int) =~= s);
    }
}

/// The bounds `[a, b)` of `trim_char(v, c)` inside `v`.
pub fn trim_char_bounds(v: &Vec<char>, c: char) -> (r: (usize, usize))
    ensures
        r.0 <= r.1 <= v.len(),
        v@.subrange(r.0 as int, r.1 as int) == trim_char(v@, c),
{
    let mut a: usize = 0;
    while a < v.len() && v[a] == c
        invariant
            a <= v.len(),
            forall|j: int| 0 <= j < a ==> v@[j] == c,
        decreases v.len() - a,
    {
        a = a + 1;
    }
    proof {
        lemma_trim_start_char_skip(v@, c, a as int);
    }
    let ghost rest = v@.subrange(a as int, v.len() as int);
    assert(trim_start_char(rest, c) == rest);
    let mut b: usize = v.len();
    while b > a && v[b - 1] == c
        invariant
            a <= b <= v.len(),
            forall|j: int| b <= j < v.len() ==> v@[j] == c,
        decreases b,
    {
        b = b - 1;
    }
    proof {
        let k = b - a;
        assert forall|j: int| k <= j < rest.len() implies rest[j] == c by {
            assert(rest[j] == v@[a + j]);
        }
        lemma_trim_end_char_skip(rest, c, k);
        assert(rest.subrange(0, k) =~= v@.subrange(a as int, b as int));
        let u = v@.subrange(a as int, b as int);
        if u.len() > 0 {
            assert(u.last() == v@[b - 1]);
        }
    }
    (a, b)
}

/// `s` without leading and trailing occurrences of `c` (what `str::trim_matches(c)` gives).
pub fn trim_char_string(s: &str, c: char) -> (r: String)
    ensures
        r@ == trim_char(s@, c),
{
    let v = chars_of(s);
    let (a, b) = trim_char_bounds(&v, c);
    string_of_range(&v, a, b)
}

/// `s` without leading occurrences of `c` (what `str::trim_start_matches(c)` gives).
pub fn trim_start_char_string(s: &str, c: char) -> (r: String)
    ensures
        r@ == trim_start_char(s@, c),
{
    let v = chars_of(s);
    let mut a: usize = 0;
    while a < v.len() && v[a] == c
        invariant
            a <= v.len(),
            forall|j: int| 0 <= j < a ==> v@[j] == c,
        decreases v.len() - a,
    {
        a = a + 1;
    }
    proof {
        lemma_trim_start_char_skip(v@, c, a as int);
        let rest = v@.subrange(a as int, v.len() as int);
        assert(trim_start_char(rest, c) == rest);
    }
    string_of_range(&v, a, v.len())
}

/// Appends the decimal notation of `n` to `s`.
pub fn push_decimal(s: &mut String, n: u64)
    ensures
        final(s)@ == old(s)@ + decimal(n as nat),
    decreases n,
{
    if n < 10 {
        push_char(s, digit_exec(n));
        assert(decimal(n as nat) =~= seq![digit(n as nat)]);
    } else {
        push_decimal(s, n / 10);
        push_char(s, digit_exec(n % 10));
        assert(decimal(n as nat) == decimal((n / 10) as nat).push(digit((n % 10) as nat)));
    }
}

/// The digit character for `d < 10`.
pub fn digit_exec(d: u64) -> (c: char)
    requires
        d < 10,
    ensures
        c == digit(d as nat),
{
    if d == 0 {
        '0'
    } else if d == 1 {
        '1'
    } else if d == 2 {
        '2'
    } else if d == 3 {
        '3'
    } else if d == 4 {
        '4'
    } else if d == 5 {
        '5'
    } else if d == 6 {
        '6'
    } else if d == 7 {
        '7'
    } else if d == 8 {
        '8'
    } else {
        '9'
    }
}

/// The decimal notation of `n`.
pub fn decimal_string(n: u64) -> (r: String)
    ensures
        r@ == decimal(n as nat),
{
    let mut s = String::new();
    push_decimal(&mut s, n);
    assert(s@ =~= decimal(n as nat));
    s
}

/// Appends the decimal notation of `n`, left-padded with zeros to `width` characters.
pub fn push_zero_padded(s: &mut String, n: u64, width: usize)
    ensures
        final(s)@ == old(s)@ + zero_pad(decimal(n as nat), width as nat),
{
    let d = decimal_string(n);
    let dv = chars_of(d.as_str());
    let ghost start = s@;
    if dv.len() < width {
        let pad = width - dv.len();
        let mut i: usize = 0;
        while i < pad
            invariant
                i <= pad,
                s@ == start + Seq::new(i as nat, |k: int| '0'),
            decreases pad - i,
        {
            push_char(s, '0');
            i = i + 1;
            assert(s@ =~= start + Seq::new(i as nat, |k: int| '0'));
        }
        s.append(d.as_str());
        assert(s@ =~= start + zero_pad(decimal(n as nat), width as nat));
    } else {
        s.append(d.as_str());
    }
}

/// Whether the list holds an entry with the same characters as `s`.
pub fn list_contains(list: &Vec<&str>, s: &str) -> (b: bool)
    ensures
        b == list@.map_values(|e: &str| e@).contains(s@),
{
    let ghost l = list@.map_values(|e: &str| e@);
    let mut i: usize = 0;
    while i < list.len()
        invariant
            i <= list.len(),
            l == list@.map_values(|e: &str| e@),
            forall|j: int| 0 <= j < i ==> l[j] != s@,
        decreases list.len() - i,
    {
        if str_eq(list[i], s) {
            assert(l[i as int] == s@);
            return true;
        }
        i = i + 1;
    }
    assert forall|j: int| 0 <= j < l.len() implies l[j] != s@ by {}
    false
}

/// Whether some entry of the list occurs in `s`.
pub fn any_occurs_in(list: &Vec<&str>, s: &str) -> (b: bool)
    ensures
        b == exists|j: int| 0 <= j < list.len() && contains_sub(s@, #[trigger] list@[j]@),
{
    let mut i: usize = 0;
    while i < list.len()
        invariant
            i <= list.len(),
            forall|j: int| 0 <= j < i ==> !contains_sub(s@, #[trigger] list@[j]@),
        decreases list.len() - i,
    {
        if str_contains(s, list[i]) {
            return true;
        }
        i = i + 1;
    }
    false
}

/// The strings of `list` joined with `sep` between consecutive entries.
pub fn join_strings(list: &Vec<String>, sep: &str) -> (r: String)
    ensures
        r@ == join(views(list@), sep@),
{
    let mut r = String::new();
    let ghost parts = views(list@);
    let mut i: usize = 0;
    while i < list.len()
        invariant
            i <= list.len(),
            parts == views(list@),
            r@ == join(parts.take(i as int), sep@),
        decreases list.len() - i,
    {
        if i > 0 {
            r.append(sep);
        }
        r.append(list[i].as_str());
        i = i + 1;
        proof {
            let t = parts.take(i as int);
            assert(t.drop_last() =~= parts.take(i - 1));
            assert(t.last() == list@[i - 1]@);
            if i == 1 {
                assert(parts.take(0) =~= Seq::<Seq<char>>::empty());
            }
        }
    }
    assert(parts.take(list.len() as int) =~= parts);
    r
}

/// The pieces of `v` between the non-overlapping occurrences of `t`.
pub fn split_vec(v: &Vec<char>, t: &Vec<char>) -> (r: Vec<Vec<char>>)
    requires
        t.len() > 0,
    ensures
        vec_views(r@) == split_on(v@, t@),
{
    let mut out: Vec<Vec<char>> = Vec::new();
    let mut from: usize = 0;
    loop
        invariant
            from <= v.len(),
            t.len() > 0,
            vec_views(out@) + split_from(v@, t@, from as int) == split_on(v@, t@),
        decreases v.len() - from,
    {
        let ghost before = vec_views(out@);
        match find_from_exec(v, t, from) {
            Some(i) => {
                proof {
                    lemma_find_from(v@, t@, from as int);
                }
                let piece = subvec(v, from, i);
                out.push(piece);
                assert(vec_views(out@) =~= before.push(v@.subrange(from as int, i as int)));
                assert(before + split_from(v@, t@, from as int) =~= vec_views(out@) + split_from(
                    v@,
                    t@,
                    i + t@.len(),
                ));
                from = i + t.len();
            },
            None => {
                let piece = subvec(v, from, v.len());
                out.push(piece);
                assert(vec_views(out@) =~= before.push(v@.subrange(from as int, v@.len() as int)));
                assert(before + split_from(v@, t@, from as int) =~= vec_views(out@));
                return out;
            },
        }
    }
}

/// Whether `a` comes before `b` in the order of `String`'s `Ord`.
pub fn char_vec_lt(a: &Vec<char>, b: &Vec<char>) -> (r: bool)
    ensures
        r == char_seq_lt(a@, b@),
{
    let mut i: usize = 0;
    assert(a@.skip(0) =~= a@ && b@.skip(0) =~= b@);
    while i < a.len() && i < b.len() && a[i] == b[i]
        invariant
            i <= a.len(),
            i <= b.len(),
            char_seq_lt(a@, b@) == char_seq_lt(a@.skip(i as int), b@.skip(i as int)),
        decreases a.len() - i,
    {
        assert(a@.skip(i as int).drop_first() =~= a@.skip(i + 1));
        assert(b@.skip(i as int).drop_first() =~= b@.skip(i + 1));
        i = i + 1;
    }
    if i == a.len() {
        i < b.len()
    } else if i == b.len() {
        false
    } else {
        assert(a@.skip(i as int)[0] == a@[i as int]);
        assert(b@.skip(i as int)[0] == b@[i as int]);
        a[i] < b[i]
    }
}

/// `s` without its trailing occurrences of `c` (what `str::trim_end_matches(c)` gives).
pub fn trim_end_char_string(s: &str, c: char) -> (r: String)
    ensures
        r@ == trim_end_char(s@, c),
{
    let v = chars_of(s);
    let mut b = v.len();
    while b > 0 && v[b - 1] == c
        invariant
            b <= v.len(),
            v@ == s@,
            forall|j: int| b <= j < v.len() ==> v@[j] == c,
        decreases b,
    {
        b = b - 1;
    }
    proof {
        lemma_trim_end_char_skip(v@, c, b as int);
        let t = v@.subrange(0, b as int);
        if t.len() > 0 {
            assert(t.last() == v@[b - 1]);
        }
    }
    string_of_range(&v, 0, b)
}

/// `s` with every non-overlapping occurrence of `t`, found left to right, replaced by
/// `rep` (what `str::replace` gives).
pub open spec fn replaced(s: Seq<char>, t: Seq<char>, rep: Seq<char>) -> Seq<char> {
    join(split_on(s, t), rep)
}

/// `s` with every occurrence of the non-empty `t` replaced by `rep`.
pub fn replace_str(s: &str, t: &str, rep: &str) -> (r: String)
    requires
        t@.len() > 0,
    ensures
        r@ == replaced(s@, t@, rep@),
{
    let sv = chars_of(s);
    let tv = chars_of(t);
    let pieces = split_vec(&sv, &tv);
    let mut parts: Vec<String> = Vec::new();
    let mut i: usize = 0;
    while i < pieces.len()
        invariant
            i <= pieces.len(),
            views(parts@) == vec_views(pieces@).take(i as int),
        decreases pieces.len() - i,
    {
        let p = string_of(&pieces[i]);
        let ghost before = views(parts@);
        let ghost pv = p@;
        parts.push(p);
        assert(views(parts@) =~= before.push(pv));
        assert(vec_views(pieces@).take(i + 1) =~= vec_views(pieces@).take(i as int).push(pv));
        i = i + 1;
    }
    assert(vec_views(pieces@).take(pieces.len() as int) =~= vec_views(pieces@));
    join_strings(&parts, rep)
}

} // verus!
