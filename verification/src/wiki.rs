//! Wiki pages in the Open Knowledge Format: front matter, cross-links, page paths,
//! the index page and the links between summaries and concept pages.
use vstd::prelude::*;

use crate::kb::WikiScope;
use crate::paths::{join_path, path_join};
use crate::text::{
    chars_of, contains_sub, decimal, is_ascii_alnum, is_ascii_alnum_exec, is_suffix_of, join,
    join_strings,
    lemma_contains_append, lemma_contains_middle, lemma_contains_prepend, lemma_contains_trans, lowercase, push_char, push_zero_padded,
    str_contains, str_ends_with, string_of_range, to_lowercase, trim_char, trim_end_char, ascii_lower, no_ascii_upper,
    trim_char_string, trim_start_char, trim_start_char_string, zero_pad,
};

verus! {

// ---------------------------------------------------------------------------
// Zones and page paths
// ---------------------------------------------------------------------------

/// Link prefix of a wiki zone: empty for the public wiki, `private/` for the private one.
pub open spec fn link_prefix(scope: WikiScope) -> Seq<char> {
    match scope {
        WikiScope::Public => seq![],
        WikiScope::Private => "private/"@,
    }
}

/// The link prefix of a wiki zone.
pub fn wiki_link_prefix(scope: WikiScope) -> (r: &'static str)
    ensures
        r@ == link_prefix(scope),
{
    match scope {
        WikiScope::Public => {
            proof {
                reveal_strlit("");
            }
            ""
        },
        WikiScope::Private => "private/",
    }
}

/// Page id `<prefix><kind>/<slug>` of a wiki page.
pub open spec fn page_id(scope: WikiScope, kind: Seq<char>, slug: Seq<char>) -> Seq<char> {
    link_prefix(scope) + kind + "/"@ + slug
}

/// The page id of a wiki page (its path without the `.md` extension).
pub fn wiki_page_id(scope: WikiScope, kind: &str, slug: &str) -> (r: String)
    ensures
        r@ == page_id(scope, kind@, slug@),
{
    let mut r = String::from_str(wiki_link_prefix(scope));
    r.append(kind);
    r.append("/");
    r.append(slug);
    r
}

/// The OKF path of a wiki page: `<prefix><kind>/<slug>.md`.
pub fn okf_page_path(scope: WikiScope, kind: &str, slug: &str) -> (r: String)
    ensures
        r@ == page_id(scope, kind@, slug@) + ".md"@,
{
    let mut r = wiki_page_id(scope, kind, slug);
    r.append(".md");
    r
}

/// File of a document summary: `<summaries>/<doc_name>.md`.
pub fn summary_path(summaries: &str, doc_name: &str) -> (r: String)
    ensures
        r@ == path_join(summaries@, doc_name@ + ".md"@),
{
    let mut f = String::from_str(doc_name);
    f.append(".md");
    join_path(summaries, f.as_str())
}

/// File of a concept page: `<concepts>/<slug>.md`.
pub fn concept_path(concepts: &str, slug: &str) -> (r: String)
    ensures
        r@ == path_join(concepts@, slug@ + ".md"@),
{
    let mut f = String::from_str(slug);
    f.append(".md");
    join_path(concepts, f.as_str())
}

/// File of an entity page: `<entities>/<slug>.md`.
pub fn entity_path(entities: &str, slug: &str) -> (r: String)
    ensures
        r@ == path_join(entities@, slug@ + ".md"@),
{
    let mut f = String::from_str(slug);
    f.append(".md");
    join_path(entities, f.as_str())
}

// ---------------------------------------------------------------------------
// Links and slugs
// ---------------------------------------------------------------------------

/// The link target of an OKF cross-link: leading `/` dropped, `.md` added when missing.
pub open spec fn link_target(path: Seq<char>) -> Seq<char> {
    let p = trim_start_char(path, '/');
    if is_suffix_of(".md"@, p) {
        p
    } else {
        p + ".md"@
    }
}

/// An OKF cross-link `[label](target)`.
pub open spec fn link(path: Seq<char>, label: Seq<char>) -> Seq<char> {
    "["@ + label + "]("@ + link_target(path) + ")"@
}

/// OKF cross-link to `path`: `[label](path.md)`.
pub fn okf_link(path: &str, label: &str) -> (r: String)
    ensures
        r@ == link(path@, label@),
{
    let p = trim_start_char_string(path, '/');
    let mut target = p.clone();
    if !str_ends_with(p.as_str(), ".md") {
        target.append(".md");
    }
    let mut r = String::from_str("[");
    r.append(label);
    r.append("](");
    r.append(target.as_str());
    r.append(")");
    r
}

/// A character of a slug: ASCII letters and digits stay, anything else becomes `-`.
pub open spec fn slug_char(c: char) -> char {
    if is_ascii_alnum(c) {
        c
    } else {
        '-'
    }
}

/// The slug of a name: lower-cased, every character but ASCII letters and digits made
/// `-`, and `-` trimmed from both ends.
pub open spec fn slug(name: Seq<char>) -> Seq<char> {
    trim_char(lowercase(name).map_values(|c: char| slug_char(c)), '-')
}

/// The slug of a page name. The case mapping of `name` is that of `str::to_lowercase`,
/// which maps no character to an ASCII upper-case letter and maps an ASCII name letter by
/// letter.
pub fn slugify(name: &str) -> (r: String)
    ensures
        r@ == slug(name@),
        no_ascii_upper(lowercase(name@)),
        vstd::utf8::is_ascii_chars(name@) ==> lowercase(name@) == name@.map_values(
            |c: char| ascii_lower(c),
        ),
{
    let lower = to_lowercase(name);
    let v = chars_of(lower.as_str());
    let mut mapped = String::new();
    let mut i: usize = 0;
    while i < v.len()
        invariant
            i <= v.len(),
            v@ == lowercase(name@),
            mapped@ == v@.take(i as int).map_values(|c: char| slug_char(c)),
        decreases v.len() - i,
    {
        let c = v[i];
        if is_ascii_alnum_exec(c) {
            push_char(&mut mapped, c);
        } else {
            push_char(&mut mapped, '-');
        }
        i = i + 1;
        assert(mapped@ =~= v@.take(i as int).map_values(|c: char| slug_char(c)));
    }
    assert(v@.take(v.len() as int) =~= v@);
    trim_char_string(mapped.as_str(), '-')
}

/// The upper-case form of `c` that `char::to_uppercase` gives (Unicode case mapping).
pub uninterp spec fn uppercase(c: char) -> Seq<char>;

/// `c` with an ASCII lower-case letter mapped to its upper-case letter.
pub open spec fn ascii_upper(c: char) -> char {
    if 'a' <= c && c <= 'z' {
        ((c as u32) - 32) as char
    } else {
        c
    }
}

/// Upper-cases one character (wraps `char::to_uppercase`). The result is named
/// `uppercase`; of an ASCII character it is that character's ASCII upper case.
#[verifier::external_body]
fn char_to_uppercase(c: char) -> (r: String)
    ensures
        r@ == uppercase(c),
        c <= '\u{7f}' ==> r@ == seq![ascii_upper(c)],
{
    c.to_uppercase().collect::<String>()
}

/// OKF `type` of an entity: its type with the first character upper-cased, or `Entity`.
pub open spec fn entity_type_name(t: Seq<char>) -> Seq<char> {
    if t.len() == 0 {
        "Entity"@
    } else {
        uppercase(t[0]) + t.drop_first()
    }
}

/// Capitalizes an entity type for the OKF `type` field (`person` gives `Person`).
pub fn entity_okf_type(entity_type: &str) -> (r: String)
    ensures
        r@ == entity_type_name(entity_type@),
        entity_type@.len() > 0 && entity_type@[0] <= '\u{7f}' ==> r@ == seq![
            ascii_upper(entity_type@[0]),
        ] + entity_type@.drop_first(),
{
    let v = chars_of(entity_type);
    if v.len() == 0 {
        return String::from_str("Entity");
    }
    let mut r = char_to_uppercase(v[0]);
    let rest = string_of_range(&v, 1, v.len());
    r.append(rest.as_str());
    assert(v@.subrange(1, v@.len() as int) =~= v@.drop_first());
    r
}

// ---------------------------------------------------------------------------
// YAML scalars
// ---------------------------------------------------------------------------

/// A character inside a double-quoted YAML scalar: `\` and `"` escaped.
pub open spec fn yaml_escape_char(c: char) -> Seq<char> {
    if c == '\\' {
        seq!['\\', '\\']
    } else if c == '"' {
        seq!['\\', '"']
    } else {
        seq![c]
    }
}

/// The characters of `s` escaped for a double-quoted YAML scalar.
pub open spec fn yaml_escape(s: Seq<char>) -> Seq<char>
    decreases s.len(),
{
    if s.len() == 0 {
        seq![]
    } else {
        yaml_escape(s.drop_last()) + yaml_escape_char(s.last())
    }
}

/// Whether a YAML scalar must be quoted: it holds a newline, a `"` or a `:`.
pub open spec fn needs_quotes(s: Seq<char>) -> bool {
    s.contains('\n') || s.contains('"') || s.contains(':')
}

/// `s` as a YAML scalar: double-quoted and escaped when it holds a newline, `"` or `:`.
pub open spec fn yaml_scalar(s: Seq<char>) -> Seq<char> {
    if needs_quotes(s) {
        seq!['"'] + yaml_escape(s) + seq!['"']
    } else {
        s
    }
}

/// Quotes `s` for a YAML front-matter value when it needs quotes.
pub fn yaml_quote(s: &str) -> (r: String)
    ensures
        r@ == yaml_scalar(s@),
{
    let v = chars_of(s);
    let mut needs = false;
    let mut i: usize = 0;
    while i < v.len()
        invariant
            i <= v.len(),
            needs == exists|j: int| 0 <= j < i && (v@[j] == '\n' || v@[j] == '"' || v@[j] == ':'),
        decreases v.len() - i,
    {
        if v[i] == '\n' || v[i] == '"' || v[i] == ':' {
            needs = true;
        }
        i = i + 1;
    }
    proof {
        if needs {
            let j = choose|j: int| 0 <= j < v.len() && (v@[j] == '\n' || v@[j] == '"' || v@[j] == ':');
            assert(v@.contains(v@[j]));
        } else {
            assert(!v@.contains('\n'));
            assert(!v@.contains('"'));
            assert(!v@.contains(':'));
        }
    }
    if !needs {
        return String::from_str(s);
    }
    let mut r = String::new();
    push_char(&mut r, '"');
    let mut k: usize = 0;
    while k < v.len()
        invariant
            k <= v.len(),
            r@ == seq!['"'] + yaml_escape(v@.take(k as int)),
        decreases v.len() - k,
    {
        let c = v[k];
        if c == '\\' {
            push_char(&mut r, '\\');
            push_char(&mut r, '\\');
        } else if c == '"' {
            push_char(&mut r, '\\');
            push_char(&mut r, '"');
        } else {
            push_char(&mut r, c);
        }
        proof {
            let t = v@.take(k + 1);
            assert(t.drop_last() =~= v@.take(k as int));
            assert(t.last() == c);
        }
        k = k + 1;
        assert(r@ =~= seq!['"'] + yaml_escape(v@.take(k as int)));
    }
    push_char(&mut r, '"');
    assert(v@.take(v.len() as int) =~= v@);
    r
}

// ---------------------------------------------------------------------------
// Civil time for timestamps
// ---------------------------------------------------------------------------

/// Gregorian leap year.
pub open spec fn is_leap_year(y: int) -> bool {
    (y % 4 == 0 && y % 100 != 0) || y % 400 == 0
}

/// Days in year `y`.
pub open spec fn days_in_year(y: int) -> int {
    if is_leap_year(y) {
        366
    } else {
        365
    }
}

/// Days from 1970-01-01 to the first day of year `y`.
pub open spec fn days_before_year(y: int) -> int
    decreases y - 1970,
{
    if y <= 1970 {
        0
    } else {
        days_before_year(y - 1) + days_in_year(y - 1)
    }
}

/// Days in month `m` (1 to 12) of year `y`.
pub open spec fn days_in_month(y: int, m: int) -> int {
    if m == 2 {
        if is_leap_year(y) {
            29
        } else {
            28
        }
    } else if m == 4 || m == 6 || m == 9 || m == 11 {
        30
    } else {
        31
    }
}

/// Days from the first day of year `y` to the first day of month `m`.
pub open spec fn days_before_month(y: int, m: int) -> int
    decreases m,
{
    if m <= 1 {
        0
    } else {
        days_before_month(y, m - 1) + days_in_month(y, m - 1)
    }
}

/// `t = (year, month, day, hour, minute, second)` is the UTC civil time `secs` seconds
/// after 1970-01-01T00:00:00Z.
pub open spec fn is_civil_time(secs: int, t: (u32, u32, u32, u32, u32, u32)) -> bool {
    &&& 1970 <= t.0
    &&& 1 <= t.1 <= 12
    &&& 1 <= t.2 <= days_in_month(t.0 as int, t.1 as int)
    &&& t.3 < 24
    &&& t.4 < 60
    &&& t.5 < 60
    &&& secs == (((days_before_year(t.0 as int) + days_before_month(t.0 as int, t.1 as int) + t.2
        - 1) * 24 + t.3) * 60 + t.4) * 60 + t.5
}

/// Seconds from the epoch to the first moment whose year no longer fits the `u32` year
/// of a civil time (the start of year 2^32).
pub const MAX_CIVIL_SECS: u64 = 135536014634284800;

/// The number of Gregorian leap years from year 1 to year `n`.
pub open spec fn leaps_through(n: int) -> int {
    n / 4 - n / 100 + n / 400
}

proof fn lemma_div_step(n: int, d: int)
    requires
        n >= 1,
        d > 0,
    ensures
        n / d - (n - 1) / d == if n % d == 0 {
            1int
        } else {
            0int
        },
{
    assert(n / d - (n - 1) / d == if n % d == 0 {
        1int
    } else {
        0int
    }) by (nonlinear_arith)
        requires
            n >= 1,
            d > 0,
    ;
}

proof fn lemma_days_before_year_closed(y: int)
    requires
        y >= 1970,
    ensures
        days_before_year(y) == 365 * (y - 1970) + leaps_through(y - 1) - leaps_through(1969),
    decreases y - 1970,
{
    if y > 1970 {
        lemma_days_before_year_closed(y - 1);
        lemma_div_step(y - 1, 4);
        lemma_div_step(y - 1, 100);
        lemma_div_step(y - 1, 400);
    }
}

proof fn lemma_days_before_year_grows(a: int, b: int)
    requires
        1970 <= a <= b,
    ensures
        days_before_year(a) <= days_before_year(b),
    decreases b - a,
{
    if a < b {
        lemma_days_before_year_grows(a, b - 1);
    }
}

proof fn lemma_max_civil_secs()
    ensures
        MAX_CIVIL_SECS == 86400 * days_before_year(0x1_0000_0000),
{
    lemma_days_before_year_closed(0x1_0000_0000);
    assert(86400 * (365 * (0x1_0000_0000 - 1970) + leaps_through(0x1_0000_0000 - 1) - leaps_through(
        1969,
    )) == 135536014634284800int);
}

/// Whether `y` is a Gregorian leap year.
pub fn is_leap(y: u32) -> (b: bool)
    ensures
        b == is_leap_year(y as int),
{
    (y % 4 == 0 && y % 100 != 0) || y % 400 == 0
}

fn year_len(y: u32) -> (d: u64)
    ensures
        d == days_in_year(y as int),
{
    if is_leap(y) {
        366
    } else {
        365
    }
}

fn month_len(y: u32, m: u32) -> (d: u64)
    ensures
        d == days_in_month(y as int, m as int),
{
    if m == 2 {
        if is_leap(y) {
            29
        } else {
            28
        }
    } else if m == 4 || m == 6 || m == 9 || m == 11 {
        30
    } else {
        31
    }
}

proof fn lemma_months_fill_year(y: int)
    ensures
        days_before_month(y, 12) + 31 == days_in_year(y),
{
    reveal_with_fuel(days_before_month, 13);
}

proof fn lemma_days_before_month_grows(y: int, m: int)
    requires
        1 <= m <= 12,
    ensures
        days_before_month(y, m) >= 0,
    decreases m,
{
    if m > 1 {
        lemma_days_before_month_grows(y, m - 1);
    }
}

/// UTC civil time (year, month, day, hour, minute, second) of `secs` seconds after the epoch.
pub fn unix_to_utc(secs: u64) -> (t: (u32, u32, u32, u32, u32, u32))
    requires
        secs < MAX_CIVIL_SECS,
    ensures
        is_civil_time(secs as int, t),
{
    let s = secs % 60;
    let m1 = secs / 60;
    let mi = m1 % 60;
    let h1 = m1 / 60;
    let h = h1 % 24;
    let mut days = h1 / 24;
    let ghost total = days as int;
    assert(secs == ((total * 24 + h) * 60 + mi) * 60 + s) by (nonlinear_arith)
        requires
            s == secs % 60,
            m1 == secs / 60,
            mi == m1 % 60,
            h1 == m1 / 60,
            h == h1 % 24,
            total == h1 / 24,
    ;
    let ghost limit = days_before_year(0x1_0000_0000);
    proof {
        lemma_max_civil_secs();
    }
    assert(total < limit) by (nonlinear_arith)
        requires
            secs < 86400 * limit,
            secs == ((total * 24 + h) * 60 + mi) * 60 + s,
            h < 24,
            mi < 60,
            s < 60,
            0 <= h,
            0 <= mi,
            0 <= s,
            0 <= total,
    ;
    let mut y: u32 = 1970;
    while days >= year_len(y)
        invariant
            1970 <= y,
            total == days_before_year(y as int) + days,
            limit == days_before_year(0x1_0000_0000),
            total < limit,
        decreases days,
    {
        proof {
            if y as int + 1 >= 0x1_0000_0000 {
                lemma_days_before_year_grows(0x1_0000_0000, y as int + 1);
            }
        }
        days = days - year_len(y);
        y = y + 1;
    }
    proof {
        lemma_months_fill_year(y as int);
    }
    let mut mo: u32 = 1;
    while mo < 12 && days >= month_len(y, mo)
        invariant
            1 <= mo <= 12,
            days < days_in_year(y as int) - days_before_month(y as int, mo as int),
            total == days_before_year(y as int) + days_before_month(y as int, mo as int) + days,
            days_before_month(y as int, 12) + 31 == days_in_year(y as int),
        decreases 12 - mo,
    {
        days = days - month_len(y, mo);
        mo = mo + 1;
    }
    proof {
        lemma_days_before_month_grows(y as int, mo as int);
    }
    (y, mo, (days + 1) as u32, h as u32, mi as u32, s as u32)
}

/// The OKF timestamp text of a civil time: `YYYY-MM-DDTHH:MM:SSZ`.
pub open spec fn timestamp_of(t: (u32, u32, u32, u32, u32, u32)) -> Seq<char> {
    zero_pad(decimal(t.0 as nat), 4) + "-"@ + zero_pad(decimal(t.1 as nat), 2) + "-"@ + zero_pad(
        decimal(t.2 as nat),
        2,
    ) + "T"@ + zero_pad(decimal(t.3 as nat), 2) + ":"@ + zero_pad(decimal(t.4 as nat), 2) + ":"@
        + zero_pad(decimal(t.5 as nat), 2) + "Z"@
}

/// `ts` is the OKF timestamp of some moment `secs` seconds after the epoch.
pub open spec fn is_timestamp_at(ts: Seq<char>, secs: int) -> bool {
    exists|t: (u32, u32, u32, u32, u32, u32)| is_civil_time(secs, t) && ts == timestamp_of(t)
}

/// `ts` is the OKF timestamp of some moment.
pub open spec fn is_timestamp(ts: Seq<char>) -> bool {
    exists|secs: int| 0 <= secs < MAX_CIVIL_SECS && is_timestamp_at(ts, secs)
}

/// The OKF timestamp of `secs` seconds after the epoch.
pub fn okf_timestamp_at(secs: u64) -> (r: String)
    requires
        secs < MAX_CIVIL_SECS,
    ensures
        is_timestamp_at(r@, secs as int),
{
    let t = unix_to_utc(secs);
    let mut r = String::new();
    push_zero_padded(&mut r, t.0 as u64, 4);
    r.append("-");
    push_zero_padded(&mut r, t.1 as u64, 2);
    r.append("-");
    push_zero_padded(&mut r, t.2 as u64, 2);
    r.append("T");
    push_zero_padded(&mut r, t.3 as u64, 2);
    r.append(":");
    push_zero_padded(&mut r, t.4 as u64, 2);
    r.append(":");
    push_zero_padded(&mut r, t.5 as u64, 2);
    r.append("Z");
    assert(r@ == timestamp_of(t));
    r
}

/// Seconds since the Unix epoch by the system clock, 0 when the clock reads earlier
/// (wraps `SystemTime::now` and `duration_since(UNIX_EPOCH)`); nothing is promised of the
/// value, which depends on the clock.
#[verifier::external_body]
fn now_unix_secs() -> (r: u64) {
    std::time::SystemTime::now().duration_since(std::time::UNIX_EPOCH).map(|d| d.as_secs()).unwrap_or(0)
}

/// The OKF timestamp of the current time (the epoch when the clock reads a moment too
/// far out for a civil year).
pub fn okf_timestamp() -> (r: String)
    ensures
        is_timestamp(r@),
{
    let now = now_unix_secs();
    let secs = if now < MAX_CIVIL_SECS {
        now
    } else {
        0
    };
    okf_timestamp_at(secs)
}


// ---------------------------------------------------------------------------
// Front matter
// ---------------------------------------------------------------------------

/// A note page with OKF front matter (`type: Note`) stamped `ts`.
pub open spec fn note_page(title: Seq<char>, body: Seq<char>, ts: Seq<char>) -> Seq<char> {
    "---\ntype: Note\ntitle: "@ + yaml_scalar(title) + "\ntimestamp: "@ + ts + "\n---\n\n"@ + body
}

/// A concept or entity page with OKF front matter stamped `ts`.
pub open spec fn typed_page(
    page_type: Seq<char>,
    title: Seq<char>,
    description: Seq<char>,
    body: Seq<char>,
    ts: Seq<char>,
) -> Seq<char> {
    "---\ntype: "@ + yaml_scalar(page_type) + "\ntitle: "@ + yaml_scalar(title)
        + "\ndescription: "@ + yaml_scalar(description) + "\ntimestamp: "@ + ts + "\n---\n\n"@
        + body
}

/// The front-matter lines that mark a summary private.
pub open spec fn private_tags(is_private: bool) -> Seq<char> {
    if is_private {
        "tags: [private]\nprivate: true\n"@
    } else {
        seq![]
    }
}

/// A document summary page (`type: Document Summary`, `resource` = original file) stamped `ts`.
pub open spec fn summary_page(
    title: Seq<char>,
    resource: Seq<char>,
    description: Seq<char>,
    body: Seq<char>,
    is_private: bool,
    ts: Seq<char>,
) -> Seq<char> {
    "---\ntype: Document Summary\ntitle: "@ + yaml_scalar(title) + "\nresource: "@ + yaml_scalar(
        resource,
    ) + "\ndescription: "@ + yaml_scalar(description) + "\ntimestamp: "@ + ts + "\n"@
        + private_tags(is_private) + "---\n\n"@ + body
}

/// A note page stamped with the given timestamp text.
pub fn wrap_frontmatter_at(title: &str, body: &str, ts: &str) -> (r: String)
    ensures
        r@ == note_page(title@, body@, ts@),
{
    let mut r = String::from_str("---\ntype: Note\ntitle: ");
    let t = yaml_quote(title);
    r.append(t.as_str());
    r.append("\ntimestamp: ");
    r.append(ts);
    r.append("\n---\n\n");
    r.append(body);
    r
}

/// A note page stamped with the current time.
pub fn wrap_frontmatter(title: &str, body: &str) -> (r: String)
    ensures
        exists|ts: Seq<char>| is_timestamp(ts) && r@ == note_page(title@, body@, ts),
{
    let ts = okf_timestamp();
    wrap_frontmatter_at(title, body, ts.as_str())
}

/// A concept or entity page stamped with the given timestamp text.
pub fn wrap_page_frontmatter_at(
    concept_type: &str,
    title: &str,
    description: &str,
    body: &str,
    ts: &str,
) -> (r: String)
    ensures
        r@ == typed_page(concept_type@, title@, description@, body@, ts@),
{
    let mut r = String::from_str("---\ntype: ");
    let a = yaml_quote(concept_type);
    r.append(a.as_str());
    r.append("\ntitle: ");
    let b = yaml_quote(title);
    r.append(b.as_str());
    r.append("\ndescription: ");
    let c = yaml_quote(description);
    r.append(c.as_str());
    r.append("\ntimestamp: ");
    r.append(ts);
    r.append("\n---\n\n");
    r.append(body);
    r
}

/// An OKF concept or entity page (`type`, `title`, `description`, `timestamp`) stamped
/// with the current time.
pub fn wrap_page_frontmatter(concept_type: &str, title: &str, description: &str, body: &str) -> (r:
    String)
    ensures
        exists|ts: Seq<char>|
            is_timestamp(ts) && r@ == typed_page(concept_type@, title@, description@, body@, ts),
{
    let ts = okf_timestamp();
    wrap_page_frontmatter_at(concept_type, title, description, body, ts.as_str())
}

/// A document summary page stamped with the given timestamp text.
pub fn wrap_summary_frontmatter_at(
    title: &str,
    resource: &str,
    description: &str,
    body: &str,
    is_private: bool,
    ts: &str,
) -> (r: String)
    ensures
        r@ == summary_page(title@, resource@, description@, body@, is_private, ts@),
{
    let mut r = String::from_str("---\ntype: Document Summary\ntitle: ");
    let a = yaml_quote(title);
    r.append(a.as_str());
    r.append("\nresource: ");
    let b = yaml_quote(resource);
    r.append(b.as_str());
    r.append("\ndescription: ");
    let c = yaml_quote(description);
    r.append(c.as_str());
    r.append("\ntimestamp: ");
    r.append(ts);
    r.append("\n");
    if is_private {
        r.append("tags: [private]\nprivate: true\n");
    } else {
        assert(r@ + private_tags(is_private) =~= r@);
    }
    r.append("---\n\n");
    r.append(body);
    r
}

/// An OKF document summary (`type: Document Summary`, `resource` = original file path)
/// stamped with the current time; private summaries are tagged `private`.
pub fn wrap_summary_frontmatter(
    title: &str,
    resource: &str,
    description: &str,
    body: &str,
    is_private: bool,
) -> (r: String)
    ensures
        exists|ts: Seq<char>|
            is_timestamp(ts) && r@ == summary_page(
                title@,
                resource@,
                description@,
                body@,
                is_private,
                ts,
            ),
{
    let ts = okf_timestamp();
    wrap_summary_frontmatter_at(title, resource, description, body, is_private, ts.as_str())
}

// ---------------------------------------------------------------------------
// Reading front matter
// ---------------------------------------------------------------------------

/// The string value under `key` in the YAML front matter of `text`, as `gray_matter`
/// reads it (`None` when there is no front matter, no such key, or a value that is not
/// a string).
pub uninterp spec fn yaml_str_field(text: Seq<char>, key: Seq<char>) -> Option<Seq<char>>;

/// The length of the list under `key` in the YAML front matter of `text`, as
/// `gray_matter` reads it (0 when there is no such list).
pub uninterp spec fn yaml_list_len(text: Seq<char>, key: Seq<char>) -> nat;

/// Entry `i` of the list under `key` in the YAML front matter of `text`, when it is a
/// string, as `gray_matter` reads it.
pub uninterp spec fn yaml_list_item(text: Seq<char>, key: Seq<char>, i: nat) -> Option<Seq<char>>;

/// The text after the front matter of `text` (all of `text` when there is none), as
/// `gray_matter` reads it.
pub uninterp spec fn yaml_body(text: Seq<char>) -> Seq<char>;

/// Reads a string value of the front matter (wraps `gray_matter::Matter::parse` with
/// the YAML engine, then `Pod::as_string` on the value under `key`). The result is named
/// `yaml_str_field` and nothing more is claimed of it.
#[verifier::external_body]
pub(crate) fn frontmatter_string(text: &str, key: &str) -> (r: Option<String>)
    ensures
        r matches Some(s) ==> yaml_str_field(text@, key@) == Some(s@),
        r is None ==> yaml_str_field(text@, key@) is None,
{
    let parsed = gray_matter::Matter::<gray_matter::engine::YAML>::new().parse::<
        gray_matter::Pod,
    >(text).ok()?;
    match parsed.data? {
        gray_matter::Pod::Hash(h) => h.get(key)?.as_string().ok(),
        _ => None,
    }
}

/// The length of a list value of the front matter (wraps `gray_matter::Matter::parse`
/// with the YAML engine and reads the `Pod::Array` under `key`). The result is named
/// `yaml_list_len`.
#[verifier::external_body]
pub(crate) fn frontmatter_list_len(text: &str, key: &str) -> (r: usize)
    ensures
        r as nat == yaml_list_len(text@, key@),
{
    let Ok(parsed) = gray_matter::Matter::<gray_matter::engine::YAML>::new().parse::<
        gray_matter::Pod,
    >(text) else { return 0 };
    match parsed.data {
        Some(gray_matter::Pod::Hash(h)) => match h.get(key) {
            Some(gray_matter::Pod::Array(arr)) => arr.len(),
            _ => 0,
        },
        _ => 0,
    }
}

/// One string entry of a list value of the front matter (wraps
/// `gray_matter::Matter::parse` with the YAML engine, then `Pod::as_string` on entry `i`
/// of the `Pod::Array` under `key`). The result is named `yaml_list_item`.
#[verifier::external_body]
pub(crate) fn frontmatter_list_item(text: &str, key: &str, i: usize) -> (r: Option<String>)
    ensures
        r matches Some(s) ==> yaml_list_item(text@, key@, i as nat) == Some(s@),
        r is None ==> yaml_list_item(text@, key@, i as nat) is None,
{
    let parsed = gray_matter::Matter::<gray_matter::engine::YAML>::new().parse::<
        gray_matter::Pod,
    >(text).ok()?;
    match parsed.data? {
        gray_matter::Pod::Hash(h) => match h.get(key)? {
            gray_matter::Pod::Array(arr) => arr.get(i)?.as_string().ok(),
            _ => None,
        },
        _ => None,
    }
}

/// The text after the front matter (wraps `gray_matter::Matter::parse` with the YAML
/// engine and reads `content`; all of `text` when parsing fails). The result is named
/// `yaml_body`.
#[verifier::external_body]
pub(crate) fn frontmatter_body(text: &str) -> (r: String)
    ensures
        r@ == yaml_body(text@),
{
    match gray_matter::Matter::<gray_matter::engine::YAML>::new().parse::<gray_matter::Pod>(text) {
        Ok(parsed) => parsed.content,
        Err(_) => text.to_string(),
    }
}

/// The non-empty string entries among the first `n` entries of the list under `key`.
pub open spec fn nonempty_list_items(text: Seq<char>, key: Seq<char>, n: nat) -> Seq<Seq<char>>
    decreases n,
{
    if n == 0 {
        seq![]
    } else {
        let prev = nonempty_list_items(text, key, (n - 1) as nat);
        match yaml_list_item(text, key, (n - 1) as nat) {
            Some(s) => if s.len() > 0 {
                prev.push(s)
            } else {
                prev
            },
            None => prev,
        }
    }
}

/// The source paths named in the front matter of `text`: the `resource` string (else
/// the legacy `source` string) when non-empty, then the non-empty strings of the legacy
/// `sources` list.
pub open spec fn sources_of(text: Seq<char>) -> Seq<Seq<char>> {
    let first = match yaml_str_field(text, "resource"@) {
        Some(s) => Some(s),
        None => yaml_str_field(text, "source"@),
    };
    let head: Seq<Seq<char>> = match first {
        Some(s) => if s.len() > 0 {
            seq![s]
        } else {
            seq![]
        },
        None => seq![],
    };
    head + nonempty_list_items(text, "sources"@, yaml_list_len(text, "sources"@))
}

/// Reads `resource:` (OKF) from the front matter, falling back to the legacy `source:`
/// and `sources:` keys.
pub fn frontmatter_sources(text: &str) -> (r: Vec<String>)
    ensures
        r@.map_values(|s: String| s@) == sources_of(text@),
{
    let mut out: Vec<String> = Vec::new();
    let first = match frontmatter_string(text, "resource") {
        Some(s) => Some(s),
        None => frontmatter_string(text, "source"),
    };
    match first {
        Some(s) => {
            if s.as_str().unicode_len() > 0 {
                out.push(s);
            }
        },
        None => {},
    }
    let ghost head = out@.map_values(|s: String| s@);
    let n = frontmatter_list_len(text, "sources");
    let mut i: usize = 0;
    while i < n
        invariant
            i <= n,
            n as nat == yaml_list_len(text@, "sources"@),
            out@.map_values(|s: String| s@) == head + nonempty_list_items(
                text@,
                "sources"@,
                i as nat,
            ),
        decreases n - i,
    {
        let ghost prev = out@.map_values(|s: String| s@);
        let item = frontmatter_list_item(text, "sources", i);
        match item {
            Some(s) => {
                if s.as_str().unicode_len() > 0 {
                    let ghost sv = s@;
                    out.push(s);
                    assert(out@.map_values(|s: String| s@) =~= prev.push(sv));
                }
            },
            None => {},
        }
        assert(nonempty_list_items(text@, "sources"@, (i + 1) as nat) == {
            let p = nonempty_list_items(text@, "sources"@, i as nat);
            match yaml_list_item(text@, "sources"@, i as nat) {
                Some(s) => if s.len() > 0 {
                    p.push(s)
                } else {
                    p
                },
                None => p,
            }
        });
        i = i + 1;
    }
    assert(head =~= match (match yaml_str_field(text@, "resource"@) {
        Some(s) => Some(s),
        None => yaml_str_field(text@, "source"@),
    }) {
        Some(s) => if s.len() > 0 {
            seq![s]
        } else {
            seq![]
        },
        None => seq![],
    });
    out
}

/// The lines `Resource: <src>` for each source, in order.
pub open spec fn resource_lines(sources: Seq<Seq<char>>) -> Seq<char>
    decreases sources.len(),
{
    if sources.len() == 0 {
        seq![]
    } else {
        resource_lines(sources.drop_last()) + "Resource: "@ + sources.last() + "\n"@
    }
}

/// A wiki page as query context: a heading linking the page, its resource paths, the
/// page text.
pub open spec fn context_block(page_path: Seq<char>, text: Seq<char>, sources: Seq<Seq<char>>) -> Seq<
    char,
> {
    "## ["@ + page_path + "]("@ + page_path + ")\n"@ + resource_lines(sources) + "\n"@ + text
        + "\n\n"@
}

/// Wiki page block for query and chat context (OKF path and resource paths).
pub fn format_context_page(page_path: &str, text: &str) -> (r: String)
    ensures
        r@ == context_block(page_path@, text@, sources_of(text@)),
{
    let sources = frontmatter_sources(text);
    format_context_block(page_path, text, &sources)
}

/// Wiki page block for query context, from the page's source paths.
pub fn format_context_block(page_path: &str, text: &str, sources: &Vec<String>) -> (r: String)
    ensures
        r@ == context_block(page_path@, text@, sources@.map_values(|s: String| s@)),
{
    let ghost srcs = sources@.map_values(|s: String| s@);
    let mut block = String::from_str("## [");
    block.append(page_path);
    block.append("](");
    block.append(page_path);
    block.append(")\n");
    let ghost head = block@;
    let mut i: usize = 0;
    while i < sources.len()
        invariant
            i <= sources.len(),
            srcs == sources@.map_values(|s: String| s@),
            block@ == head + resource_lines(srcs.take(i as int)),
        decreases sources.len() - i,
    {
        block.append("Resource: ");
        block.append(sources[i].as_str());
        block.append("\n");
        proof {
            let t = srcs.take(i + 1);
            assert(t.drop_last() =~= srcs.take(i as int));
        }
        i = i + 1;
    }
    assert(srcs.take(sources.len() as int) =~= srcs);
    block.append("\n");
    block.append(text);
    block.append("\n\n");
    block
}


// ---------------------------------------------------------------------------
// Link lists
// ---------------------------------------------------------------------------

/// One bullet line per slug: `- [slug](<base><slug>.md)`.
pub open spec fn link_lines(base: Seq<char>, slugs: Seq<Seq<char>>) -> Seq<Seq<char>> {
    slugs.map_values(|s: Seq<char>| "- "@ + link(base + s, s))
}

/// One link per slug: `[slug](<base><slug>.md)`.
pub open spec fn links(base: Seq<char>, slugs: Seq<Seq<char>>) -> Seq<Seq<char>> {
    slugs.map_values(|s: Seq<char>| link(base + s, s))
}

/// Appends the bullet link line of each slug to `out`.
fn push_link_lines(out: &mut Vec<String>, base: &str, slugs: &Vec<String>)
    ensures
        final(out)@.map_values(|s: String| s@) == old(out)@.map_values(|s: String| s@)
            + link_lines(base@, slugs@.map_values(|s: String| s@)),
{
    let ghost start = out@.map_values(|s: String| s@);
    let ghost sv = slugs@.map_values(|s: String| s@);
    let mut i: usize = 0;
    while i < slugs.len()
        invariant
            i <= slugs.len(),
            sv == slugs@.map_values(|s: String| s@),
            out@.map_values(|s: String| s@) == start + link_lines(base@, sv.take(i as int)),
        decreases slugs.len() - i,
    {
        let ghost prev = out@.map_values(|s: String| s@);
        let mut target = String::from_str(base);
        target.append(slugs[i].as_str());
        let l = okf_link(target.as_str(), slugs[i].as_str());
        let mut line = String::from_str("- ");
        line.append(l.as_str());
        let ghost lv = line@;
        out.push(line);
        proof {
            assert(out@.map_values(|s: String| s@) =~= prev.push(lv));
            assert(sv[i as int] == slugs@[i as int]@);
            assert(sv.take(i + 1) =~= sv.take(i as int).push(sv[i as int]));
            assert(link_lines(base@, sv.take(i + 1)) =~= link_lines(base@, sv.take(i as int)).push(
                lv,
            ));
        }
        i = i + 1;
    }
    assert(sv.take(slugs.len() as int) =~= sv);
}

/// The links of the slugs joined with `, `, or `(none)` when there are none.
pub open spec fn link_list(base: Seq<char>, slugs: Seq<Seq<char>>) -> Seq<char> {
    if slugs.len() == 0 {
        "(none)"@
    } else {
        join(links(base, slugs), ", "@)
    }
}

fn format_link_list(base: &str, slugs: &Vec<String>) -> (r: String)
    ensures
        r@ == link_list(base@, slugs@.map_values(|s: String| s@)),
{
    if slugs.len() == 0 {
        return String::from_str("(none)");
    }
    let ghost sv = slugs@.map_values(|s: String| s@);
    let mut all: Vec<String> = Vec::new();
    let mut i: usize = 0;
    while i < slugs.len()
        invariant
            i <= slugs.len(),
            sv == slugs@.map_values(|s: String| s@),
            all@.map_values(|s: String| s@) == links(base@, sv.take(i as int)),
        decreases slugs.len() - i,
    {
        let ghost prev = all@.map_values(|s: String| s@);
        let mut target = String::from_str(base);
        target.append(slugs[i].as_str());
        let l = okf_link(target.as_str(), slugs[i].as_str());
        let ghost lv = l@;
        all.push(l);
        proof {
            assert(all@.map_values(|s: String| s@) =~= prev.push(lv));
            assert(sv[i as int] == slugs@[i as int]@);
            assert(sv.take(i + 1) =~= sv.take(i as int).push(sv[i as int]));
            assert(links(base@, sv.take(i + 1)) =~= links(base@, sv.take(i as int)).push(lv));
        }
        i = i + 1;
    }
    assert(sv.take(slugs.len() as int) =~= sv);
    join_strings(&all, ", ")
}

/// The bullet links of the slugs, one per line, or `(none)` when there are none.
pub open spec fn bullet_list(lines: Seq<Seq<char>>) -> Seq<char> {
    if lines.len() == 0 {
        "(none)"@
    } else {
        join(lines, "\n"@)
    }
}

/// The existing pages of one directory as bullet links under `prefix`
/// (`- [slug](<prefix>/<slug>.md)`), given the slugs of its pages.
pub fn briefs_for_dir(slugs: &Vec<String>, prefix: &str) -> (r: String)
    ensures
        r@ == bullet_list(link_lines(prefix@ + "/"@, slugs@.map_values(|s: String| s@))),
{
    let mut base = String::from_str(prefix);
    base.append("/");
    let mut lines: Vec<String> = Vec::new();
    push_link_lines(&mut lines, base.as_str(), slugs);
    assert(lines@.map_values(|s: String| s@) =~= link_lines(
        prefix@ + "/"@,
        slugs@.map_values(|s: String| s@),
    ));
    if lines.len() == 0 {
        return String::from_str("(none)");
    }
    join_strings(&lines, "\n")
}

/// Every page of a wiki zone as a bullet link, given the slugs of its summaries,
/// concepts and entities: the complete list of valid link targets.
pub fn known_targets(
    scope: WikiScope,
    summaries: &Vec<String>,
    concepts: &Vec<String>,
    entities: &Vec<String>,
) -> (r: String)
    ensures
        r@ == bullet_list(
            link_lines(link_prefix(scope) + "summaries/"@, summaries@.map_values(|s: String| s@))
                + link_lines(
                link_prefix(scope) + "concepts/"@,
                concepts@.map_values(|s: String| s@),
            ) + link_lines(
                link_prefix(scope) + "entities/"@,
                entities@.map_values(|s: String| s@),
            ),
        ),
{
    let p = wiki_link_prefix(scope);
    let mut lines: Vec<String> = Vec::new();
    let mut b1 = String::from_str(p);
    b1.append("summaries/");
    push_link_lines(&mut lines, b1.as_str(), summaries);
    let mut b2 = String::from_str(p);
    b2.append("concepts/");
    push_link_lines(&mut lines, b2.as_str(), concepts);
    let mut b3 = String::from_str(p);
    b3.append("entities/");
    push_link_lines(&mut lines, b3.as_str(), entities);
    assert(Seq::<String>::empty().map_values(|s: String| s@) =~= Seq::<Seq<char>>::empty());
    if lines.len() == 0 {
        return String::from_str("(none)");
    }
    join_strings(&lines, "\n")
}

// ---------------------------------------------------------------------------
// The index page
// ---------------------------------------------------------------------------

/// Body of a new index page.
pub open spec fn default_index() -> Seq<char> {
    "# Knowledge Base Index\n\n"@
}

/// The index entry of a document summary: link, brief, concept and entity links.
pub open spec fn index_entry(
    scope: WikiScope,
    doc_name: Seq<char>,
    concepts: Seq<Seq<char>>,
    entities: Seq<Seq<char>>,
    brief: Seq<char>,
) -> Seq<char> {
    let p = link_prefix(scope);
    "\n## "@ + link(p + "summaries/"@ + doc_name, doc_name) + "\n"@ + brief + "\n\nConcepts: "@
        + link_list(p + "concepts/"@, concepts) + "\nEntities: "@ + link_list(
        p + "entities/"@,
        entities,
    ) + "\n"@
}

/// Whether the index already lists the summary of `doc_name` (as an OKF link target or
/// a `[[wikilink]]`).
pub open spec fn index_lists(body: Seq<char>, scope: WikiScope, doc_name: Seq<char>) -> bool {
    let p = link_prefix(scope);
    contains_sub(body, p + "summaries/"@ + doc_name + ".md"@) || contains_sub(
        body,
        "[["@ + p + "summaries/"@ + doc_name + "]]"@,
    )
}

/// The new index text after adding the summary of `doc_name`, or `None` when the index
/// already lists it and needs no write.
pub open spec fn updated_index(
    existing: Option<Seq<char>>,
    scope: WikiScope,
    doc_name: Seq<char>,
    concepts: Seq<Seq<char>>,
    entities: Seq<Seq<char>>,
    brief: Seq<char>,
) -> Option<Seq<char>> {
    let body = match existing {
        Some(b) => b,
        None => default_index(),
    };
    if index_lists(body, scope, doc_name) {
        None
    } else {
        Some(body + index_entry(scope, doc_name, concepts, entities, brief))
    }
}

/// Adds the summary of `doc_name` to the index text `existing` (a new index when the
/// page does not exist yet); `None` when it is already listed and nothing is to be written.
pub fn update_index(
    existing: Option<&str>,
    scope: WikiScope,
    doc_name: &str,
    concept_slugs: &Vec<String>,
    entity_slugs: &Vec<String>,
    doc_brief: &str,
) -> (r: Option<String>)
    ensures
        r matches Some(s) ==> updated_index(
            crate::config::opt_view(existing),
            scope,
            doc_name@,
            concept_slugs@.map_values(|s: String| s@),
            entity_slugs@.map_values(|s: String| s@),
            doc_brief@,
        ) == Some(s@),
        r is None ==> updated_index(
            crate::config::opt_view(existing),
            scope,
            doc_name@,
            concept_slugs@.map_values(|s: String| s@),
            entity_slugs@.map_values(|s: String| s@),
            doc_brief@,
        ) is None,
{
    let mut body = match existing {
        Some(b) => String::from_str(b),
        None => String::from_str("# Knowledge Base Index\n\n"),
    };
    let p = wiki_link_prefix(scope);
    let mut summary_target = String::from_str(p);
    summary_target.append("summaries/");
    summary_target.append(doc_name);
    let summary_link = okf_link(summary_target.as_str(), doc_name);
    let mut cbase = String::from_str(p);
    cbase.append("concepts/");
    let mut ebase = String::from_str(p);
    ebase.append("entities/");
    let clist = format_link_list(cbase.as_str(), concept_slugs);
    let elist = format_link_list(ebase.as_str(), entity_slugs);
    let mut entry = String::from_str("\n## ");
    entry.append(summary_link.as_str());
    entry.append("\n");
    entry.append(doc_brief);
    entry.append("\n\nConcepts: ");
    entry.append(clist.as_str());
    entry.append("\nEntities: ");
    entry.append(elist.as_str());
    entry.append("\n");
    let mut md = summary_target.clone();
    md.append(".md");
    let mut wl = String::from_str("[[");
    wl.append(summary_target.as_str());
    wl.append("]]");
    let ghost bodyv = body@;
    let ghost pv = link_prefix(scope);
    assert(bodyv == match crate::config::opt_view(existing) {
        Some(b) => b,
        None => default_index(),
    });
    assert(md@ == pv + "summaries/"@ + doc_name@ + ".md"@);
    assert(wl@ == "[["@ + pv + "summaries/"@ + doc_name@ + "]]"@);
    assert(entry@ == index_entry(
        scope,
        doc_name@,
        concept_slugs@.map_values(|s: String| s@),
        entity_slugs@.map_values(|s: String| s@),
        doc_brief@,
    ));
    let listed = str_contains(body.as_str(), md.as_str()) || str_contains(body.as_str(), wl.as_str());
    if listed {
        return None;
    }
    body.append(entry.as_str());
    Some(body)
}

// ---------------------------------------------------------------------------
// Cross-links between pages
// ---------------------------------------------------------------------------

/// The link from a concept or entity page to the summary of `doc_name`.
pub open spec fn summary_link(scope: WikiScope, doc_name: Seq<char>) -> Seq<char> {
    link(link_prefix(scope) + "summaries/"@ + doc_name, doc_name)
}

/// The page text after adding a "See also" link to the summary of `doc_name`, or `None`
/// when the page already holds that link.
pub open spec fn related_update(content: Seq<char>, scope: WikiScope, doc_name: Seq<char>) -> Option<
    Seq<char>,
> {
    let l = summary_link(scope, doc_name);
    if contains_sub(content, l) {
        None
    } else {
        Some(content + "\n\nSee also: "@ + l + "\n"@)
    }
}

/// Adds a "See also" link to the summary of `doc_name` to a related concept or entity
/// page `content`; `None` when the link is already there and nothing is to be written.
pub fn add_related_link(content: &str, scope: WikiScope, doc_name: &str) -> (r: Option<String>)
    ensures
        r matches Some(s) ==> related_update(content@, scope, doc_name@) == Some(s@),
        r is None ==> related_update(content@, scope, doc_name@) is None,
{
    let mut target = String::from_str(wiki_link_prefix(scope));
    target.append("summaries/");
    target.append(doc_name);
    let l = okf_link(target.as_str(), doc_name);
    if str_contains(content, l.as_str()) {
        return None;
    }
    let mut r = String::from_str(content);
    r.append("\n\nSee also: ");
    r.append(l.as_str());
    r.append("\n");
    Some(r)
}

/// The link from a summary to the concept page `slug`.
pub open spec fn concept_link(scope: WikiScope, slug: Seq<char>) -> Seq<char> {
    link(link_prefix(scope) + "concepts/"@ + slug, slug)
}

/// The `[[wikilink]]` form of a link to the concept page `slug`.
pub open spec fn concept_wikilink(scope: WikiScope, slug: Seq<char>) -> Seq<char> {
    "[["@ + link_prefix(scope) + "concepts/"@ + slug + "]]"@
}

/// Whether a summary text already links the concept page `slug`.
pub open spec fn links_concept(content: Seq<char>, scope: WikiScope, slug: Seq<char>) -> bool {
    contains_sub(content, concept_link(scope, slug)) || contains_sub(
        content,
        concept_wikilink(scope, slug),
    )
}

/// One back-link step: a "Related concept" line is added unless the summary links
/// the concept already.
pub open spec fn backlink_step(content: Seq<char>, scope: WikiScope, slug: Seq<char>) -> Seq<char> {
    if links_concept(content, scope, slug) {
        content
    } else {
        content + "\n- Related concept: "@ + concept_link(scope, slug)
    }
}

/// The summary text after the back-link steps of every slug, in order.
pub open spec fn backlinked(content: Seq<char>, scope: WikiScope, slugs: Seq<Seq<char>>) -> Seq<char>
    decreases slugs.len(),
{
    if slugs.len() == 0 {
        content
    } else {
        backlink_step(backlinked(content, scope, slugs.drop_last()), scope, slugs.last())
    }
}

/// Adds a "Related concept" line to a summary for each concept it does not link yet.
pub fn backlink_summary(content: &str, scope: WikiScope, concept_slugs: &Vec<String>) -> (r: String)
    ensures
        r@ == backlinked(content@, scope, concept_slugs@.map_values(|s: String| s@)),
{
    let ghost sv = concept_slugs@.map_values(|s: String| s@);
    let p = wiki_link_prefix(scope);
    let mut c = String::from_str(content);
    let mut i: usize = 0;
    while i < concept_slugs.len()
        invariant
            i <= concept_slugs.len(),
            sv == concept_slugs@.map_values(|s: String| s@),
            p@ == link_prefix(scope),
            c@ == backlinked(content@, scope, sv.take(i as int)),
        decreases concept_slugs.len() - i,
    {
        let slug = concept_slugs[i].as_str();
        let mut target = String::from_str(p);
        target.append("concepts/");
        target.append(slug);
        let l = okf_link(target.as_str(), slug);
        let mut wl = String::from_str("[[");
        wl.append(target.as_str());
        wl.append("]]");
        let ghost before = c@;
        assert(l@ == concept_link(scope, slug@));
        assert(wl@ == concept_wikilink(scope, slug@));
        let linked = str_contains(c.as_str(), l.as_str()) || str_contains(c.as_str(), wl.as_str());
        if !linked {
            c.append("\n- Related concept: ");
            c.append(l.as_str());
        }
        assert(c@ == backlink_step(before, scope, slug@));
        proof {
            let t = sv.take(i + 1);
            assert(t.drop_last() =~= sv.take(i as int));
            assert(t.last() == slug@);
        }
        i = i + 1;
    }
    assert(sv.take(concept_slugs.len() as int) =~= sv);
    c
}

/// Instructions for the wiki agent: the wiki's `AGENTS.md` text when it exists, else a
/// short default.
pub fn agents_md(existing: Option<&str>) -> (r: String)
    ensures
        existing matches Some(t) ==> r@ == t@,
        existing is None ==> r@ == "# Wiki Agent Instructions\n\nSummaries, concepts, entities, sources.\n"@,
{
    match existing {
        Some(t) => String::from_str(t),
        None => String::from_str(
            "# Wiki Agent Instructions\n\nSummaries, concepts, entities, sources.\n",
        ),
    }
}


// ---------------------------------------------------------------------------
// Laws
// ---------------------------------------------------------------------------

proof fn lemma_no_dot_in_summaries_prefix(scope: WikiScope)
    ensures
        forall|i: int|
            0 <= i < (link_prefix(scope) + "summaries/"@).len() ==> (link_prefix(scope)
                + "summaries/"@)[i] != '.',
        (link_prefix(scope) + "summaries/"@).len() >= 10,
        (link_prefix(scope) + "summaries/"@)[0] != '/',
{
    reveal_strlit("summaries/");
    reveal_strlit("private/");
}

/// The link target of a summary whose name does not end in `.md` is its page id plus `.md`.
proof fn lemma_summary_target(scope: WikiScope, doc_name: Seq<char>)
    requires
        !is_suffix_of(".md"@, doc_name),
    ensures
        link_target(link_prefix(scope) + "summaries/"@ + doc_name) == link_prefix(scope)
            + "summaries/"@ + doc_name + ".md"@,
{
    let a = link_prefix(scope) + "summaries/"@;
    let q = a + doc_name;
    lemma_no_dot_in_summaries_prefix(scope);
    reveal_strlit(".md");
    assert(q[0] == a[0]);
    assert(trim_start_char(q, '/') == q);
    if is_suffix_of(".md"@, q) {
        let n = q.len();
        if doc_name.len() >= 3 {
            assert(doc_name.subrange(doc_name.len() - 3, doc_name.len() as int) =~= q.subrange(
                n - 3,
                n as int,
            ));
        } else {
            assert(q.subrange(n - 3, n as int)[0] == '.');
            assert(q[n - 3] == a[n - 3]);
        }
    }
}

/// A slug is made of ASCII letters, digits and `-`, and neither starts nor ends with `-`;
/// its letters are lower case where the case mapping of the name gives no upper-case
/// ASCII letter (which `str::to_lowercase` never does).
pub proof fn law_slug_shape(name: Seq<char>)
    ensures
        forall|i: int|
            0 <= i < slug(name).len() ==> is_ascii_alnum(#[trigger] slug(name)[i]) || slug(name)[i]
                == '-',
        slug(name).len() > 0 ==> slug(name)[0] != '-' && slug(name).last() != '-',
        no_ascii_upper(lowercase(name)) ==> no_ascii_upper(slug(name)),
{
    let m = lowercase(name).map_values(|c: char| slug_char(c));
    crate::text::lemma_trim_char_part(m, '-');
    let (a, b) = choose|a: int, b: int| 0 <= a <= b <= m.len() && trim_char(m, '-') == m.subrange(a, b);
    assert forall|i: int| 0 <= i < slug(name).len() implies is_ascii_alnum(#[trigger] slug(name)[i])
        || slug(name)[i] == '-' by {
        assert(slug(name)[i] == m[a + i]);
    }
    if no_ascii_upper(lowercase(name)) {
        assert forall|i: int| 0 <= i < slug(name).len() implies !('A' <= #[trigger] slug(name)[i]
            && slug(name)[i] <= 'Z') by {
            assert(slug(name)[i] == m[a + i]);
        }
    }
}

/// Slugging a slug gives it back. Stated for the names whose case mapping gives no
/// upper-case ASCII letter and whose slug's case mapping is its ASCII lower case: both
/// are what `str::to_lowercase` states of every call (`slugify` passes them on).
pub proof fn law_slug_idempotent(name: Seq<char>)
    requires
        no_ascii_upper(lowercase(name)),
        lowercase(slug(name)) == slug(name).map_values(|c: char| ascii_lower(c)),
    ensures
        slug(slug(name)) == slug(name),
{
    let s = slug(name);
    law_slug_shape(name);
    assert(s.map_values(|c: char| ascii_lower(c)) =~= s) by {
        assert forall|i: int| 0 <= i < s.len() implies ascii_lower(#[trigger] s[i]) == s[i] by {
            assert(is_ascii_alnum(s[i]) || s[i] == '-');
        }
    }
    let m = lowercase(s).map_values(|c: char| slug_char(c));
    assert(m =~= s) by {
        assert forall|i: int| 0 <= i < s.len() implies slug_char(#[trigger] s[i]) == s[i] by {
            assert(is_ascii_alnum(s[i]) || s[i] == '-');
        }
    }
    if s.len() > 0 {
        assert(trim_start_char(s, '-') == s);
        assert(trim_end_char(s, '-') == s);
    }
}

proof fn lemma_join_has_part(parts: Seq<Seq<char>>, sep: Seq<char>, k: int)
    requires
        0 <= k < parts.len(),
    ensures
        contains_sub(join(parts, sep), parts[k]),
    decreases parts.len(),
{
    if parts.len() == 1 {
        lemma_contains_middle(seq![], parts[0], seq![]);
        assert(Seq::<char>::empty() + parts[0] + Seq::<char>::empty() =~= parts[0]);
    } else if k == parts.len() - 1 {
        let front = join(parts.drop_last(), sep) + sep;
        lemma_contains_middle(front, parts[k], seq![]);
        assert(front + parts[k] + Seq::<char>::empty() =~= join(parts, sep));
    } else {
        lemma_join_has_part(parts.drop_last(), sep, k);
        assert(parts.drop_last()[k] == parts[k]);
        lemma_contains_append(join(parts.drop_last(), sep), parts[k], sep);
        lemma_contains_append(join(parts.drop_last(), sep) + sep, parts[k], parts.last());
    }
}

/// A link list holds the link of every slug it is given.
proof fn lemma_link_list_has_link(base: Seq<char>, slugs: Seq<Seq<char>>, k: int)
    requires
        0 <= k < slugs.len(),
    ensures
        contains_sub(link_list(base, slugs), link(base + slugs[k], slugs[k])),
{
    lemma_join_has_part(links(base, slugs), ", "@, k);
}

/// The index entry of a document links every concept slug and every entity slug it is
/// given, each to its page in the zone's `concepts/` or `entities/` directory.
pub proof fn law_index_entry_links_all(
    scope: WikiScope,
    doc_name: Seq<char>,
    concepts: Seq<Seq<char>>,
    entities: Seq<Seq<char>>,
    brief: Seq<char>,
)
    ensures
        forall|k: int|
            0 <= k < concepts.len() ==> contains_sub(
                index_entry(scope, doc_name, concepts, entities, brief),
                link(link_prefix(scope) + "concepts/"@ + #[trigger] concepts[k], concepts[k]),
            ),
        forall|k: int|
            0 <= k < entities.len() ==> contains_sub(
                index_entry(scope, doc_name, concepts, entities, brief),
                link(link_prefix(scope) + "entities/"@ + #[trigger] entities[k], entities[k]),
            ),
        contains_sub(
            index_entry(scope, doc_name, concepts, entities, brief),
            link(link_prefix(scope) + "summaries/"@ + doc_name, doc_name),
        ),
        contains_sub(index_entry(scope, doc_name, concepts, entities, brief), brief),
{
    let p = link_prefix(scope);
    let head = "\n## "@ + link(p + "summaries/"@ + doc_name, doc_name) + "\n"@ + brief
        + "\n\nConcepts: "@;
    let lc = link_list(p + "concepts/"@, concepts);
    let le = link_list(p + "entities/"@, entities);
    assert(index_entry(scope, doc_name, concepts, entities, brief) == head + lc + "\nEntities: "@ + le
        + "\n"@);
    let tail = lc + "\nEntities: "@ + le + "\n"@;
    let sl = link(p + "summaries/"@ + doc_name, doc_name);
    lemma_contains_middle("\n## "@, sl, "\n"@ + brief + "\n\nConcepts: "@ + tail);
    assert("\n## "@ + sl + ("\n"@ + brief + "\n\nConcepts: "@ + tail) =~= index_entry(
        scope,
        doc_name,
        concepts,
        entities,
        brief,
    ));
    lemma_contains_middle("\n## "@ + sl + "\n"@, brief, "\n\nConcepts: "@ + tail);
    assert("\n## "@ + sl + "\n"@ + brief + ("\n\nConcepts: "@ + tail) =~= index_entry(
        scope,
        doc_name,
        concepts,
        entities,
        brief,
    ));
    assert forall|k: int| 0 <= k < concepts.len() implies contains_sub(
        index_entry(scope, doc_name, concepts, entities, brief),
        link(link_prefix(scope) + "concepts/"@ + #[trigger] concepts[k], concepts[k]),
    ) by {
        let t = link(p + "concepts/"@ + concepts[k], concepts[k]);
        lemma_link_list_has_link(p + "concepts/"@, concepts, k);
        lemma_contains_prepend(head, lc, t);
        lemma_contains_append(head + lc, t, "\nEntities: "@);
        lemma_contains_append(head + lc + "\nEntities: "@, t, le);
        lemma_contains_append(head + lc + "\nEntities: "@ + le, t, "\n"@);
    }
    assert forall|k: int| 0 <= k < entities.len() implies contains_sub(
        index_entry(scope, doc_name, concepts, entities, brief),
        link(link_prefix(scope) + "entities/"@ + #[trigger] entities[k], entities[k]),
    ) by {
        let t = link(p + "entities/"@ + entities[k], entities[k]);
        lemma_link_list_has_link(p + "entities/"@, entities, k);
        lemma_contains_prepend(head + lc + "\nEntities: "@, le, t);
        lemma_contains_append(head + lc + "\nEntities: "@ + le, t, "\n"@);
    }
}

/// Adding the summary of a document to the index is idempotent: once added, the index
/// lists the summary, and a second update (whatever its brief and page lists) writes
/// nothing. Names ending in `.md` are left out: their link gets no second `.md`, so the
/// index check, which looks for `<name>.md`, does not see it.
#[verifier::spinoff_prover]
#[verifier::rlimit(30)]
pub proof fn law_index_update_idempotent(
    existing: Option<Seq<char>>,
    scope: WikiScope,
    doc_name: Seq<char>,
    concepts: Seq<Seq<char>>,
    entities: Seq<Seq<char>>,
    brief: Seq<char>,
    concepts2: Seq<Seq<char>>,
    entities2: Seq<Seq<char>>,
    brief2: Seq<char>,
)
    requires
        !is_suffix_of(".md"@, doc_name),
    ensures
        updated_index(existing, scope, doc_name, concepts, entities, brief) matches Some(n)
            ==> index_lists(n, scope, doc_name) && updated_index(
            Some(n),
            scope,
            doc_name,
            concepts2,
            entities2,
            brief2,
        ) is None,
{
    let body = match existing {
        Some(b) => b,
        None => default_index(),
    };
    if !index_lists(body, scope, doc_name) {
        let p = link_prefix(scope);
        let target = p + "summaries/"@ + doc_name + ".md"@;
        lemma_summary_target(scope, doc_name);
        let l = link(p + "summaries/"@ + doc_name, doc_name);
        let entry = index_entry(scope, doc_name, concepts, entities, brief);
        assert(contains_sub(l, target)) by {
            lemma_contains_middle("["@ + doc_name + "]("@, target, ")"@);
        }
        assert(contains_sub(entry, l)) by {
            let rest = "\n"@ + brief + "\n\nConcepts: "@ + link_list(p + "concepts/"@, concepts)
                + "\nEntities: "@ + link_list(p + "entities/"@, entities) + "\n"@;
            assert(entry =~= "\n## "@ + l + rest);
            lemma_contains_middle("\n## "@, l, rest);
        }
        lemma_contains_trans(entry, l, target);
        lemma_contains_prepend(body, entry, target);
    }
}

/// Linking a related page to a summary is idempotent: once the "See also" link is
/// added, a second call finds it and writes nothing.
pub proof fn law_related_link_idempotent(content: Seq<char>, scope: WikiScope, doc_name: Seq<char>)
    ensures
        related_update(content, scope, doc_name) matches Some(n) ==> related_update(
            n,
            scope,
            doc_name,
        ) is None,
{
    let l = summary_link(scope, doc_name);
    if !contains_sub(content, l) {
        lemma_contains_middle(content + "\n\nSee also: "@, l, "\n"@);
    }
}

proof fn lemma_step_keeps(content: Seq<char>, scope: WikiScope, slug: Seq<char>, t: Seq<char>)
    requires
        contains_sub(content, t),
    ensures
        contains_sub(backlink_step(content, scope, slug), t),
{
    if !links_concept(content, scope, slug) {
        lemma_contains_append(content, t, "\n- Related concept: "@ + concept_link(scope, slug));
        assert(content + "\n- Related concept: "@ + concept_link(scope, slug) =~= content + (
        "\n- Related concept: "@ + concept_link(scope, slug)));
    }
}

proof fn lemma_backlinked_keeps(content: Seq<char>, scope: WikiScope, slugs: Seq<Seq<char>>, t: Seq<
    char,
>)
    requires
        contains_sub(content, t),
    ensures
        contains_sub(backlinked(content, scope, slugs), t),
    decreases slugs.len(),
{
    if slugs.len() > 0 {
        let prev = backlinked(content, scope, slugs.drop_last());
        lemma_backlinked_keeps(content, scope, slugs.drop_last(), t);
        if !links_concept(prev, scope, slugs.last()) {
            lemma_contains_append(
                prev,
                t,
                "\n- Related concept: "@ + concept_link(scope, slugs.last()),
            );
            assert(prev + "\n- Related concept: "@ + concept_link(scope, slugs.last()) =~= prev + (
            "\n- Related concept: "@ + concept_link(scope, slugs.last())));
        }
    }
}

proof fn lemma_backlinked_links_all(content: Seq<char>, scope: WikiScope, slugs: Seq<Seq<char>>)
    ensures
        forall|i: int|
            0 <= i < slugs.len() ==> links_concept(
                backlinked(content, scope, slugs),
                scope,
                #[trigger] slugs[i],
            ),
    decreases slugs.len(),
{
    if slugs.len() > 0 {
        let init = slugs.drop_last();
        let prev = backlinked(content, scope, init);
        let last = slugs.last();
        let next = backlinked(content, scope, slugs);
        lemma_backlinked_links_all(content, scope, init);
        if links_concept(prev, scope, last) {
            assert(next == prev);
        } else {
            lemma_contains_middle(
                prev + "\n- Related concept: "@,
                concept_link(scope, last),
                seq![],
            );
            assert(prev + "\n- Related concept: "@ + concept_link(scope, last) + seq![] =~= next);
        }
        assert forall|i: int| 0 <= i < slugs.len() implies links_concept(
            next,
            scope,
            #[trigger] slugs[i],
        ) by {
            if i < slugs.len() - 1 {
                assert(slugs[i] == init[i]);
                let s = slugs[i];
                if contains_sub(prev, concept_link(scope, s)) {
                    lemma_step_keeps(prev, scope, last, concept_link(scope, s));
                } else {
                    lemma_step_keeps(prev, scope, last, concept_wikilink(scope, s));
                }
            }
        }
    }
}

proof fn lemma_backlinked_noop(content: Seq<char>, scope: WikiScope, slugs: Seq<Seq<char>>)
    requires
        forall|i: int| 0 <= i < slugs.len() ==> links_concept(content, scope, #[trigger] slugs[i]),
    ensures
        backlinked(content, scope, slugs) == content,
    decreases slugs.len(),
{
    if slugs.len() > 0 {
        let init = slugs.drop_last();
        assert forall|i: int| 0 <= i < init.len() implies links_concept(
            content,
            scope,
            #[trigger] init[i],
        ) by {
            assert(init[i] == slugs[i]);
        }
        lemma_backlinked_noop(content, scope, init);
        assert(links_concept(content, scope, slugs[slugs.len() - 1]));
    }
}

/// Back-linking a summary to its concepts is idempotent: a second pass with the same
/// concepts leaves the summary unchanged.
pub proof fn law_backlink_idempotent(content: Seq<char>, scope: WikiScope, slugs: Seq<Seq<char>>)
    ensures
        backlinked(backlinked(content, scope, slugs), scope, slugs) == backlinked(
            content,
            scope,
            slugs,
        ),
{
    lemma_backlinked_links_all(content, scope, slugs);
    lemma_backlinked_noop(backlinked(content, scope, slugs), scope, slugs);
}

} // verus!
