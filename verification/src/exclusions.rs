//! Which paths a scan skips: excluded path patterns, include patterns that win over
//! them, and a file-size limit.
use vstd::prelude::*;

use crate::text::contains_sub;

verus! {

/// Whether the regular expression `pattern` matches somewhere in `text`, as the `regex`
/// crate decides; `None` when the crate does not compile `pattern` (it is not a valid
/// regular expression, or its compiled form exceeds the crate's size limits).
pub uninterp spec fn regex_match(pattern: Seq<char>, text: Seq<char>) -> Option<bool>;

/// The text that `regex::escape` makes of `literal`.
pub uninterp spec fn regex_escaped(literal: Seq<char>) -> Seq<char>;

/// Compiles `pattern` and tests it against `text` (wraps `regex::Regex::new` and
/// `Regex::is_match`). The result is named `regex_match`.
#[verifier::external_body]
pub(crate) fn regex_is_match(pattern: &str, text: &str) -> (r: Option<bool>)
    ensures
        r == regex_match(pattern@, text@),
{
    match regex::Regex::new(pattern) {
        Ok(re) => Some(re.is_match(text)),
        Err(_) => None,
    }
}

/// Escapes the meta characters of `literal` (wraps `regex::escape`). Its documentation
/// says the result can be used as a literal in a regular expression; the contract states
/// that: when the escaped text compiles, it matches exactly the texts that contain
/// `literal`. It compiles for literals of at most 1024 characters: the crate refuses only
/// patterns whose compiled program exceeds its size limit (10 MiB by default), far above
/// what the literal of at most 4096 UTF-8 bytes compiles to. For longer literals whether
/// it compiles is left unsaid.
#[verifier::external_body]
pub(crate) fn regex_escape(literal: &str) -> (r: String)
    ensures
        r@ == regex_escaped(literal@),
        forall|text: Seq<char>| #[trigger]
            regex_match(r@, text) is Some ==> regex_match(r@, text) == Some(
                contains_sub(text, literal@),
            ),
        literal@.len() <= 1024 ==> forall|text: Seq<char>| #[trigger] regex_match(r@, text) is Some,
{
    regex::escape(literal)
}

/// Path parts that scans skip by default.
pub open spec fn default_excludes() -> Seq<Seq<char>> {
    seq![
        ".git"@,
        ".cache"@,
        "node_modules"@,
        "__pycache__"@,
        ".local/share/Trash"@,
        "steamapps/common"@,
        ".steam"@,
        "/proc"@,
        "/sys"@,
        "/dev"@,
        "/run"@,
    ]
}

/// User-data path parts that override the exclusions (app configs, saves, mods).
pub open spec fn default_includes() -> Seq<Seq<char>> {
    seq![
        "/Saves/"@,
        "/save/"@,
        "/Save/"@,
        "/userdata/"@,
        "/.config/"@,
        "/Mods/"@,
        "/mods/"@,
        ".sav"@,
        ".save"@,
    ]
}

fn default_exclude_list() -> (v: Vec<&'static str>)
    ensures
        v@.map_values(|s: &str| s@) == default_excludes(),
{
    let v = vec![
        ".git",
        ".cache",
        "node_modules",
        "__pycache__",
        ".local/share/Trash",
        "steamapps/common",
        ".steam",
        "/proc",
        "/sys",
        "/dev",
        "/run",
    ];
    assert(v@.map_values(|s: &str| s@) =~= default_excludes());
    v
}

fn default_include_list() -> (v: Vec<&'static str>)
    ensures
        v@.map_values(|s: &str| s@) == default_includes(),
{
    let v = vec![
        "/Saves/",
        "/save/",
        "/Save/",
        "/userdata/",
        "/.config/",
        "/Mods/",
        "/mods/",
        ".sav",
        ".save",
    ];
    assert(v@.map_values(|s: &str| s@) =~= default_includes());
    v
}

/// The exclusion rules of a scan.
pub struct ExclusionEngine {
    exclude_patterns: Vec<String>,
    include_patterns: Vec<String>,
    max_bytes: u64,
}

/// The rules as patterns: exclude and include regular expressions, and the size limit.
pub struct EngineModel {
    pub excludes: Seq<Seq<char>>,
    pub includes: Seq<Seq<char>>,
    pub max_bytes: u64,
}

impl View for ExclusionEngine {
    type V = EngineModel;

    closed spec fn view(&self) -> EngineModel {
        EngineModel {
            excludes: self.exclude_patterns@.map_values(|s: String| s@),
            includes: self.include_patterns@.map_values(|s: String| s@),
            max_bytes: self.max_bytes,
        }
    }
}

/// Some pattern of the list matches `text` (invalid patterns match nothing).
pub open spec fn any_match(patterns: Seq<Seq<char>>, text: Seq<char>) -> bool {
    exists|i: int| 0 <= i < patterns.len() && regex_match(#[trigger] patterns[i], text) == Some(true)
}

/// Whether a scan skips `path`: not when an include pattern matches; yes when an
/// exclude pattern matches; else yes for files larger than the limit (`size` is the file
/// size, when the path is a file whose size could be read).
pub open spec fn skipped(e: EngineModel, path: Seq<char>, size: Option<u64>) -> bool {
    if any_match(e.includes, path) {
        false
    } else if any_match(e.excludes, path) {
        true
    } else {
        match size {
            Some(n) => n > e.max_bytes,
            None => false,
        }
    }
}

/// The patterns of a list of literals, each escaped, followed by the extra patterns.
pub open spec fn patterns_of(literals: Seq<Seq<char>>, extra: Seq<Seq<char>>) -> Seq<Seq<char>> {
    literals.map_values(|l: Seq<char>| regex_escaped(l)) + extra
}

/// `mb` megabytes in bytes, saturating at `u64::MAX`.
pub open spec fn mb_to_bytes(mb: u64) -> u64 {
    if mb * 1048576 > u64::MAX {
        u64::MAX
    } else {
        (mb * 1048576) as u64
    }
}

/// Every text on which the regular expression `pattern` compiles and runs is matched by it
/// exactly when the text contains `literal`.
pub open spec fn matches_literal(pattern: Seq<char>, literal: Seq<char>) -> bool {
    forall|t: Seq<char>| #[trigger]
        regex_match(pattern, t) is Some ==> regex_match(pattern, t) == Some(contains_sub(t, literal))
}

/// The regular expression `pattern` compiles: it gives an answer on every text.
pub open spec fn compiles(pattern: Seq<char>) -> bool {
    forall|t: Seq<char>| #[trigger] regex_match(pattern, t) is Some
}

fn escaped_patterns(literals: &Vec<&'static str>, extra: &Vec<String>) -> (r: Vec<String>)
    ensures
        r@.map_values(|s: String| s@) == patterns_of(
            literals@.map_values(|s: &str| s@),
            extra@.map_values(|s: String| s@),
        ),
        forall|i: int| 0 <= i < literals@.len() ==> #[trigger] matches_literal(r@[i]@, literals@[i]@),
        forall|i: int|
            0 <= i < literals@.len() && literals@[i]@.len() <= 1024 ==> #[trigger] compiles(r@[i]@),
{
    let ghost lv = literals@.map_values(|s: &str| s@);
    let mut r: Vec<String> = Vec::new();
    let mut i: usize = 0;
    while i < literals.len()
        invariant
            i <= literals.len(),
            lv == literals@.map_values(|s: &str| s@),
            r@.len() == i,
            r@.map_values(|s: String| s@) == lv.take(i as int).map_values(
                |l: Seq<char>| regex_escaped(l),
            ),
            forall|k: int| 0 <= k < i ==> #[trigger] matches_literal(r@[k]@, literals@[k]@),
            forall|k: int| 0 <= k < i && literals@[k]@.len() <= 1024 ==> #[trigger] compiles(r@[k]@),
        decreases literals.len() - i,
    {
        let ghost prev = r@.map_values(|s: String| s@);
        let e = regex_escape(literals[i]);
        let ghost ev = e@;
        r.push(e);
        proof {
            assert(r@.map_values(|s: String| s@) =~= prev.push(ev));
            assert(lv[i as int] == literals@[i as int]@);
            assert(lv.take(i + 1).map_values(|l: Seq<char>| regex_escaped(l)) =~= lv.take(
                i as int,
            ).map_values(|l: Seq<char>| regex_escaped(l)).push(regex_escaped(lv[i as int])));
            assert(r@[i as int]@ == ev);
            assert(matches_literal(r@[i as int]@, literals@[i as int]@));
            assert(literals@[i as int]@.len() <= 1024 ==> compiles(r@[i as int]@));
        }
        i = i + 1;
    }
    assert(lv.take(literals.len() as int) =~= lv);
    let ghost head = r@;
    let ghost hv = r@.map_values(|s: String| s@);
    let mut j: usize = 0;
    while j < extra.len()
        invariant
            j <= extra.len(),
            head.len() == literals@.len(),
            r@.len() == head.len() + j,
            forall|k: int| 0 <= k < head.len() ==> r@[k] == head[k],
            forall|k: int| 0 <= k < literals@.len() ==> #[trigger] matches_literal(head[k]@, literals@[k]@),
            forall|k: int|
                0 <= k < literals@.len() && literals@[k]@.len() <= 1024 ==> #[trigger] compiles(head[k]@),
            r@.map_values(|s: String| s@) == hv + extra@.take(j as int).map_values(
                |s: String| s@,
            ),
        decreases extra.len() - j,
    {
        let ghost prev = r@.map_values(|s: String| s@);
        let x = extra[j].clone();
        let ghost xv = x@;
        assert(xv == extra@[j as int]@);
        r.push(x);
        assert(r@.map_values(|s: String| s@) =~= prev.push(xv));
        assert(extra@.take(j + 1).map_values(|s: String| s@) =~= extra@.take(j as int).map_values(
            |s: String| s@,
        ).push(xv));
        j = j + 1;
    }
    assert(extra@.take(extra.len() as int) =~= extra@);
    assert forall|i: int| 0 <= i < literals@.len() implies #[trigger] matches_literal(
        r@[i]@,
        literals@[i]@,
    ) by {
        assert(r@[i] == head[i]);
        assert(matches_literal(head[i]@, literals@[i]@));
    }
    assert forall|i: int| 0 <= i < literals@.len() && literals@[i]@.len() <= 1024 implies #[trigger] compiles(
        r@[i]@,
    ) by {
        assert(r@[i] == head[i]);
        assert(compiles(head[i]@));
    }
    r
}

fn any_pattern_matches(patterns: &Vec<String>, text: &str) -> (b: bool)
    ensures
        b == any_match(patterns@.map_values(|s: String| s@), text@),
{
    let ghost pv = patterns@.map_values(|s: String| s@);
    let mut i: usize = 0;
    while i < patterns.len()
        invariant
            i <= patterns.len(),
            pv == patterns@.map_values(|s: String| s@),
            forall|k: int| 0 <= k < i ==> regex_match(#[trigger] pv[k], text@) != Some(true),
        decreases patterns.len() - i,
    {
        match regex_is_match(patterns[i].as_str(), text) {
            Some(true) => {
                assert(regex_match(pv[i as int], text@) == Some(true));
                return true;
            },
            _ => {},
        }
        i = i + 1;
    }
    false
}

/// The default excluded and included parts are short literals.
proof fn lemma_default_lengths()
    ensures
        forall|i: int| 0 <= i < default_excludes().len() ==> #[trigger] default_excludes()[i].len() <= 1024,
        forall|i: int| 0 <= i < default_includes().len() ==> #[trigger] default_includes()[i].len() <= 1024,
{
    reveal_strlit(".git");
    reveal_strlit(".cache");
    reveal_strlit("node_modules");
    reveal_strlit("__pycache__");
    reveal_strlit(".local/share/Trash");
    reveal_strlit("steamapps/common");
    reveal_strlit(".steam");
    reveal_strlit("/proc");
    reveal_strlit("/sys");
    reveal_strlit("/dev");
    reveal_strlit("/run");
    reveal_strlit("/Saves/");
    reveal_strlit("/save/");
    reveal_strlit("/Save/");
    reveal_strlit("/userdata/");
    reveal_strlit("/.config/");
    reveal_strlit("/Mods/");
    reveal_strlit("/mods/");
    reveal_strlit(".sav");
    reveal_strlit(".save");
}

impl ExclusionEngine {
    /// The rules of a scan: the default exclusions and the configured exclude patterns,
    /// the default user-data inclusions and the configured include patterns, and a size
    /// limit of `max_file_size_mb` megabytes.
    pub fn new(config_excludes: &Vec<String>, config_includes: &Vec<String>, max_file_size_mb: u64) -> (e:
        ExclusionEngine)
        ensures
            e@.excludes == patterns_of(
                default_excludes(),
                config_excludes@.map_values(|s: String| s@),
            ),
            e@.includes == patterns_of(
                default_includes(),
                config_includes@.map_values(|s: String| s@),
            ),
            e@.max_bytes == mb_to_bytes(max_file_size_mb),
            forall|i: int|
                0 <= i < default_excludes().len() ==> #[trigger] matches_literal(
                    e@.excludes[i],
                    default_excludes()[i],
                ),
            forall|i: int|
                0 <= i < default_includes().len() ==> #[trigger] matches_literal(
                    e@.includes[i],
                    default_includes()[i],
                ),
            forall|i: int| 0 <= i < default_excludes().len() ==> #[trigger] compiles(e@.excludes[i]),
            forall|i: int| 0 <= i < default_includes().len() ==> #[trigger] compiles(e@.includes[i]),
    {
        let excl = default_exclude_list();
        let incl = default_include_list();
        let exclude_patterns = escaped_patterns(&excl, config_excludes);
        let include_patterns = escaped_patterns(&incl, config_includes);
        let max_bytes = match max_file_size_mb.checked_mul(1048576) {
            Some(b) => b,
            None => u64::MAX,
        };
        let e = ExclusionEngine { exclude_patterns, include_patterns, max_bytes };
        proof {
            assert forall|i: int| 0 <= i < default_excludes().len() implies #[trigger] matches_literal(
                e@.excludes[i],
                default_excludes()[i],
            ) by {
                assert(excl@.map_values(|s: &str| s@)[i] == excl@[i]@);
                assert(e.exclude_patterns@.map_values(|s: String| s@).len() == e.exclude_patterns@.len());
                assert(i < e.exclude_patterns@.len());
                assert(e@.excludes[i] == e.exclude_patterns@[i]@);
                assert(matches_literal(e.exclude_patterns@[i]@, excl@[i]@));
            }
            lemma_default_lengths();
            assert forall|i: int| 0 <= i < default_excludes().len() implies #[trigger] compiles(
                e@.excludes[i],
            ) by {
                assert(excl@.map_values(|s: &str| s@)[i] == excl@[i]@);
                assert(e.exclude_patterns@.map_values(|s: String| s@).len() == e.exclude_patterns@.len());
                assert(e@.excludes[i] == e.exclude_patterns@[i]@);
                assert(excl@[i]@.len() <= 1024);
            }
            assert forall|i: int| 0 <= i < default_includes().len() implies #[trigger] compiles(
                e@.includes[i],
            ) by {
                assert(incl@.map_values(|s: &str| s@)[i] == incl@[i]@);
                assert(e.include_patterns@.map_values(|s: String| s@).len() == e.include_patterns@.len());
                assert(e@.includes[i] == e.include_patterns@[i]@);
                assert(incl@[i]@.len() <= 1024);
            }
            assert forall|i: int| 0 <= i < default_includes().len() implies #[trigger] matches_literal(
                e@.includes[i],
                default_includes()[i],
            ) by {
                assert(incl@.map_values(|s: &str| s@)[i] == incl@[i]@);
                assert(e.include_patterns@.map_values(|s: String| s@).len() == e.include_patterns@.len());
                assert(i < e.include_patterns@.len());
                assert(e@.includes[i] == e.include_patterns@[i]@);
                assert(matches_literal(e.include_patterns@[i]@, incl@[i]@));
            }
        }
        e
    }

    /// Whether a scan skips `path`; `size` is the file size when `path` is a file whose
    /// size could be read.
    pub fn should_skip(&self, path: &str, size: Option<u64>) -> (b: bool)
        ensures
            b == skipped(self@, path@, size),
    {
        if any_pattern_matches(&self.include_patterns, path) {
            return false;
        }
        if any_pattern_matches(&self.exclude_patterns, path) {
            return true;
        }
        match size {
            Some(n) => n > self.max_bytes,
            None => false,
        }
    }
}

/// User-data inclusions win over exclusions: a path that an include pattern matches
/// is never skipped, whatever the exclude patterns and the file size.
pub proof fn law_includes_override(e: EngineModel, path: Seq<char>, size: Option<u64>)
    requires
        any_match(e.includes, path),
    ensures
        !skipped(e, path, size),
{
}

/// The default exclusions apply: a path that holds one of the default excluded parts
/// (`.git`, `node_modules`, ...) is skipped, unless an include pattern matches it. This
/// holds of every engine whose default patterns compile and match their literals, as
/// `ExclusionEngine::new` makes them.
pub proof fn law_default_excludes_skip(e: EngineModel, path: Seq<char>, size: Option<u64>, i: int)
    requires
        0 <= i < default_excludes().len(),
        forall|k: int|
            0 <= k < default_excludes().len() ==> #[trigger] matches_literal(
                e.excludes[k],
                default_excludes()[k],
            ),
        forall|k: int| 0 <= k < default_excludes().len() ==> #[trigger] compiles(e.excludes[k]),
        e.excludes.len() >= default_excludes().len(),
        contains_sub(path, default_excludes()[i]),
        !any_match(e.includes, path),
    ensures
        skipped(e, path, size),
{
    assert(matches_literal(e.excludes[i], default_excludes()[i]));
    assert(compiles(e.excludes[i]));
    assert(regex_match(e.excludes[i], path) is Some);
    assert(regex_match(e.excludes[i], path) == Some(true));
}

} // verus!
