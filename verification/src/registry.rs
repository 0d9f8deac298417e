//! Records of indexed files and the rule for when a file is indexed again.
use vstd::prelude::*;

use crate::text::{chars_of, is_prefix_of, str_eq, string_of_range, trim_start_char};

verus! {

/// Where a file stands in the registry.
#[derive(Debug, Clone, Copy, PartialEq, Eq, Structural)]
pub enum FileStatus {
    Pending,
    Indexed,
    Failed,
    Skipped,
}

/// The name a status is stored under.
pub open spec fn status_name(s: FileStatus) -> Seq<char> {
    match s {
        FileStatus::Pending => "pending"@,
        FileStatus::Indexed => "indexed"@,
        FileStatus::Failed => "failed"@,
        FileStatus::Skipped => "skipped"@,
    }
}

/// The status stored under a name; unknown names read as pending.
pub open spec fn status_of_name(n: Seq<char>) -> FileStatus {
    if n == "indexed"@ {
        FileStatus::Indexed
    } else if n == "failed"@ {
        FileStatus::Failed
    } else if n == "skipped"@ {
        FileStatus::Skipped
    } else {
        FileStatus::Pending
    }
}

impl FileStatus {
    /// The name this status is stored under.
    pub fn as_str(self) -> (r: &'static str)
        ensures
            r@ == status_name(self),
    {
        match self {
            FileStatus::Pending => "pending",
            FileStatus::Indexed => "indexed",
            FileStatus::Failed => "failed",
            FileStatus::Skipped => "skipped",
        }
    }

    /// The status stored under `s` (pending for unknown names).
    pub fn from_str(s: &str) -> (r: FileStatus)
        ensures
            r == status_of_name(s@),
    {
        if str_eq(s, "indexed") {
            FileStatus::Indexed
        } else if str_eq(s, "failed") {
            FileStatus::Failed
        } else if str_eq(s, "skipped") {
            FileStatus::Skipped
        } else {
            FileStatus::Pending
        }
    }
}

/// Storing a status and reading it back gives the same status.
pub proof fn law_status_round_trip(s: FileStatus)
    ensures
        status_of_name(status_name(s)) == s,
{
    reveal_strlit("pending");
    reveal_strlit("indexed");
    reveal_strlit("failed");
    reveal_strlit("skipped");
    assert("pending"@[0] != "indexed"@[0]);
    assert("pending"@[0] != "failed"@[0]);
    assert("pending"@[0] != "skipped"@[0]);
    assert("failed"@[0] != "indexed"@[0]);
    assert("skipped"@[0] != "indexed"@[0]);
    assert("skipped"@[0] != "failed"@[0]);
}

/// One file of the registry.
#[derive(Debug, Clone)]
pub struct FileRecord {
    pub path: String,
    pub file_hash: String,
    pub mtime: i64,
    pub size: i64,
    pub status: FileStatus,
    pub doc_name: Option<String>,
    pub error: Option<String>,
    pub private: bool,
}

/// Counts of registry records.
#[derive(Debug, Clone)]
pub struct RegistryStats {
    pub total: i64,
    pub indexed: i64,
    pub failed: i64,
    pub pending: i64,
}

/// Whether a file must be indexed again: it has no record, its content hash, time or
/// size changed, or its last attempt failed or is pending.
pub open spec fn reindex_needed(
    record: Option<FileRecord>,
    mtime: i64,
    size: i64,
    hash: Seq<char>,
) -> bool {
    match record {
        None => true,
        Some(rec) => rec.file_hash@ != hash || rec.mtime != mtime || rec.size != size || rec.status
            == FileStatus::Failed || rec.status == FileStatus::Pending,
    }
}

/// Whether a file must be indexed again, given its registry record (if any) and its
/// current modification time, size and content hash.
pub fn needs_reindex(record: Option<&FileRecord>, mtime: i64, size: i64, hash: &str) -> (b: bool)
    ensures
        b == reindex_needed(
            match record {
                Some(r) => Some(*r),
                None => None,
            },
            mtime,
            size,
            hash@,
        ),
{
    match record {
        None => true,
        Some(rec) => {
            if !str_eq(rec.file_hash.as_str(), hash) || rec.mtime != mtime || rec.size != size {
                return true;
            }
            rec.status == FileStatus::Failed || rec.status == FileStatus::Pending
        },
    }
}

/// A file that was indexed and has not changed since is not indexed again.
pub proof fn law_unchanged_indexed_file_is_kept(rec: FileRecord)
    requires
        rec.status == FileStatus::Indexed || rec.status == FileStatus::Skipped,
    ensures
        !reindex_needed(Some(rec), rec.mtime, rec.size, rec.file_hash@),
{
}

/// A file is ingested again whenever the registry does not hold it as done: when it has
/// no record, when its content hash, modification time or size differ from the record,
/// and when its last attempt failed or is still pending, even with everything unchanged.
pub proof fn law_reindex_when_not_done(rec: FileRecord, mtime: i64, size: i64, hash: Seq<char>)
    ensures
        reindex_needed(None, mtime, size, hash),
        rec.status == FileStatus::Failed ==> reindex_needed(Some(rec), mtime, size, hash),
        rec.status == FileStatus::Pending ==> reindex_needed(Some(rec), mtime, size, hash),
        rec.file_hash@ != hash ==> reindex_needed(Some(rec), mtime, size, hash),
        rec.mtime != mtime || rec.size != size ==> reindex_needed(Some(rec), mtime, size, hash),
{
}

/// `path` lies under `base` by `Path::starts_with` on canonical paths: equal, or
/// continuing with a `/` right after `base` (a `base` of `/` holds every absolute path).
pub open spec fn under(path: Seq<char>, base: Seq<char>) -> bool {
    is_prefix_of(base, path) && (path.len() == base.len() || (base.len() > 0 && base.last() == '/')
        || path[base.len() as int] == '/')
}

/// The registry key of a file: its path relative to the knowledge-base root (no
/// leading `/`) when it lies inside, else the path itself. Both paths are the resolved
/// (canonical) forms.
pub open spec fn portable(resolved: Seq<char>, kb: Seq<char>) -> Seq<char> {
    if under(resolved, kb) {
        trim_start_char(resolved.subrange(kb.len() as int, resolved.len() as int), '/')
    } else {
        resolved
    }
}

/// The registry key of a file: relative to the knowledge-base root when the file
/// lies inside it. `resolved` and `kb_root` are the canonical forms of the file path and
/// of the root (the paths as given when they cannot be resolved).
pub fn portable_path(resolved: &str, kb_root: &str) -> (r: String)
    ensures
        r@ == portable(resolved@, kb_root@),
{
    let p = chars_of(resolved);
    let k = chars_of(kb_root);
    let mut prefix = p.len() >= k.len();
    let mut i: usize = 0;
    while prefix && i < k.len()
        invariant
            i <= k.len(),
            prefix ==> p.len() >= k.len(),
            prefix ==> forall|j: int| 0 <= j < i ==> p@[j] == k@[j],
            !prefix ==> !is_prefix_of(k@, p@),
        decreases k.len() - i,
    {
        if p[i] != k[i] {
            prefix = false;
            proof {
                if is_prefix_of(k@, p@) {
                    assert(p@.subrange(0, k@.len() as int)[i as int] == p@[i as int]);
                }
            }
        }
        i = i + 1;
    }
    if prefix {
        assert(p@.subrange(0, k@.len() as int) =~= k@);
    }
    let inside = prefix && (p.len() == k.len() || (k.len() > 0 && k[k.len() - 1] == '/')
        || p[k.len()] == '/');
    if inside {
        let rest = string_of_range(&p, k.len(), p.len());
        crate::text::trim_start_char_string(rest.as_str(), '/')
    } else {
        String::from_str(resolved)
    }
}

} // verus!
