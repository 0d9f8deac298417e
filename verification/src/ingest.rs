//! Ingest bookkeeping: what happens to a file, and the counts of a run.
use vstd::prelude::*;

use crate::classifier::FileKind;
use crate::config::Config;
use crate::kb::{agents_text, index_text, log_text, private_index_text, KbPaths, WikiScope};
use crate::paths::{join_path, path_join};
use crate::text::views;
use crate::registry::{reindex_needed, FileRecord, FileStatus};

verus! {

/// Counts of one ingest run.
#[derive(Debug, Clone, Copy, Default)]
pub struct IngestStats {
    pub added: usize,
    pub skipped: usize,
    pub failed: usize,
}

/// Adds the counts of `part` to `total`.
pub fn merge_stats(total: &mut IngestStats, part: IngestStats)
    requires
        old(total).added + part.added <= usize::MAX,
        old(total).skipped + part.skipped <= usize::MAX,
        old(total).failed + part.failed <= usize::MAX,
    ensures
        final(total).added == old(total).added + part.added,
        final(total).skipped == old(total).skipped + part.skipped,
        final(total).failed == old(total).failed + part.failed,
{
    total.added = total.added + part.added;
    total.skipped = total.skipped + part.skipped;
    total.failed = total.failed + part.failed;
}

/// What happens to one file.
#[derive(Debug, Clone, Copy, PartialEq, Eq, Structural)]
pub enum IngestStep {
    /// Unchanged since it was indexed: nothing to do.
    Unchanged,
    /// Not indexable: recorded as skipped.
    NotIndexable,
    /// Dry run: would be ingested.
    DryRun,
    /// Converted and compiled.
    Ingest,
}

/// The step for a file: unchanged files are left alone unless forced; files of kind
/// `Skip` are recorded as not indexable; a dry run stops there; anything else is ingested.
pub open spec fn ingest_step(force: bool, needs_reindex: bool, kind: FileKind, dry_run: bool) -> IngestStep {
    if !force && !needs_reindex {
        IngestStep::Unchanged
    } else if kind == FileKind::Skip {
        IngestStep::NotIndexable
    } else if dry_run {
        IngestStep::DryRun
    } else {
        IngestStep::Ingest
    }
}

/// Decides the step for a file.
pub fn decide_ingest(force: bool, needs_reindex: bool, kind: FileKind, dry_run: bool) -> (s: IngestStep)
    ensures
        s == ingest_step(force, needs_reindex, kind, dry_run),
{
    if !force && !needs_reindex {
        IngestStep::Unchanged
    } else if kind == FileKind::Skip {
        IngestStep::NotIndexable
    } else if dry_run {
        IngestStep::DryRun
    } else {
        IngestStep::Ingest
    }
}

/// The counts of one file: skipped when unchanged or not indexable, added on a dry run
/// or a successful ingest, failed when the ingest failed (`ingest_ok` is consulted only
/// for `Ingest`).
pub fn step_stats(step: IngestStep, ingest_ok: bool) -> (s: IngestStats)
    ensures
        s.added + s.skipped + s.failed == 1,
        (step == IngestStep::Unchanged || step == IngestStep::NotIndexable) ==> s.skipped == 1,
        step == IngestStep::DryRun ==> s.added == 1,
        step == IngestStep::Ingest ==> (if ingest_ok {
            s.added == 1
        } else {
            s.failed == 1
        }),
{
    match step {
        IngestStep::Unchanged | IngestStep::NotIndexable => IngestStats { added: 0, skipped: 1, failed: 0 },
        IngestStep::DryRun => IngestStats { added: 1, skipped: 0, failed: 0 },
        IngestStep::Ingest => if ingest_ok {
            IngestStats { added: 1, skipped: 0, failed: 0 }
        } else {
            IngestStats { added: 0, skipped: 0, failed: 1 }
        },
    }
}

/// The status the registry records for a file after its step: skipped when it is not
/// indexable, indexed or failed after an ingest, nothing otherwise.
pub open spec fn status_recorded(step: IngestStep, ingest_ok: bool) -> Option<FileStatus> {
    match step {
        IngestStep::NotIndexable => Some(FileStatus::Skipped),
        IngestStep::Ingest => Some(
            if ingest_ok {
                FileStatus::Indexed
            } else {
                FileStatus::Failed
            },
        ),
        _ => None,
    }
}

/// The registry status a file is recorded with after its step: `Skipped` when not
/// indexable, `Indexed` or `Failed` after an ingest; nothing is recorded for unchanged
/// files and dry runs.
pub fn recorded_status(step: IngestStep, ingest_ok: bool) -> (r: Option<FileStatus>)
    ensures
        r == status_recorded(step, ingest_ok),
{
    match step {
        IngestStep::NotIndexable => Some(FileStatus::Skipped),
        IngestStep::Ingest => if ingest_ok {
            Some(FileStatus::Indexed)
        } else {
            Some(FileStatus::Failed)
        },
        _ => None,
    }
}

/// How a file of a given kind reaches the wiki.
#[derive(Debug, Clone, Copy, PartialEq, Eq, Structural)]
pub enum IngestRoute {
    /// Converted to markdown, then compiled as a short document.
    ConvertShort,
    /// Converted, then compiled from its page index as a long document.
    ConvertLong,
    /// Described by a metadata stub, then compiled.
    MetadataStub,
    /// Described by the model from the image, then compiled.
    ImageSummary,
    /// Nothing to ingest (an error).
    Unexpected,
}

/// The route of a file kind.
pub fn ingest_route(kind: FileKind) -> (r: IngestRoute)
    ensures
        r == (match kind {
            FileKind::Document => IngestRoute::ConvertShort,
            FileKind::LongDocument => IngestRoute::ConvertLong,
            FileKind::UserProfile => IngestRoute::MetadataStub,
            FileKind::Image => IngestRoute::ImageSummary,
            FileKind::Skip => IngestRoute::Unexpected,
        }),
{
    match kind {
        FileKind::Document => IngestRoute::ConvertShort,
        FileKind::LongDocument => IngestRoute::ConvertLong,
        FileKind::UserProfile => IngestRoute::MetadataStub,
        FileKind::Image => IngestRoute::ImageSummary,
        FileKind::Skip => IngestRoute::Unexpected,
    }
}

/// `--force` rebuilds a file even when it is unchanged: an indexable file in a real run
/// is ingested whatever the registry says.
pub proof fn law_force_rebuilds(needs_reindex: bool, kind: FileKind)
    requires
        kind != FileKind::Skip,
    ensures
        ingest_step(true, needs_reindex, kind, false) == IngestStep::Ingest,
{
}

/// Without `--force`, a file the registry holds as unchanged is left alone.
pub proof fn law_unchanged_is_left_alone(kind: FileKind, dry_run: bool)
    ensures
        ingest_step(false, false, kind, dry_run) == IngestStep::Unchanged,
{
}

/// Ingesting an unchanged file again: once a run has recorded a file as indexed (or as
/// not indexable) with its content hash, modification time and size, the next run
/// without `--force` on the same, unchanged file leaves it alone; with `--force` an
/// indexable file is ingested anew.
pub proof fn law_reingest_unchanged(
    step: IngestStep,
    rec: FileRecord,
    hash: Seq<char>,
    mtime: i64,
    size: i64,
    kind: FileKind,
    dry_run: bool,
)
    requires
        status_recorded(step, true) == Some(rec.status),
        rec.file_hash@ == hash,
        rec.mtime == mtime,
        rec.size == size,
    ensures
        ingest_step(false, reindex_needed(Some(rec), mtime, size, hash), kind, dry_run)
            == IngestStep::Unchanged,
        kind != FileKind::Skip ==> ingest_step(
            true,
            reindex_needed(Some(rec), mtime, size, hash),
            kind,
            false,
        ) == IngestStep::Ingest,
{
}

/// A dry run never converts or compiles anything.
pub proof fn law_dry_run_ingests_nothing(force: bool, needs_reindex: bool, kind: FileKind)
    ensures
        ingest_step(force, needs_reindex, kind, true) != IngestStep::Ingest,
{
}

/// Creates a knowledge base with the default configuration at `root` (the default
/// location when absent): the paths it will have.
pub fn init_kb(root: Option<String>, home: Option<&str>) -> (r: (KbPaths, Config))
    ensures
        root matches Some(s) ==> crate::kb::layout_of_root(r.0, s@),
        root is None ==> crate::kb::layout_of_root(
            r.0,
            crate::config::expand("~/.everythingkb/kb"@, crate::config::opt_view(home)),
        ),
        r.0.config_path@ == crate::config::expand(
            "~/.everythingkb/config.toml"@,
            crate::config::opt_view(home),
        ),
        crate::config::is_default_config(r.1),
{
    let kb = KbPaths::chosen_root(root, home);
    (KbPaths::new(kb, home), Config::default())
}

/// What creating a knowledge base lays down: the directories, each created with its
/// parents, and the starter pages, each a path and its text.
pub struct InitPlan {
    pub dirs: Vec<String>,
    pub starters: Vec<(String, String)>,
}

/// The directories of a new knowledge base: the metadata directory, the public wiki and
/// its four page directories, the private wiki and its four page directories, and the
/// page-index directories of both zones.
pub open spec fn init_dirs(p: KbPaths) -> Seq<Seq<char>> {
    let pw = p.private_wiki@;
    seq![
        p.meta@,
        p.wiki@,
        p.summaries@,
        p.concepts@,
        p.entities@,
        p.sources@,
        pw,
        path_join(pw, "summaries"@),
        path_join(pw, "concepts"@),
        path_join(pw, "entities"@),
        path_join(pw, "sources"@),
        p.pageindex@,
        path_join(p.pageindex@, "private"@),
    ]
}

/// The starter pages of a new knowledge base: `AGENTS.md`, `index.md` and `log.md` of
/// the public wiki and `index.md` of the private wiki, with their texts.
pub open spec fn init_starters(p: KbPaths) -> Seq<(Seq<char>, Seq<char>)> {
    seq![
        (path_join(p.wiki@, "AGENTS.md"@), agents_text()),
        (path_join(p.wiki@, "index.md"@), index_text()),
        (path_join(p.private_wiki@, "index.md"@), private_index_text()),
        (path_join(p.wiki@, "log.md"@), log_text()),
    ]
}

/// The pairs of a list of path and text, as views.
pub open spec fn pair_views(v: Seq<(String, String)>) -> Seq<(Seq<char>, Seq<char>)> {
    v.map_values(|f: (String, String)| (f.0@, f.1@))
}

fn push_pair(v: &mut Vec<(String, String)>, path: String, text: &str)
    ensures
        pair_views(final(v)@) == pair_views(old(v)@).push((path@, text@)),
{
    let ghost pv = path@;
    v.push((path, text.to_string()));
    assert(pair_views(v@) =~= pair_views(old(v)@).push((pv, text@)));
}

fn push_dir(v: &mut Vec<String>, d: String)
    ensures
        views(final(v)@) == views(old(v)@).push(d@),
{
    let ghost dv = d@;
    v.push(d);
    assert(views(v@) =~= views(old(v)@).push(dv));
}

/// The directories and starter pages that creating the knowledge base `p` lays down.
pub fn init_plan(p: &KbPaths) -> (r: InitPlan)
    ensures
        views(r.dirs@) == init_dirs(*p),
        pair_views(r.starters@) == init_starters(*p),
{
    let private = p.layout(WikiScope::Private);
    let mut dirs: Vec<String> = Vec::new();
    assert(views(dirs@) =~= Seq::<Seq<char>>::empty());
    push_dir(&mut dirs, p.meta.clone());
    push_dir(&mut dirs, p.wiki.clone());
    push_dir(&mut dirs, p.summaries.clone());
    push_dir(&mut dirs, p.concepts.clone());
    push_dir(&mut dirs, p.entities.clone());
    push_dir(&mut dirs, p.sources.clone());
    push_dir(&mut dirs, private.wiki);
    push_dir(&mut dirs, private.summaries);
    push_dir(&mut dirs, private.concepts);
    push_dir(&mut dirs, private.entities);
    push_dir(&mut dirs, private.sources);
    push_dir(&mut dirs, p.pageindex.clone());
    push_dir(&mut dirs, p.pageindex_dir(WikiScope::Private));
    assert(views(dirs@) =~= init_dirs(*p));
    let mut starters: Vec<(String, String)> = Vec::new();
    assert(pair_views(starters@) =~= Seq::<(Seq<char>, Seq<char>)>::empty());
    push_pair(&mut starters, join_path(p.wiki.as_str(), "AGENTS.md"), crate::kb::agents_template());
    push_pair(&mut starters, join_path(p.wiki.as_str(), "index.md"), crate::kb::index_template());
    push_pair(
        &mut starters,
        join_path(p.private_wiki.as_str(), "index.md"),
        crate::kb::private_index_template(),
    );
    push_pair(&mut starters, join_path(p.wiki.as_str(), "log.md"), crate::kb::log_template());
    assert(pair_views(starters@) =~= init_starters(*p));
    InitPlan { dirs, starters }
}

/// What creating a knowledge base does about its configuration file.
#[derive(Debug, Clone, Copy, PartialEq, Eq, Structural)]
pub enum ConfigSave {
    /// A configuration file exists: it is left as it is.
    Keep,
    /// Only the legacy configuration file exists: its settings are saved at the new path.
    FromLegacy,
    /// Neither exists: the default configuration is saved.
    WriteDefault,
}

/// What to do about the configuration file, given whether it exists and whether the
/// legacy one does: an existing configuration is never overwritten.
pub fn config_save(exists: bool, legacy_exists: bool) -> (r: ConfigSave)
    ensures
        r == (if exists {
            ConfigSave::Keep
        } else if legacy_exists {
            ConfigSave::FromLegacy
        } else {
            ConfigSave::WriteDefault
        }),
{
    if exists {
        ConfigSave::Keep
    } else if legacy_exists {
        ConfigSave::FromLegacy
    } else {
        ConfigSave::WriteDefault
    }
}

/// The starter pages to write: those whose file is not present (`present[i]` tells
/// whether a file stands at the path of `starters[i]`), in order.
pub open spec fn missing_starters(
    starters: Seq<(Seq<char>, Seq<char>)>,
    present: Seq<bool>,
) -> Seq<(Seq<char>, Seq<char>)>
    decreases starters.len(),
{
    if starters.len() == 0 || present.len() == 0 {
        seq![]
    } else {
        let rest = missing_starters(starters.drop_last(), present.drop_last());
        if present.last() {
            rest
        } else {
            rest.push(starters.last())
        }
    }
}

/// The starter pages to write, given which of their files are present already: an
/// existing page is never overwritten.
pub fn starters_to_write(starters: &Vec<(String, String)>, present: &Vec<bool>) -> (r: Vec<
    (String, String),
>)
    requires
        starters.len() == present.len(),
    ensures
        pair_views(r@) == missing_starters(pair_views(starters@), present@),
{
    let mut r: Vec<(String, String)> = Vec::new();
    let mut i: usize = 0;
    while i < starters.len()
        invariant
            i <= starters.len(),
            starters.len() == present.len(),
            pair_views(r@) == missing_starters(
                pair_views(starters@).take(i as int),
                present@.take(i as int),
            ),
        decreases starters.len() - i,
    {
        assert(pair_views(starters@).take(i + 1).drop_last() =~= pair_views(starters@).take(i as int));
        assert(present@.take(i + 1).drop_last() =~= present@.take(i as int));
        if !present[i] {
            let ghost before = pair_views(r@);
            let e = (starters[i].0.clone(), starters[i].1.clone());
            assert(e.0@ == starters@[i as int].0@ && e.1@ == starters@[i as int].1@);
            r.push(e);
            assert(pair_views(r@) =~= before.push(pair_views(starters@)[i as int]));
        }
        i = i + 1;
    }
    assert(pair_views(starters@).take(starters.len() as int) =~= pair_views(starters@));
    assert(present@.take(present.len() as int) =~= present@);
    r
}

/// Creating a knowledge base leaves existing pages alone: every starter page it writes is
/// one whose file was not present, and every starter page whose file was missing is
/// written.
pub proof fn law_init_keeps_existing(starters: Seq<(Seq<char>, Seq<char>)>, present: Seq<bool>)
    requires
        starters.len() == present.len(),
    ensures
        forall|j: int|
            0 <= j < missing_starters(starters, present).len() ==> exists|k: int|
                0 <= k < starters.len() && !present[k] && starters[k] == #[trigger] missing_starters(
                    starters,
                    present,
                )[j],
        forall|k: int|
            0 <= k < starters.len() && !present[k] ==> missing_starters(starters, present).contains(
                #[trigger] starters[k],
            ),
{
    assert forall|j: int| 0 <= j < missing_starters(starters, present).len() implies exists|k: int|
        0 <= k < starters.len() && !present[k] && starters[k] == #[trigger] missing_starters(
            starters,
            present,
        )[j] by {
        lemma_missing_from(starters, present, j);
    }
    assert forall|k: int| 0 <= k < starters.len() && !present[k] implies missing_starters(
        starters,
        present,
    ).contains(#[trigger] starters[k]) by {
        lemma_missing_written(starters, present, k);
    }
}

proof fn lemma_missing_written(starters: Seq<(Seq<char>, Seq<char>)>, present: Seq<bool>, i: int)
    requires
        starters.len() == present.len(),
        0 <= i < starters.len(),
        !present[i],
    ensures
        missing_starters(starters, present).contains(starters[i]),
    decreases starters.len(),
{
    let n = starters.len() - 1;
    let s0 = starters.drop_last();
    let p0 = present.drop_last();
    let m0 = missing_starters(s0, p0);
    if i < n {
        lemma_missing_written(s0, p0, i);
        assert(s0[i] == starters[i]);
        let k = choose|k: int| 0 <= k < m0.len() && m0[k] == s0[i];
        assert(missing_starters(starters, present)[k] == starters[i]);
    } else {
        assert(missing_starters(starters, present)[m0.len() as int] == starters[i]);
    }
}

proof fn lemma_missing_from(starters: Seq<(Seq<char>, Seq<char>)>, present: Seq<bool>, j: int)
    requires
        starters.len() == present.len(),
        0 <= j < missing_starters(starters, present).len(),
    ensures
        exists|k: int|
            0 <= k < starters.len() && !present[k] && starters[k] == missing_starters(
                starters,
                present,
            )[j],
    decreases starters.len(),
{
    let s0 = starters.drop_last();
    let p0 = present.drop_last();
    let m0 = missing_starters(s0, p0);
    if j < m0.len() {
        lemma_missing_from(s0, p0, j);
        let k = choose|k: int| 0 <= k < s0.len() && !p0[k] && s0[k] == m0[j];
        assert(starters[k] == s0[k] && present[k] == p0[k]);
    } else {
        let n = starters.len() - 1;
        assert(starters[n] == missing_starters(starters, present)[j]);
    }
}

} // verus!
