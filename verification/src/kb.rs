//! The directory layout of a knowledge base.
use vstd::prelude::*;

use crate::config::{expand, opt_view, Config};
use crate::paths::{join_path, path_join};
use crate::registry::under;
use crate::text::is_prefix_of;

verus! {

/// Public or private wiki content.
#[derive(Debug, Clone, Copy, PartialEq, Eq, Structural)]
pub enum WikiScope {
    Public,
    Private,
}

impl WikiScope {
    /// Whether this is the private wiki.
    pub fn is_private(self) -> (b: bool)
        ensures
            b == (self == WikiScope::Private),
    {
        match self {
            WikiScope::Private => true,
            WikiScope::Public => false,
        }
    }
}

/// Directories of one wiki zone (public or private).
#[derive(Debug, Clone)]
pub struct WikiLayout {
    pub wiki: String,
    pub summaries: String,
    pub concepts: String,
    pub entities: String,
    pub sources: String,
}

/// Every path of a knowledge base rooted at `root`.
#[derive(Debug, Clone)]
pub struct KbPaths {
    pub root: String,
    pub meta: String,
    pub config_path: String,
    pub registry_path: String,
    pub wiki: String,
    pub summaries: String,
    pub concepts: String,
    pub entities: String,
    pub sources: String,
    pub private_wiki: String,
    pub pageindex: String,
}

/// Why a knowledge base could not be opened.
#[derive(Debug, Clone)]
pub enum KbError {
    /// No registry exists under this root: the knowledge base was never initialized.
    NotInitialized(String),
}

/// The layout that `KbPaths::new` gives for `root` (the configuration file path apart).
pub open spec fn layout_of_root(p: KbPaths, root: Seq<char>) -> bool {
    let meta = path_join(root, ".everythingkb"@);
    let wiki = path_join(root, "wiki"@);
    &&& p.root@ == root
    &&& p.meta@ == meta
    &&& p.registry_path@ == path_join(meta, "registry.db"@)
    &&& p.wiki@ == wiki
    &&& p.summaries@ == path_join(wiki, "summaries"@)
    &&& p.concepts@ == path_join(wiki, "concepts"@)
    &&& p.entities@ == path_join(wiki, "entities"@)
    &&& p.sources@ == path_join(wiki, "sources"@)
    &&& p.private_wiki@ == path_join(wiki, "private"@)
    &&& p.pageindex@ == path_join(meta, "pageindex"@)
}

impl KbPaths {
    /// The paths of a knowledge base at `root`; the configuration file lives at
    /// `~/.everythingkb/config.toml`, `~` being `home`.
    pub fn new(root: String, home: Option<&str>) -> (p: KbPaths)
        ensures
            layout_of_root(p, root@),
            p.config_path@ == expand("~/.everythingkb/config.toml"@, opt_view(home)),
    {
        let meta = join_path(root.as_str(), ".everythingkb");
        let wiki = join_path(root.as_str(), "wiki");
        let private_wiki = join_path(wiki.as_str(), "private");
        KbPaths {
            config_path: Config::default_path(home),
            registry_path: join_path(meta.as_str(), "registry.db"),
            summaries: join_path(wiki.as_str(), "summaries"),
            concepts: join_path(wiki.as_str(), "concepts"),
            entities: join_path(wiki.as_str(), "entities"),
            sources: join_path(wiki.as_str(), "sources"),
            private_wiki,
            pageindex: join_path(meta.as_str(), "pageindex"),
            wiki,
            root,
            meta,
        }
    }

    /// The directories of the public or the private wiki.
    pub fn layout(&self, scope: WikiScope) -> (l: WikiLayout)
        ensures
            scope == WikiScope::Public ==> {
                &&& l.wiki@ == self.wiki@
                &&& l.summaries@ == self.summaries@
                &&& l.concepts@ == self.concepts@
                &&& l.entities@ == self.entities@
                &&& l.sources@ == self.sources@
            },
            scope == WikiScope::Private ==> {
                &&& l.wiki@ == self.private_wiki@
                &&& l.summaries@ == path_join(self.private_wiki@, "summaries"@)
                &&& l.concepts@ == path_join(self.private_wiki@, "concepts"@)
                &&& l.entities@ == path_join(self.private_wiki@, "entities"@)
                &&& l.sources@ == path_join(self.private_wiki@, "sources"@)
            },
    {
        match scope {
            WikiScope::Public => WikiLayout {
                wiki: self.wiki.clone(),
                summaries: self.summaries.clone(),
                concepts: self.concepts.clone(),
                entities: self.entities.clone(),
                sources: self.sources.clone(),
            },
            WikiScope::Private => WikiLayout {
                wiki: self.private_wiki.clone(),
                summaries: join_path(self.private_wiki.as_str(), "summaries"),
                concepts: join_path(self.private_wiki.as_str(), "concepts"),
                entities: join_path(self.private_wiki.as_str(), "entities"),
                sources: join_path(self.private_wiki.as_str(), "sources"),
            },
        }
    }

    /// Where page indexes of long documents are kept, per zone.
    pub fn pageindex_dir(&self, scope: WikiScope) -> (d: String)
        ensures
            scope == WikiScope::Public ==> d@ == self.pageindex@,
            scope == WikiScope::Private ==> d@ == path_join(self.pageindex@, "private"@),
    {
        match scope {
            WikiScope::Public => self.pageindex.clone(),
            WikiScope::Private => join_path(self.pageindex.as_str(), "private"),
        }
    }

    /// The default knowledge-base root, `~/.everythingkb/kb`.
    pub fn default_location(home: Option<&str>) -> (r: String)
        ensures
            r@ == expand("~/.everythingkb/kb"@, opt_view(home)),
    {
        Config::expand_path("~/.everythingkb/kb", home)
    }

    /// The root that `open` and `init` use: the given one, else the default location.
    pub fn chosen_root(root: Option<String>, home: Option<&str>) -> (r: String)
        ensures
            root matches Some(s) ==> r@ == s@,
            root is None ==> r@ == expand("~/.everythingkb/kb"@, opt_view(home)),
    {
        match root {
            Some(s) => s,
            None => KbPaths::default_location(home),
        }
    }

    /// Opens the knowledge base at `root` (default location when absent); it must
    /// have been initialized, which `registry_exists` tells (whether its registry file
    /// exists).
    pub fn open(root: Option<String>, home: Option<&str>, registry_exists: bool) -> (r: Result<
        KbPaths,
        KbError,
    >)
        ensures
            registry_exists ==> (r matches Ok(p) && (root matches Some(s) ==> layout_of_root(p, s@))
                && (root is None ==> layout_of_root(
                p,
                expand("~/.everythingkb/kb"@, opt_view(home)),
            )) && p.config_path@ == expand("~/.everythingkb/config.toml"@, opt_view(home))),
            !registry_exists ==> (r matches Err(KbError::NotInitialized(s)) && (root matches Some(
                given,
            ) ==> s@ == given@) && (root is None ==> s@ == expand(
                "~/.everythingkb/kb"@,
                opt_view(home),
            ))),
    {
        let kb = KbPaths::chosen_root(root, home);
        if !registry_exists {
            return Err(KbError::NotInitialized(kb));
        }
        Ok(KbPaths::new(kb, home))
    }

    /// Where an older release kept the configuration file.
    pub fn legacy_config_path(&self) -> (r: String)
        ensures
            r@ == path_join(self.meta@, "config.toml"@),
    {
        join_path(self.meta.as_str(), "config.toml")
    }
}

/// The agent instructions of a new wiki.
pub open spec fn agents_text() -> Seq<char> {
    "# Wiki Agent Instructions\n\nThis knowledge base follows the [Open Knowledge Format (OKF) v0.1](https://github.com/GoogleCloudPlatform/knowledge-catalog/tree/main/okf):\n- `summaries/` — document summaries (`type: Document Summary`, `resource` = original file)\n- `concepts/` — abstract ideas (`type: Concept`)\n- `entities/` — named things (`type: Person`, `Organization`, etc.)\n- `sources/` — converted source markdown\n- Cross-links use standard markdown: `[title](concepts/slug.md)`\n- Bundle root `index.md` declares `okf_version: \"0.1\"`; `log.md` records ingest history\n"@
}

/// The agent instructions written to a new wiki (`AGENTS.md`).
pub fn agents_template() -> (r: &'static str)
    ensures
        r@ == agents_text(),
{
    "# Wiki Agent Instructions\n\nThis knowledge base follows the [Open Knowledge Format (OKF) v0.1](https://github.com/GoogleCloudPlatform/knowledge-catalog/tree/main/okf):\n- `summaries/` — document summaries (`type: Document Summary`, `resource` = original file)\n- `concepts/` — abstract ideas (`type: Concept`)\n- `entities/` — named things (`type: Person`, `Organization`, etc.)\n- `sources/` — converted source markdown\n- Cross-links use standard markdown: `[title](concepts/slug.md)`\n- Bundle root `index.md` declares `okf_version: \"0.1\"`; `log.md` records ingest history\n"
}

/// The index of a new public wiki.
pub open spec fn index_text() -> Seq<char> {
    "---\nokf_version: \"0.1\"\n---\n\n# Knowledge Base Index\n\nDocuments indexed by everythingKB.\n"@
}

/// The index written to a new public wiki (`index.md`).
pub fn index_template() -> (r: &'static str)
    ensures
        r@ == index_text(),
{
    "---\nokf_version: \"0.1\"\n---\n\n# Knowledge Base Index\n\nDocuments indexed by everythingKB.\n"
}

/// The index of a new private wiki.
pub open spec fn private_index_text() -> Seq<char> {
    "---\nokf_version: \"0.1\"\n---\n\n# Private Knowledge Base Index\n\nSensitive / personal documents.\n"@
}

/// The index written to a new private wiki (`private/index.md`).
pub fn private_index_template() -> (r: &'static str)
    ensures
        r@ == private_index_text(),
{
    "---\nokf_version: \"0.1\"\n---\n\n# Private Knowledge Base Index\n\nSensitive / personal documents.\n"
}

/// The ingest log of a new wiki.
pub open spec fn log_text() -> Seq<char> {
    "# Ingest Log\n\n"@
}

/// The ingest log of a new wiki (`log.md`).
pub fn log_template() -> (r: &'static str)
    ensures
        r@ == log_text(),
{
    "# Ingest Log\n\n"
}

/// Directories `base/x` and `base/y` whose names start with different characters lie
/// apart: neither is under the other.
proof fn lemma_siblings_apart(base: Seq<char>, x: Seq<char>, y: Seq<char>)
    requires
        base.len() > 0,
        base.last() != '/',
        x.len() > 0,
        y.len() > 0,
        x[0] != '/',
        y[0] != '/',
        x[0] != y[0],
    ensures
        !under(path_join(base, x), path_join(base, y)),
        !under(path_join(base, y), path_join(base, x)),
{
    let a = path_join(base, x);
    let b = path_join(base, y);
    let i = base.len() as int + 1;
    assert(a[i] == x[0]);
    assert(b[i] == y[0]);
    if is_prefix_of(a, b) {
        assert(b.subrange(0, a.len() as int)[i] == b[i]);
    }
    if is_prefix_of(b, a) {
        assert(a.subrange(0, b.len() as int)[i] == a[i]);
    }
}

/// The content directories of the private wiki: its summaries, concepts, entities and
/// sources.
pub open spec fn private_content_dirs(p: KbPaths) -> Seq<Seq<char>> {
    seq![
        path_join(p.private_wiki@, "summaries"@),
        path_join(p.private_wiki@, "concepts"@),
        path_join(p.private_wiki@, "entities"@),
        path_join(p.private_wiki@, "sources"@),
    ]
}

/// The private wiki lies apart from the public one: no content directory of either zone
/// (summaries, concepts, entities, sources) is under a content directory of the other, so
/// walking the public zone never reaches private pages.
pub proof fn law_private_zone_apart(p: KbPaths, root: Seq<char>)
    requires
        layout_of_root(p, root),
    ensures
        ({
            let public = seq![p.summaries@, p.concepts@, p.entities@, p.sources@];
            let private = seq![
                path_join(p.private_wiki@, "summaries"@),
                path_join(p.private_wiki@, "concepts"@),
                path_join(p.private_wiki@, "entities"@),
                path_join(p.private_wiki@, "sources"@),
            ];
            forall|i: int, j: int|
                0 <= i < 4 && 0 <= j < 4 ==> !under(#[trigger] private[i], #[trigger] public[j])
                    && !under(public[j], private[i])
        }),
{
    reveal_strlit("wiki");
    reveal_strlit("private");
    reveal_strlit("summaries");
    reveal_strlit("concepts");
    reveal_strlit("entities");
    reveal_strlit("sources");
    let w = p.wiki@;
    assert(w.len() > 0 && w.last() == 'i');
    let names = seq!["summaries"@, "concepts"@, "entities"@, "sources"@];
    let public = seq![p.summaries@, p.concepts@, p.entities@, p.sources@];
    let private = seq![
        path_join(p.private_wiki@, "summaries"@),
        path_join(p.private_wiki@, "concepts"@),
        path_join(p.private_wiki@, "entities"@),
        path_join(p.private_wiki@, "sources"@),
    ];
    assert forall|i: int, j: int|
        0 <= i < 4 && 0 <= j < 4 implies !under(#[trigger] private[i], #[trigger] public[j])
            && !under(public[j], private[i]) by {
        let y = "private"@ + seq!['/'] + names[i];
        assert(private[i] == path_join(w, y)) by {
            assert(path_join(w, "private"@) == w + seq!['/'] + "private"@);
            assert(path_join(w, "private"@).last() == 'e');
            assert(private[i] =~= w + seq!['/'] + y);
        }
        assert(public[j] == path_join(w, names[j]));
        assert(y[0] == 'p');
        lemma_siblings_apart(w, names[j], y);
    }
}

} // verus!
