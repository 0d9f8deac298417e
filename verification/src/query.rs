//! Query context from long documents: section search, tree outlines and excerpt blocks.
use vstd::prelude::*;

use crate::index::{page_blocks, PageIndexDoc, TreeNode};
use crate::text::{ascii_lower_code, chars_of, decimal, eq_ignore_ascii_case, join, join_strings, push_decimal, str_eq};
use crate::kb::{layout_of_root, private_content_dirs, KbPaths, WikiScope};
use crate::paths::path_join;
use crate::registry::under;
use crate::text::views;
use crate::wiki::{context_block, format_context_page, okf_page_path, page_id, resource_lines, sources_of};

verus! {

/// Whether `a` and `b` are equal up to ASCII case.
pub fn eq_ignore_ascii_case_exec(a: &str, b: &str) -> (r: bool)
    ensures
        r == eq_ignore_ascii_case(a@, b@),
{
    let av = chars_of(a);
    let bv = chars_of(b);
    if av.len() != bv.len() {
        return false;
    }
    let mut i: usize = 0;
    while i < av.len()
        invariant
            i <= av.len(),
            av.len() == bv.len(),
            av@ == a@,
            bv@ == b@,
            forall|j: int| 0 <= j < i ==> ascii_lower_code(#[trigger] av@[j]) == ascii_lower_code(bv@[j]),
        decreases av.len() - i,
    {
        let x = av[i];
        let y = bv[i];
        let lx: u32 = if 'A' <= x && x <= 'Z' {
            (x as u32) + 32
        } else {
            x as u32
        };
        let ly: u32 = if 'A' <= y && y <= 'Z' {
            (y as u32) + 32
        } else {
            y as u32
        };
        if lx != ly {
            return false;
        }
        i = i + 1;
    }
    true
}

/// The first section, in pre-order (a section before its subsections, then the next
/// section), whose title equals `title` up to ASCII case.
pub open spec fn find_in(ns: Seq<TreeNode>, title: Seq<char>) -> Option<TreeNode>
    decreases ns,
{
    if ns.len() == 0 {
        None
    } else if eq_ignore_ascii_case(ns[0].title@, title) {
        Some(ns[0])
    } else {
        match find_in(ns[0].children@, title) {
            Some(x) => Some(x),
            None => find_in(ns.drop_first(), title),
        }
    }
}

/// Finds the section titled `title` (ASCII case ignored), searching in pre-order.
pub fn find_node<'a>(nodes: &'a Vec<TreeNode>, title: &str) -> (r: Option<&'a TreeNode>)
    ensures
        r matches Some(n) ==> find_in(nodes@, title@) == Some(*n),
        r is None ==> find_in(nodes@, title@) is None,
    decreases nodes,
{
    let mut i: usize = 0;
    assert(nodes@.subrange(0, nodes@.len() as int) =~= nodes@);
    while i < nodes.len()
        invariant
            i <= nodes@.len(),
            find_in(nodes@, title@) == find_in(nodes@.subrange(i as int, nodes@.len() as int), title@),
        decreases nodes@.len() - i,
    {
        let ghost rest = nodes@.subrange(i as int, nodes@.len() as int);
        assert(rest[0] == nodes@[i as int]);
        assert(rest.drop_first() =~= nodes@.subrange(i + 1, nodes@.len() as int));
        let n = &nodes[i];
        if eq_ignore_ascii_case_exec(n.title.as_str(), title) {
            return Some(n);
        }
        proof {
            assert(decreases_to!(*nodes => nodes@[i as int]));
        }
        match find_node(&n.children, title) {
            Some(x) => return Some(x),
            None => {},
        }
        i = i + 1;
    }
    assert(nodes@.subrange(i as int, nodes@.len() as int).len() == 0);
    None
}

/// The outline line of a top-level section: `  - <title> (pp. <start>-<end>)`.
pub open spec fn section_line(n: TreeNode) -> Seq<char> {
    "  - "@ + n.title@ + " (pp. "@ + decimal(n.page_start as nat) + "-"@ + decimal(
        n.page_end as nat,
    ) + ")"@
}

/// The outline of a document for section selection: its name, then one line per
/// top-level section.
pub open spec fn tree_summary_of(doc: PageIndexDoc) -> Seq<char> {
    "Document: "@ + doc.doc_name@ + "\n"@ + join(
        doc.tree@.map_values(|n: TreeNode| section_line(n)),
        "\n"@,
    )
}

/// The outline of a document shown to the model when it selects sections.
pub fn tree_summary(doc: &PageIndexDoc) -> (r: String)
    ensures
        r@ == tree_summary_of(*doc),
{
    let mut lines: Vec<String> = Vec::new();
    let mut i: usize = 0;
    while i < doc.tree.len()
        invariant
            i <= doc.tree@.len(),
            lines@.map_values(|s: String| s@) == doc.tree@.take(i as int).map_values(
                |n: TreeNode| section_line(n),
            ),
        decreases doc.tree@.len() - i,
    {
        let n = &doc.tree[i];
        let mut l = String::from_str("  - ");
        l.append(n.title.as_str());
        l.append(" (pp. ");
        push_decimal(&mut l, n.page_start as u64);
        l.append("-");
        push_decimal(&mut l, n.page_end as u64);
        l.append(")");
        let ghost prev = lines@.map_values(|s: String| s@);
        let ghost lv = l@;
        lines.push(l);
        proof {
            assert(lines@.map_values(|s: String| s@) =~= prev.push(lv));
            assert(doc.tree@.take(i + 1).map_values(|n: TreeNode| section_line(n)) =~= doc.tree@.take(
                i as int,
            ).map_values(|n: TreeNode| section_line(n)).push(section_line(doc.tree@[i as int])));
        }
        i = i + 1;
    }
    assert(doc.tree@.take(doc.tree@.len() as int) =~= doc.tree@);
    let outline = join_strings(&lines, "\n");
    let mut r = String::from_str("Document: ");
    r.append(doc.doc_name.as_str());
    r.append("\n");
    r.append(outline.as_str());
    r
}

/// An excerpt block of a selected section: a heading linking the summary page, the
/// document's resource paths, then the section text.
pub open spec fn excerpt_of(
    doc_name: Seq<char>,
    page: Seq<char>,
    title: Seq<char>,
    sources: Seq<Seq<char>>,
    text: Seq<char>,
) -> Seq<char> {
    "### ["@ + doc_name + "]("@ + page + "): "@ + title + "\n"@ + resource_lines(sources) + text
}

/// The excerpt block of a selected section of a long document.
pub fn excerpt_block(
    doc_name: &str,
    page: &str,
    title: &str,
    sources: &Vec<String>,
    text: &str,
) -> (r: String)
    ensures
        r@ == excerpt_of(doc_name@, page@, title@, sources@.map_values(|s: String| s@), text@),
{
    let ghost srcs = sources@.map_values(|s: String| s@);
    let mut h = String::from_str("### [");
    h.append(doc_name);
    h.append("](");
    h.append(page);
    h.append("): ");
    h.append(title);
    h.append("\n");
    let ghost head = h@;
    let mut i: usize = 0;
    while i < sources.len()
        invariant
            i <= sources.len(),
            srcs == sources@.map_values(|s: String| s@),
            h@ == head + resource_lines(srcs.take(i as int)),
        decreases sources.len() - i,
    {
        h.append("Resource: ");
        h.append(sources[i].as_str());
        h.append("\n");
        proof {
            let t = srcs.take(i + 1);
            assert(t.drop_last() =~= srcs.take(i as int));
        }
        i = i + 1;
    }
    assert(srcs.take(sources.len() as int) =~= srcs);
    h.append(text);
    h
}

/// The position of the first document named `name`.
pub fn find_doc(docs: &Vec<PageIndexDoc>, name: &str) -> (r: Option<usize>)
    ensures
        r matches Some(i) ==> i < docs.len() && docs@[i as int].doc_name@ == name@ && forall|j: int|
            0 <= j < i ==> (#[trigger] docs@[j]).doc_name@ != name@,
        r is None ==> forall|j: int| 0 <= j < docs.len() ==> (#[trigger] docs@[j]).doc_name@ != name@,
{
    let mut i: usize = 0;
    while i < docs.len()
        invariant
            i <= docs.len(),
            forall|j: int| 0 <= j < i ==> (#[trigger] docs@[j]).doc_name@ != name@,
        decreases docs.len() - i,
    {
        if str_eq(docs[i].doc_name.as_str(), name) {
            return Some(i);
        }
        i = i + 1;
    }
    None
}

/// The context of the selected long-document sections: a heading, then the excerpt
/// blocks, one per line.
pub fn long_doc_context(blocks: &Vec<String>) -> (r: String)
    ensures
        r@ == join(seq!["\n## Long document excerpts\n"@] + blocks@.map_values(|s: String| s@), "\n"@),
{
    let mut parts: Vec<String> = Vec::new();
    parts.push(String::from_str("\n## Long document excerpts\n"));
    let ghost head = parts@.map_values(|s: String| s@);
    let mut i: usize = 0;
    while i < blocks.len()
        invariant
            i <= blocks.len(),
            parts@.map_values(|s: String| s@) == head + blocks@.take(i as int).map_values(
                |s: String| s@,
            ),
        decreases blocks.len() - i,
    {
        let ghost before = parts@.map_values(|s: String| s@);
        let b = blocks[i].clone();
        let ghost bv = b@;
        parts.push(b);
        assert(parts@.map_values(|s: String| s@) =~= before.push(bv));
        assert(blocks@.take(i + 1).map_values(|s: String| s@) =~= blocks@.take(i as int).map_values(
            |s: String| s@,
        ).push(blocks@[i as int]@));
        i = i + 1;
    }
    assert(blocks@.take(blocks.len() as int) =~= blocks@);
    assert(head =~= seq!["\n## Long document excerpts\n"@]);
    join_strings(&parts, "\n")
}

/// How many pages of each of the summary, concept and entity directories a query's
/// context holds.
pub const CONTEXT_PAGES_PER_DIR: usize = 30;

/// The directories a query's wiki context is read from, each with its kind: the summary,
/// concept and entity directories of the zone asked.
pub open spec fn context_dirs_of(p: KbPaths, scope: WikiScope) -> Seq<(Seq<char>, Seq<char>)> {
    match scope {
        WikiScope::Public => seq![
            (p.summaries@, "summaries"@),
            (p.concepts@, "concepts"@),
            (p.entities@, "entities"@),
        ],
        WikiScope::Private => seq![
            (path_join(p.private_wiki@, "summaries"@), "summaries"@),
            (path_join(p.private_wiki@, "concepts"@), "concepts"@),
            (path_join(p.private_wiki@, "entities"@), "entities"@),
        ],
    }
}

/// The directories a query's wiki context is read from, each with its kind.
pub fn context_dirs(p: &KbPaths, scope: WikiScope) -> (r: Vec<(String, String)>)
    ensures
        r@.map_values(|d: (String, String)| (d.0@, d.1@)) == context_dirs_of(*p, scope),
{
    let layout = p.layout(scope);
    let mut r: Vec<(String, String)> = Vec::new();
    r.push((layout.summaries, String::from_str("summaries")));
    r.push((layout.concepts, String::from_str("concepts")));
    r.push((layout.entities, String::from_str("entities")));
    assert(r@.map_values(|d: (String, String)| (d.0@, d.1@)) =~= context_dirs_of(*p, scope));
    r
}

/// A public query reads no private page: no directory its wiki context is read from lies
/// under a content directory of the private wiki, nor holds one.
pub proof fn law_public_context_apart(p: KbPaths, root: Seq<char>)
    requires
        layout_of_root(p, root),
    ensures
        forall|i: int, j: int|
            0 <= i < 3 && 0 <= j < 4 ==> !under(
                #[trigger] context_dirs_of(p, WikiScope::Public)[i].0,
                #[trigger] private_content_dirs(p)[j],
            ) && !under(private_content_dirs(p)[j], context_dirs_of(p, WikiScope::Public)[i].0),
{
    crate::kb::law_private_zone_apart(p, root);
    let public = seq![p.summaries@, p.concepts@, p.entities@, p.sources@];
    let private = private_content_dirs(p);
    assert forall|i: int, j: int| 0 <= i < 3 && 0 <= j < 4 implies !under(
        #[trigger] context_dirs_of(p, WikiScope::Public)[i].0,
        #[trigger] private_content_dirs(p)[j],
    ) && !under(private_content_dirs(p)[j], context_dirs_of(p, WikiScope::Public)[i].0) by {
        assert(context_dirs_of(p, WikiScope::Public)[i].0 == public[i]);
        assert(!under(private[j], public[i]) && !under(public[i], private[j]));
    }
}

/// The context block of one wiki page: `kind` its directory, `slug` its file stem, `text`
/// its markdown.
pub open spec fn page_context(scope: WikiScope, kind: Seq<char>, slug: Seq<char>, text: Seq<char>) -> Seq<
    char,
> {
    context_block(page_id(scope, kind, slug) + ".md"@, text, sources_of(text))
}

/// The wiki part of a query's context: the blocks of the pages, one per line.
pub open spec fn wiki_context_of(scope: WikiScope, pages: Seq<(Seq<char>, Seq<char>, Seq<char>)>) -> Seq<
    char,
> {
    join(
        pages.map_values(
            |p: (Seq<char>, Seq<char>, Seq<char>)| page_context(scope, p.0, p.1, p.2),
        ),
        "\n"@,
    )
}

/// The views of pages given as directory, file stem and markdown.
pub open spec fn page_views(pages: Seq<(String, String, String)>) -> Seq<
    (Seq<char>, Seq<char>, Seq<char>),
> {
    pages.map_values(|p: (String, String, String)| (p.0@, p.1@, p.2@))
}

/// The wiki part of a query's context from the pages read (each its directory, file stem
/// and markdown): the context block of each page, in order, one per line.
pub fn wiki_context(scope: WikiScope, pages: &Vec<(String, String, String)>) -> (r: String)
    ensures
        r@ == wiki_context_of(scope, page_views(pages@)),
{
    let ghost want = page_views(pages@).map_values(
        |p: (Seq<char>, Seq<char>, Seq<char>)| page_context(scope, p.0, p.1, p.2),
    );
    let mut parts: Vec<String> = Vec::new();
    let mut i: usize = 0;
    while i < pages.len()
        invariant
            i <= pages.len(),
            want == page_views(pages@).map_values(
                |p: (Seq<char>, Seq<char>, Seq<char>)| page_context(scope, p.0, p.1, p.2),
            ),
            views(parts@) == want.take(i as int),
        decreases pages.len() - i,
    {
        let path = okf_page_path(scope, pages[i].0.as_str(), pages[i].1.as_str());
        let block = format_context_page(path.as_str(), pages[i].2.as_str());
        let ghost before = views(parts@);
        let ghost bv = block@;
        parts.push(block);
        assert(views(parts@) =~= before.push(bv));
        assert(bv == want[i as int]);
        assert(want.take(i + 1) =~= want.take(i as int).push(bv));
        i = i + 1;
    }
    assert(want.take(pages.len() as int) =~= want);
    join_strings(&parts, "\n")
}

/// The first document named `name`, by index.
pub open spec fn first_doc(docs: Seq<PageIndexDoc>, name: Seq<char>) -> Option<int> {
    if exists|i: int| 0 <= i < docs.len() && (#[trigger] docs[i]).doc_name@ == name {
        Some(
            choose|i: int|
                0 <= i < docs.len() && (#[trigger] docs[i]).doc_name@ == name && forall|j: int|
                    0 <= j < i ==> (#[trigger] docs[j]).doc_name@ != name,
        )
    } else {
        None
    }
}

/// The excerpt block of one selection of the model (`doc_name`, `title`), with the
/// source paths of the document's summary: the text of the first section titled `title`
/// in the first document named `doc_name`; `None` when there is no such document or
/// section.
pub open spec fn pick_block(
    docs: Seq<PageIndexDoc>,
    doc_name: Seq<char>,
    title: Seq<char>,
    sources: Seq<Seq<char>>,
    scope: WikiScope,
) -> Option<Seq<char>> {
    match first_doc(docs, doc_name) {
        Some(i) => match find_in(docs[i].tree@, title) {
            Some(node) => Some(
                excerpt_of(
                    doc_name,
                    page_id(scope, "summaries"@, doc_name) + ".md"@,
                    title,
                    sources,
                    join(page_blocks(docs[i].pages@, node.page_start, node.page_end), "\n\n"@),
                ),
            ),
            None => None,
        },
        None => None,
    }
}

/// The blocks that are present, in order.
pub open spec fn present_blocks(blocks: Seq<Option<Seq<char>>>) -> Seq<Seq<char>>
    decreases blocks.len(),
{
    if blocks.len() == 0 {
        seq![]
    } else {
        let rest = present_blocks(blocks.drop_last());
        match blocks.last() {
            Some(b) => rest.push(b),
            None => rest,
        }
    }
}

/// The excerpt blocks of the model's selections, each with the summary sources at the
/// same position of `sources`: those whose document and section exist, in order.
pub open spec fn selection_blocks_of(
    docs: Seq<PageIndexDoc>,
    picks: Seq<(Seq<char>, Seq<char>)>,
    sources: Seq<Seq<Seq<char>>>,
    scope: WikiScope,
) -> Seq<Seq<char>> {
    present_blocks(
        Seq::new(
            picks.len(),
            |i: int| pick_block(docs, picks[i].0, picks[i].1, sources[i], scope),
        ),
    )
}

proof fn lemma_first_doc(docs: Seq<PageIndexDoc>, name: Seq<char>, i: int)
    requires
        0 <= i < docs.len(),
        docs[i].doc_name@ == name,
        forall|j: int| 0 <= j < i ==> (#[trigger] docs[j]).doc_name@ != name,
    ensures
        first_doc(docs, name) == Some(i),
{
    let c = choose|c: int|
        0 <= c < docs.len() && (#[trigger] docs[c]).doc_name@ == name && forall|j: int|
            0 <= j < c ==> (#[trigger] docs[j]).doc_name@ != name;
    assert(docs[i].doc_name@ == name);
    if c < i {
        assert(docs[c].doc_name@ != name);
    } else if c > i {
        assert(docs[i].doc_name@ != name);
    }
}

/// The excerpt blocks of the model's selections of sections (`picks`, each a document
/// name and a section title), `sources[k]` being the summary sources of the document of
/// `picks[k]`: for each selection whose document and section exist, the section's text
/// under a heading, in order.
pub fn selection_blocks(
    docs: &Vec<PageIndexDoc>,
    picks: &Vec<(String, String)>,
    sources: &Vec<Vec<String>>,
    scope: WikiScope,
) -> (r: Vec<String>)
    requires
        sources.len() == picks.len(),
    ensures
        views(r@) == selection_blocks_of(
            docs@,
            picks@.map_values(|p: (String, String)| (p.0@, p.1@)),
            sources@.map_values(|v: Vec<String>| views(v@)),
            scope,
        ),
{
    let ghost pv = picks@.map_values(|p: (String, String)| (p.0@, p.1@));
    let ghost sv = sources@.map_values(|v: Vec<String>| views(v@));
    let ghost all = Seq::new(
        pv.len(),
        |i: int| pick_block(docs@, pv[i].0, pv[i].1, sv[i], scope),
    );
    let mut blocks: Vec<String> = Vec::new();
    let mut k: usize = 0;
    while k < picks.len()
        invariant
            k <= picks.len(),
            sources.len() == picks.len(),
            pv == picks@.map_values(|p: (String, String)| (p.0@, p.1@)),
            sv == sources@.map_values(|v: Vec<String>| views(v@)),
            all == Seq::new(
                pv.len(),
                |i: int| pick_block(docs@, pv[i].0, pv[i].1, sv[i], scope),
            ),
            views(blocks@) == present_blocks(all.take(k as int)),
        decreases picks.len() - k,
    {
        let doc_name = picks[k].0.as_str();
        let title = picks[k].1.as_str();
        let ghost before = views(blocks@);
        assert(all.take(k + 1).drop_last() =~= all.take(k as int));
        assert(pv[k as int] == (doc_name@, title@));
        assert(sv[k as int] == sources@[k as int]@.map_values(|s: String| s@));
        match find_doc(docs, doc_name) {
            Some(i) => {
                proof {
                    lemma_first_doc(docs@, doc_name@, i as int);
                }
                let doc = &docs[i];
                match find_node(&doc.tree, title) {
                    Some(node) => {
                        let page = okf_page_path(scope, "summaries", doc_name);
                        let text = crate::index::node_text(doc, node);
                        let b = excerpt_block(doc_name, page.as_str(), title, &sources[k], text.as_str());
                        let ghost bv = b@;
                        blocks.push(b);
                        assert(views(blocks@) =~= before.push(bv));
                        assert(all[k as int] == Some(bv));
                    },
                    None => {
                        assert(all[k as int] is None);
                    },
                }
            },
            None => {
                assert(first_doc(docs@, doc_name@) is None);
                assert(all[k as int] is None);
            },
        }
        k = k + 1;
    }
    assert(all.take(picks.len() as int) =~= all);
    blocks
}

} // verus!
