//! Page indexes of long documents: section trees over page ranges, their outline,
//! and the text of a section.
use vstd::prelude::*;

use crate::text::{chars_of, decimal, join, join_strings, push_decimal, string_of_range};

verus! {

/// A section of a long document, covering pages `page_start..=page_end`.
#[derive(Debug)]
pub struct TreeNode {
    pub title: String,
    pub page_start: u32,
    pub page_end: u32,
    pub children: Vec<TreeNode>,
    pub summary: Option<String>,
}

/// The page index of a long document: its section tree and the text of each page.
#[derive(Debug)]
pub struct PageIndexDoc {
    pub doc_name: String,
    pub page_count: u32,
    pub tree: Vec<TreeNode>,
    pub pages: Vec<PageText>,
}

/// The text of one page (pages count from 1).
#[derive(Debug, Clone)]
pub struct PageText {
    pub page: u32,
    pub text: String,
}

/// The outline line of a section and the lines of its subsections, each level
/// indented two spaces more.
pub open spec fn node_outline(n: TreeNode, indent: Seq<char>) -> Seq<char>
    decreases n,
{
    indent + "- "@ + n.title@ + " (pp. "@ + decimal(n.page_start as nat) + "-"@ + decimal(
        n.page_end as nat,
    ) + ")\n"@ + forest_outline(n.children@, indent + "  "@)
}

/// The outlines of a list of sections, in order.
pub open spec fn forest_outline(ns: Seq<TreeNode>, indent: Seq<char>) -> Seq<char>
    decreases ns,
{
    if ns.len() == 0 {
        seq![]
    } else {
        forest_outline(ns.drop_last(), indent) + node_outline(ns.last(), indent)
    }
}

fn append_node(out: &mut String, node: &TreeNode, indent: &str)
    ensures
        final(out)@ == old(out)@ + node_outline(*node, indent@),
    decreases node,
{
    out.append(indent);
    out.append("- ");
    out.append(node.title.as_str());
    out.append(" (pp. ");
    push_decimal(out, node.page_start as u64);
    out.append("-");
    push_decimal(out, node.page_end as u64);
    out.append(")\n");
    let mut child_indent = String::from_str(indent);
    child_indent.append("  ");
    let ghost start = out@;
    let mut i: usize = 0;
    while i < node.children.len()
        invariant
            i <= node.children@.len(),
            out@ == start + forest_outline(node.children@.take(i as int), child_indent@),
        decreases node.children@.len() - i,
    {
        proof {
            assert(decreases_to!(*node => node.children));
        }
        append_node(out, &node.children[i], child_indent.as_str());
        proof {
            let t = node.children@.take(i + 1);
            assert(t.drop_last() =~= node.children@.take(i as int));
        }
        i = i + 1;
    }
    assert(node.children@.take(node.children@.len() as int) =~= node.children@);
}

/// The outline of a long document: its name, page count and section tree.
pub open spec fn overview_of(doc: PageIndexDoc) -> Seq<char> {
    "# "@ + doc.doc_name@ + "\n\nPageIndex tree ("@ + decimal(doc.page_count as nat) + " pages)\n\n"@
        + forest_outline(doc.tree@, seq![])
}

/// Markdown outline of a page index.
pub fn tree_overview_markdown(doc: &PageIndexDoc) -> (r: String)
    ensures
        r@ == overview_of(*doc),
{
    let mut out = String::from_str("# ");
    out.append(doc.doc_name.as_str());
    out.append("\n\nPageIndex tree (");
    push_decimal(&mut out, doc.page_count as u64);
    out.append(" pages)\n\n");
    let ghost start = out@;
    let empty = String::new();
    let mut i: usize = 0;
    while i < doc.tree.len()
        invariant
            i <= doc.tree@.len(),
            empty@ == Seq::<char>::empty(),
            out@ == start + forest_outline(doc.tree@.take(i as int), seq![]),
        decreases doc.tree@.len() - i,
    {
        append_node(&mut out, &doc.tree[i], empty.as_str());
        proof {
            let t = doc.tree@.take(i + 1);
            assert(t.drop_last() =~= doc.tree@.take(i as int));
        }
        i = i + 1;
    }
    assert(doc.tree@.take(doc.tree@.len() as int) =~= doc.tree@);
    out
}

/// The blocks `## Page <n>\n<text>` of the pages within `start..=end`, in order.
pub open spec fn page_blocks(pages: Seq<PageText>, start: u32, end: u32) -> Seq<Seq<char>>
    decreases pages.len(),
{
    if pages.len() == 0 {
        seq![]
    } else {
        let prev = page_blocks(pages.drop_last(), start, end);
        let p = pages.last();
        if p.page >= start && p.page <= end {
            prev.push("## Page "@ + decimal(p.page as nat) + "\n"@ + p.text@)
        } else {
            prev
        }
    }
}

/// The text of a section: the blocks of its pages separated by blank lines.
pub fn node_text(doc: &PageIndexDoc, node: &TreeNode) -> (r: String)
    ensures
        r@ == join(page_blocks(doc.pages@, node.page_start, node.page_end), "\n\n"@),
{
    let mut blocks: Vec<String> = Vec::new();
    let mut i: usize = 0;
    while i < doc.pages.len()
        invariant
            i <= doc.pages@.len(),
            blocks@.map_values(|s: String| s@) == page_blocks(
                doc.pages@.take(i as int),
                node.page_start,
                node.page_end,
            ),
        decreases doc.pages@.len() - i,
    {
        let p = &doc.pages[i];
        let ghost prev = blocks@.map_values(|s: String| s@);
        proof {
            let t = doc.pages@.take(i + 1);
            assert(t.drop_last() =~= doc.pages@.take(i as int));
            assert(t.last() == *p);
        }
        if p.page >= node.page_start && p.page <= node.page_end {
            let mut b = String::from_str("## Page ");
            push_decimal(&mut b, p.page as u64);
            b.append("\n");
            b.append(p.text.as_str());
            let ghost bv = b@;
            blocks.push(b);
            assert(blocks@.map_values(|s: String| s@) =~= prev.push(bv));
        }
        i = i + 1;
    }
    assert(doc.pages@.take(doc.pages@.len() as int) =~= doc.pages@);
    join_strings(&blocks, "\n\n")
}

/// `s` cut to `max` characters with an ellipsis, when longer.
pub open spec fn truncated(s: Seq<char>, max: nat) -> Seq<char> {
    if s.len() <= max {
        s
    } else {
        s.take(max as int) + "…"@
    }
}

/// Cuts `s` to `max` characters, marking the cut with `…`.
pub fn truncate(s: &str, max: usize) -> (r: String)
    ensures
        r@ == truncated(s@, max as nat),
{
    let v = chars_of(s);
    if v.len() <= max {
        return String::from_str(s);
    }
    let mut r = string_of_range(&v, 0, max);
    r.append("…");
    r
}

/// Title of a default section: `Pages <start>-<end>`.
pub open spec fn pages_title(start: u32, end: u32) -> Seq<char> {
    "Pages "@ + decimal(start as nat) + "-"@ + decimal(end as nat)
}

/// Section size of the default tree: a quarter of the pages, at least one.
pub open spec fn default_chunk(page_count: u32) -> int {
    if page_count / 4 >= 1 {
        (page_count / 4) as int
    } else {
        1
    }
}

/// The tree used when the model gives none: consecutive sections of a quarter of the
/// pages each (at least one page), the last one shorter, covering pages `1..=page_count`.
pub fn default_tree(page_count: u32) -> (r: Vec<TreeNode>)
    requires
        page_count < u32::MAX,
    ensures
        page_count == 0 ==> r@.len() == 0,
        page_count > 0 ==> r@.len() > 0 && r@[0].page_start == 1 && r@[r@.len() - 1].page_end
            == page_count,
        forall|k: int|
            0 <= k < r@.len() ==> {
                &&& 1 <= (#[trigger] r@[k]).page_start <= r@[k].page_end <= page_count
                &&& r@[k].page_end == if r@[k].page_start + default_chunk(page_count) - 1
                    <= page_count {
                    r@[k].page_start + default_chunk(page_count) - 1
                } else {
                    page_count as int
                }
                &&& r@[k].title@ == pages_title(r@[k].page_start, r@[k].page_end)
                &&& r@[k].children@.len() == 0
                &&& r@[k].summary is None
            },
        forall|k: int| 0 <= k < r@.len() - 1 ==> #[trigger] r@[k + 1].page_start == r@[k].page_end + 1,
{
    let chunk: u32 = if page_count / 4 >= 1 {
        page_count / 4
    } else {
        1
    };
    let mut tree: Vec<TreeNode> = Vec::new();
    let mut start: u32 = 1;
    while start <= page_count
        invariant
            1 <= start <= page_count + 1,
            page_count < u32::MAX,
            chunk == default_chunk(page_count),
            tree@.len() == 0 ==> start == 1,
            tree@.len() > 0 ==> tree@[tree@.len() - 1].page_end + 1 == start,
            tree@.len() > 0 ==> tree@[0].page_start == 1,
            forall|k: int|
                0 <= k < tree@.len() ==> {
                    &&& 1 <= (#[trigger] tree@[k]).page_start <= tree@[k].page_end <= page_count
                    &&& tree@[k].page_end == if tree@[k].page_start + default_chunk(page_count)
                        - 1 <= page_count {
                        tree@[k].page_start + default_chunk(page_count) - 1
                    } else {
                        page_count as int
                    }
                    &&& tree@[k].title@ == pages_title(tree@[k].page_start, tree@[k].page_end)
                    &&& tree@[k].children@.len() == 0
                    &&& tree@[k].summary is None
                },
            forall|k: int|
                0 <= k < tree@.len() - 1 ==> #[trigger] tree@[k + 1].page_start == tree@[k].page_end
                    + 1,
        decreases page_count + 1 - start,
    {
        let end: u32 = if (start as u64) + (chunk as u64) - 1 <= page_count as u64 {
            start + chunk - 1
        } else {
            page_count
        };
        let mut title = String::from_str("Pages ");
        push_decimal(&mut title, start as u64);
        title.append("-");
        push_decimal(&mut title, end as u64);
        let ghost old_tree = tree@;
        tree.push(
            TreeNode { title, page_start: start, page_end: end, children: Vec::new(), summary: None },
        );
        assert forall|k: int| 0 <= k < tree@.len() - 1 implies #[trigger] tree@[k + 1].page_start
            == tree@[k].page_end + 1 by {
            if k + 1 < old_tree.len() {
                assert(old_tree[k + 1] == tree@[k + 1]);
                assert(old_tree[k] == tree@[k]);
            }
        }
        start = end + 1;
    }
    tree
}

/// One page of the sample shown to the model: `## Page <n>`, then its text cut to 800
/// characters.
pub open spec fn sample_block(p: PageText) -> Seq<char> {
    "## Page "@ + decimal(p.page as nat) + "\n"@ + truncated(p.text@, 800) + "\n"@
}

/// The sample blocks of the pages, in order.
pub open spec fn page_sample(pages: Seq<PageText>) -> Seq<char>
    decreases pages.len(),
{
    if pages.len() == 0 {
        seq![]
    } else {
        page_sample(pages.drop_last()) + sample_block(pages.last())
    }
}

/// The sample of a long document that the model sees when it builds the section tree:
/// its first 30 pages.
pub fn tree_sample(pages: &Vec<PageText>) -> (r: String)
    ensures
        r@ == page_sample(pages@.take(if pages.len() < 30 { pages.len() as int } else { 30 })),
{
    let n: usize = if pages.len() < 30 {
        pages.len()
    } else {
        30
    };
    let mut r = String::new();
    let mut i: usize = 0;
    while i < n
        invariant
            i <= n <= pages.len(),
            r@ == page_sample(pages@.take(i as int)),
        decreases n - i,
    {
        let p = &pages[i];
        r.append("## Page ");
        push_decimal(&mut r, p.page as u64);
        r.append("\n");
        let t = truncate(p.text.as_str(), 800);
        r.append(t.as_str());
        r.append("\n");
        assert(pages@.take(i + 1).drop_last() =~= pages@.take(i as int));
        assert(r@ =~= page_sample(pages@.take(i + 1)));
        i = i + 1;
    }
    r
}

/// The instructions for building a section tree.
pub fn tree_system_prompt() -> (r: &'static str)
    ensures
        r@ == "You build hierarchical table-of-contents trees for long PDFs. Return ONLY valid JSON."@,
{
    "You build hierarchical table-of-contents trees for long PDFs. Return ONLY valid JSON."
}

/// The request for a section tree of a long document from its sample pages.
pub fn tree_user(doc_name: &str, page_count: usize, sample: &str) -> (r: String)
    ensures
        r@ == "Document: "@ + doc_name@ + "\nPages: "@ + decimal(page_count as nat)
            + "\n\nSample page text:\n"@ + sample@
            + "\n\nReturn JSON: {\"tree\": [{\"title\": \"...\", \"page_start\": 1, \"page_end\": N, \"children\": [...]}]}\nBuild 3-8 top-level sections covering all pages. page_start/page_end are inclusive."@,
{
    let mut r = String::from_str("Document: ");
    r.append(doc_name);
    r.append("\nPages: ");
    push_decimal(&mut r, page_count as u64);
    r.append("\n\nSample page text:\n");
    r.append(sample);
    r.append(
        "\n\nReturn JSON: {\"tree\": [{\"title\": \"...\", \"page_start\": 1, \"page_end\": N, \"children\": [...]}]}\nBuild 3-8 top-level sections covering all pages. page_start/page_end are inclusive.",
    );
    r
}

} // verus!
