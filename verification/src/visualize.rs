//! The wikilink graph of the wiki: one node per page of the summary, concept and entity
//! directories, one edge per distinct `[[link]]` from a page to another page.
use vstd::prelude::*;

use crate::llm::client::first_nonblank;
use crate::text::{
    char_seq_lt, char_vec_lt, chars_of, find_first, find_from_exec, join, join_strings, lowercase,
    push_char, split_on, split_vec, str_eq, string_of, string_of_range, subvec, to_lowercase,
    trim, trim_string, trim_vec, vec_views, views, replace_str, replaced,
};
use crate::wiki::{
    frontmatter_body, frontmatter_list_item, frontmatter_list_len, frontmatter_string, yaml_body,
    yaml_list_item, yaml_list_len, yaml_str_field,
};

verus! {

// ---------------------------------------------------------------------------
// Link targets
// ---------------------------------------------------------------------------

/// `s` with every `a` replaced by `b`.
pub open spec fn replace_char(s: Seq<char>, a: char, b: char) -> Seq<char> {
    s.map_values(|c: char| if c == a { b } else { c })
}

/// The non-empty entries of `parts`, in order.
pub open spec fn nonempty_parts(parts: Seq<Seq<char>>) -> Seq<Seq<char>>
    decreases parts.len(),
{
    if parts.len() == 0 {
        seq![]
    } else {
        let p = nonempty_parts(parts.drop_last());
        if parts.last().len() > 0 {
            p.push(parts.last())
        } else {
            p
        }
    }
}

/// A path segment with its runs of `-` collapsed and its leading and trailing `-`
/// dropped: the non-empty pieces between dashes, joined by single dashes.
pub open spec fn collapse_dashes(seg: Seq<char>) -> Seq<char> {
    join(nonempty_parts(split_on(seg, seq!['-'])), seq!['-'])
}

/// The form in which link targets and page ids are compared: lower case, `_` read as
/// `-`, and each `/`-separated segment with its dashes collapsed.
pub open spec fn normalized(target: Seq<char>) -> Seq<char> {
    join(
        split_on(replace_char(lowercase(target), '_', '-'), seq!['/']).map_values(
            |seg: Seq<char>| collapse_dashes(seg),
        ),
        seq!['/'],
    )
}

fn replace_chars(v: &Vec<char>, a: char, b: char) -> (r: Vec<char>)
    ensures
        r@ == replace_char(v@, a, b),
{
    let mut r: Vec<char> = Vec::new();
    let mut i: usize = 0;
    while i < v.len()
        invariant
            i <= v.len(),
            r@ == replace_char(v@.take(i as int), a, b),
        decreases v.len() - i,
    {
        let c = v[i];
        r.push(if c == a { b } else { c });
        i = i + 1;
        assert(r@ =~= replace_char(v@.take(i as int), a, b));
    }
    assert(v@.take(v.len() as int) =~= v@);
    r
}

fn single(c: char) -> (r: Vec<char>)
    ensures
        r@ == seq![c],
{
    let mut r: Vec<char> = Vec::new();
    r.push(c);
    assert(r@ =~= seq![c]);
    r
}

fn collapse_dashes_exec(seg: &Vec<char>) -> (r: String)
    ensures
        r@ == collapse_dashes(seg@),
{
    let dash = single('-');
    let parts = split_vec(seg, &dash);
    let ghost pv = vec_views(parts@);
    let mut keep: Vec<String> = Vec::new();
    let mut m: usize = 0;
    while m < parts.len()
        invariant
            m <= parts.len(),
            pv == vec_views(parts@),
            views(keep@) == nonempty_parts(pv.take(m as int)),
        decreases parts.len() - m,
    {
        let ghost before = views(keep@);
        assert(pv.take(m + 1).drop_last() =~= pv.take(m as int));
        if parts[m].len() > 0 {
            let s = string_of(&parts[m]);
            keep.push(s);
            assert(views(keep@) =~= before.push(pv[m as int]));
        }
        m = m + 1;
    }
    assert(pv.take(parts.len() as int) =~= pv);
    let r = join_strings(&keep, "-");
    proof {
        reveal_strlit("-");
        assert("-"@ =~= seq!['-']);
    }
    r
}

/// The normalized form of a link target or page id.
pub fn normalize_target(target: &str) -> (r: String)
    ensures
        r@ == normalized(target@),
        crate::text::lowercase_facts(target@),
{
    let lower = to_lowercase(target);
    let v = chars_of(lower.as_str());
    let w = replace_chars(&v, '_', '-');
    let slash = single('/');
    let segs = split_vec(&w, &slash);
    let ghost sv = vec_views(segs@);
    let mut outs: Vec<String> = Vec::new();
    let mut k: usize = 0;
    while k < segs.len()
        invariant
            k <= segs.len(),
            sv == vec_views(segs@),
            views(outs@) == sv.take(k as int).map_values(|seg: Seq<char>| collapse_dashes(seg)),
        decreases segs.len() - k,
    {
        let ghost before = views(outs@);
        let c = collapse_dashes_exec(&segs[k]);
        assert(segs@[k as int]@ == sv[k as int]);
        let ghost cv = c@;
        outs.push(c);
        assert(views(outs@) =~= before.push(cv));
        assert(sv.take(k + 1).drop_last() =~= sv.take(k as int));
        k = k + 1;
        assert(views(outs@) =~= sv.take(k as int).map_values(
            |seg: Seq<char>| collapse_dashes(seg),
        ));
    }
    assert(sv.take(segs.len() as int) =~= sv);
    let r = join_strings(&outs, "/");
    proof {
        reveal_strlit("/");
        assert("/"@ =~= seq!['/']);
    }
    r
}

// ---------------------------------------------------------------------------
// Page descriptions
// ---------------------------------------------------------------------------

/// What a page is described by when nothing in its front matter says so: the first
/// non-blank line of the first paragraph that is not a heading.
pub open spec fn clip_excerpt(line: Seq<char>) -> Seq<char> {
    if line.len() > 240 {
        line.take(240).push('…')
    } else {
        line
    }
}

/// The first non-blank line of a block, trimmed (empty when there is none).
pub open spec fn block_line(block: Seq<char>) -> Seq<char> {
    trim(first_nonblank(split_on(block, seq!['\n'])))
}

/// The excerpt of the first block whose first non-blank line is not a heading: that line,
/// clipped to 240 characters with `…` when longer; empty when there is no such block.
pub open spec fn excerpt_of_blocks(blocks: Seq<Seq<char>>) -> Seq<char>
    decreases blocks.len(),
{
    if blocks.len() == 0 {
        seq![]
    } else {
        let l = block_line(blocks[0]);
        if l.len() == 0 || l[0] == '#' {
            excerpt_of_blocks(blocks.drop_first())
        } else {
            clip_excerpt(l)
        }
    }
}

/// The excerpt of a page body, whose blocks are separated by blank lines (`"\n\n"`).
pub open spec fn excerpt(content: Seq<char>) -> Seq<char> {
    excerpt_of_blocks(split_on(content, seq!['\n', '\n']))
}

fn block_line_exec(block: &Vec<char>) -> (r: Vec<char>)
    ensures
        r@ == block_line(block@),
{
    let nl = single('\n');
    let ls = split_vec(block, &nl);
    let ghost lv = vec_views(ls@);
    let mut i: usize = 0;
    assert(lv.skip(0) =~= lv);
    while i < ls.len()
        invariant
            i <= ls.len(),
            lv == vec_views(ls@),
            lv == split_on(block@, seq!['\n']),
            first_nonblank(lv) == first_nonblank(lv.skip(i as int)),
        decreases ls.len() - i,
    {
        let t = trim_vec(&ls[i]);
        assert(lv.skip(i as int)[0] == ls@[i as int]@);
        if t.len() > 0 {
            assert(first_nonblank(lv.skip(i as int)) == ls@[i as int]@);
            return t;
        }
        assert(lv.skip(i as int).drop_first() =~= lv.skip(i + 1));
        i = i + 1;
    }
    assert(lv.skip(i as int).len() == 0);
    let r: Vec<char> = Vec::new();
    assert(trim(seq![]) =~= r@) by {
        reveal_with_fuel(crate::text::trim_start, 1);
        reveal_with_fuel(crate::text::trim_end, 1);
    }
    r
}

/// The excerpt that describes a page body: its first paragraph line that is not a
/// heading, at most 240 characters (then followed by `…`).
pub fn excerpt_from_body(content: &str) -> (r: String)
    ensures
        r@ == excerpt(content@),
{
    let v = chars_of(content);
    let mut pat = single('\n');
    pat.push('\n');
    assert(pat@ =~= seq!['\n', '\n']);
    let blocks = split_vec(&v, &pat);
    let ghost bv = vec_views(blocks@);
    let mut k: usize = 0;
    assert(bv.skip(0) =~= bv);
    while k < blocks.len()
        invariant
            k <= blocks.len(),
            bv == vec_views(blocks@),
            bv == split_on(content@, seq!['\n', '\n']),
            excerpt_of_blocks(bv) == excerpt_of_blocks(bv.skip(k as int)),
        decreases blocks.len() - k,
    {
        let line = block_line_exec(&blocks[k]);
        assert(bv.skip(k as int)[0] == blocks@[k as int]@);
        if line.len() > 0 && line[0] != '#' {
            assert(excerpt_of_blocks(bv) == clip_excerpt(line@));
            if line.len() > 240 {
                let mut out = string_of_range(&line, 0, 240);
                push_char(&mut out, '…');
                assert(line@.subrange(0, 240) =~= line@.take(240));
                return out;
            } else {
                return string_of(&line);
            }
        }
        assert(bv.skip(k as int).drop_first() =~= bv.skip(k + 1));
        k = k + 1;
    }
    String::new()
}

/// A trimmed, non-empty string value of the front matter.
pub open spec fn pod_str(text: Seq<char>, key: Seq<char>) -> Option<Seq<char>> {
    match yaml_str_field(text, key) {
        Some(s) => if trim(s).len() > 0 {
            Some(trim(s))
        } else {
            None
        },
        None => None,
    }
}

/// The characters a slug is made of.
pub open spec fn slug_char_ok(c: char) -> bool {
    crate::text::is_ascii_alnum(c) || c == '-' || c == '_'
}

/// `s` reads as a slug (non-empty, no spaces, only letters, digits, `-` and `_`) rather
/// than as a sentence.
pub open spec fn is_slug_like(s: Seq<char>) -> bool {
    s.len() > 0 && !s.contains(' ') && forall|i: int| 0 <= i < s.len() ==> slug_char_ok(#[trigger] s[i])
}

/// Whether `s` reads as a slug rather than as a sentence.
pub fn looks_like_slug(s: &str) -> (b: bool)
    ensures
        b == is_slug_like(s@),
{
    let v = chars_of(s);
    if v.len() == 0 {
        return false;
    }
    let mut i: usize = 0;
    while i < v.len()
        invariant
            i <= v.len(),
            v@ == s@,
            forall|j: int| 0 <= j < i ==> slug_char_ok(#[trigger] v@[j]),
        decreases v.len() - i,
    {
        let c = v[i];
        if !(crate::text::is_ascii_alnum_exec(c) || c == '-' || c == '_') {
            assert(!slug_char_ok(v@[i as int]));
            return false;
        }
        i = i + 1;
    }
    assert(!v@.contains(' ')) by {
        if v@.contains(' ') {
            let j = choose|j: int| 0 <= j < v@.len() && v@[j] == ' ';
            assert(slug_char_ok(v@[j]));
        }
    }
    true
}

/// The string entries among the first `n` entries of the list under `key`.
pub open spec fn string_items(text: Seq<char>, key: Seq<char>, n: nat) -> Seq<Seq<char>>
    decreases n,
{
    if n == 0 {
        seq![]
    } else {
        let p = string_items(text, key, (n - 1) as nat);
        match yaml_list_item(text, key, (n - 1) as nat) {
            Some(s) => p.push(s),
            None => p,
        }
    }
}

/// An optional entry as a list of zero or one entries.
pub open spec fn opt_list(o: Option<Seq<char>>) -> Seq<Seq<char>> {
    match o {
        Some(s) => seq![s],
        None => seq![],
    }
}

/// A page's type: its front matter `type`, else the default of its directory.
pub open spec fn node_type_of(text: Seq<char>, default_type: Seq<char>) -> Seq<char> {
    match pod_str(text, "type"@) {
        Some(t) => t,
        None => default_type,
    }
}

/// A page's description: its front matter `description`, else its `title` when that
/// reads as a sentence, else the excerpt of its body.
pub open spec fn description_of(text: Seq<char>) -> Seq<char> {
    match pod_str(text, "description"@) {
        Some(d) => d,
        None => match pod_str(text, "title"@) {
            Some(t) => if !is_slug_like(t) {
                t
            } else {
                excerpt(yaml_body(text))
            },
            None => excerpt(yaml_body(text)),
        },
    }
}

/// A page's sources: its `full_text` path, its `source`, then the string entries of its
/// `sources` list.
pub open spec fn node_sources(text: Seq<char>) -> Seq<Seq<char>> {
    opt_list(pod_str(text, "full_text"@)) + opt_list(pod_str(text, "source"@)) + string_items(
        text,
        "sources"@,
        yaml_list_len(text, "sources"@),
    )
}

fn pod_str_exec(text: &str, key: &str) -> (r: Option<String>)
    ensures
        r matches Some(s) ==> pod_str(text@, key@) == Some(s@),
        r is None ==> pod_str(text@, key@) is None,
{
    match frontmatter_string(text, key) {
        Some(s) => {
            let t = trim_string(s.as_str());
            if t.as_str().unicode_len() > 0 {
                Some(t)
            } else {
                None
            }
        },
        None => None,
    }
}

/// Reads a page's type, description and sources from its front matter.
pub fn parse_frontmatter(text: &str, default_type: &str) -> (r: (String, String, Vec<String>))
    ensures
        r.0@ == node_type_of(text@, default_type@),
        r.1@ == description_of(text@),
        views(r.2@) == node_sources(text@),
{
    let node_type = match pod_str_exec(text, "type") {
        Some(t) => t,
        None => default_type.to_string(),
    };
    let mut sources: Vec<String> = Vec::new();
    match pod_str_exec(text, "full_text") {
        Some(f) => sources.push(f),
        None => {},
    }
    match pod_str_exec(text, "source") {
        Some(s) => sources.push(s),
        None => {},
    }
    let ghost head = views(sources@);
    assert(head =~= opt_list(pod_str(text@, "full_text"@)) + opt_list(pod_str(text@, "source"@)));
    let n = frontmatter_list_len(text, "sources");
    let mut i: usize = 0;
    while i < n
        invariant
            i <= n,
            n as nat == yaml_list_len(text@, "sources"@),
            views(sources@) == head + string_items(text@, "sources"@, i as nat),
        decreases n - i,
    {
        let ghost prev = views(sources@);
        match frontmatter_list_item(text, "sources", i) {
            Some(s) => {
                let ghost sv = s@;
                sources.push(s);
                assert(views(sources@) =~= prev.push(sv));
            },
            None => {},
        }
        i = i + 1;
    }
    let description = match pod_str_exec(text, "description") {
        Some(d) => d,
        None => {
            let from_title = match pod_str_exec(text, "title") {
                Some(t) => if !looks_like_slug(t.as_str()) {
                    Some(t)
                } else {
                    None
                },
                None => None,
            };
            match from_title {
                Some(t) => t,
                None => {
                    let body = frontmatter_body(text);
                    excerpt_from_body(body.as_str())
                },
            }
        },
    };
    (node_type, description, sources)
}

// ---------------------------------------------------------------------------
// The graph
// ---------------------------------------------------------------------------

/// The wiki directories whose pages are the nodes of the graph.
#[derive(Clone, Copy, Debug)]
pub enum ContentDir {
    Summaries,
    Concepts,
    Entities,
}

/// The name of a content directory.
pub open spec fn dir_name(d: ContentDir) -> Seq<char> {
    match d {
        ContentDir::Summaries => "summaries"@,
        ContentDir::Concepts => "concepts"@,
        ContentDir::Entities => "entities"@,
    }
}

/// The type of a page of a content directory whose front matter names none.
pub open spec fn dir_default_type(d: ContentDir) -> Seq<char> {
    match d {
        ContentDir::Summaries => "Summary"@,
        ContentDir::Concepts => "Concept"@,
        ContentDir::Entities => "Entity"@,
    }
}

impl ContentDir {
    /// The directory's name under the wiki.
    pub fn name(&self) -> (r: &'static str)
        ensures
            r@ == dir_name(*self),
    {
        match self {
            ContentDir::Summaries => "summaries",
            ContentDir::Concepts => "concepts",
            ContentDir::Entities => "entities",
        }
    }

    /// The type of the directory's pages when their front matter names none.
    pub fn default_type(&self) -> (r: &'static str)
        ensures
            r@ == dir_default_type(*self),
    {
        match self {
            ContentDir::Summaries => "Summary",
            ContentDir::Concepts => "Concept",
            ContentDir::Entities => "Entity",
        }
    }
}

/// A markdown page of a content directory: its file stem and its text.
pub struct PageSource {
    pub dir: ContentDir,
    pub stem: String,
    pub text: String,
}

/// A node of the graph.
#[derive(Clone, Debug)]
pub struct GraphNode {
    pub id: String,
    pub label: String,
    pub node_type: String,
    pub description: String,
    pub sources: Vec<String>,
    pub out: usize,
    pub in_degree: usize,
}

/// A link from the page `source` to the page `target`.
#[derive(Clone, Debug)]
pub struct GraphEdge {
    pub source: String,
    pub target: String,
}

/// The wikilink graph: nodes sorted by id, edges, and the sorted node types.
#[derive(Clone, Debug)]
pub struct Graph {
    pub nodes: Vec<GraphNode>,
    pub edges: Vec<GraphEdge>,
    pub types: Vec<String>,
}

/// A node as values.
pub struct NodeModel {
    pub id: Seq<char>,
    pub label: Seq<char>,
    pub node_type: Seq<char>,
    pub description: Seq<char>,
    pub sources: Seq<Seq<char>>,
    pub out: nat,
    pub in_degree: nat,
}

/// The graph as values.
pub struct GraphModel {
    pub nodes: Seq<NodeModel>,
    pub edges: Seq<(Seq<char>, Seq<char>)>,
    pub types: Seq<Seq<char>>,
}

impl GraphNode {
    pub open spec fn model(&self) -> NodeModel {
        NodeModel {
            id: self.id@,
            label: self.label@,
            node_type: self.node_type@,
            description: self.description@,
            sources: views(self.sources@),
            out: self.out as nat,
            in_degree: self.in_degree as nat,
        }
    }
}

impl View for Graph {
    type V = GraphModel;

    open spec fn view(&self) -> GraphModel {
        GraphModel {
            nodes: self.nodes@.map_values(|n: GraphNode| n.model()),
            edges: self.edges@.map_values(|e: GraphEdge| (e.source@, e.target@)),
            types: views(self.types@),
        }
    }
}

/// The id of a page: its directory and its stem, as `dir/stem`.
pub open spec fn page_key(p: PageSource) -> Seq<char> {
    dir_name(p.dir) + seq!['/'] + p.stem@
}

/// The ids of the pages, in order.
pub open spec fn page_keys(pages: Seq<PageSource>) -> Seq<Seq<char>> {
    pages.map_values(|p: PageSource| page_key(p))
}

/// The first position at or after `k` in `order` whose key does not come before `key`.
pub open spec fn insert_pos(keys: Seq<Seq<char>>, order: Seq<int>, key: Seq<char>, k: int) -> int
    decreases order.len() - k,
{
    if k < 0 || k >= order.len() {
        order.len() as int
    } else if char_seq_lt(keys[order[k]], key) {
        insert_pos(keys, order, key, k + 1)
    } else {
        k
    }
}

/// `order` with entry `i` placed by its key: replacing the entry with the same key, else
/// inserted before the first entry whose key comes after.
pub open spec fn place(keys: Seq<Seq<char>>, order: Seq<int>, i: int) -> Seq<int> {
    let p = insert_pos(keys, order, keys[i], 0);
    if p < order.len() && keys[order[p]] == keys[i] {
        order.update(p, i)
    } else {
        order.insert(p, i)
    }
}

/// The positions of the first `n` keys ordered by key; of equal keys the last one stays
/// (as in a map keyed by them).
pub open spec fn node_order(keys: Seq<Seq<char>>, n: nat) -> Seq<int>
    decreases n,
{
    if n == 0 {
        seq![]
    } else {
        place(keys, node_order(keys, (n - 1) as nat), n - 1)
    }
}

/// The keys of the positions in `order` strictly increase.
#[verifier::opaque]
pub open spec fn sorted_by_keys(keys: Seq<Seq<char>>, order: Seq<int>) -> bool {
    forall|a: int, b: int|
        0 <= a < b < order.len() ==> char_seq_lt(#[trigger] keys[order[a]], #[trigger] keys[order[b]])
}

/// Every position in `order` is below `n`.
#[verifier::opaque]
pub open spec fn positions_below(order: Seq<int>, n: int) -> bool {
    forall|a: int| 0 <= a < order.len() ==> 0 <= #[trigger] order[a] < n
}

/// `key` is the key of a position in `order`.
pub open spec fn key_present(keys: Seq<Seq<char>>, order: Seq<int>, key: Seq<char>) -> bool {
    exists|a: int| 0 <= a < order.len() && keys[order[a]] == key
}

/// Every one of the first `n` keys is the key of a position in `order`.
#[verifier::opaque]
pub open spec fn covers_keys(keys: Seq<Seq<char>>, order: Seq<int>, n: int) -> bool {
    forall|j: int| 0 <= j < n ==> #[trigger] key_present(keys, order, keys[j])
}

proof fn lemma_insert_pos(keys: Seq<Seq<char>>, order: Seq<int>, key: Seq<char>, k: int)
    requires
        0 <= k <= order.len(),
    ensures
        k <= insert_pos(keys, order, key, k) <= order.len(),
        forall|a: int|
            k <= a < insert_pos(keys, order, key, k) ==> char_seq_lt(keys[order[a]], key),
        insert_pos(keys, order, key, k) < order.len() ==> !char_seq_lt(
            keys[order[insert_pos(keys, order, key, k)]],
            key,
        ),
    decreases order.len() - k,
{
    if k < order.len() && char_seq_lt(keys[order[k]], key) {
        lemma_insert_pos(keys, order, key, k + 1);
    }
}

proof fn lemma_insert_sorted(keys: Seq<Seq<char>>, order: Seq<int>, i: int, p: int)
    requires
        0 <= p <= order.len(),
        sorted_by_keys(keys, order),
        forall|a: int| 0 <= a < p ==> char_seq_lt(keys[order[a]], keys[i]),
        p < order.len() ==> char_seq_lt(keys[i], keys[order[p]]),
    ensures
        sorted_by_keys(keys, order.insert(p, i)),
{
    reveal(sorted_by_keys);
    let key = keys[i];
    let new = order.insert(p, i);
    assert forall|a: int, b: int| 0 <= a < b < new.len() implies char_seq_lt(
        #[trigger] keys[new[a]],
        #[trigger] keys[new[b]],
    ) by {
        if b < p {
            assert(new[a] == order[a] && new[b] == order[b]);
        } else if b == p {
            assert(new[a] == order[a] && new[b] == i);
        } else if a > p {
            assert(new[a] == order[a - 1] && new[b] == order[b - 1]);
        } else if a == p {
            assert(new[a] == i && new[b] == order[b - 1]);
            if b - 1 > p {
                crate::text::lemma_char_seq_lt_transitive(key, keys[order[p]], keys[order[b - 1]]);
            }
        } else {
            assert(new[a] == order[a] && new[b] == order[b - 1]);
            if b - 1 > p {
                crate::text::lemma_char_seq_lt_transitive(key, keys[order[p]], keys[order[b - 1]]);
            }
            crate::text::lemma_char_seq_lt_transitive(keys[order[a]], key, keys[order[b - 1]]);
        }
    }
}

proof fn lemma_insert_covers(keys: Seq<Seq<char>>, order: Seq<int>, i: int, p: int)
    requires
        0 <= p <= order.len(),
        0 <= i,
        positions_below(order, i),
        covers_keys(keys, order, i),
    ensures
        positions_below(order.insert(p, i), i + 1),
        covers_keys(keys, order.insert(p, i), i + 1),
{
    reveal(positions_below);
    reveal(covers_keys);
    let new = order.insert(p, i);
    assert forall|a: int| 0 <= a < new.len() implies 0 <= #[trigger] new[a] < i + 1 by {
        if a < p {
            assert(new[a] == order[a]);
        } else if a > p {
            assert(new[a] == order[a - 1]);
        }
    }
    assert forall|j: int| 0 <= j < i + 1 implies #[trigger] key_present(keys, new, keys[j]) by {
        if j == i {
            assert(keys[new[p]] == keys[j]);
        } else {
            assert(key_present(keys, order, keys[j]));
            let a = choose|a: int| 0 <= a < order.len() && keys[order[a]] == keys[j];
            if a < p {
                assert(keys[new[a]] == keys[j]);
            } else {
                assert(keys[new[a + 1]] == keys[j]);
            }
        }
    }
}

proof fn lemma_update_keeps(keys: Seq<Seq<char>>, order: Seq<int>, i: int, p: int)
    requires
        0 <= p < order.len(),
        0 <= i,
        keys[order[p]] == keys[i],
        sorted_by_keys(keys, order),
        positions_below(order, i),
        covers_keys(keys, order, i),
    ensures
        sorted_by_keys(keys, order.update(p, i)),
        positions_below(order.update(p, i), i + 1),
        covers_keys(keys, order.update(p, i), i + 1),
{
    reveal(sorted_by_keys);
    reveal(positions_below);
    reveal(covers_keys);
    let new = order.update(p, i);
    assert forall|a: int, b: int| 0 <= a < b < new.len() implies char_seq_lt(
        #[trigger] keys[new[a]],
        #[trigger] keys[new[b]],
    ) by {
        assert(keys[new[a]] == keys[order[a]]);
        assert(keys[new[b]] == keys[order[b]]);
    }
    assert forall|a: int| 0 <= a < new.len() implies 0 <= #[trigger] new[a] < i + 1 by {
        if a != p {
            assert(new[a] == order[a]);
        }
    }
    assert forall|j: int| 0 <= j < i + 1 implies #[trigger] key_present(keys, new, keys[j]) by {
        if j == i {
            assert(keys[new[p]] == keys[j]);
        } else {
            assert(key_present(keys, order, keys[j]));
            let a = choose|a: int| 0 <= a < order.len() && keys[order[a]] == keys[j];
            assert(keys[new[a]] == keys[order[a]]);
        }
    }
}

proof fn lemma_place(keys: Seq<Seq<char>>, order: Seq<int>, i: int)
    requires
        0 <= i < keys.len(),
        sorted_by_keys(keys, order),
        positions_below(order, i),
        covers_keys(keys, order, i),
    ensures
        sorted_by_keys(keys, place(keys, order, i)),
        positions_below(place(keys, order, i), i + 1),
        covers_keys(keys, place(keys, order, i), i + 1),
{
    let key = keys[i];
    let p = insert_pos(keys, order, key, 0);
    lemma_insert_pos(keys, order, key, 0);
    if p < order.len() && keys[order[p]] == key {
        lemma_update_keeps(keys, order, i, p);
    } else {
        if p < order.len() {
            crate::text::lemma_char_seq_lt_total(keys[order[p]], key);
        }
        lemma_insert_sorted(keys, order, i, p);
        lemma_insert_covers(keys, order, i, p);
    }
}

/// The key order is strictly sorted, holds positions of the first `n` keys only, and
/// covers each of their keys.
pub proof fn lemma_node_order(keys: Seq<Seq<char>>, n: nat)
    requires
        n <= keys.len(),
    ensures
        sorted_by_keys(keys, node_order(keys, n)),
        positions_below(node_order(keys, n), n as int),
        covers_keys(keys, node_order(keys, n), n as int),
    decreases n,
{
    if n == 0 {
        reveal(sorted_by_keys);
        reveal(positions_below);
        reveal(covers_keys);
    } else {
        lemma_node_order(keys, (n - 1) as nat);
        lemma_place(keys, node_order(keys, (n - 1) as nat), n - 1);
    }
}

/// The positions of a vector of indices, as integers.
pub open spec fn index_view(v: Seq<usize>) -> Seq<int> {
    v.map_values(|x: usize| x as int)
}

/// The positions of `keys` ordered by key, the last of equal keys kept.
pub fn sort_order(keys: &Vec<String>) -> (r: Vec<usize>)
    ensures
        index_view(r@) == node_order(views(keys@), keys.len() as nat),
        forall|a: int| 0 <= a < r.len() ==> #[trigger] r@[a] < keys.len(),
{
    let ghost kv = views(keys@);
    let mut chars: Vec<Vec<char>> = Vec::new();
    let mut i: usize = 0;
    while i < keys.len()
        invariant
            i <= keys.len(),
            kv == views(keys@),
            chars.len() == i,
            forall|j: int| 0 <= j < i ==> #[trigger] chars@[j]@ == kv[j],
        decreases keys.len() - i,
    {
        let c = chars_of(keys[i].as_str());
        chars.push(c);
        i = i + 1;
    }
    let mut order: Vec<usize> = Vec::new();
    let mut i: usize = 0;
    while i < keys.len()
        invariant
            i <= keys.len(),
            kv == views(keys@),
            chars.len() == keys.len(),
            forall|j: int| 0 <= j < keys.len() ==> #[trigger] chars@[j]@ == kv[j],
            index_view(order@) == node_order(kv, i as nat),
            forall|a: int| 0 <= a < order.len() ==> #[trigger] order@[a] < i,
        decreases keys.len() - i,
    {
        let ghost ov = index_view(order@);
        let mut p: usize = 0;
        while p < order.len() && char_vec_lt(&chars[order[p]], &chars[i])
            invariant
                p <= order.len(),
                i < keys.len(),
                chars.len() == keys.len(),
                forall|j: int| 0 <= j < keys.len() ==> #[trigger] chars@[j]@ == kv[j],
                ov == index_view(order@),
                forall|a: int| 0 <= a < order.len() ==> #[trigger] order@[a] < i,
                insert_pos(kv, ov, kv[i as int], 0) == insert_pos(kv, ov, kv[i as int], p as int),
            decreases order.len() - p,
        {
            p = p + 1;
        }
        assert(insert_pos(kv, ov, kv[i as int], p as int) == p);
        let same = p < order.len() && str_eq(keys[order[p]].as_str(), keys[i].as_str());
        if same {
            order.set(p, i);
            assert(index_view(order@) =~= ov.update(p as int, i as int));
        } else {
            order.insert(p, i);
            assert(index_view(order@) =~= ov.insert(p as int, i as int));
        }
        assert(node_order(kv, (i + 1) as nat) == place(kv, ov, i as int));
        i = i + 1;
    }
    order
}

// ---------------------------------------------------------------------------
// Edges
// ---------------------------------------------------------------------------

/// The pattern of a wikilink: `[[`, the link text (group 1, without `]`), `]]`.
pub const WIKILINK_PATTERN: &'static str = "\\[\\[([^\\]]+)\\]\\]";

/// Group `group` of each non-overlapping match of `pattern` in `text`, left to right, as
/// the `regex` crate finds them (`None` for a match in which the group took no part);
/// `None` when `pattern` is not a valid regular expression.
pub uninterp spec fn regex_captures(pattern: Seq<char>, group: nat, text: Seq<char>) -> Option<
    Seq<Option<Seq<char>>>,
>;

/// The view of an optional string.
pub open spec fn opt_view(o: Option<String>) -> Option<Seq<char>> {
    match o {
        Some(s) => Some(s@),
        None => None,
    }
}

/// The views of a list of optional strings.
pub open spec fn opt_views(v: Seq<Option<String>>) -> Seq<Option<Seq<char>>> {
    v.map_values(|o: Option<String>| opt_view(o))
}

/// Compiles `pattern` and collects group `group` of each match in `text` (wraps
/// `regex::Regex::new`, `Regex::captures_iter` and `Captures::get`). The result is named
/// `regex_captures`.
#[verifier::external_body]
fn capture_groups(pattern: &str, group: usize, text: &str) -> (r: Option<Vec<Option<String>>>)
    ensures
        r matches Some(v) ==> regex_captures(pattern@, group as nat, text@) == Some(opt_views(v@)),
        r is None ==> regex_captures(pattern@, group as nat, text@) is None,
{
    let re = regex::Regex::new(pattern).ok()?;
    Some(re.captures_iter(text).map(|c| c.get(group).map(|m| m.as_str().to_string())).collect())
}

/// The wikilink texts of a page.
pub open spec fn page_caps(p: PageSource) -> Option<Seq<Option<Seq<char>>>> {
    regex_captures(WIKILINK_PATTERN@, 1, p.text@)
}

/// A link text up to its first `|` (the part before an alias).
pub open spec fn before_bar(raw: Seq<char>) -> Seq<char> {
    match find_first(raw, seq!['|']) {
        Some(i) => raw.take(i),
        None => raw,
    }
}

/// The first position at or after `k` of `x` in `list`.
pub open spec fn first_index_from(list: Seq<Seq<char>>, x: Seq<char>, k: int) -> Option<int>
    decreases list.len() - k,
{
    if k < 0 || k >= list.len() {
        None
    } else if list[k] == x {
        Some(k)
    } else {
        first_index_from(list, x, k + 1)
    }
}

/// The node a link text leads to: the first node whose normalized id equals the
/// normalized, trimmed target before `|`.
pub open spec fn cap_target(norms: Seq<Seq<char>>, cap: Option<Seq<char>>) -> Option<int> {
    match cap {
        Some(raw) => first_index_from(norms, normalized(trim(before_bar(raw))), 0),
        None => None,
    }
}

/// `es` with the edge from `src` to `tgt`, unless there is no target, the target is the
/// source itself, or the edge is there already.
pub open spec fn add_edge(es: Seq<(int, int)>, src: int, tgt: Option<int>) -> Seq<(int, int)> {
    match tgt {
        Some(j) => if j != src && !es.contains((src, j)) {
            es.push((src, j))
        } else {
            es
        },
        None => es,
    }
}

/// `es` with the edges of the link texts `caps` of node `src`, in order.
pub open spec fn edges_with_caps(
    es: Seq<(int, int)>,
    norms: Seq<Seq<char>>,
    src: int,
    caps: Seq<Option<Seq<char>>>,
) -> Seq<(int, int)>
    decreases caps.len(),
{
    if caps.len() == 0 {
        es
    } else {
        add_edge(edges_with_caps(es, norms, src, caps.drop_last()), src, cap_target(norms, caps.last()))
    }
}

/// The edges of the first `n` nodes, node by node.
pub open spec fn graph_edges(
    norms: Seq<Seq<char>>,
    caps: Seq<Seq<Option<Seq<char>>>>,
    n: nat,
) -> Seq<(int, int)>
    decreases n,
{
    if n == 0 {
        seq![]
    } else {
        edges_with_caps(graph_edges(norms, caps, (n - 1) as nat), norms, n - 1, caps[n - 1])
    }
}

/// The number of edges out of node `q`.
pub open spec fn count_src(es: Seq<(int, int)>, q: int) -> nat
    decreases es.len(),
{
    if es.len() == 0 {
        0
    } else {
        count_src(es.drop_last(), q) + if es.last().0 == q {
            1nat
        } else {
            0nat
        }
    }
}

/// The number of edges into node `q`.
pub open spec fn count_tgt(es: Seq<(int, int)>, q: int) -> nat
    decreases es.len(),
{
    if es.len() == 0 {
        0
    } else {
        count_tgt(es.drop_last(), q) + if es.last().1 == q {
            1nat
        } else {
            0nat
        }
    }
}

proof fn lemma_counts_bounded(es: Seq<(int, int)>, q: int)
    ensures
        count_src(es, q) <= es.len(),
        count_tgt(es, q) <= es.len(),
    decreases es.len(),
{
    if es.len() > 0 {
        lemma_counts_bounded(es.drop_last(), q);
    }
}

/// The edges of a vector of index pairs, as integers.
pub open spec fn pairs_view(v: Seq<(usize, usize)>) -> Seq<(int, int)> {
    v.map_values(|e: (usize, usize)| (e.0 as int, e.1 as int))
}

fn contains_pair(es: &Vec<(usize, usize)>, a: usize, b: usize) -> (r: bool)
    ensures
        r == pairs_view(es@).contains((a as int, b as int)),
{
    let ghost pv = pairs_view(es@);
    let mut i: usize = 0;
    while i < es.len()
        invariant
            i <= es.len(),
            pv == pairs_view(es@),
            forall|j: int| 0 <= j < i ==> pv[j] != (a as int, b as int),
        decreases es.len() - i,
    {
        let (x, y) = es[i];
        if x == a && y == b {
            assert(pv[i as int] == (a as int, b as int));
            return true;
        }
        i = i + 1;
    }
    false
}

fn cap_target_exec(norms: &Vec<String>, cap: &Option<String>) -> (r: Option<usize>)
    ensures
        r matches Some(j) ==> cap_target(views(norms@), opt_view(*cap)) == Some(j as int) && j
            < norms.len(),
        r is None ==> cap_target(views(norms@), opt_view(*cap)) is None,
{
    match cap {
        None => None,
        Some(raw) => {
            let v = chars_of(raw.as_str());
            let bar = single('|');
            let head = match find_from_exec(&v, &bar, 0) {
                Some(i) => {
                    proof {
                        crate::text::lemma_find_from(v@, bar@, 0);
                    }
                    subvec(&v, 0, i)
                },
                None => v,
            };
            assert(head@ == before_bar(raw@));
            let t = trim_vec(&head);
            let target = string_of(&t);
            let key = normalize_target(target.as_str());
            let ghost nv = views(norms@);
            let mut j: usize = 0;
            while j < norms.len()
                invariant
                    j <= norms.len(),
                    nv == views(norms@),
                    key@ == normalized(trim(before_bar(raw@))),
                    opt_view(*cap) == Some(raw@),
                    first_index_from(nv, key@, 0) == first_index_from(nv, key@, j as int),
                decreases norms.len() - j,
            {
                assert(nv[j as int] == norms@[j as int]@);
                if str_eq(norms[j].as_str(), key.as_str()) {
                    assert(opt_view(*cap) == Some(raw@));
                    return Some(j);
                }
                j = j + 1;
            }
            None
        },
    }
}

/// The wikilink texts of the pages at the positions `order`, when every one was read.
pub open spec fn node_caps(pages: Seq<PageSource>, order: Seq<usize>) -> Seq<Seq<Option<Seq<char>>>> {
    order.map_values(|i: usize| page_caps(pages[i as int])->0)
}

/// What the edge pass gives: the edges of the nodes, the number of edges out of and into
/// each node, and edges between nodes only.
pub open spec fn edge_pass(
    pages: Seq<PageSource>,
    order: Seq<usize>,
    norms: Seq<Seq<char>>,
    edges: Seq<(usize, usize)>,
    outd: Seq<usize>,
    ind: Seq<usize>,
) -> bool {
    let es = pairs_view(edges);
    &&& es == graph_edges(norms, node_caps(pages, order), order.len() as nat)
    &&& outd.len() == order.len()
    &&& ind.len() == order.len()
    &&& forall|q: int| 0 <= q < order.len() ==> #[trigger] outd[q] == count_src(es, q)
    &&& forall|q: int| 0 <= q < order.len() ==> #[trigger] ind[q] == count_tgt(es, q)
    &&& forall|e: int| 0 <= e < edges.len() ==> #[trigger] edges[e].0 < order.len() && edges[e].1 < order.len()
}

fn zeros(m: usize) -> (r: Vec<usize>)
    ensures
        r.len() == m,
        forall|q: int| 0 <= q < m ==> #[trigger] r@[q] == 0,
{
    let mut r: Vec<usize> = Vec::new();
    let mut i: usize = 0;
    while i < m
        invariant
            i <= m,
            r.len() == i,
            forall|q: int| 0 <= q < i ==> #[trigger] r@[q] == 0,
        decreases m - i,
    {
        r.push(0);
        i = i + 1;
    }
    r
}

fn link_edges(pages: &Vec<PageSource>, order: &Vec<usize>, norms: &Vec<String>) -> (r: Option<
    (Vec<(usize, usize)>, Vec<usize>, Vec<usize>),
>)
    requires
        forall|a: int| 0 <= a < order.len() ==> #[trigger] order@[a] < pages.len(),
        norms.len() == order.len(),
    ensures
        r is None <==> exists|k: int|
            0 <= k < order.len() && (#[trigger] page_caps(pages@[order@[k] as int])) is None,
        r matches Some(t) ==> edge_pass(pages@, order@, views(norms@), t.0@, t.1@, t.2@),
{
    let m = order.len();
    let mut es: Vec<(usize, usize)> = Vec::new();
    let mut outd = zeros(m);
    let mut ind = zeros(m);
    let ghost caps = node_caps(pages@, order@);
    let ghost nv = views(norms@);
    let mut k: usize = 0;
    while k < m
        invariant
            k <= m,
            m == order.len(),
            norms.len() == m,
            nv == views(norms@),
            caps == node_caps(pages@, order@),
            forall|a: int| 0 <= a < order.len() ==> #[trigger] order@[a] < pages.len(),
            forall|k2: int| 0 <= k2 < k ==> (#[trigger] page_caps(pages@[order@[k2] as int])) is Some,
            pairs_view(es@) == graph_edges(nv, caps, k as nat),
            outd.len() == m,
            ind.len() == m,
            forall|q: int| 0 <= q < m ==> #[trigger] outd@[q] == count_src(pairs_view(es@), q),
            forall|q: int| 0 <= q < m ==> #[trigger] ind@[q] == count_tgt(pairs_view(es@), q),
            forall|e: int| 0 <= e < es.len() ==> #[trigger] es@[e].0 < m && es@[e].1 < m,
        decreases m - k,
    {
        let capv = match capture_groups(WIKILINK_PATTERN, 1, pages[order[k]].text.as_str()) {
            Some(c) => c,
            None => {
                assert(page_caps(pages@[order@[k as int] as int]) is None);
                return None;
            },
        };
        let ghost cv = opt_views(capv@);
        assert(caps[k as int] == cv);
        let ghost base = pairs_view(es@);
        let mut c: usize = 0;
        assert(cv.take(0) =~= Seq::<Option<Seq<char>>>::empty());
        while c < capv.len()
            invariant
                c <= capv.len(),
                k < m,
                m == order.len(),
                norms.len() == m,
                nv == views(norms@),
                cv == opt_views(capv@),
                pairs_view(es@) == edges_with_caps(base, nv, k as int, cv.take(c as int)),
                outd.len() == m,
                ind.len() == m,
                forall|q: int| 0 <= q < m ==> #[trigger] outd@[q] == count_src(pairs_view(es@), q),
                forall|q: int| 0 <= q < m ==> #[trigger] ind@[q] == count_tgt(pairs_view(es@), q),
                forall|e: int| 0 <= e < es.len() ==> #[trigger] es@[e].0 < m && es@[e].1 < m,
            decreases capv.len() - c,
        {
            let ghost pe = pairs_view(es@);
            assert(cv.take(c + 1).drop_last() =~= cv.take(c as int));
            assert(cv.take(c + 1).last() == opt_view(capv@[c as int]));
            let t = cap_target_exec(norms, &capv[c]);
            match t {
                Some(j) => {
                    if j != k && !contains_pair(&es, k, j) {
                        es.push((k, j));
                        let n = es.len();
                        let ghost e = (k as int, j as int);
                        assert(pairs_view(es@) =~= pe.push(e));
                        assert(pe.push(e).drop_last() =~= pe);
                        proof {
                            lemma_counts_bounded(pe, k as int);
                            lemma_counts_bounded(pe, j as int);
                        }
                        let o = outd[k];
                        outd.set(k, o + 1);
                        let d = ind[j];
                        ind.set(j, d + 1);
                        assert forall|q: int| 0 <= q < m implies #[trigger] outd@[q] == count_src(
                            pairs_view(es@),
                            q,
                        ) by {
                            assert(count_src(pe.push(e), q) == count_src(pe, q) + if q == k {
                                1nat
                            } else {
                                0nat
                            });
                        }
                        assert forall|q: int| 0 <= q < m implies #[trigger] ind@[q] == count_tgt(
                            pairs_view(es@),
                            q,
                        ) by {
                            assert(count_tgt(pe.push(e), q) == count_tgt(pe, q) + if q == j {
                                1nat
                            } else {
                                0nat
                            });
                        }
                    }
                },
                None => {},
            }
            c = c + 1;
        }
        assert(cv.take(capv.len() as int) =~= cv);
        k = k + 1;
    }
    Some((es, outd, ind))
}


// ---------------------------------------------------------------------------
// Building the graph
// ---------------------------------------------------------------------------

/// A page's type, from its front matter or its directory.
pub open spec fn page_type(p: PageSource) -> Seq<char> {
    node_type_of(p.text@, dir_default_type(p.dir))
}

/// The node of a page with the given numbers of edges out and in.
pub open spec fn node_model(p: PageSource, out: nat, in_degree: nat) -> NodeModel {
    NodeModel {
        id: page_key(p),
        label: p.stem@,
        node_type: page_type(p),
        description: description_of(p.text@),
        sources: node_sources(p.text@),
        out,
        in_degree,
    }
}

/// The distinct strings of `ts`, sorted.
pub open spec fn type_list(ts: Seq<Seq<char>>) -> Seq<Seq<char>> {
    node_order(ts, ts.len()).map_values(|i: int| ts[i])
}

/// The pages that become nodes, ordered by id; of pages with the same id the last one.
pub open spec fn node_pages(pages: Seq<PageSource>) -> Seq<PageSource> {
    node_order(page_keys(pages), pages.len()).map_values(|i: int| pages[i])
}

/// The graph of the pages: a node per page id (sorted by id); an edge from a page to each
/// other page that one of its wikilinks names (matched in normalized form, the first node
/// when several match), once per pair, sources in node order and links in text order;
/// each node's numbers of edges out and in; the sorted distinct node types. Nothing when
/// a page's links could not be read.
pub open spec fn graph_model(pages: Seq<PageSource>) -> Option<GraphModel> {
    let ps = node_pages(pages);
    if exists|k: int| 0 <= k < ps.len() && (#[trigger] page_caps(ps[k])) is None {
        None
    } else {
        let norms = ps.map_values(|p: PageSource| normalized(page_key(p)));
        let caps = ps.map_values(|p: PageSource| page_caps(p)->0);
        let es = graph_edges(norms, caps, ps.len());
        Some(
            GraphModel {
                nodes: Seq::new(
                    ps.len(),
                    |k: int| node_model(ps[k], count_src(es, k), count_tgt(es, k)),
                ),
                edges: es.map_values(|e: (int, int)| (page_key(ps[e.0]), page_key(ps[e.1]))),
                types: type_list(ps.map_values(|p: PageSource| page_type(p))),
            },
        )
    }
}

fn page_key_exec(p: &PageSource) -> (r: String)
    ensures
        r@ == page_key(*p),
{
    let mut r = p.dir.name().to_string();
    r.append("/");
    r.append(p.stem.as_str());
    proof {
        reveal_strlit("/");
        assert("/"@ =~= seq!['/']);
    }
    r
}

/// Builds the wikilink graph of the pages of the content directories.
pub fn build_graph(pages: &Vec<PageSource>) -> (r: Option<Graph>)
    ensures
        r matches Some(g) ==> graph_model(pages@) == Some(g@),
        r is None ==> graph_model(pages@) is None,
{
    let ghost pv = pages@;
    let mut keys: Vec<String> = Vec::new();
    let mut i: usize = 0;
    while i < pages.len()
        invariant
            i <= pages.len(),
            keys.len() == i,
            forall|j: int| 0 <= j < i ==> #[trigger] keys@[j]@ == page_key(pages@[j]),
        decreases pages.len() - i,
    {
        let k = page_key_exec(&pages[i]);
        keys.push(k);
        i = i + 1;
    }
    assert(views(keys@) =~= page_keys(pages@));
    let order = sort_order(&keys);
    let m = order.len();
    let ghost ps = node_pages(pages@);
    assert(ps.len() == m);
    assert forall|k: int| 0 <= k < m implies #[trigger] ps[k] == pages@[order@[k] as int] by {
        assert(index_view(order@)[k] == order@[k] as int);
    }
    let mut norms: Vec<String> = Vec::new();
    let mut k: usize = 0;
    while k < m
        invariant
            k <= m,
            m == order.len(),
            keys.len() == pages.len(),
            forall|j: int| 0 <= j < pages.len() ==> #[trigger] keys@[j]@ == page_key(pages@[j]),
            forall|a: int| 0 <= a < order.len() ==> #[trigger] order@[a] < keys.len(),
            norms.len() == k,
            forall|q: int|
                0 <= q < k ==> #[trigger] norms@[q]@ == normalized(
                    page_key(pages@[order@[q] as int]),
                ),
        decreases m - k,
    {
        let n = normalize_target(keys[order[k]].as_str());
        norms.push(n);
        k = k + 1;
    }
    let ghost nv = ps.map_values(|p: PageSource| normalized(page_key(p)));
    assert(views(norms@) =~= nv);
    let (es, outd, ind) = match link_edges(pages, &order, &norms) {
        Some(t) => t,
        None => {
            assert(exists|k: int| 0 <= k < ps.len() && (#[trigger] page_caps(ps[k])) is None) by {
                let k = choose|k: int|
                    0 <= k < order.len() && (#[trigger] page_caps(pages@[order@[k] as int])) is None;
                assert(ps[k] == pages@[order@[k] as int]);
            }
            return None;
        },
    };
    assert(!exists|k: int| 0 <= k < ps.len() && (#[trigger] page_caps(ps[k])) is None) by {
        if exists|k: int| 0 <= k < ps.len() && (#[trigger] page_caps(ps[k])) is None {
            let k = choose|k: int| 0 <= k < ps.len() && (#[trigger] page_caps(ps[k])) is None;
            assert(page_caps(pages@[order@[k] as int]) is None);
        }
    }
    let ghost caps = ps.map_values(|p: PageSource| page_caps(p)->0);
    assert(node_caps(pages@, order@) =~= caps);
    let ghost gm = graph_model(pages@)->0;
    let ghost ev = pairs_view(es@);
    assert(ev == graph_edges(nv, caps, m as nat));
    // nodes and their types
    let mut nodes: Vec<GraphNode> = Vec::new();
    let mut ts: Vec<String> = Vec::new();
    let mut k: usize = 0;
    while k < m
        invariant
            k <= m,
            m == order.len(),
            ps.len() == m,
            keys.len() == pages.len(),
            forall|j: int| 0 <= j < pages.len() ==> #[trigger] keys@[j]@ == page_key(pages@[j]),
            forall|a: int| 0 <= a < order.len() ==> #[trigger] order@[a] < keys.len(),
            forall|q: int| 0 <= q < m ==> #[trigger] ps[q] == pages@[order@[q] as int],
            outd.len() == m,
            ind.len() == m,
            forall|q: int| 0 <= q < m ==> #[trigger] outd@[q] == count_src(ev, q),
            forall|q: int| 0 <= q < m ==> #[trigger] ind@[q] == count_tgt(ev, q),
            nodes.len() == k,
            ts.len() == k,
            forall|q: int|
                0 <= q < k ==> #[trigger] nodes@[q].model() == node_model(
                    ps[q],
                    count_src(ev, q),
                    count_tgt(ev, q),
                ),
            forall|q: int| 0 <= q < k ==> #[trigger] ts@[q]@ == page_type(ps[q]),
        decreases m - k,
    {
        let p = &pages[order[k]];
        let (t, d, srcs) = parse_frontmatter(p.text.as_str(), p.dir.default_type());
        let id = keys[order[k]].clone();
        let label = p.stem.clone();
        let tc = t.clone();
        ts.push(tc);
        let node = GraphNode {
            id,
            label,
            node_type: t,
            description: d,
            sources: srcs,
            out: outd[k],
            in_degree: ind[k],
        };
        nodes.push(node);
        k = k + 1;
    }
    let tord = sort_order(&ts);
    let ghost tv = views(ts@);
    assert(tv =~= ps.map_values(|p: PageSource| page_type(p)));
    let mut types: Vec<String> = Vec::new();
    let mut a: usize = 0;
    while a < tord.len()
        invariant
            a <= tord.len(),
            tv == views(ts@),
            index_view(tord@) == node_order(tv, ts.len() as nat),
            forall|b: int| 0 <= b < tord.len() ==> #[trigger] tord@[b] < ts.len(),
            types.len() == a,
            forall|b: int| 0 <= b < a ==> #[trigger] types@[b]@ == tv[tord@[b] as int],
        decreases tord.len() - a,
    {
        let t = ts[tord[a]].clone();
        types.push(t);
        a = a + 1;
    }
    assert(views(types@) =~= type_list(tv)) by {
        assert forall|b: int| 0 <= b < tord.len() implies views(types@)[b] == type_list(tv)[b] by {
            assert(index_view(tord@)[b] == tord@[b] as int);
        }
    }
    // edges as ids
    let mut edges: Vec<GraphEdge> = Vec::new();
    let mut e: usize = 0;
    while e < es.len()
        invariant
            e <= es.len(),
            ev == pairs_view(es@),
            m == order.len(),
            ps.len() == m,
            keys.len() == pages.len(),
            forall|j: int| 0 <= j < pages.len() ==> #[trigger] keys@[j]@ == page_key(pages@[j]),
            forall|a: int| 0 <= a < order.len() ==> #[trigger] order@[a] < keys.len(),
            forall|q: int| 0 <= q < m ==> #[trigger] ps[q] == pages@[order@[q] as int],
            forall|x: int| 0 <= x < es.len() ==> #[trigger] es@[x].0 < m && es@[x].1 < m,
            edges.len() == e,
            forall|x: int|
                0 <= x < e ==> (#[trigger] edges@[x]).source@ == page_key(ps[ev[x].0]) && edges@[x].target@
                    == page_key(ps[ev[x].1]),
        decreases es.len() - e,
    {
        let (a, b) = es[e];
        assert(ev[e as int] == (a as int, b as int));
        let source = keys[order[a]].clone();
        let target = keys[order[b]].clone();
        edges.push(GraphEdge { source, target });
        e = e + 1;
    }
    let g = Graph { nodes, edges, types };
    assert(g@.nodes =~= gm.nodes);
    assert(g@.edges =~= gm.edges);
    assert(g@.types =~= gm.types);
    Some(g)
}

// ---------------------------------------------------------------------------
// Laws
// ---------------------------------------------------------------------------

/// The edges join nodes below `m`, none a node to itself, and no pair twice.
pub open spec fn edges_ok(es: Seq<(int, int)>, m: int) -> bool {
    &&& forall|x: int| 0 <= x < es.len() ==> 0 <= (#[trigger] es[x]).0 < m && 0 <= es[x].1 < m
    &&& forall|x: int| 0 <= x < es.len() ==> (#[trigger] es[x]).0 != es[x].1
    &&& forall|x: int, y: int| 0 <= x < y < es.len() ==> #[trigger] es[x] != #[trigger] es[y]
}

proof fn lemma_first_index_bound(list: Seq<Seq<char>>, x: Seq<char>, k: int)
    ensures
        first_index_from(list, x, k) matches Some(j) ==> 0 <= j < list.len(),
    decreases list.len() - k,
{
    if k >= 0 && k < list.len() && list[k] != x {
        lemma_first_index_bound(list, x, k + 1);
    }
}

proof fn lemma_edges_with_caps_ok(
    es: Seq<(int, int)>,
    norms: Seq<Seq<char>>,
    src: int,
    caps: Seq<Option<Seq<char>>>,
)
    requires
        edges_ok(es, norms.len() as int),
        0 <= src < norms.len(),
    ensures
        edges_ok(edges_with_caps(es, norms, src, caps), norms.len() as int),
    decreases caps.len(),
{
    if caps.len() > 0 {
        lemma_edges_with_caps_ok(es, norms, src, caps.drop_last());
        let prev = edges_with_caps(es, norms, src, caps.drop_last());
        let t = cap_target(norms, caps.last());
        match caps.last() {
            Some(raw) => lemma_first_index_bound(norms, normalized(trim(before_bar(raw))), 0),
            None => {},
        }
        match t {
            Some(j) => {
                if j != src && !prev.contains((src, j)) {
                    let new = prev.push((src, j));
                    assert forall|x: int, y: int| 0 <= x < y < new.len() implies #[trigger] new[x]
                        != #[trigger] new[y] by {
                        if y == new.len() - 1 {
                            assert(new[x] == prev[x]);
                            if new[x] == new[y] {
                                assert(prev.contains((src, j)));
                            }
                        } else {
                            assert(new[x] == prev[x] && new[y] == prev[y]);
                        }
                    }
                }
            },
            None => {},
        }
    }
}

proof fn lemma_graph_edges_ok(norms: Seq<Seq<char>>, caps: Seq<Seq<Option<Seq<char>>>>, n: nat)
    requires
        n <= norms.len(),
    ensures
        edges_ok(graph_edges(norms, caps, n), norms.len() as int),
    decreases n,
{
    if n > 0 {
        lemma_graph_edges_ok(norms, caps, (n - 1) as nat);
        lemma_edges_with_caps_ok(
            graph_edges(norms, caps, (n - 1) as nat),
            norms,
            n - 1,
            caps[n - 1],
        );
    }
}

/// The number of edges of `es` that leave `id`.
pub open spec fn edges_from(es: Seq<(Seq<char>, Seq<char>)>, id: Seq<char>) -> nat
    decreases es.len(),
{
    if es.len() == 0 {
        0
    } else {
        edges_from(es.drop_last(), id) + if es.last().0 == id {
            1nat
        } else {
            0nat
        }
    }
}

/// The number of edges of `es` that reach `id`.
pub open spec fn edges_to(es: Seq<(Seq<char>, Seq<char>)>, id: Seq<char>) -> nat
    decreases es.len(),
{
    if es.len() == 0 {
        0
    } else {
        edges_to(es.drop_last(), id) + if es.last().1 == id {
            1nat
        } else {
            0nat
        }
    }
}

/// The ids of the nodes of a graph, in order.
pub open spec fn node_ids(g: GraphModel) -> Seq<Seq<char>> {
    g.nodes.map_values(|n: NodeModel| n.id)
}

proof fn lemma_counts_by_id(es: Seq<(int, int)>, ids: Seq<Seq<char>>, q: int)
    requires
        0 <= q < ids.len(),
        forall|x: int| 0 <= x < es.len() ==> 0 <= (#[trigger] es[x]).0 < ids.len() && 0 <= es[x].1 < ids.len(),
        forall|a: int, b: int| 0 <= a < ids.len() && 0 <= b < ids.len() && a != b ==> #[trigger] ids[a] != #[trigger] ids[b],
    ensures
        count_src(es, q) == edges_from(es.map_values(|e: (int, int)| (ids[e.0], ids[e.1])), ids[q]),
        count_tgt(es, q) == edges_to(es.map_values(|e: (int, int)| (ids[e.0], ids[e.1])), ids[q]),
    decreases es.len(),
{
    if es.len() > 0 {
        let init = es.drop_last();
        lemma_counts_by_id(init, ids, q);
        let m = es.map_values(|e: (int, int)| (ids[e.0], ids[e.1]));
        assert(m.drop_last() =~= init.map_values(|e: (int, int)| (ids[e.0], ids[e.1])));
        let e = es.last();
        assert(es[es.len() - 1] == e);
        assert(m.last() == (ids[e.0], ids[e.1]));
    }
}

/// Of the graph of any pages: the node ids strictly increase; each page's id is the id of
/// a node and each node's id is a page's; the types strictly increase and hold the type
/// of each node; no edge joins a node to itself, and no two edges join the same nodes.
pub proof fn law_graph_well_formed(pages: Seq<PageSource>)
    requires
        graph_model(pages) is Some,
    ensures
        ({
            let g = graph_model(pages)->0;
            &&& forall|a: int, b: int|
                0 <= a < b < g.nodes.len() ==> char_seq_lt(
                    #[trigger] g.nodes[a].id,
                    #[trigger] g.nodes[b].id,
                )
            &&& forall|i: int|
                0 <= i < pages.len() ==> exists|a: int|
                    0 <= a < g.nodes.len() && g.nodes[a].id == #[trigger] page_key(pages[i])
            &&& forall|a: int|
                0 <= a < g.nodes.len() ==> exists|i: int|
                    0 <= i < pages.len() && (#[trigger] g.nodes[a]).id == page_key(pages[i])
            &&& forall|a: int, b: int|
                0 <= a < b < g.types.len() ==> char_seq_lt(#[trigger] g.types[a], #[trigger] g.types[b])
            &&& forall|a: int|
                0 <= a < g.nodes.len() ==> g.types.contains(#[trigger] g.nodes[a].node_type)
            &&& forall|x: int| 0 <= x < g.edges.len() ==> (#[trigger] g.edges[x]).0 != g.edges[x].1
            &&& forall|x: int, y: int|
                0 <= x < y < g.edges.len() ==> #[trigger] g.edges[x] != #[trigger] g.edges[y]
        }),
{
    let g = graph_model(pages)->0;
    let keys = page_keys(pages);
    let order = node_order(keys, pages.len());
    lemma_node_order(keys, pages.len());
    reveal(sorted_by_keys);
    reveal(positions_below);
    reveal(covers_keys);
    let ps = node_pages(pages);
    assert forall|a: int| 0 <= a < ps.len() implies #[trigger] page_key(ps[a]) == keys[order[a]] by {}
    // node ids
    assert forall|a: int, b: int| 0 <= a < b < g.nodes.len() implies char_seq_lt(
        #[trigger] g.nodes[a].id,
        #[trigger] g.nodes[b].id,
    ) by {
        assert(g.nodes[a].id == keys[order[a]]);
        assert(g.nodes[b].id == keys[order[b]]);
    }
    assert forall|i: int| 0 <= i < pages.len() implies exists|a: int|
        0 <= a < g.nodes.len() && g.nodes[a].id == #[trigger] page_key(pages[i]) by {
        assert(keys[i] == page_key(pages[i]));
        assert(key_present(keys, order, keys[i]));
        let a = choose|a: int| 0 <= a < order.len() && keys[order[a]] == keys[i];
        assert(g.nodes[a].id == keys[order[a]]);
    }
    assert forall|a: int| 0 <= a < g.nodes.len() implies exists|i: int|
        0 <= i < pages.len() && (#[trigger] g.nodes[a]).id == page_key(pages[i]) by {
        assert(g.nodes[a].id == page_key(pages[order[a]]));
    }
    // ids are distinct
    assert forall|a: int, b: int| 0 <= a < ps.len() && 0 <= b < ps.len() && a != b implies page_key(
        #[trigger] ps[a],
    ) != page_key(#[trigger] ps[b]) by {
        if a < b {
            crate::text::lemma_char_seq_lt_irreflexive(page_key(ps[a]));
            assert(char_seq_lt(keys[order[a]], keys[order[b]]));
        } else {
            crate::text::lemma_char_seq_lt_irreflexive(page_key(ps[b]));
            assert(char_seq_lt(keys[order[b]], keys[order[a]]));
        }
    }
    // types
    let tv = ps.map_values(|p: PageSource| page_type(p));
    let tord = node_order(tv, tv.len());
    lemma_node_order(tv, tv.len());
    assert forall|a: int, b: int| 0 <= a < b < g.types.len() implies char_seq_lt(
        #[trigger] g.types[a],
        #[trigger] g.types[b],
    ) by {
        assert(g.types[a] == tv[tord[a]]);
        assert(g.types[b] == tv[tord[b]]);
    }
    assert forall|a: int| 0 <= a < g.nodes.len() implies g.types.contains(
        #[trigger] g.nodes[a].node_type,
    ) by {
        assert(g.nodes[a].node_type == tv[a]);
        assert(key_present(tv, tord, tv[a]));
        let b = choose|b: int| 0 <= b < tord.len() && tv[tord[b]] == tv[a];
        assert(g.types[b] == tv[a]);
    }
    // edges
    let norms = ps.map_values(|p: PageSource| normalized(page_key(p)));
    let caps = ps.map_values(|p: PageSource| page_caps(p)->0);
    let es = graph_edges(norms, caps, ps.len());
    lemma_graph_edges_ok(norms, caps, ps.len());
    assert forall|x: int| 0 <= x < g.edges.len() implies (#[trigger] g.edges[x]).0 != g.edges[x].1 by {
        assert(es[x].0 != es[x].1);
        assert(page_key(ps[es[x].0]) != page_key(ps[es[x].1]));
    }
    assert forall|x: int, y: int| 0 <= x < y < g.edges.len() implies #[trigger] g.edges[x]
        != #[trigger] g.edges[y] by {
        assert(es[x] != es[y]);
        if es[x].0 != es[y].0 {
            assert(page_key(ps[es[x].0]) != page_key(ps[es[y].0]));
        } else {
            assert(page_key(ps[es[x].1]) != page_key(ps[es[y].1]));
        }
    }
}

/// Of the graph of any pages: every edge joins two of its nodes, and each node's numbers
/// of edges out and in count the edges that leave and reach it.
pub proof fn law_graph_degrees(pages: Seq<PageSource>)
    requires
        graph_model(pages) is Some,
    ensures
        ({
            let g = graph_model(pages)->0;
            &&& forall|x: int|
                0 <= x < g.edges.len() ==> node_ids(g).contains((#[trigger] g.edges[x]).0)
                    && node_ids(g).contains(g.edges[x].1)
            &&& forall|a: int|
                0 <= a < g.nodes.len() ==> (#[trigger] g.nodes[a]).out == edges_from(
                    g.edges,
                    g.nodes[a].id,
                ) && g.nodes[a].in_degree == edges_to(g.edges, g.nodes[a].id)
        }),
{
    let g = graph_model(pages)->0;
    let keys = page_keys(pages);
    let order = node_order(keys, pages.len());
    lemma_node_order(keys, pages.len());
    reveal(sorted_by_keys);
    reveal(positions_below);
    let ps = node_pages(pages);
    assert forall|a: int| 0 <= a < ps.len() implies #[trigger] page_key(ps[a]) == keys[order[a]] by {}
    let ids = ps.map_values(|p: PageSource| page_key(p));
    assert forall|a: int, b: int|
        0 <= a < ids.len() && 0 <= b < ids.len() && a != b implies #[trigger] ids[a]
        != #[trigger] ids[b] by {
        assert(ids[a] == page_key(ps[a]) && ids[b] == page_key(ps[b]));
        if a < b {
            crate::text::lemma_char_seq_lt_irreflexive(ids[a]);
            assert(char_seq_lt(keys[order[a]], keys[order[b]]));
        } else {
            crate::text::lemma_char_seq_lt_irreflexive(ids[b]);
            assert(char_seq_lt(keys[order[b]], keys[order[a]]));
        }
    }
    let norms = ps.map_values(|p: PageSource| normalized(page_key(p)));
    let caps = ps.map_values(|p: PageSource| page_caps(p)->0);
    let es = graph_edges(norms, caps, ps.len());
    lemma_graph_edges_ok(norms, caps, ps.len());
    assert(g.edges =~= es.map_values(|e: (int, int)| (ids[e.0], ids[e.1])));
    assert forall|x: int| 0 <= x < g.edges.len() implies node_ids(g).contains(
        (#[trigger] g.edges[x]).0,
    ) && node_ids(g).contains(g.edges[x].1) by {
        assert(node_ids(g)[es[x].0] == g.edges[x].0);
        assert(node_ids(g)[es[x].1] == g.edges[x].1);
    }
    assert forall|a: int| 0 <= a < g.nodes.len() implies (#[trigger] g.nodes[a]).out == edges_from(
        g.edges,
        g.nodes[a].id,
    ) && g.nodes[a].in_degree == edges_to(g.edges, g.nodes[a].id) by {
        lemma_counts_by_id(es, ids, a);
        assert(g.nodes[a].id == ids[a]);
    }
}

/// The graph page; `__GRAPH_DATA__` stands for the graph's JSON.
pub const GRAPH_PAGE_TEMPLATE: &'static str = "<!DOCTYPE html>\n<html lang=\"en\">\n<head>\n<meta charset=\"utf-8\">\n<title>everythingKB graph</title>\n</head>\n<body>\n<div id=\"graph\"></div>\n<script id=\"graph-data\" type=\"application/json\">__GRAPH_DATA__</script>\n</body>\n</html>\n";

/// The placeholder of the graph page's template that the graph's JSON takes the place of.
pub const GRAPH_DATA_PLACEHOLDER: &'static str = "__GRAPH_DATA__";

/// The graph page: `template` with its placeholder replaced by the graph's JSON, in which
/// every `</` is written `<\/` so that the data cannot close the script element it sits in.
pub fn embed_graph_json(template: &str, json: &str) -> (r: String)
    ensures
        r@ == replaced(template@, GRAPH_DATA_PLACEHOLDER@, replaced(json@, "</"@, "<\\/"@)),
{
    proof {
        reveal_strlit("__GRAPH_DATA__");
        reveal_strlit("</");
    }
    let data = replace_str(json, "</", "<\\/");
    replace_str(template, GRAPH_DATA_PLACEHOLDER, data.as_str())
}

} // verus!
