use everythingkb_core::convert::{hex_string, name_taken, resolve_doc_name, sanitize_stem};
use everythingkb_core::registry::{FileRecord, FileStatus};
use everythingkb_core::visualize::{
    build_graph, excerpt_from_body, looks_like_slug, normalize_target, parse_frontmatter, ContentDir,
    PageSource,
};

#[test]
fn normalize_wikilink_target() {
    assert_eq!(normalize_target("concepts/Gist_Memory"), "concepts/gist-memory");
}

#[test]
fn normalize_collapses_dashes() {
    assert_eq!(normalize_target("Concepts/--A__b--/x-"), "concepts/a-b/x");
    assert_eq!(normalize_target(""), "");
}

#[test]
fn excerpt_from_first_paragraph() {
    let body = "# Title\n\nFirst sentence here.\n\nMore text.";
    assert_eq!(excerpt_from_body(body), "First sentence here.");
}

#[test]
fn excerpt_edge_cases() {
    assert_eq!(excerpt_from_body(""), "");
    assert_eq!(excerpt_from_body("# Only a heading"), "");
    assert_eq!(excerpt_from_body("\n  \n  indented line  \nnext"), "indented line");
    let long = "x".repeat(300);
    let e = excerpt_from_body(&long);
    assert_eq!(e.chars().count(), 241);
    assert!(e.ends_with('…'));
    assert_eq!(excerpt_from_body(&"y".repeat(240)), "y".repeat(240));
}

#[test]
fn uses_title_as_description_when_sentence() {
    let text = "---\ntitle: ADCC is a mechanism\n---\n\n# ADCC\n\nBody.";
    let (_, desc, _) = parse_frontmatter(text, "Concept");
    assert!(desc.contains("mechanism"));
}

#[test]
fn slug_titles_fall_back_to_body() {
    assert!(looks_like_slug("gist-memory_2"));
    assert!(!looks_like_slug("Gist memory"));
    assert!(!looks_like_slug(""));
    let text = "---\ntitle: gist-memory\ntype: Theory\nsource: a.pdf\nsources:\n  - b.pdf\n  - c.pdf\nfull_text: sources/a.md\n---\n\n# Gist\n\nThe gist of it.";
    let (t, desc, sources) = parse_frontmatter(text, "Concept");
    assert_eq!(t, "Theory");
    assert_eq!(desc, "The gist of it.");
    assert_eq!(sources, vec!["sources/a.md", "a.pdf", "b.pdf", "c.pdf"]);
}

#[test]
fn default_type_without_front_matter() {
    let (t, desc, sources) = parse_frontmatter("Plain text.", "Entity");
    assert_eq!(t, "Entity");
    assert_eq!(desc, "Plain text.");
    assert!(sources.is_empty());
}

fn page(dir: ContentDir, stem: &str, text: &str) -> PageSource {
    PageSource { dir, stem: stem.to_string(), text: text.to_string() }
}

#[test]
fn graph_nodes_edges_and_degrees() {
    let pages = vec![
        page(
            ContentDir::Summaries,
            "doc",
            "---\ntitle: doc\nfull_text: sources/doc.md\n---\n\n# doc\n\nA summary paragraph.",
        ),
        page(
            ContentDir::Concepts,
            "beta",
            "# Beta\n\nBeta body links [[Concepts/Alpha]].",
        ),
        page(
            ContentDir::Concepts,
            "alpha",
            "---\ntype: Concept\ndescription: First letter\n---\n\nSee [[concepts/Beta]] and [[summaries/doc|Doc]] and [[concepts/beta]] and [[concepts/alpha]] and [[missing]].",
        ),
    ];
    let g = build_graph(&pages).unwrap();
    let ids: Vec<&str> = g.nodes.iter().map(|n| n.id.as_str()).collect();
    assert_eq!(ids, vec!["concepts/alpha", "concepts/beta", "summaries/doc"]);
    let edges: Vec<(&str, &str)> = g.edges.iter().map(|e| (e.source.as_str(), e.target.as_str())).collect();
    assert_eq!(
        edges,
        vec![
            ("concepts/alpha", "concepts/beta"),
            ("concepts/alpha", "summaries/doc"),
            ("concepts/beta", "concepts/alpha"),
        ]
    );
    let degrees: Vec<(usize, usize)> = g.nodes.iter().map(|n| (n.out, n.in_degree)).collect();
    assert_eq!(degrees, vec![(2, 1), (1, 1), (0, 1)]);
    assert_eq!(g.types, vec!["Concept", "Summary"]);
    assert_eq!(g.nodes[0].description, "First letter");
    assert_eq!(g.nodes[1].description, "Beta body links [[Concepts/Alpha]].");
    assert_eq!(g.nodes[1].label, "beta");
    assert_eq!(g.nodes[2].description, "A summary paragraph.");
    assert_eq!(g.nodes[2].sources, vec!["sources/doc.md"]);
}

#[test]
fn graph_keeps_last_page_of_an_id() {
    let pages = vec![
        page(ContentDir::Entities, "x", "first"),
        page(ContentDir::Entities, "x", "second"),
    ];
    let g = build_graph(&pages).unwrap();
    assert_eq!(g.nodes.len(), 1);
    assert_eq!(g.nodes[0].description, "second");
    assert_eq!(g.nodes[0].node_type, "Entity");
    assert!(g.edges.is_empty());
}

fn record(doc_name: Option<&str>) -> FileRecord {
    FileRecord {
        path: "docs/a.md".to_string(),
        file_hash: "h".to_string(),
        mtime: 0,
        size: 0,
        status: FileStatus::Indexed,
        doc_name: doc_name.map(|s| s.to_string()),
        error: None,
        private: false,
    }
}

#[test]
fn sanitized_stems() {
    let none: Vec<FileRecord> = vec![];
    assert_eq!(sanitize_stem("My File (1)", "docs/a.md", &none).unwrap(), "My-File-1");
    assert_eq!(sanitize_stem("(((", "docs/a.md", &none).unwrap(), "document");
    assert_eq!(sanitize_stem("a--b", "docs/a.md", &none).unwrap(), "a--b");
}

#[test]
fn taken_names_get_a_hash_suffix() {
    let indexed = vec![record(Some("report"))];
    assert!(name_taken("report", &indexed));
    assert!(!name_taken("other", &indexed));
    assert_eq!(sanitize_stem("report", "docs/a.md", &indexed).unwrap(), "report-5231f8a1");
}

#[test]
fn hex_of_bytes() {
    assert_eq!(hex_string(&vec![0u8, 15, 16, 255]), "000f10ff");
}

#[test]
fn doc_name_prefers_the_record() {
    let none: Vec<FileRecord> = vec![];
    let rec = record(Some("kept-name"));
    assert_eq!(resolve_doc_name(Some(&rec), Some("other"), "docs/a.md", &none).unwrap(), "kept-name");
    let bare = record(None);
    assert_eq!(resolve_doc_name(Some(&bare), Some("My Notes"), "docs/a.md", &none).unwrap(), "My-Notes");
    assert_eq!(resolve_doc_name(None, None, "docs/a.md", &none).unwrap(), "document");
}

#[test]
fn render_injects_graph_json() {
    // The JSON of a graph with the one node `summaries/a` (type `Summary`) and no edges.
    let json = "{\"nodes\":[{\"id\":\"summaries/a\",\"label\":\"a\",\"type\":\"Summary\",\"description\":\"\",\"sources\":[],\"out\":0,\"in\":0}],\"edges\":[],\"types\":[\"Summary\"]}";
    let html = everythingkb_core::visualize::embed_graph_json(
        everythingkb_core::visualize::GRAPH_PAGE_TEMPLATE,
        json,
    );
    assert!(html.contains("\"summaries/a\""));
    assert!(!html.contains("__GRAPH_DATA__"));
}
