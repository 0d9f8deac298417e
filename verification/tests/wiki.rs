use everythingkb_core::kb::WikiScope;
use everythingkb_core::wiki;

#[test]
fn okf_summary_frontmatter() {
    let md = wiki::wrap_summary_frontmatter("doc", "/tmp/a.pdf", "brief", "body", false);
    assert!(md.contains("type: Document Summary"));
    assert!(md.contains("resource: /tmp/a.pdf"));
}

#[test]
fn okf_link_format() {
    assert_eq!(wiki::okf_link("concepts/foo", "Foo"), "[Foo](concepts/foo.md)");
}

#[test]
fn summary_frontmatter_okf() {
    let md = wiki::wrap_summary_frontmatter(
        "my-doc",
        "/home/u/Documents/notes/paper.pdf",
        "One sentence summary.",
        "body",
        false,
    );
    assert!(md.contains("type: Document Summary"));
    assert!(md.contains("resource: /home/u/Documents/notes/paper.pdf"));
    assert!(md.contains("description: One sentence summary."));
    assert!(md.contains("timestamp:"));
    let private = wiki::wrap_summary_frontmatter("x", "/p", "d", "b", true);
    assert!(private.contains("tags: [private]"));
    assert!(private.contains("private: true"));
}

#[test]
fn okf_link_keeps_md_and_drops_leading_slash() {
    assert_eq!(wiki::okf_link("/summaries/a.md", "a"), "[a](summaries/a.md)");
}

#[test]
fn slugify_examples() {
    assert_eq!(wiki::slugify("Gist Memory!"), "gist-memory");
    assert_eq!(wiki::slugify("--Hello_World--"), "hello-world");
}

#[test]
fn yaml_quote_examples() {
    assert_eq!(wiki::yaml_quote("plain"), "plain");
    assert_eq!(wiki::yaml_quote("a: b"), "\"a: b\"");
    assert_eq!(wiki::yaml_quote("say \"hi\" \\"), "\"say \\\"hi\\\" \\\\\"");
}

#[test]
fn entity_type_capitalized() {
    assert_eq!(wiki::entity_okf_type("person"), "Person");
    assert_eq!(wiki::entity_okf_type(""), "Entity");
}

#[test]
fn civil_time_examples() {
    assert_eq!(wiki::unix_to_utc(0), (1970, 1, 1, 0, 0, 0));
    assert_eq!(wiki::unix_to_utc(951782400), (2000, 2, 29, 0, 0, 0));
    assert_eq!(wiki::unix_to_utc(1700000000), (2023, 11, 14, 22, 13, 20));
    assert_eq!(wiki::okf_timestamp_at(1700000000), "2023-11-14T22:13:20Z");
    assert!(wiki::is_leap(2000));
    assert!(!wiki::is_leap(1900));
}

#[test]
fn page_paths() {
    assert_eq!(wiki::okf_page_path(WikiScope::Private, "concepts", "x"), "private/concepts/x.md");
    assert_eq!(wiki::wiki_page_id(WikiScope::Public, "summaries", "d"), "summaries/d");
    assert_eq!(wiki::summary_path("/w/summaries", "d"), "/w/summaries/d.md");
}

#[test]
fn wrap_page_at_exact() {
    let p = wiki::wrap_page_frontmatter_at("Concept", "T", "d: x", "body", "TS");
    assert_eq!(p, "---\ntype: Concept\ntitle: T\ndescription: \"d: x\"\ntimestamp: TS\n---\n\nbody");
}

#[test]
fn update_index_is_idempotent() {
    let concepts = vec!["c1".to_string()];
    let entities: Vec<String> = vec![];
    let first = wiki::update_index(None, WikiScope::Public, "doc", &concepts, &entities, "brief").unwrap();
    assert!(first.starts_with("# Knowledge Base Index\n\n"));
    assert!(first.contains("## [doc](summaries/doc.md)"));
    assert!(first.contains("Concepts: [c1](concepts/c1.md)"));
    assert!(first.contains("Entities: (none)"));
    assert!(wiki::update_index(Some(&first), WikiScope::Public, "doc", &concepts, &entities, "x").is_none());
}

#[test]
fn related_link_once() {
    let once = wiki::add_related_link("page", WikiScope::Private, "doc").unwrap();
    assert_eq!(once, "page\n\nSee also: [doc](private/summaries/doc.md)\n");
    assert!(wiki::add_related_link(&once, WikiScope::Private, "doc").is_none());
}

#[test]
fn backlinks_once() {
    let slugs = vec!["a".to_string(), "b".to_string(), "a".to_string()];
    let once = wiki::backlink_summary("sum [[concepts/b]]", WikiScope::Public, &slugs);
    assert_eq!(once, "sum [[concepts/b]]\n- Related concept: [a](concepts/a.md)");
    assert_eq!(wiki::backlink_summary(&once, WikiScope::Public, &slugs), once);
}

#[test]
fn briefs_and_targets() {
    let none: Vec<String> = vec![];
    assert_eq!(wiki::briefs_for_dir(&none, "concepts"), "(none)");
    let s = vec!["x".to_string(), "y".to_string()];
    assert_eq!(
        wiki::briefs_for_dir(&s, "private/concepts"),
        "- [x](private/concepts/x.md)\n- [y](private/concepts/y.md)"
    );
    assert_eq!(
        wiki::known_targets(WikiScope::Public, &s, &none, &vec!["e".to_string()]),
        "- [x](summaries/x.md)\n- [y](summaries/y.md)\n- [e](entities/e.md)"
    );
    assert_eq!(wiki::known_targets(WikiScope::Public, &none, &none, &none), "(none)");
}

#[test]
fn context_page_lists_resource() {
    let text = "---\ntype: Document Summary\nresource: /tmp/a.pdf\n---\n\nbody";
    assert_eq!(wiki::frontmatter_sources(text), vec!["/tmp/a.pdf".to_string()]);
    let block = wiki::format_context_page("summaries/a.md", text);
    assert!(block.starts_with("## [summaries/a.md](summaries/a.md)\nResource: /tmp/a.pdf\n\n---"));
    let legacy = "---\nsource: /x\nsources:\n  - /y\n  - \"\"\n---\nb";
    assert_eq!(wiki::frontmatter_sources(legacy), vec!["/x".to_string(), "/y".to_string()]);
    assert!(wiki::frontmatter_sources("no front matter").is_empty());
}

#[test]
fn agents_default() {
    assert_eq!(
        wiki::agents_md(None),
        "# Wiki Agent Instructions\n\nSummaries, concepts, entities, sources.\n"
    );
    assert_eq!(wiki::agents_md(Some("mine")), "mine");
}
