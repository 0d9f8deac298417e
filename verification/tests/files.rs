use everythingkb_core::convert::file_hash;
use everythingkb_core::ingest::{
    config_save, decide_ingest, init_plan, recorded_status, starters_to_write, ConfigSave, IngestStep,
};
use everythingkb_core::classifier::FileKind;
use everythingkb_core::kb::{agents_template, index_template, log_template, private_index_template, KbPaths};
use everythingkb_core::metadata::{exif_fields, media_type, profile_stub_from};
use everythingkb_core::query::{context_dirs, selection_blocks, wiki_context, CONTEXT_PAGES_PER_DIR};
use everythingkb_core::index::{PageIndexDoc, PageText, TreeNode};
use everythingkb_core::llm::client::{json_step, JsonStage, JsonStep};
use everythingkb_core::classifier::{classify, is_document_extension};
use everythingkb_core::config::Config;
use everythingkb_core::wiki::entity_okf_type;
use everythingkb_core::registry::{needs_reindex, FileRecord};
use everythingkb_core::text::replace_str;
use everythingkb_core::visualize::embed_graph_json;
use everythingkb_core::kb::WikiScope;
use everythingkb_core::wiki::{format_context_page, okf_timestamp_at, slugify, unix_to_utc};

/// A little-endian TIFF holding one IFD entry: `Make` (0x10f), ASCII `ABC`.
fn tiff_with_make() -> Vec<u8> {
    let mut b = vec![b'I', b'I', 42, 0, 8, 0, 0, 0];
    b.extend_from_slice(&[1, 0]);
    b.extend_from_slice(&[0x0f, 0x01, 2, 0, 4, 0, 0, 0, b'A', b'B', b'C', 0]);
    b.extend_from_slice(&[0, 0, 0, 0]);
    b
}

#[test]
fn file_hash_is_hex_sha256_of_content() {
    assert_eq!(
        file_hash(b"abc"),
        "ba7816bf8f01cfea414140de5dae2223b00361a396177a9cb410ff61f20015ad"
    );
    assert_eq!(
        file_hash(b""),
        "e3b0c44298fc1c149afbf4c8996fb92427ae41e4649b934ca495991b7852b855"
    );
    assert_ne!(file_hash(b"abc"), file_hash(b"abd"));
}

#[test]
fn media_type_from_first_bytes() {
    assert_eq!(media_type(&[0x89, 0x50, 0x4E, 0x47, 0x0D, 0x0A, 0x1A, 0x0A]), "image/png");
    assert_eq!(media_type(&[0xFF, 0xD8, 0xFF, 0xE0]), "image/jpeg");
    assert_eq!(media_type(&[]), "application/octet-stream");
}

#[test]
fn exif_fields_of_bytes() {
    let fields = exif_fields(&tiff_with_make());
    assert_eq!(fields.len(), 1);
    assert_eq!(fields[0].0, "Make");
    assert!(fields[0].1.contains("ABC"));
    assert!(exif_fields(b"not an image").is_empty());
}

#[test]
fn profile_stub_from_bytes() {
    let png = [0x89u8, 0x50, 0x4E, 0x47, 0x0D, 0x0A, 0x1A, 0x0A];
    let stub = profile_stub_from("a.png", "/p/a.png", &png, &png, 8, Some("p"), &None);
    assert_eq!(
        stub,
        "# a.png\n- path: /p/a.png\n- type: image/png\n- size: 8 bytes\n- parent: p\n\nIndexed as user-profile metadata stub."
    );
    let tiff = tiff_with_make();
    let stub = profile_stub_from("c.tif", "/c.tif", &tiff, &tiff, 26, None, &None);
    assert!(stub.contains("- type: image/tiff\n"));
    assert!(stub.contains("- Make: "));
    let stub = profile_stub_from("x", "/x", b"", b"", 0, None, &None);
    assert!(stub.contains("- type: application/octet-stream\n"));
}

#[test]
fn init_plan_lays_down_dirs_and_starters() {
    let p = KbPaths::new("/kb".to_string(), Some("/home/u"));
    let plan = init_plan(&p);
    assert_eq!(
        plan.dirs,
        vec![
            "/kb/.everythingkb",
            "/kb/wiki",
            "/kb/wiki/summaries",
            "/kb/wiki/concepts",
            "/kb/wiki/entities",
            "/kb/wiki/sources",
            "/kb/wiki/private",
            "/kb/wiki/private/summaries",
            "/kb/wiki/private/concepts",
            "/kb/wiki/private/entities",
            "/kb/wiki/private/sources",
            "/kb/.everythingkb/pageindex",
            "/kb/.everythingkb/pageindex/private",
        ]
    );
    let paths: Vec<&str> = plan.starters.iter().map(|(p, _)| p.as_str()).collect();
    assert_eq!(
        paths,
        vec!["/kb/wiki/AGENTS.md", "/kb/wiki/index.md", "/kb/wiki/private/index.md", "/kb/wiki/log.md"]
    );
    assert_eq!(plan.starters[0].1, agents_template());
    assert_eq!(plan.starters[1].1, index_template());
    assert_eq!(plan.starters[2].1, private_index_template());
    assert_eq!(plan.starters[3].1, log_template());
}

#[test]
fn init_keeps_existing_pages() {
    let p = KbPaths::new("/kb".to_string(), None);
    let plan = init_plan(&p);
    let written = starters_to_write(&plan.starters, &vec![true, false, true, false]);
    let paths: Vec<&str> = written.iter().map(|(p, _)| p.as_str()).collect();
    assert_eq!(paths, vec!["/kb/wiki/index.md", "/kb/wiki/log.md"]);
    assert!(starters_to_write(&plan.starters, &vec![true; 4]).is_empty());
    assert_eq!(starters_to_write(&plan.starters, &vec![false; 4]).len(), 4);
}

#[test]
fn reingest_of_unchanged_file_is_skipped() {
    let hash = file_hash(b"content");
    let step = decide_ingest(false, true, FileKind::Document, false);
    assert_eq!(step, IngestStep::Ingest);
    let status = recorded_status(step, true).unwrap();
    let rec = FileRecord {
        path: "docs/a.md".to_string(),
        file_hash: hash.clone(),
        mtime: 5,
        size: 7,
        status,
        doc_name: Some("a".to_string()),
        error: None,
        private: false,
    };
    let again = needs_reindex(Some(&rec), 5, 7, &hash);
    assert!(!again);
    assert_eq!(decide_ingest(false, again, FileKind::Document, false), IngestStep::Unchanged);
    assert_eq!(decide_ingest(true, again, FileKind::Document, false), IngestStep::Ingest);
    assert!(needs_reindex(Some(&rec), 5, 7, &file_hash(b"changed")));
}

#[test]
fn replace_str_replaces_every_occurrence() {
    assert_eq!(replace_str("a</b</c", "</", "<\\/"), "a<\\/b<\\/c");
    assert_eq!(replace_str("aaa", "aa", "b"), "ba");
    assert_eq!(replace_str("xyz", "q", "r"), "xyz");
}

#[test]
fn graph_json_is_embedded_in_template() {
    let html = embed_graph_json("<script>__GRAPH_DATA__</script>", "{\"a\":\"</script>\"}");
    assert_eq!(html, "<script>{\"a\":\"<\\/script>\"}</script>");
    assert!(!html.contains("__GRAPH_DATA__"));
}

#[test]
fn wiki_context_of_pages() {
    assert_eq!(CONTEXT_PAGES_PER_DIR, 30);
    let pages = vec![
        ("concepts".to_string(), "memory".to_string(), "Memory body".to_string()),
        ("entities".to_string(), "ada".to_string(), "Ada body".to_string()),
    ];
    let ctx = wiki_context(WikiScope::Public, &pages);
    let first = format_context_page("concepts/memory.md", "Memory body");
    let second = format_context_page("entities/ada.md", "Ada body");
    assert_eq!(ctx, format!("{first}\n{second}"));
    assert_eq!(wiki_context(WikiScope::Public, &vec![]), "");
}

#[test]
fn slugify_twice_changes_nothing() {
    for name in ["Gist Memory!", "--Hello_World--", "Ünïcödé Näme", "KELVIN \u{212A}", "x"] {
        let once = slugify(name);
        assert_eq!(slugify(&once), once);
        assert!(!once.chars().any(|c| c.is_ascii_uppercase()));
    }
}

#[test]
fn civil_time_far_out() {
    assert_eq!(unix_to_utc(253402300800), (10000, 1, 1, 0, 0, 0));
    assert_eq!(okf_timestamp_at(253402300799), "9999-12-31T23:59:59Z");
}

#[test]
fn existing_config_is_kept() {
    assert_eq!(config_save(true, true), ConfigSave::Keep);
    assert_eq!(config_save(true, false), ConfigSave::Keep);
    assert_eq!(config_save(false, true), ConfigSave::FromLegacy);
    assert_eq!(config_save(false, false), ConfigSave::WriteDefault);
}

fn two_page_doc() -> PageIndexDoc {
    PageIndexDoc {
        doc_name: "book".to_string(),
        page_count: 2,
        tree: vec![TreeNode {
            title: "Intro".to_string(),
            page_start: 1,
            page_end: 1,
            children: vec![],
            summary: None,
        }],
        pages: vec![
            PageText { page: 1, text: "first page".to_string() },
            PageText { page: 2, text: "second page".to_string() },
        ],
    }
}

#[test]
fn selection_blocks_of_model_picks() {
    let docs = vec![two_page_doc()];
    let picks = vec![
        ("book".to_string(), "Intro".to_string()),
        ("book".to_string(), "Missing".to_string()),
        ("other".to_string(), "Intro".to_string()),
    ];
    let sources = vec![vec![], vec![], vec![]];
    let blocks = selection_blocks(&docs, &picks, &sources, WikiScope::Public);
    assert_eq!(blocks, vec!["### [book](summaries/book.md): Intro\n## Page 1\nfirst page".to_string()]);
    assert!(selection_blocks(&docs, &vec![], &vec![], WikiScope::Public).is_empty());
}

#[test]
fn json_step_retries_once() {
    match json_step(JsonStage::First, "u", "{\"a\": 1}") {
        JsonStep::Done(_) => {}
        _ => panic!("a JSON reply is read"),
    }
    match json_step(JsonStage::First, "u", "  ") {
        JsonStep::Retry(p) => assert_eq!(
            p,
            "u\n\nYour previous reply was not valid JSON. Reply with ONLY one JSON object. No markdown fences, no commentary."
        ),
        _ => panic!("the first unreadable reply asks again"),
    }
    match json_step(JsonStage::Retried, "u", "{ broken") {
        JsonStep::Failed(e) => assert_eq!(e.message(), "invalid JSON object in model output"),
        _ => panic!("the second unreadable reply fails"),
    }
}

#[test]
fn context_dirs_by_zone() {
    let p = KbPaths::new("/kb".to_string(), None);
    let public: Vec<(String, String)> = context_dirs(&p, WikiScope::Public);
    assert_eq!(
        public,
        vec![
            ("/kb/wiki/summaries".to_string(), "summaries".to_string()),
            ("/kb/wiki/concepts".to_string(), "concepts".to_string()),
            ("/kb/wiki/entities".to_string(), "entities".to_string()),
        ]
    );
    let private = context_dirs(&p, WikiScope::Private);
    assert_eq!(private[0].0, "/kb/wiki/private/summaries");
    assert!(public.iter().all(|(d, _)| !d.starts_with("/kb/wiki/private")));
}

#[test]
fn ascii_case_mapping_of_extensions_and_types() {
    assert!(is_document_extension("PDF"));
    assert!(is_document_extension("Md"));
    let config = Config::default();
    assert_eq!(classify(false, "/d/a.PDF", Some("PDF"), 1, &config), FileKind::Document);
    assert_eq!(entity_okf_type("person"), "Person");
    assert_eq!(entity_okf_type(""), "Entity");
}
