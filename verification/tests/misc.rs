use everythingkb_core::compile::prompts;
use everythingkb_core::exclusions::ExclusionEngine;
use everythingkb_core::index::{default_tree, node_text, tree_overview_markdown, PageIndexDoc, PageText, TreeNode};
use everythingkb_core::privacy::{doc_is_private, is_private_path};
use everythingkb_core::registry::{needs_reindex, portable_path, FileRecord, FileStatus};
use everythingkb_core::scanner::root_is_hidden;
use everythingkb_core::sessions::append_turn_history;

#[test]
fn clip_content_respects_utf8_boundaries() {
    let s = "中".repeat(12_001);
    let clipped = prompts::clip_content(&s);
    assert!(clipped.contains('中'));
    assert!(clipped.contains("chars omitted"));
    assert!(std::str::from_utf8(clipped.as_bytes()).is_ok());
}

#[test]
fn clip_content_exact() {
    assert_eq!(prompts::clip_content("short"), "short");
    let s = "a".repeat(12_003);
    let c = prompts::clip_content(&s);
    assert!(c.starts_with(&"a".repeat(12_000)));
    assert!(c.ends_with("\n\n[... 3 chars omitted — summarize from this excerpt ...]"));
}

#[test]
fn prompts_embed_arguments() {
    assert!(prompts::query_user("Why?", "CTX").ends_with("Wiki context:\nCTX\n\nQuestion: Why?"));
    let types = vec!["person".to_string(), "place".to_string()];
    assert!(prompts::concepts_plan_user("c", "e", &types).contains("one of: person, place."));
    assert!(prompts::concept_page_user("d", "T", true).contains("Integrate new information"));
}

#[test]
fn hidden_root_detection() {
    assert!(!root_is_hidden("/home/u/Documents"));
    assert!(root_is_hidden("/home/u/.config/myapp"));
    assert!(!root_is_hidden("../a/./b"));
}

#[test]
fn skips_node_modules() {
    let engine = ExclusionEngine::new(&vec![], &vec![], 500);
    assert!(engine.should_skip("/home/u/project/node_modules/pkg/index.js", None));
}

#[test]
fn includes_steam_userdata() {
    let engine = ExclusionEngine::new(&vec![], &vec![], 500);
    assert!(!engine.should_skip("/home/u/.steam/steam/userdata/123/456/remote/save.sav", None));
}

#[test]
fn exclusions_skip_git() {
    let engine = ExclusionEngine::new(&vec![], &vec![], 500);
    assert!(engine.should_skip("/home/user/project/.git/config", None));
}

#[test]
fn exclusions_size_and_custom_patterns() {
    let engine = ExclusionEngine::new(&vec!["\\.tmp$".to_string(), "(".to_string()], &vec![], 1);
    assert!(engine.should_skip("/a/b.tmp", None));
    assert!(!engine.should_skip("/a/b.txt", Some(1024 * 1024)));
    assert!(engine.should_skip("/a/b.txt", Some(1024 * 1024 + 1)));
}

#[test]
fn private_path_prefix() {
    let roots = vec!["/tmp/private-zone".to_string()];
    assert!(is_private_path("/tmp/private-zone/medical/report.pdf", &roots));
    assert!(!is_private_path("/tmp/private-zone2/x", &roots));
    assert!(doc_is_private(false, Some(true), true));
    assert!(!doc_is_private(false, Some(true), false));
    assert!(doc_is_private(true, Some(false), false));
}

#[test]
fn status_names_round_trip() {
    for s in [FileStatus::Pending, FileStatus::Indexed, FileStatus::Failed, FileStatus::Skipped] {
        assert_eq!(FileStatus::from_str(s.as_str()), s);
    }
    assert_eq!(FileStatus::from_str("weird"), FileStatus::Pending);
}

#[test]
fn reindex_rules() {
    let rec = FileRecord {
        path: "a".into(),
        file_hash: "h".into(),
        mtime: 1,
        size: 2,
        status: FileStatus::Indexed,
        doc_name: Some("a".into()),
        error: None,
        private: false,
    };
    assert!(!needs_reindex(Some(&rec), 1, 2, "h"));
    assert!(needs_reindex(Some(&rec), 1, 2, "other"));
    assert!(needs_reindex(None, 1, 2, "h"));
}

#[test]
fn portable_paths() {
    assert_eq!(portable_path("/kb/wiki/a.md", "/kb"), "wiki/a.md");
    assert_eq!(portable_path("/kbx/a.md", "/kb"), "/kbx/a.md");
    assert_eq!(portable_path("/home/a.md", "/kb"), "/home/a.md");
}

#[test]
fn chat_history_append() {
    assert_eq!(append_turn_history("", "hi", "hello"), "\nUser: hi\nAssistant: hello\n");
}

#[test]
fn default_tree_covers_pages() {
    let t = default_tree(10);
    let spans: Vec<(u32, u32)> = t.iter().map(|n| (n.page_start, n.page_end)).collect();
    assert_eq!(spans, vec![(1, 2), (3, 4), (5, 6), (7, 8), (9, 10)]);
    assert_eq!(t[0].title, "Pages 1-2");
    assert!(default_tree(0).is_empty());
    assert_eq!(default_tree(3).len(), 3);
}

#[test]
fn overview_and_node_text() {
    let doc = PageIndexDoc {
        doc_name: "book".into(),
        page_count: 3,
        tree: vec![TreeNode {
            title: "Intro".into(),
            page_start: 1,
            page_end: 2,
            children: vec![TreeNode {
                title: "Sub".into(),
                page_start: 2,
                page_end: 2,
                children: vec![],
                summary: None,
            }],
            summary: None,
        }],
        pages: vec![
            PageText { page: 1, text: "one".into() },
            PageText { page: 2, text: "two".into() },
            PageText { page: 3, text: "three".into() },
        ],
    };
    assert_eq!(
        tree_overview_markdown(&doc),
        "# book\n\nPageIndex tree (3 pages)\n\n- Intro (pp. 1-2)\n  - Sub (pp. 2-2)\n"
    );
    assert_eq!(node_text(&doc, &doc.tree[0]), "## Page 1\none\n\n## Page 2\ntwo");
}
