use everythingkb_core::classifier::FileKind;
use everythingkb_core::compile::{compile_action, promotes_sources, prompts};
use everythingkb_core::config::{Config, LlmConfig};
use everythingkb_core::convert::{
    already_converted, convert_route, is_long_pdf, join_page_texts, pdf_failed_markdown,
    titled_markdown, unsupported_markdown, uses_word_converter, ConvertRoute,
};
use everythingkb_core::index::{tree_sample, tree_system_prompt, tree_user, PageIndexDoc, PageText};
use everythingkb_core::pdf::{pdfium_archive, pdfium_cache_dir, pdfium_download_url, pdfium_lib_filename};
use everythingkb_core::query::{find_doc, long_doc_context};
use everythingkb_core::ingest::{decide_ingest, ingest_route, init_kb, recorded_status, IngestRoute, IngestStep};
use everythingkb_core::kb::{agents_template, index_template, log_template, private_index_template, KbPaths, WikiScope};
use everythingkb_core::llm::settings::{
    assistant_text, chat_completions_url, ollama_vision_model, openai_settings, LlmSetupError,
};
use everythingkb_core::metadata::{profile_stub_text, wants_exif, wants_probe, with_visual_description, MediaProbe};
use everythingkb_core::registry::{FileRecord, FileStatus};
use everythingkb_core::text::trim_end_char_string;
use everythingkb_core::visualize::sort_order;

#[test]
fn vision_model_falls_back_to_main_model() {
    let mut llm = LlmConfig::default();
    assert_eq!(ollama_vision_model(&llm), "batiai/gemma4-e2b:q4");
    llm.vision_model = Some(String::new());
    assert_eq!(ollama_vision_model(&llm), "batiai/gemma4-e2b:q4");
    llm.vision_model = Some("llava:7b".to_string());
    assert_eq!(ollama_vision_model(&llm), "llava:7b");
}

#[test]
fn openai_settings_need_a_base_url() {
    let mut llm = LlmConfig::default();
    assert_eq!(openai_settings(&llm).unwrap_err(), LlmSetupError::MissingBaseUrl);
    llm.openai_base_url = Some(String::new());
    assert!(openai_settings(&llm).is_err());
    llm.openai_base_url = Some("http://192.168.1.167:8000/v1//".to_string());
    let s = openai_settings(&llm).unwrap();
    assert_eq!(s.base_url, "http://192.168.1.167:8000/v1");
    assert_eq!(s.model, "batiai/gemma4-e2b:q4");
    assert_eq!(s.api_key, "not-needed");
    assert_eq!(s.max_tokens, 4096);
    assert_eq!(s.timeout_secs, 300);
    assert_eq!(chat_completions_url(&s.base_url), "http://192.168.1.167:8000/v1/chat/completions");
    llm.openai_model = Some("/model".to_string());
    llm.openai_api_key = Some("k".to_string());
    llm.n_ctx = 8192;
    let s = openai_settings(&llm).unwrap();
    assert_eq!(s.model, "/model");
    assert_eq!(s.api_key, "k");
    assert_eq!(s.max_tokens, 4096);
    llm.n_ctx = 2048;
    assert_eq!(openai_settings(&llm).unwrap().max_tokens, 2048);
    assert!(LlmSetupError::MissingBaseUrl.message().contains("openai_base_url"));
}

#[test]
fn assistant_text_prefers_content() {
    assert_eq!(assistant_text(Some("answer"), Some("thinking")), Some("answer".to_string()));
    assert_eq!(assistant_text(Some("  \n"), Some("thinking")), Some("thinking".to_string()));
    assert_eq!(assistant_text(None, Some("thinking")), Some("thinking".to_string()));
    assert_eq!(assistant_text(None, None), None);
}

#[test]
fn metadata_stub_lines() {
    let exif = vec![("Make".to_string(), "Canon".to_string())];
    let stub = profile_stub_text("a.jpg", "/p/a.jpg", Some("image/jpeg"), 12, Some("p"), &exif, &None);
    assert_eq!(
        stub,
        "# a.jpg\n- path: /p/a.jpg\n- type: image/jpeg\n- size: 12 bytes\n- parent: p\n- Make: Canon\n\nIndexed as user-profile metadata stub."
    );
    let probe = Some(MediaProbe { duration: None, codec: Some("h264".to_string()) });
    let stub = profile_stub_text("c.mp4", "/c.mp4", Some("video/mp4"), 0, None, &exif, &probe);
    assert_eq!(
        stub,
        "# c.mp4\n- path: /c.mp4\n- type: video/mp4\n- size: 0 bytes\n- duration: unknown\n- codec: h264\n\nIndexed as user-profile metadata stub."
    );
    let stub = profile_stub_text("x", "/x", None, 3, None, &vec![], &None);
    assert!(stub.contains("- type: application/octet-stream\n"));
    assert!(wants_exif("image/png") && !wants_exif("video/mp4"));
    assert!(wants_probe("audio/ogg") && wants_probe("video/mp4") && !wants_probe("text/plain"));
    assert_eq!(with_visual_description("stub", "  a cat \n"), "stub\n\n## Visual description\n\na cat\n");
}

fn indexed(hash: &str, doc_name: Option<&str>) -> FileRecord {
    FileRecord {
        path: "a.pdf".to_string(),
        file_hash: hash.to_string(),
        mtime: 1,
        size: 2,
        status: FileStatus::Indexed,
        doc_name: doc_name.map(|s| s.to_string()),
        error: None,
        private: false,
    }
}

#[test]
fn conversion_routes_and_texts() {
    assert_eq!(convert_route("md"), ConvertRoute::CopyText);
    assert_eq!(convert_route("txt"), ConvertRoute::CopyText);
    assert_eq!(convert_route("markdown"), ConvertRoute::CopyText);
    assert_eq!(convert_route("pdf"), ConvertRoute::Pdf);
    assert_eq!(convert_route("docx"), ConvertRoute::Extract);
    assert!(is_long_pdf(20, 20) && !is_long_pdf(19, 20));
    assert!(uses_word_converter("docx") && uses_word_converter("doc") && !uses_word_converter("pdf"));
    assert_eq!(pdf_failed_markdown("doc"), "# doc\n\n(PDF text extraction failed)\n");
    assert_eq!(unsupported_markdown("doc", "xyz"), "# doc\n\n(Unsupported format `xyz`)\n");
    assert_eq!(titled_markdown("stem", "body"), "# stem\n\nbody");
    let pages = vec!["one".to_string(), String::new(), "two".to_string()];
    assert_eq!(join_page_texts(&pages), "one\n\ntwo");
    assert_eq!(join_page_texts(&vec![]), "");
}

#[test]
fn unchanged_conversions_are_kept() {
    let rec = indexed("h1", Some("kept"));
    assert_eq!(already_converted(false, Some(&rec), "h1", "new"), Some("kept".to_string()));
    assert_eq!(already_converted(true, Some(&rec), "h1", "new"), None);
    assert_eq!(already_converted(false, Some(&rec), "h2", "new"), None);
    assert_eq!(already_converted(false, None, "h1", "new"), None);
    let unnamed = indexed("h1", None);
    assert_eq!(already_converted(false, Some(&unnamed), "h1", "new"), Some("new".to_string()));
    let mut failed = indexed("h1", Some("kept"));
    failed.status = FileStatus::Failed;
    assert_eq!(already_converted(false, Some(&failed), "h1", "new"), None);
}

#[test]
fn tree_prompts() {
    let pages = vec![
        PageText { page: 1, text: "first".to_string() },
        PageText { page: 2, text: "z".repeat(801) },
    ];
    let sample = tree_sample(&pages);
    assert!(sample.starts_with("## Page 1\nfirst\n## Page 2\n"));
    assert!(sample.ends_with("…\n"));
    let many: Vec<PageText> = (1..=40).map(|p| PageText { page: p, text: String::new() }).collect();
    let s = tree_sample(&many);
    assert!(s.contains("## Page 30\n") && !s.contains("## Page 31\n"));
    let user = tree_user("doc", 2, "S");
    assert!(user.starts_with("Document: doc\nPages: 2\n\nSample page text:\nS\n\nReturn JSON: {\"tree\""));
    assert!(tree_system_prompt().contains("table-of-contents"));
}

#[test]
fn request_framing() {
    assert_eq!(prompts::plan_request("S", "P"), "Document summary:\nS\n\nP");
    assert_eq!(prompts::page_request("S", "U"), "Summary context:\nS\n\nU");
    let r = prompts::rewrite_request("D");
    assert!(r.starts_with("Document summary draft:\nD\n\nRewrite the summary"));
    assert!(r.ends_with(&prompts::summary_rewrite_user()));
}

#[test]
fn starter_pages() {
    assert!(agents_template().starts_with("# Wiki Agent Instructions\n"));
    assert!(index_template().contains("okf_version: \"0.1\""));
    assert!(private_index_template().contains("# Private Knowledge Base Index"));
    assert_eq!(log_template(), "# Ingest Log\n\n");
}

#[test]
fn private_zone_is_a_separate_directory() {
    let kb = KbPaths::new("/kb".to_string(), Some("/home/u"));
    let public = kb.layout(WikiScope::Public);
    let private = kb.layout(WikiScope::Private);
    assert_eq!(public.summaries, "/kb/wiki/summaries");
    assert_eq!(private.summaries, "/kb/wiki/private/summaries");
    assert!(!private.summaries.starts_with(&format!("{}/", public.summaries)));
    assert_eq!(kb.pageindex_dir(WikiScope::Private), "/kb/.everythingkb/pageindex/private");
}

#[test]
fn ingest_decisions() {
    assert_eq!(decide_ingest(true, false, FileKind::Document, false), IngestStep::Ingest);
    assert_eq!(decide_ingest(false, false, FileKind::Document, false), IngestStep::Unchanged);
    assert_eq!(decide_ingest(false, true, FileKind::Skip, false), IngestStep::NotIndexable);
    assert_eq!(decide_ingest(false, true, FileKind::Image, true), IngestStep::DryRun);
    assert_eq!(recorded_status(IngestStep::NotIndexable, true), Some(FileStatus::Skipped));
    assert_eq!(recorded_status(IngestStep::Ingest, true), Some(FileStatus::Indexed));
    assert_eq!(recorded_status(IngestStep::Ingest, false), Some(FileStatus::Failed));
    assert_eq!(recorded_status(IngestStep::DryRun, true), None);
    assert_eq!(recorded_status(IngestStep::Unchanged, false), None);
    assert_eq!(ingest_route(FileKind::Document), IngestRoute::ConvertShort);
    assert_eq!(ingest_route(FileKind::LongDocument), IngestRoute::ConvertLong);
    assert_eq!(ingest_route(FileKind::UserProfile), IngestRoute::MetadataStub);
    assert_eq!(ingest_route(FileKind::Image), IngestRoute::ImageSummary);
    assert_eq!(ingest_route(FileKind::Skip), IngestRoute::Unexpected);
}

#[test]
fn init_uses_default_config() {
    let (kb, config) = init_kb(Some("/data/kb".to_string()), Some("/home/u"));
    assert_eq!(kb.registry_path, "/data/kb/.everythingkb/registry.db");
    assert_eq!(kb.config_path, "/home/u/.everythingkb/config.toml");
    let d = Config::default();
    assert_eq!(config.language, d.language);
    assert_eq!(config.scan_paths, d.scan_paths);
    assert!(config.private_detect);
}

#[test]
fn compile_decisions() {
    assert!(promotes_sources(false, true));
    assert!(!promotes_sources(true, true));
    assert!(!promotes_sources(false, false));
    assert_eq!(compile_action(true), "compile-long");
    assert_eq!(compile_action(false), "compile");
}

#[test]
fn trailing_slashes_trimmed() {
    assert_eq!(trim_end_char_string("a//", '/'), "a");
    assert_eq!(trim_end_char_string("///", '/'), "");
    assert_eq!(trim_end_char_string("a/b", '/'), "a/b");
}

#[test]
fn sort_order_keeps_last_of_equal_keys() {
    let keys: Vec<String> = vec!["b", "a", "c", "a", "B"].into_iter().map(String::from).collect();
    assert_eq!(sort_order(&keys), vec![4, 3, 0, 2]);
}

#[test]
fn long_doc_selection() {
    let doc = |name: &str| PageIndexDoc { doc_name: name.to_string(), page_count: 0, tree: vec![], pages: vec![] };
    let docs = vec![doc("a"), doc("b"), doc("b")];
    assert_eq!(find_doc(&docs, "b"), Some(1));
    assert_eq!(find_doc(&docs, "c"), None);
    assert_eq!(long_doc_context(&vec![]), "\n## Long document excerpts\n");
    assert_eq!(
        long_doc_context(&vec!["X".to_string(), "Y".to_string()]),
        "\n## Long document excerpts\n\nX\nY"
    );
}

#[test]
fn pdfium_locations() {
    assert_eq!(pdfium_archive("linux", "x86_64"), Some("pdfium-linux-x64.tgz"));
    assert_eq!(pdfium_archive("macos", "aarch64"), Some("pdfium-mac-arm64.tgz"));
    assert_eq!(pdfium_archive("freebsd", "x86_64"), None);
    assert_eq!(pdfium_lib_filename("windows"), "pdfium.dll");
    assert_eq!(pdfium_lib_filename("macos"), "libpdfium.dylib");
    assert_eq!(pdfium_lib_filename("linux"), "libpdfium.so");
    assert_eq!(pdfium_cache_dir(Some("/c"), Some("/home/u")), "/c");
    assert_eq!(pdfium_cache_dir(None, Some("/home/u")), "/home/u/.cache/everythingkb/pdfium-7920");
    assert_eq!(pdfium_cache_dir(None, None), "/tmp/everythingkb-pdfium");
    assert_eq!(
        pdfium_download_url("pdfium-linux-x64.tgz"),
        "https://github.com/bblanchon/pdfium-binaries/releases/download/chromium/7920/pdfium-linux-x64.tgz"
    );
}
