use everythingkb_core::config::Config;
use everythingkb_core::kb::{KbPaths, WikiScope};

#[test]
fn expand_tilde() {
    let p = Config::expand_path("~/foo", Some("/home/u"));
    assert!(p.ends_with("foo"));
    assert_eq!(p, "/home/u/foo");
}

#[test]
fn default_config_path() {
    let p = Config::default_path(Some("/home/u"));
    assert!(p.ends_with(".everythingkb/config.toml"));
    let q = Config::default_path(None);
    assert!(q.ends_with(".everythingkb/config.toml"));
}

#[test]
fn config_defaults_ollama() {
    let c = Config::default();
    assert_eq!(c.llm.ollama_model, "batiai/gemma4-e2b:q4");
}

#[test]
fn expand_keeps_other_paths() {
    assert_eq!(Config::expand_path("/media", Some("/home/u")), "/media");
    assert_eq!(Config::expand_path("~", Some("/home/u")), "/home/u");
    assert_eq!(Config::expand_path("~other", Some("/home/u")), "~other");
    assert_eq!(Config::expand_path("~/x", None), "~/x");
}

#[test]
fn resolved_scan_paths_expand_home() {
    let c = Config::default();
    assert_eq!(c.resolved_scan_paths(Some("/home/u")), vec!["/home/u", "/media", "/mnt"]);
}

#[test]
fn kb_layout_paths() {
    let kb = KbPaths::new("/kb".to_string(), Some("/home/u"));
    assert_eq!(kb.registry_path, "/kb/.everythingkb/registry.db");
    assert_eq!(kb.config_path, "/home/u/.everythingkb/config.toml");
    let private = kb.layout(WikiScope::Private);
    assert_eq!(private.summaries, "/kb/wiki/private/summaries");
    assert_eq!(kb.pageindex_dir(WikiScope::Private), "/kb/.everythingkb/pageindex/private");
    assert!(WikiScope::Private.is_private());
    assert!(!WikiScope::Public.is_private());
}

#[test]
fn kb_open_requires_registry() {
    assert!(KbPaths::open(Some("/kb".to_string()), Some("/home/u"), false).is_err());
    let kb = KbPaths::open(None, Some("/home/u"), true).unwrap();
    assert_eq!(kb.root, "/home/u/.everythingkb/kb");
}
