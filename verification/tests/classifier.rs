use everythingkb_core::classifier::{classify, should_scan_file, FileKind};
use everythingkb_core::config::Config;

#[test]
fn classifies_markdown() {
    assert_eq!(
        classify(false, "/tmp/everythingkb_test/sample.md", Some("md"), 1, &Config::default()),
        FileKind::Document
    );
}

#[test]
fn classifier_markdown() {
    assert_eq!(
        classify(false, "/tmp/everythingkb_it/note.md", Some("md"), 1, &Config::default()),
        FileKind::Document
    );
}

#[test]
fn skips_media_by_default() {
    assert_eq!(
        classify(false, "/home/u/photo.jpg", Some("jpg"), 1, &Config::default()),
        FileKind::Skip
    );
    assert_eq!(
        classify(false, "/home/u/clip.mp4", Some("mp4"), 1, &Config::default()),
        FileKind::Skip
    );
}

#[test]
fn indexes_images_when_enabled() {
    let mut config = Config::default();
    config.image = true;
    assert_eq!(
        classify(false, "/home/u/photo.jpg", Some("jpg"), 1, &config),
        FileKind::Image
    );
}

#[test]
fn indexes_av_media_when_enabled() {
    let mut config = Config::default();
    config.index_media = true;
    assert_eq!(
        classify(false, "/home/u/clip.mp4", Some("mp4"), 1, &config),
        FileKind::UserProfile
    );
}

#[test]
fn skips_profile_paths_by_default() {
    assert_eq!(
        classify(
            false,
            "/home/u/.steam/userdata/1/2/remote/save.sav",
            Some("sav"),
            1,
            &Config::default()
        ),
        FileKind::Skip
    );
    assert_eq!(
        classify(
            false,
            "/home/u/.config/myapp/settings.json",
            Some("json"),
            1,
            &Config::default()
        ),
        FileKind::Skip
    );
}

#[test]
fn indexes_profile_paths_when_enabled() {
    let mut config = Config::default();
    config.index_user_profiles = true;
    assert_eq!(
        classify(false, "/home/u/.config/myapp/settings.json", Some("json"), 1, &config),
        FileKind::UserProfile
    );
}

#[test]
fn scan_skips_media_by_default() {
    let config = Config::default();
    assert!(should_scan_file(false, Some("pdf"), &config));
    assert!(!should_scan_file(false, Some("jpg"), &config));
}

#[test]
fn long_pdf_is_long_document() {
    let config = Config::default();
    assert_eq!(classify(false, "/a/b.pdf", Some("PDF"), 20, &config), FileKind::LongDocument);
    assert_eq!(classify(false, "/a/b.pdf", Some("pdf"), 19, &config), FileKind::Document);
    assert_eq!(classify(true, "/a/b.pdf", Some("pdf"), 50, &config), FileKind::Skip);
}

#[test]
fn directories_are_never_scanned() {
    let mut config = Config::default();
    config.index_user_profiles = true;
    assert!(!should_scan_file(true, Some("md"), &config));
    assert!(should_scan_file(false, None, &config));
}
