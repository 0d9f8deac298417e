//! Which files the knowledge base indexes, and as what.
use vstd::prelude::*;

use crate::config::Config;
use crate::text::{any_occurs_in, contains_sub, list_contains, lowercase, lowercase_facts, str_eq, to_lowercase};

verus! {

/// How a file is ingested.
#[derive(Debug, Clone, Copy, PartialEq, Eq, Structural)]
pub enum FileKind {
    Document,
    LongDocument,
    /// Image summarized by a vision model (`image = true`).
    Image,
    /// Video/audio metadata, and software user-profile paths.
    UserProfile,
    Skip,
}

/// Extensions of the documents that can be converted.
pub open spec fn document_exts() -> Seq<Seq<char>> {
    seq![
        "md"@,
        "markdown"@,
        "txt"@,
        "pdf"@,
        "docx"@,
        "doc"@,
        "xlsx"@,
        "xls"@,
        "csv"@,
        "html"@,
        "htm"@,
    ]
}

/// Extensions of images.
pub open spec fn image_exts() -> Seq<Seq<char>> {
    seq!["jpg"@, "jpeg"@, "png"@, "gif"@, "webp"@, "heic"@, "avif"@]
}

/// Extensions of video and audio files.
pub open spec fn media_exts() -> Seq<Seq<char>> {
    seq!["mp4"@, "mkv"@, "avi"@, "mov"@, "mp3"@, "wav"@, "flac"@, "ogg"@]
}

/// Path parts of per-application user data (saves, configs, mods, userdata).
pub open spec fn profile_markers() -> Seq<Seq<char>> {
    seq![
        "/Saves/"@,
        "/save/"@,
        "/Save/"@,
        "/userdata/"@,
        "/Mods/"@,
        "/mods/"@,
        "/.config/"@,
        "/AppData/"@,
        "/Application Support/"@,
    ]
}

/// Extensions of the documents that can be converted.
pub fn document_extensions() -> (v: Vec<&'static str>)
    ensures
        v@.map_values(|s: &str| s@) == document_exts(),
{
    let v = vec!["md", "markdown", "txt", "pdf", "docx", "doc", "xlsx", "xls", "csv", "html", "htm"];
    assert(v@.map_values(|s: &str| s@) =~= document_exts());
    v
}

/// Extensions of images.
pub fn image_extensions() -> (v: Vec<&'static str>)
    ensures
        v@.map_values(|s: &str| s@) == image_exts(),
{
    let v = vec!["jpg", "jpeg", "png", "gif", "webp", "heic", "avif"];
    assert(v@.map_values(|s: &str| s@) =~= image_exts());
    v
}

/// Extensions of video and audio files.
pub fn media_extensions() -> (v: Vec<&'static str>)
    ensures
        v@.map_values(|s: &str| s@) == media_exts(),
{
    let v = vec!["mp4", "mkv", "avi", "mov", "mp3", "wav", "flac", "ogg"];
    assert(v@.map_values(|s: &str| s@) =~= media_exts());
    v
}

/// Path parts of per-application user data.
pub fn user_profile_markers() -> (v: Vec<&'static str>)
    ensures
        v@.map_values(|s: &str| s@) == profile_markers(),
{
    let v = vec![
        "/Saves/",
        "/save/",
        "/Save/",
        "/userdata/",
        "/Mods/",
        "/mods/",
        "/.config/",
        "/AppData/",
        "/Application Support/",
    ];
    assert(v@.map_values(|s: &str| s@) =~= profile_markers());
    v
}

/// Whether `ext` (compared lower-cased) is a convertible document extension.
pub fn is_document_extension(ext: &str) -> (b: bool)
    ensures
        b == document_exts().contains(lowercase(ext@)),
        lowercase_facts(ext@),
{
    let lower = to_lowercase(ext);
    list_contains(&document_extensions(), lower.as_str())
}

/// Whether `ext` (compared lower-cased) is an image extension.
pub fn is_image_extension(ext: &str) -> (b: bool)
    ensures
        b == image_exts().contains(lowercase(ext@)),
        lowercase_facts(ext@),
{
    let lower = to_lowercase(ext);
    list_contains(&image_extensions(), lower.as_str())
}

/// Whether `ext` (compared lower-cased) is a video or audio extension.
pub fn is_media_extension(ext: &str) -> (b: bool)
    ensures
        b == media_exts().contains(lowercase(ext@)),
        lowercase_facts(ext@),
{
    let lower = to_lowercase(ext);
    list_contains(&media_extensions(), lower.as_str())
}

/// A path that looks like per-application user data.
pub open spec fn profile_path(name: Seq<char>) -> bool {
    exists|j: int| 0 <= j < profile_markers().len() && contains_sub(name, #[trigger] profile_markers()[j])
}

/// Whether the path looks like per-application user data.
pub fn is_profile_path(name: &str) -> (b: bool)
    ensures
        b == profile_path(name@),
{
    let markers = user_profile_markers();
    let b = any_occurs_in(&markers, name);
    proof {
        assert forall|j: int| 0 <= j < markers@.len() implies #[trigger] markers@[j]@
            == profile_markers()[j] by {
            assert(markers@.map_values(|s: &str| s@)[j] == markers@[j]@);
        }
    }
    b
}

/// Whether a scan visits the file: never directories; every file when user-profile
/// paths are indexed; else files with a document extension, and with an image or media
/// extension when those are enabled. `ext` is the file's extension, if it has one.
pub open spec fn scanned(is_dir: bool, ext: Option<Seq<char>>, config: Config) -> bool {
    if is_dir {
        false
    } else if config.index_user_profiles {
        true
    } else {
        match ext {
            None => false,
            Some(e) => document_exts().contains(lowercase(e)) || (config.image && image_exts().contains(
                lowercase(e),
            )) || (config.index_media && media_exts().contains(lowercase(e))),
        }
    }
}

/// Whether a scan visits the file (`is_dir` tells whether the path is a directory,
/// `ext` gives its extension).
pub fn should_scan_file(is_dir: bool, ext: Option<&str>, config: &Config) -> (b: bool)
    ensures
        b == scanned(is_dir, crate::config::opt_view(ext), *config),
        !is_dir && !config.index_user_profiles && ext is Some ==> lowercase_facts(ext->0@),
{
    if is_dir {
        return false;
    }
    if config.index_user_profiles {
        return true;
    }
    match ext {
        None => false,
        Some(e) => is_document_extension(e) || (config.image && is_image_extension(e)) || (
        config.index_media && is_media_extension(e)),
    }
}

/// The lower-cased extension a file is classified by (empty when it has none).
pub open spec fn lower_ext(ext: Option<Seq<char>>) -> Seq<char> {
    match ext {
        Some(e) => lowercase(e),
        None => seq![],
    }
}

/// Whether classifying the file needs its PDF page count: a `pdf` document.
pub open spec fn wants_page_count(ext: Option<Seq<char>>) -> bool {
    document_exts().contains(lowercase(lower_ext(ext))) && lower_ext(ext) == "pdf"@
}

/// How a file is ingested: a document, or a long document for PDFs with at least
/// `pageindex_threshold` pages; an image or a media stub when enabled; a user-profile
/// stub for user-data paths when enabled; else skipped.
pub open spec fn classified(
    is_dir: bool,
    name: Seq<char>,
    ext: Option<Seq<char>>,
    pdf_pages: u32,
    config: Config,
) -> FileKind {
    let e = lower_ext(ext);
    if is_dir {
        FileKind::Skip
    } else if document_exts().contains(lowercase(e)) {
        if e == "pdf"@ && pdf_pages >= config.pageindex_threshold {
            FileKind::LongDocument
        } else {
            FileKind::Document
        }
    } else if config.image && image_exts().contains(lowercase(e)) {
        FileKind::Image
    } else if config.index_media && media_exts().contains(lowercase(e)) {
        FileKind::UserProfile
    } else if config.index_user_profiles && profile_path(name) {
        FileKind::UserProfile
    } else {
        FileKind::Skip
    }
}

fn lower_ext_exec(ext: Option<&str>) -> (r: String)
    ensures
        r@ == lower_ext(crate::config::opt_view(ext)),
        ext is Some ==> lowercase_facts(ext->0@),
{
    match ext {
        Some(e) => to_lowercase(e),
        None => String::new(),
    }
}

/// Whether `classify` needs the page count of this file (a `pdf` document).
pub fn needs_page_count(ext: Option<&str>) -> (b: bool)
    ensures
        b == wants_page_count(crate::config::opt_view(ext)),
        ext is Some ==> lowercase_facts(ext->0@),
        lowercase_facts(lower_ext(crate::config::opt_view(ext))),
{
    let e = lower_ext_exec(ext);
    is_document_extension(e.as_str()) && str_eq(e.as_str(), "pdf")
}

/// Classifies a file: `is_dir` tells whether the path is a directory, `path` is the
/// path text, `ext` its extension, and `pdf_pages` the page count of a PDF (1 when it
/// cannot be read), consulted only when `needs_page_count` holds.
pub fn classify(is_dir: bool, path: &str, ext: Option<&str>, pdf_pages: u32, config: &Config) -> (k:
    FileKind)
    ensures
        k == classified(is_dir, path@, crate::config::opt_view(ext), pdf_pages, *config),
        !is_dir && ext is Some ==> lowercase_facts(ext->0@),
        !is_dir ==> lowercase_facts(lower_ext(crate::config::opt_view(ext))),
{
    if is_dir {
        return FileKind::Skip;
    }
    let e = lower_ext_exec(ext);
    if is_document_extension(e.as_str()) {
        if str_eq(e.as_str(), "pdf") && pdf_pages >= config.pageindex_threshold {
            return FileKind::LongDocument;
        }
        return FileKind::Document;
    }
    if config.image && is_image_extension(e.as_str()) {
        return FileKind::Image;
    }
    if config.index_media && is_media_extension(e.as_str()) {
        return FileKind::UserProfile;
    }
    if config.index_user_profiles && is_profile_path(path) {
        return FileKind::UserProfile;
    }
    FileKind::Skip
}

/// By default only documents are indexed: with images, media and user-profile paths
/// all disabled, a file is a document, a long document, or skipped, and it is indexed
/// only for a document extension; a scan visits only files with a document extension.
pub proof fn law_only_documents_by_default(
    is_dir: bool,
    name: Seq<char>,
    ext: Option<Seq<char>>,
    pdf_pages: u32,
    config: Config,
)
    requires
        !config.image,
        !config.index_media,
        !config.index_user_profiles,
    ensures
        classified(is_dir, name, ext, pdf_pages, config) == FileKind::Document || classified(
            is_dir,
            name,
            ext,
            pdf_pages,
            config,
        ) == FileKind::LongDocument || classified(is_dir, name, ext, pdf_pages, config)
            == FileKind::Skip,
        classified(is_dir, name, ext, pdf_pages, config) != FileKind::Skip ==> document_exts().contains(
            lowercase(lower_ext(ext)),
        ),
        scanned(is_dir, ext, config) ==> (ext matches Some(e) && document_exts().contains(
            lowercase(e),
        )),
{
}

/// No extension of the lists is empty.
proof fn lemma_extensions_nonempty()
    ensures
        !document_exts().contains(seq![]),
        !image_exts().contains(seq![]),
        !media_exts().contains(seq![]),
{
    reveal_strlit("md");
    reveal_strlit("markdown");
    reveal_strlit("txt");
    reveal_strlit("pdf");
    reveal_strlit("docx");
    reveal_strlit("doc");
    reveal_strlit("xlsx");
    reveal_strlit("xls");
    reveal_strlit("csv");
    reveal_strlit("html");
    reveal_strlit("htm");
    reveal_strlit("jpg");
    reveal_strlit("jpeg");
    reveal_strlit("png");
    reveal_strlit("gif");
    reveal_strlit("webp");
    reveal_strlit("heic");
    reveal_strlit("avif");
    reveal_strlit("mp4");
    reveal_strlit("mkv");
    reveal_strlit("avi");
    reveal_strlit("mov");
    reveal_strlit("mp3");
    reveal_strlit("wav");
    reveal_strlit("flac");
    reveal_strlit("ogg");
    assert forall|i: int| 0 <= i < document_exts().len() implies (#[trigger] document_exts()[i]).len()
        > 0 by {}
    assert forall|i: int| 0 <= i < image_exts().len() implies (#[trigger] image_exts()[i]).len() > 0 by {}
    assert forall|i: int| 0 <= i < media_exts().len() implies (#[trigger] media_exts()[i]).len() > 0 by {}
}

/// With images enabled, a scan visits every file with an image extension.
pub proof fn law_image_files_scanned(ext: Seq<char>, config: Config)
    requires
        config.image,
        image_exts().contains(lowercase(ext)),
    ensures
        scanned(false, Some(ext), config),
{
}

/// A scan visits every file that classification indexes: a file classified as anything
/// but `Skip` is visited. Stated for extensions whose lower case is its own lower case
/// (what `to_lowercase` gives of every ASCII extension, which `classify` passes on).
pub proof fn law_classified_files_scanned(
    is_dir: bool,
    name: Seq<char>,
    ext: Option<Seq<char>>,
    pdf_pages: u32,
    config: Config,
)
    requires
        lowercase(lower_ext(ext)) == lower_ext(ext),
    ensures
        classified(is_dir, name, ext, pdf_pages, config) != FileKind::Skip ==> scanned(
            is_dir,
            ext,
            config,
        ),
{
    lemma_extensions_nonempty();
}

/// Without user-profile indexing, a scan visits only files that classification indexes,
/// and the kind follows the extension: a document extension gives a document (a long
/// document for a PDF of at least `pageindex_threshold` pages), otherwise an image
/// extension gives an image when images are enabled, otherwise a media extension gives a
/// media stub when media is enabled. Stated for extensions whose lower case is its own
/// lower case (every ASCII extension). Directories are neither visited nor indexed.
pub proof fn law_classify_by_extension(name: Seq<char>, e: Seq<char>, pdf_pages: u32, config: Config)
    requires
        lowercase(lowercase(e)) == lowercase(e),
    ensures
        !config.index_user_profiles && scanned(false, Some(e), config) ==> classified(
            false,
            name,
            Some(e),
            pdf_pages,
            config,
        ) != FileKind::Skip,
        document_exts().contains(lowercase(e)) && lowercase(e) != "pdf"@ ==> classified(
            false,
            name,
            Some(e),
            pdf_pages,
            config,
        ) == FileKind::Document,
        lowercase(e) == "pdf"@ ==> classified(false, name, Some(e), pdf_pages, config) == (if pdf_pages
            >= config.pageindex_threshold {
            FileKind::LongDocument
        } else {
            FileKind::Document
        }),
        !document_exts().contains(lowercase(e)) && config.image && image_exts().contains(lowercase(e))
            ==> classified(false, name, Some(e), pdf_pages, config) == FileKind::Image,
        !document_exts().contains(lowercase(e)) && !(config.image && image_exts().contains(
            lowercase(e),
        )) && config.index_media && media_exts().contains(lowercase(e)) ==> classified(
            false,
            name,
            Some(e),
            pdf_pages,
            config,
        ) == FileKind::UserProfile,
        classified(true, name, Some(e), pdf_pages, config) == FileKind::Skip,
        !scanned(true, Some(e), config),
{
    reveal_strlit("pdf");
    assert(document_exts()[3] == "pdf"@);
}

} // verus!
