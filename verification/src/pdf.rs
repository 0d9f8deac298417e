//! Where the PDF engine's shared library comes from and where it is kept.
use vstd::prelude::*;

use crate::paths::{join_path, path_join};
use crate::text::str_eq;

verus! {

/// The pdfium release the engine is built against.
pub const PDFIUM_TAG: &'static str = "7920";

/// The archive of the pdfium release for an operating system and architecture (as
/// `std::env::consts` names them); none for other platforms.
pub open spec fn pdfium_archive_of(os: Seq<char>, arch: Seq<char>) -> Option<Seq<char>> {
    if os == "linux"@ && arch == "x86_64"@ {
        Some("pdfium-linux-x64.tgz"@)
    } else if os == "linux"@ && arch == "aarch64"@ {
        Some("pdfium-linux-arm64.tgz"@)
    } else if os == "macos"@ && arch == "aarch64"@ {
        Some("pdfium-mac-arm64.tgz"@)
    } else if os == "macos"@ && arch == "x86_64"@ {
        Some("pdfium-mac-x64.tgz"@)
    } else if os == "windows"@ && arch == "x86_64"@ {
        Some("pdfium-win-x64.tgz"@)
    } else {
        None
    }
}

/// The pdfium archive for a platform.
pub fn pdfium_archive(os: &str, arch: &str) -> (r: Option<&'static str>)
    ensures
        match r {
            Some(a) => pdfium_archive_of(os@, arch@) == Some(a@),
            None => pdfium_archive_of(os@, arch@) is None,
        },
{
    if str_eq(os, "linux") && str_eq(arch, "x86_64") {
        Some("pdfium-linux-x64.tgz")
    } else if str_eq(os, "linux") && str_eq(arch, "aarch64") {
        Some("pdfium-linux-arm64.tgz")
    } else if str_eq(os, "macos") && str_eq(arch, "aarch64") {
        Some("pdfium-mac-arm64.tgz")
    } else if str_eq(os, "macos") && str_eq(arch, "x86_64") {
        Some("pdfium-mac-x64.tgz")
    } else if str_eq(os, "windows") && str_eq(arch, "x86_64") {
        Some("pdfium-win-x64.tgz")
    } else {
        None
    }
}

/// The file name of the pdfium shared library on an operating system.
pub fn pdfium_lib_filename(os: &str) -> (r: &'static str)
    ensures
        r@ == if os@ == "windows"@ {
            "pdfium.dll"@
        } else if os@ == "macos"@ {
            "libpdfium.dylib"@
        } else {
            "libpdfium.so"@
        },
{
    if str_eq(os, "windows") {
        "pdfium.dll"
    } else if str_eq(os, "macos") {
        "libpdfium.dylib"
    } else {
        "libpdfium.so"
    }
}

/// Where the pdfium library is cached: the directory the user names, else
/// `~/.cache/everythingkb/pdfium-7920`, else a directory under `/tmp`.
pub fn pdfium_cache_dir(configured: Option<&str>, home: Option<&str>) -> (r: String)
    ensures
        r@ == match configured {
            Some(c) => c@,
            None => match home {
                Some(h) => path_join(
                    path_join(path_join(h@, ".cache"@), "everythingkb"@),
                    "pdfium-"@ + PDFIUM_TAG@,
                ),
                None => "/tmp/everythingkb-pdfium"@,
            },
        },
{
    match configured {
        Some(c) => c.to_string(),
        None => match home {
            Some(h) => {
                let cache = join_path(h, ".cache");
                let app = join_path(cache.as_str(), "everythingkb");
                let mut name = String::from_str("pdfium-");
                name.append(PDFIUM_TAG);
                join_path(app.as_str(), name.as_str())
            },
            None => String::from_str("/tmp/everythingkb-pdfium"),
        },
    }
}

/// The download address of a pdfium archive.
pub fn pdfium_download_url(archive: &str) -> (r: String)
    ensures
        r@ == "https://github.com/bblanchon/pdfium-binaries/releases/download/chromium/"@
            + PDFIUM_TAG@ + "/"@ + archive@,
{
    let mut r = String::from_str(
        "https://github.com/bblanchon/pdfium-binaries/releases/download/chromium/",
    );
    r.append(PDFIUM_TAG);
    r.append("/");
    r.append(archive);
    r
}

} // verus!
