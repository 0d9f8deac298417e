//! The document name under which a source file's summary and index are stored.
use vstd::prelude::*;

use sha2::Digest;

use crate::registry::FileRecord;
use crate::text::{join, join_strings, push_char, str_eq, trim_char, trim_char_string, views};
use crate::visualize::opt_view;

verus! {

/// Runs of characters other than word characters and `-`, which a document name may not
/// hold.
pub const UNSAFE_RUN_PATTERN: &'static str = "[^\\w\\-]+";

/// The text that `regex` makes of `text` when it replaces every match of `pattern` by
/// `rep` (`Regex::replace_all`); `None` when `pattern` is not a valid regular expression.
pub uninterp spec fn regex_replaced(pattern: Seq<char>, text: Seq<char>, rep: Seq<char>) -> Option<
    Seq<char>,
>;

/// The SHA-256 digest of the bytes `b`.
pub uninterp spec fn sha256_bytes(b: Seq<u8>) -> Seq<u8>;

/// Compiles `pattern` and replaces each of its matches in `text` by `rep` (wraps
/// `regex::Regex::new` and `Regex::replace_all`). The result is named `regex_replaced`.
#[verifier::external_body]
fn regex_replace_all(pattern: &str, text: &str, rep: &str) -> (r: Option<String>)
    ensures
        r matches Some(s) ==> regex_replaced(pattern@, text@, rep@) == Some(s@),
        r is None ==> regex_replaced(pattern@, text@, rep@) is None,
{
    let re = regex::Regex::new(pattern).ok()?;
    Some(re.replace_all(text, rep).into_owned())
}

/// The SHA-256 digest of the bytes `b` (wraps `sha2::Sha256::digest`). The result is
/// named `sha256_bytes`; a SHA-256 digest is 32 bytes long.
#[verifier::external_body]
fn sha256_bytes_digest(b: &[u8]) -> (r: Vec<u8>)
    ensures
        r@ == sha256_bytes(b@),
        r@.len() == 32,
{
    sha2::Sha256::digest(b).to_vec()
}

/// The content hash of a file: the SHA-256 of its bytes in lower-case hexadecimal, as
/// the registry records it to tell a changed file from an unchanged one.
pub fn file_hash(bytes: &[u8]) -> (r: String)
    ensures
        r@ == hex_lower(sha256_bytes(bytes@)),
{
    let digest = sha256_bytes_digest(bytes);
    hex_string(&digest)
}

/// The lower-case hexadecimal digit for `d < 16`.
pub open spec fn hex_digit(d: int) -> char {
    if d < 10 {
        ((d + 48) as u32) as char
    } else {
        ((d + 87) as u32) as char
    }
}

/// The bytes in lower-case hexadecimal, two digits per byte (what `{:x}` prints of a
/// digest).
pub open spec fn hex_lower(bytes: Seq<u8>) -> Seq<char>
    decreases bytes.len(),
{
    if bytes.len() == 0 {
        seq![]
    } else {
        hex_lower(bytes.drop_last()) + seq![
            hex_digit(bytes.last() as int / 16),
            hex_digit(bytes.last() as int % 16),
        ]
    }
}

fn hex_digit_exec(d: u8) -> (c: char)
    requires
        d < 16,
    ensures
        c == hex_digit(d as int),
{
    let digits = ['0', '1', '2', '3', '4', '5', '6', '7', '8', '9', 'a', 'b', 'c', 'd', 'e', 'f'];
    let c = digits[d as usize];
    assert(c == hex_digit(d as int)) by {
        assert(digits@[d as int] == c);
    }
    c
}

/// The bytes in lower-case hexadecimal.
pub fn hex_string(bytes: &Vec<u8>) -> (r: String)
    ensures
        r@ == hex_lower(bytes@),
{
    let mut r = String::new();
    let mut i: usize = 0;
    while i < bytes.len()
        invariant
            i <= bytes.len(),
            r@ == hex_lower(bytes@.take(i as int)),
        decreases bytes.len() - i,
    {
        let b = bytes[i];
        push_char(&mut r, hex_digit_exec(b / 16));
        push_char(&mut r, hex_digit_exec(b % 16));
        assert(bytes@.take(i + 1).drop_last() =~= bytes@.take(i as int));
        assert(r@ =~= hex_lower(bytes@.take(i + 1)));
        i = i + 1;
    }
    assert(bytes@.take(bytes.len() as int) =~= bytes@);
    r
}

/// The name a stem gives once its unsafe runs are dashes and its outer dashes dropped;
/// `document` when nothing is left.
pub open spec fn candidate_of(replaced: Seq<char>) -> Seq<char> {
    let c = trim_char(replaced, '-');
    if c.len() == 0 {
        "document"@
    } else {
        c
    }
}

/// Some indexed record already has the document name `name`.
pub open spec fn name_in(indexed: Seq<FileRecord>, name: Seq<char>) -> bool {
    exists|i: int| 0 <= i < indexed.len() && opt_view(#[trigger] indexed[i].doc_name) == Some(name)
}

/// The document name of a stem: the candidate, followed by `-` and the first 8 hex digits
/// of the SHA-256 of the UTF-8 bytes of `path_key` when an indexed record has the candidate already.
pub open spec fn sanitized(stem: Seq<char>, path_key: Seq<char>, indexed: Seq<FileRecord>) -> Option<
    Seq<char>,
> {
    match regex_replaced(UNSAFE_RUN_PATTERN@, stem, "-"@) {
        Some(rep) => {
            let c = candidate_of(rep);
            Some(
                if name_in(indexed, c) {
                    c + seq!['-'] + hex_lower(sha256_bytes(vstd::utf8::encode_utf8(path_key))).take(8)
                } else {
                    c
                },
            )
        },
        None => None,
    }
}

/// A document name made of a stem is never empty.
pub proof fn law_doc_name_nonempty(stem: Seq<char>, path_key: Seq<char>, indexed: Seq<FileRecord>)
    requires
        sanitized(stem, path_key, indexed) is Some,
    ensures
        sanitized(stem, path_key, indexed)->0.len() > 0,
{
    reveal_strlit("document");
}

/// Whether an indexed record has the document name `candidate`.
pub fn name_taken(candidate: &str, indexed: &Vec<FileRecord>) -> (b: bool)
    ensures
        b == name_in(indexed@, candidate@),
{
    let mut i: usize = 0;
    while i < indexed.len()
        invariant
            i <= indexed.len(),
            forall|j: int| 0 <= j < i ==> opt_view(#[trigger] indexed@[j].doc_name) != Some(candidate@),
        decreases indexed.len() - i,
    {
        match &indexed[i].doc_name {
            Some(n) => {
                if str_eq(n.as_str(), candidate) {
                    assert(opt_view(indexed@[i as int].doc_name) == Some(candidate@));
                    return true;
                }
            },
            None => {},
        }
        i = i + 1;
    }
    false
}

/// A document name made of a file stem: unsafe runs become `-`, outer dashes go, an
/// empty result is `document`, and a name an indexed record already has gets `-` and 8
/// hex digits of the SHA-256 of the file's registry key. `None` when the pattern of unsafe
/// runs cannot be compiled.
pub fn sanitize_stem(stem: &str, path_key: &str, indexed: &Vec<FileRecord>) -> (r: Option<String>)
    ensures
        r matches Some(s) ==> sanitized(stem@, path_key@, indexed@) == Some(s@),
        r is None ==> sanitized(stem@, path_key@, indexed@) is None,
{
    let replaced = match regex_replace_all(UNSAFE_RUN_PATTERN, stem, "-") {
        Some(s) => s,
        None => return None,
    };
    let trimmed = trim_char_string(replaced.as_str(), '-');
    let candidate = if trimmed.as_str().unicode_len() == 0 {
        "document".to_string()
    } else {
        trimmed
    };
    if name_taken(candidate.as_str(), indexed) {
        let digest = sha256_bytes_digest(path_key.as_bytes());
        let hex = hex_string(&digest);
        assert(hex@.len() == 64) by {
            lemma_hex_len(digest@);
        }
        let mut out = candidate;
        push_char(&mut out, '-');
        let hv = crate::text::chars_of(hex.as_str());
        crate::text::append_range(&mut out, &hv, 0, 8);
        assert(hv@.subrange(0, 8) =~= hex_lower(sha256_bytes(vstd::utf8::encode_utf8(path_key@))).take(8));
        Some(out)
    } else {
        Some(candidate)
    }
}

proof fn lemma_hex_len(bytes: Seq<u8>)
    ensures
        hex_lower(bytes).len() == 2 * bytes.len(),
    decreases bytes.len(),
{
    if bytes.len() > 0 {
        lemma_hex_len(bytes.drop_last());
    }
}

/// The document name of a source file: the one its registry record holds, else the name
/// made of its file stem (`document` when it has none).
pub fn resolve_doc_name(
    record: Option<&FileRecord>,
    stem: Option<&str>,
    path_key: &str,
    indexed: &Vec<FileRecord>,
) -> (r: Option<String>)
    ensures
        ({
            let kept = match record {
                Some(rec) => opt_view(rec.doc_name),
                None => None,
            };
            let made = sanitized(
                match stem {
                    Some(s) => s@,
                    None => "document"@,
                },
                path_key@,
                indexed@,
            );
            match kept {
                Some(n) => r matches Some(s) && s@ == n,
                None => (r matches Some(s) ==> made == Some(s@)) && (r is None ==> made is None),
            }
        }),
{
    match record {
        Some(rec) => match &rec.doc_name {
            Some(n) => return Some(n.clone()),
            None => {},
        },
        None => {},
    }
    let s = match stem {
        Some(s) => s,
        None => "document",
    };
    sanitize_stem(s, path_key, indexed)
}

// ---------------------------------------------------------------------------
// Converting a source file
// ---------------------------------------------------------------------------

/// What converting a source file gave: where its markdown was written (none when the
/// conversion was skipped or the file is a long document), whether it is a long document,
/// whether it was skipped as unchanged, its content hash and its document name.
#[derive(Debug)]
pub struct ConvertResult {
    pub source_path: Option<String>,
    pub is_long_doc: bool,
    pub skipped: bool,
    pub file_hash: String,
    pub doc_name: String,
}

/// Converting is skipped (not forced) for a file whose record is indexed with the same
/// content hash; the document keeps the record's name, else `doc_name`.
pub open spec fn kept_conversion(
    force: bool,
    record: Option<FileRecord>,
    file_hash: Seq<char>,
    doc_name: Seq<char>,
) -> Option<Seq<char>> {
    match record {
        Some(rec) => if !force && rec.file_hash@ == file_hash && rec.status
            == crate::registry::FileStatus::Indexed {
            Some(
                match opt_view(rec.doc_name) {
                    Some(n) => n,
                    None => doc_name,
                },
            )
        } else {
            None
        },
        None => None,
    }
}

/// The document name under which an unchanged, indexed file stays, when converting it
/// again is skipped.
pub fn already_converted(
    force: bool,
    record: Option<&FileRecord>,
    file_hash: &str,
    doc_name: &str,
) -> (r: Option<String>)
    ensures
        opt_view(r) == kept_conversion(
            force,
            match record {
                Some(rec) => Some(*rec),
                None => None,
            },
            file_hash@,
            doc_name@,
        ),
{
    match record {
        Some(rec) => {
            if !force && str_eq(rec.file_hash.as_str(), file_hash) && rec.status
                == crate::registry::FileStatus::Indexed {
                match &rec.doc_name {
                    Some(n) => Some(n.clone()),
                    None => Some(doc_name.to_string()),
                }
            } else {
                None
            }
        },
        None => None,
    }
}

/// How a source file becomes markdown, by its lower-case extension.
#[derive(Debug, Clone, Copy, PartialEq, Eq, Structural)]
pub enum ConvertRoute {
    /// Markdown and plain text are copied as they are.
    CopyText,
    /// A PDF: long ones are indexed by pages, short ones extracted.
    Pdf,
    /// Anything else goes through the extraction engine.
    Extract,
}

/// The route of a lower-case extension.
pub open spec fn route_of(ext: Seq<char>) -> ConvertRoute {
    if ext == "md"@ || ext == "markdown"@ || ext == "txt"@ {
        ConvertRoute::CopyText
    } else if ext == "pdf"@ {
        ConvertRoute::Pdf
    } else {
        ConvertRoute::Extract
    }
}

/// The route of a lower-case extension.
pub fn convert_route(ext: &str) -> (r: ConvertRoute)
    ensures
        r == route_of(ext@),
{
    if str_eq(ext, "md") || str_eq(ext, "markdown") || str_eq(ext, "txt") {
        ConvertRoute::CopyText
    } else if str_eq(ext, "pdf") {
        ConvertRoute::Pdf
    } else {
        ConvertRoute::Extract
    }
}

/// Word documents (lower-case extension `docx` or `doc`) go to the Word converter first.
pub fn uses_word_converter(ext: &str) -> (b: bool)
    ensures
        b == (ext@ == "docx"@ || ext@ == "doc"@),
{
    str_eq(ext, "docx") || str_eq(ext, "doc")
}

/// A PDF is a long document from `threshold` pages on.
pub fn is_long_pdf(page_count: u32, threshold: u32) -> (b: bool)
    ensures
        b == (page_count >= threshold),
{
    page_count >= threshold
}

/// The markdown of a PDF whose text could not be extracted.
pub fn pdf_failed_markdown(doc_name: &str) -> (r: String)
    ensures
        r@ == "# "@ + doc_name@ + "\n\n(PDF text extraction failed)\n"@,
{
    let mut r = String::from_str("# ");
    r.append(doc_name);
    r.append("\n\n(PDF text extraction failed)\n");
    r
}

/// The markdown of a file in a format nothing can read.
pub fn unsupported_markdown(doc_name: &str, ext: &str) -> (r: String)
    ensures
        r@ == "# "@ + doc_name@ + "\n\n(Unsupported format `"@ + ext@ + "`)\n"@,
{
    let mut r = String::from_str("# ");
    r.append(doc_name);
    r.append("\n\n(Unsupported format `");
    r.append(ext);
    r.append("`)\n");
    r
}

/// Extracted text under its file stem as a heading.
pub fn titled_markdown(stem: &str, text: &str) -> (r: String)
    ensures
        r@ == "# "@ + stem@ + "\n\n"@ + text@,
{
    let mut r = String::from_str("# ");
    r.append(stem);
    r.append("\n\n");
    r.append(text);
    r
}

/// The text of a document from the texts of its pages: the non-empty ones, separated by
/// blank lines.
pub fn join_page_texts(pages: &Vec<String>) -> (r: String)
    ensures
        r@ == join(crate::visualize::nonempty_parts(views(pages@)), "\n\n"@),
{
    let ghost pv = views(pages@);
    let mut kept: Vec<String> = Vec::new();
    let mut i: usize = 0;
    while i < pages.len()
        invariant
            i <= pages.len(),
            pv == views(pages@),
            views(kept@) == crate::visualize::nonempty_parts(pv.take(i as int)),
        decreases pages.len() - i,
    {
        let ghost before = views(kept@);
        assert(pv.take(i + 1).drop_last() =~= pv.take(i as int));
        if pages[i].as_str().unicode_len() > 0 {
            let p = pages[i].clone();
            kept.push(p);
            assert(views(kept@) =~= before.push(pv[i as int]));
        }
        i = i + 1;
    }
    assert(pv.take(pages.len() as int) =~= pv);
    join_strings(&kept, "\n\n")
}

} // verus!
