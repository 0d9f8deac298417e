//! Metadata stubs: the markdown that stands for a file whose content is not text (a
//! user-profile file, an image, a recording).
use vstd::prelude::*;

use crate::text::{decimal, is_prefix_of, join, join_strings, push_decimal, str_starts_with, trim, trim_string, views};

verus! {

/// The result of probing a recording: its duration and first stream's codec, when given.
#[derive(Debug, Clone)]
pub struct MediaProbe {
    pub duration: Option<String>,
    pub codec: Option<String>,
}

/// The media type of a file, `application/octet-stream` when unknown.
pub open spec fn mime_or_default(mime: Option<Seq<char>>) -> Seq<char> {
    match mime {
        Some(m) => m,
        None => "application/octet-stream"@,
    }
}

/// Images get their EXIF fields listed.
pub open spec fn lists_exif(mime: Seq<char>) -> bool {
    is_prefix_of("image/"@, mime)
}

/// Recordings get their duration and codec listed.
pub open spec fn lists_probe(mime: Seq<char>) -> bool {
    is_prefix_of("video/"@, mime) || is_prefix_of("audio/"@, mime)
}

/// The media type that `infer` finds in the first bytes `head` of a file (`infer::get`);
/// `None` when no matcher of the crate recognises them.
pub uninterp spec fn mime_of(head: Seq<u8>) -> Option<Seq<char>>;

/// The EXIF field that `kamadak-exif` reads from the file bytes `bytes` for the tag
/// numbered `number` of the GPS directory (`gps`) or of the TIFF directory, in the
/// primary image: its tag name and its value as displayed with its unit. `None` when the
/// bytes hold no EXIF data the crate can parse, or no such field.
pub uninterp spec fn exif_field_of(bytes: Seq<u8>, gps: bool, number: u16) -> Option<
    (Seq<char>, Seq<char>),
>;

/// The directory of an EXIF tag.
#[derive(PartialEq, Eq, Structural, Clone, Copy, Debug)]
pub enum ExifIfd {
    Tiff,
    Gps,
}

/// The media type of a file from its first bytes (wraps `infer::get` and
/// `Type::mime_type`). The result is named `mime_of`.
#[verifier::external_body]
fn infer_mime(head: &[u8]) -> (r: Option<String>)
    ensures
        crate::visualize::opt_view(r) == mime_of(head@),
{
    infer::get(head).map(|t| t.mime_type().to_string())
}

/// One EXIF field of the file bytes `bytes` (wraps `exif::Reader::read_from_container`,
/// `Exif::get_field` in the primary image, and the `Display` of `Tag` and of
/// `Field::display_value().with_unit(..)`). The result is named `exif_field_of`.
#[verifier::external_body]
fn exif_field(bytes: &[u8], ifd: ExifIfd, number: u16) -> (r: Option<(String, String)>)
    ensures
        r matches Some(f) ==> exif_field_of(bytes@, (ifd == ExifIfd::Gps), number) == Some((f.0@, f.1@)),
        r is None ==> exif_field_of(bytes@, (ifd == ExifIfd::Gps), number) is None,
{
    let context = match ifd {
        ExifIfd::Tiff => exif::Context::Tiff,
        ExifIfd::Gps => exif::Context::Gps,
    };
    let tag = exif::Tag(context, number);
    let data = exif::Reader::new().read_from_container(&mut std::io::Cursor::new(bytes)).ok()?;
    let field = data.get_field(tag, exif::In::PRIMARY)?;
    Some((tag.to_string(), field.display_value().with_unit(&data).to_string()))
}

/// The EXIF tags a stub lists, by directory and number: `DateTime`, `Make`, `Model`
/// (TIFF), `GPSLatitude`, `GPSLongitude` (GPS).
pub open spec fn listed_exif_tags() -> Seq<(bool, u16)> {
    seq![(false, 0x132u16), (false, 0x10fu16), (false, 0x110u16), (true, 0x2u16), (true, 0x4u16)]
}

/// The fields that are present, in order.
pub open spec fn present_fields(fields: Seq<Option<(Seq<char>, Seq<char>)>>) -> Seq<
    (Seq<char>, Seq<char>),
>
    decreases fields.len(),
{
    if fields.len() == 0 {
        seq![]
    } else {
        let rest = present_fields(fields.drop_last());
        match fields.last() {
            Some(f) => rest.push(f),
            None => rest,
        }
    }
}

/// The EXIF fields a stub lists for the file bytes `bytes`: those of the listed tags
/// that the bytes hold, in the order of the tags.
pub open spec fn exif_fields_of(bytes: Seq<u8>) -> Seq<(Seq<char>, Seq<char>)> {
    present_fields(
        listed_exif_tags().map_values(|t: (bool, u16)| exif_field_of(bytes, t.0, t.1)),
    )
}

/// The EXIF fields of an image's bytes that its stub lists.
pub fn exif_fields(bytes: &[u8]) -> (r: Vec<(String, String)>)
    ensures
        r@.map_values(|f: (String, String)| (f.0@, f.1@)) == exif_fields_of(bytes@),
{
    let tags: [(ExifIfd, u16); 5] = [
        (ExifIfd::Tiff, 0x132),
        (ExifIfd::Tiff, 0x10f),
        (ExifIfd::Tiff, 0x110),
        (ExifIfd::Gps, 0x2),
        (ExifIfd::Gps, 0x4),
    ];
    let ghost spec_tags = listed_exif_tags();
    let ghost got = spec_tags.map_values(|t: (bool, u16)| exif_field_of(bytes@, t.0, t.1));
    assert forall|k: int| 0 <= k < 5 implies ((#[trigger] tags@[k]).0 == ExifIfd::Gps)
        == spec_tags[k].0 && tags@[k].1 == spec_tags[k].1 by {}
    let mut r: Vec<(String, String)> = Vec::new();
    let mut i: usize = 0;
    while i < 5
        invariant
            i <= 5,
            got == spec_tags.map_values(|t: (bool, u16)| exif_field_of(bytes@, t.0, t.1)),
            spec_tags == listed_exif_tags(),
            forall|k: int| 0 <= k < 5 ==> ((#[trigger] tags@[k]).0 == ExifIfd::Gps)
                == spec_tags[k].0 && tags@[k].1 == spec_tags[k].1,
            r@.map_values(|f: (String, String)| (f.0@, f.1@)) == present_fields(got.take(i as int)),
        decreases 5 - i,
    {
        let (ifd, number) = tags[i];
        let found = exif_field(bytes, ifd, number);
        let ghost before = r@.map_values(|f: (String, String)| (f.0@, f.1@));
        assert(got.take(i + 1).drop_last() =~= got.take(i as int));
        assert(got[i as int] == exif_field_of(bytes@, spec_tags[i as int].0, spec_tags[i as int].1));
        match found {
            Some(f) => {
                let ghost fv = (f.0@, f.1@);
                r.push(f);
                assert(r@.map_values(|f: (String, String)| (f.0@, f.1@)) =~= before.push(fv));
            },
            None => {},
        }
        i = i + 1;
    }
    assert(got.take(5) =~= got);
    r
}

/// The media type of a file from its first bytes, `application/octet-stream` when
/// `infer` does not recognise them.
pub fn media_type(head: &[u8]) -> (r: String)
    ensures
        r@ == mime_or_default(mime_of(head@)),
{
    match infer_mime(head) {
        Some(m) => m,
        None => String::from_str("application/octet-stream"),
    }
}

/// Whether a file of this media type has EXIF fields worth reading.
pub fn wants_exif(mime: &str) -> (b: bool)
    ensures
        b == lists_exif(mime@),
{
    str_starts_with(mime, "image/")
}

/// Whether a file of this media type is worth probing for duration and codec.
pub fn wants_probe(mime: &str) -> (b: bool)
    ensures
        b == lists_probe(mime@),
{
    str_starts_with(mime, "video/") || str_starts_with(mime, "audio/")
}

/// The line `- <tag>: <value>` of an EXIF field.
pub open spec fn exif_line(field: (Seq<char>, Seq<char>)) -> Seq<char> {
    "- "@ + field.0 + ": "@ + field.1
}

/// The lines of the stub: title, path, type, size, parent folder, EXIF fields of images,
/// duration and codec of recordings, then a blank line and a closing note.
pub open spec fn stub_lines(
    file_name: Seq<char>,
    path: Seq<char>,
    mime: Seq<char>,
    size: u64,
    parent: Option<Seq<char>>,
    exif: Seq<(Seq<char>, Seq<char>)>,
    probe: Option<(Option<Seq<char>>, Option<Seq<char>>)>,
) -> Seq<Seq<char>> {
    let head = seq![
        "# "@ + file_name,
        "- path: "@ + path,
        "- type: "@ + mime,
        "- size: "@ + decimal(size as nat) + " bytes"@,
    ];
    let with_parent = match parent {
        Some(p) => head.push("- parent: "@ + p),
        None => head,
    };
    let with_exif = if lists_exif(mime) {
        with_parent + exif.map_values(|f: (Seq<char>, Seq<char>)| exif_line(f))
    } else {
        with_parent
    };
    let with_probe = if lists_probe(mime) {
        match probe {
            Some((d, c)) => {
                let l = with_exif.push(
                    "- duration: "@ + match d {
                        Some(x) => x,
                        None => "unknown"@,
                    },
                );
                match c {
                    Some(x) => l.push("- codec: "@ + x),
                    None => l,
                }
            },
            None => with_exif,
        }
    } else {
        with_exif
    };
    with_probe.push(seq![]).push("Indexed as user-profile metadata stub."@)
}

fn push_line(lines: &mut Vec<String>, a: &str, b: &str)
    ensures
        views(final(lines)@) == views(old(lines)@).push(a@ + b@),
{
    let mut l = a.to_string();
    l.append(b);
    let ghost lv = l@;
    lines.push(l);
    assert(views(lines@) =~= views(old(lines)@).push(lv));
}

/// The markdown stub of a file: its name, path, media type (`mime`, when known), size in
/// bytes and parent folder, the EXIF fields of an image, and the probe of a recording.
pub fn profile_stub_text(
    file_name: &str,
    path: &str,
    mime: Option<&str>,
    size: u64,
    parent: Option<&str>,
    exif: &Vec<(String, String)>,
    probe: &Option<MediaProbe>,
) -> (r: String)
    ensures
        r@ == join(
            stub_lines(
                file_name@,
                path@,
                mime_or_default(crate::config::opt_view(mime)),
                size,
                crate::config::opt_view(parent),
                exif@.map_values(|f: (String, String)| (f.0@, f.1@)),
                match probe {
                    Some(p) => Some(
                        (
                            crate::llm::settings::field_view(p.duration),
                            crate::llm::settings::field_view(p.codec),
                        ),
                    ),
                    None => None,
                },
            ),
            "\n"@,
        ),
{
    let m: &str = match mime {
        Some(x) => x,
        None => "application/octet-stream",
    };
    let ghost mv = mime_or_default(crate::config::opt_view(mime));
    let ghost ev = exif@.map_values(|f: (String, String)| (f.0@, f.1@));
    let ghost head = seq![
        "# "@ + file_name@,
        "- path: "@ + path@,
        "- type: "@ + mv,
        "- size: "@ + decimal(size as nat) + " bytes"@,
    ];
    assert(m@ == mv);
    let mut lines: Vec<String> = Vec::new();
    assert(views(lines@) =~= Seq::<Seq<char>>::empty());
    push_line(&mut lines, "# ", file_name);
    push_line(&mut lines, "- path: ", path);
    push_line(&mut lines, "- type: ", m);
    let mut size_line = String::from_str("- size: ");
    push_decimal(&mut size_line, size);
    size_line.append(" bytes");
    let ghost sl = size_line@;
    let ghost before = views(lines@);
    lines.push(size_line);
    assert(views(lines@) =~= before.push(sl));
    assert(views(lines@) =~= head);
    match parent {
        Some(p) => push_line(&mut lines, "- parent: ", p),
        None => {},
    }
    let ghost base = views(lines@);
    assert(base =~= match crate::config::opt_view(parent) {
        Some(p) => head.push("- parent: "@ + p),
        None => head,
    });
    if wants_exif(m) {
        let mut i: usize = 0;
        while i < exif.len()
            invariant
                i <= exif.len(),
                views(lines@) == base + exif@.take(i as int).map_values(
                    |f: (String, String)| exif_line((f.0@, f.1@)),
                ),
            decreases exif.len() - i,
        {
            let mut l = String::from_str("- ");
            l.append(exif[i].0.as_str());
            l.append(": ");
            l.append(exif[i].1.as_str());
            let ghost lv = l@;
            let ghost before = views(lines@);
            lines.push(l);
            assert(views(lines@) =~= before.push(lv));
            assert(lv == exif_line((exif@[i as int].0@, exif@[i as int].1@)));
            assert(exif@.take(i + 1).map_values(|f: (String, String)| exif_line((f.0@, f.1@)))
                =~= exif@.take(i as int).map_values(
                |f: (String, String)| exif_line((f.0@, f.1@)),
            ).push(lv));
            i = i + 1;
        }
        assert(exif@.take(exif.len() as int) =~= exif@);
        assert(exif@.map_values(|f: (String, String)| exif_line((f.0@, f.1@))) =~= exif@.map_values(
            |f: (String, String)| (f.0@, f.1@),
        ).map_values(|f: (Seq<char>, Seq<char>)| exif_line(f)));
    }
    let ghost after_exif = views(lines@);
    assert(after_exif == if lists_exif(mv) {
        base + ev.map_values(|f: (Seq<char>, Seq<char>)| exif_line(f))
    } else {
        base
    });
    if wants_probe(m) {
        match probe {
            Some(p) => {
                match &p.duration {
                    Some(d) => push_line(&mut lines, "- duration: ", d.as_str()),
                    None => push_line(&mut lines, "- duration: ", "unknown"),
                }
                match &p.codec {
                    Some(c) => push_line(&mut lines, "- codec: ", c.as_str()),
                    None => {},
                }
            },
            None => {},
        }
    }
    lines.push(String::new());
    lines.push(String::from_str("Indexed as user-profile metadata stub."));
    let ghost want = stub_lines(
        file_name@,
        path@,
        mime_or_default(crate::config::opt_view(mime)),
        size,
        crate::config::opt_view(parent),
        exif@.map_values(|f: (String, String)| (f.0@, f.1@)),
        match probe {
            Some(p) => Some(
                (
                    crate::llm::settings::field_view(p.duration),
                    crate::llm::settings::field_view(p.codec),
                ),
            ),
            None => None,
        },
    );
    assert(views(lines@) =~= want);
    let r = join_strings(&lines, "\n");
    r
}

/// The view of a probe: its duration and codec.
pub open spec fn probe_view(probe: Option<MediaProbe>) -> Option<(Option<Seq<char>>, Option<Seq<char>>)> {
    match probe {
        Some(p) => Some(
            (crate::llm::settings::field_view(p.duration), crate::llm::settings::field_view(p.codec)),
        ),
        None => None,
    }
}

/// The markdown stub of a file from what was read of it: `head` its first bytes, from
/// which its media type is found, `bytes` its content (read for images, whose EXIF
/// fields are listed), its size in bytes, its parent folder and the probe of a
/// recording.
pub fn profile_stub_from(
    file_name: &str,
    path: &str,
    head: &[u8],
    bytes: &[u8],
    size: u64,
    parent: Option<&str>,
    probe: &Option<MediaProbe>,
) -> (r: String)
    ensures
        r@ == join(
            stub_lines(
                file_name@,
                path@,
                mime_or_default(mime_of(head@)),
                size,
                crate::config::opt_view(parent),
                exif_fields_of(bytes@),
                probe_view(*probe),
            ),
            "\n"@,
        ),
{
    let mime = infer_mime(head);
    let m: Option<&str> = match &mime {
        Some(x) => Some(x.as_str()),
        None => None,
    };
    assert(crate::config::opt_view(m) == mime_of(head@));
    let kind = mime_or_default_exec(m);
    let exif = if wants_exif(kind) {
        exif_fields(bytes)
    } else {
        Vec::new()
    };
    let r = profile_stub_text(file_name, path, m, size, parent, &exif, probe);
    proof {
        let mv = mime_or_default(mime_of(head@));
        if !lists_exif(mv) {
            assert(stub_lines(
                file_name@,
                path@,
                mv,
                size,
                crate::config::opt_view(parent),
                exif@.map_values(|f: (String, String)| (f.0@, f.1@)),
                probe_view(*probe),
            ) == stub_lines(
                file_name@,
                path@,
                mv,
                size,
                crate::config::opt_view(parent),
                exif_fields_of(bytes@),
                probe_view(*probe),
            ));
        }
    }
    r
}

fn mime_or_default_exec<'a>(m: Option<&'a str>) -> (r: &'a str)
    ensures
        r@ == mime_or_default(crate::config::opt_view(m)),
{
    match m {
        Some(x) => x,
        None => "application/octet-stream",
    }
}

/// The markdown of an image: its stub, then the model's description under a heading.
pub fn with_visual_description(stub: &str, description: &str) -> (r: String)
    ensures
        r@ == stub@ + "\n\n## Visual description\n\n"@ + trim(description@) + "\n"@,
{
    let mut r = stub.to_string();
    r.append("\n\n## Visual description\n\n");
    let t = trim_string(description);
    r.append(t.as_str());
    r.append("\n");
    r
}

} // verus!
