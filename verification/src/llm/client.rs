//! Reading JSON out of language-model replies: fences, chat-template markers and
//! thinking blocks are stripped, and truncated or prose replies are salvaged as pages.
use vstd::prelude::*;

use crate::text::{
    chars_of, find_first, find_from_exec, is_prefix_of, is_suffix_of, is_ws, lines,
    occurs_at_exec, rfind_char, skip_ws, starts_with_exec, string_of,
    string_of_range, subvec, trim, trim_start, trim_vec, push_char,
};
use crate::paths::rfind_char_exec;

verus! {

/// `serde_json::from_str` accepts `s` as one JSON value.
pub uninterp spec fn json_accepts(s: Seq<char>) -> bool;

/// Whether `s` is one JSON value (wraps `serde_json::from_str::<serde_json::Value>`,
/// keeping only whether it succeeds). The result is named `json_accepts`.
#[verifier::external_body]
pub(crate) fn parses_as_json(s: &str) -> (b: bool)
    ensures
        b == json_accepts(s@),
{
    serde_json::from_str::<serde_json::Value>(s).is_ok()
}

/// A page object `{description, content}` salvaged from a reply that is not valid JSON.
#[derive(Debug, Clone)]
pub struct PageJson {
    pub description: String,
    pub content: String,
}

/// What a model reply holds: JSON text that `serde_json` accepts, or a salvaged page.
#[derive(Debug, Clone)]
pub enum JsonReply {
    Text(String),
    Page(PageJson),
}

/// The characters of a reply: `Text(json)` or `Page(description, content)`.
pub enum ReplyModel {
    Text(Seq<char>),
    Page(Seq<char>, Seq<char>),
}

impl View for JsonReply {
    type V = ReplyModel;

    open spec fn view(&self) -> ReplyModel {
        match self {
            JsonReply::Text(t) => ReplyModel::Text(t@),
            JsonReply::Page(p) => ReplyModel::Page(p.description@, p.content@),
        }
    }
}

/// Why no JSON could be read from a reply.
#[derive(Debug, Clone, Copy, PartialEq, Eq, Structural)]
pub enum ExtractJsonError {
    /// The reply holds no `{`.
    NoObject,
    /// The reply holds a `{` but no JSON object that parses or can be salvaged.
    Invalid,
}

impl ExtractJsonError {
    /// The error message.
    pub fn message(&self) -> (r: &'static str)
        ensures
            *self == ExtractJsonError::NoObject ==> r@ == "no JSON object in model output"@,
            *self == ExtractJsonError::Invalid ==> r@ == "invalid JSON object in model output"@,
    {
        match self {
            ExtractJsonError::NoObject => "no JSON object in model output",
            ExtractJsonError::Invalid => "invalid JSON object in model output",
        }
    }
}

// ---------------------------------------------------------------------------
// Specifications
// ---------------------------------------------------------------------------

/// `s` after the prefix `p`.
pub open spec fn after(p: Seq<char>, s: Seq<char>) -> Seq<char> {
    s.subrange(p.len() as int, s.len() as int)
}

/// `s` with the prefix `p` removed and the rest trimmed, when `s` starts with `p`.
pub open spec fn strip_trim(s: Seq<char>, p: Seq<char>) -> Seq<char> {
    if is_prefix_of(p, s) {
        trim(after(p, s))
    } else {
        s
    }
}

/// `s` without any repetitions of `p` at its end (what `str::trim_end_matches(p)` gives).
pub open spec fn trim_end_str(s: Seq<char>, p: Seq<char>) -> Seq<char>
    decreases s.len(),
{
    if p.len() > 0 && is_suffix_of(p, s) {
        trim_end_str(s.subrange(0, s.len() - p.len()), p)
    } else {
        s
    }
}

/// `s` after the chat-template markers a model may echo.
pub open spec fn strip_markers(s: Seq<char>) -> Seq<char> {
    strip_trim(
        strip_trim(strip_trim(s, "<start_of_turn>model\n"@), "<start_of_turn>model"@),
        "model\n"@,
    )
}

/// `s` without a surrounding markdown code fence.
pub open spec fn strip_fence(s: Seq<char>) -> Seq<char> {
    if is_prefix_of("```json"@, s) {
        trim(trim_end_str(after("```json"@, s), "```"@))
    } else if is_prefix_of("```"@, s) {
        trim(trim_end_str(after("```"@, s), "```"@))
    } else {
        s
    }
}

/// `s` after the first closing thinking tag, when there is one.
pub open spec fn strip_think(s: Seq<char>) -> Seq<char> {
    match find_first(s, "</think>"@) {
        Some(i) => trim(s.subrange(i + "</think>"@.len(), s.len() as int)),
        None => s,
    }
}

/// The text of a reply once trimmed and stripped of markers, fences and thinking.
pub open spec fn json_candidate(raw: Seq<char>) -> Seq<char> {
    strip_think(strip_fence(strip_markers(trim(raw))))
}

/// The character an escape `\c` stands for inside a JSON string.
pub open spec fn unescape(c: char) -> char {
    if c == 'n' {
        '\n'
    } else if c == 't' {
        '\t'
    } else if c == 'r' {
        '\r'
    } else {
        c
    }
}

/// Decodes a JSON string body from index `i` on, `out` holding what is decoded so far:
/// escapes are decoded, a `"` ends the string; a string cut off before its closing quote
/// still counts when something was decoded; a dangling `\` gives nothing.
pub open spec fn scan_string(s: Seq<char>, i: int, out: Seq<char>) -> Option<Seq<char>>
    decreases s.len() - i,
{
    if i < 0 || i >= s.len() {
        if out.len() == 0 {
            None
        } else {
            Some(out)
        }
    } else if s[i] == '\\' {
        if i + 1 >= s.len() {
            None
        } else {
            scan_string(s, i + 2, out.push(unescape(s[i + 1])))
        }
    } else if s[i] == '"' {
        Some(out)
    } else {
        scan_string(s, i + 1, out.push(s[i]))
    }
}

/// The value of a JSON string whose body (after the opening quote) is `s`.
pub open spec fn string_value(s: Seq<char>) -> Option<Seq<char>> {
    scan_string(s, 0, seq![])
}

/// The string value of `"key": "..."`, read after the first `"key"` in `s`, even
/// when the JSON around it is broken or cut off.
pub open spec fn field_string(s: Seq<char>, key: Seq<char>) -> Option<Seq<char>> {
    let marker = seq!['"'] + key + seq!['"'];
    match find_first(s, marker) {
        None => None,
        Some(i) => {
            let rest = trim_start(s.subrange(i + marker.len(), s.len() as int));
            if rest.len() > 0 && rest[0] == ':' {
                let rest2 = trim_start(rest.drop_first());
                if rest2.len() > 0 && rest2[0] == '"' {
                    string_value(rest2.drop_first())
                } else {
                    None
                }
            } else {
                None
            }
        },
    }
}

/// The page `(description, content)` salvaged from a cut-off reply: a description is
/// needed, the content defaults to empty, and both empty salvage nothing.
pub open spec fn recovered(s: Seq<char>) -> Option<(Seq<char>, Seq<char>)> {
    match field_string(s, "description"@) {
        None => None,
        Some(d) => {
            let c = match field_string(s, "content"@) {
                Some(c) => c,
                None => seq![],
            };
            if d.len() == 0 && c.len() == 0 {
                None
            } else {
                Some((d, c))
            }
        },
    }
}

/// What `extract_json` gives for a reply.
pub open spec fn extracted(raw: Seq<char>) -> Result<ReplyModel, ExtractJsonError> {
    let s = json_candidate(raw);
    if json_accepts(s) {
        Ok(ReplyModel::Text(s))
    } else {
        match find_first(s, seq!['{']) {
            None => Err(ExtractJsonError::NoObject),
            Some(start) => {
                let slice = s.subrange(start, s.len() as int);
                let braced = match rfind_char(slice, '}') {
                    Some(end) => if json_accepts(slice.subrange(0, end + 1)) {
                        Some(slice.subrange(0, end + 1))
                    } else {
                        None
                    },
                    None => None,
                };
                match braced {
                    Some(t) => Ok(ReplyModel::Text(t)),
                    None => match recovered(slice) {
                        Some(p) => Ok(ReplyModel::Page(p.0, p.1)),
                        None => Err(ExtractJsonError::Invalid),
                    },
                }
            },
        }
    }
}

/// The first line of `ls` that is not blank, or nothing.
pub open spec fn first_nonblank(ls: Seq<Seq<char>>) -> Seq<char>
    decreases ls.len(),
{
    if ls.len() == 0 {
        seq![]
    } else if trim(ls[0]).len() > 0 {
        ls[0]
    } else {
        first_nonblank(ls.drop_first())
    }
}

/// A prose reply read as a page: the first 100 characters of its first non-blank line
/// as description, the trimmed reply as content; nothing for empty replies and for
/// replies that start with `{`.
pub open spec fn prose_page(raw: Seq<char>) -> Option<(Seq<char>, Seq<char>)> {
    let s = trim(raw);
    if s.len() == 0 || s[0] == '{' {
        None
    } else {
        let l = first_nonblank(lines(s));
        Some((if l.len() > 100 { l.take(100) } else { l }, s))
    }
}

// ---------------------------------------------------------------------------
// Executable functions
// ---------------------------------------------------------------------------

fn strip_trim_exec(s: &Vec<char>, p: &str) -> (r: Vec<char>)
    ensures
        r@ == strip_trim(s@, p@),
{
    let pv = chars_of(p);
    if starts_with_exec(s, &pv) {
        let rest = subvec(s, pv.len(), s.len());
        trim_vec(&rest)
    } else {
        subvec(s, 0, s.len())
    }
}

fn trim_end_str_exec(s: &Vec<char>, p: &Vec<char>) -> (r: Vec<char>)
    ensures
        r@ == trim_end_str(s@, p@),
{
    let mut b = s.len();
    assert(s@.subrange(0, b as int) =~= s@);
    while p.len() > 0 && p.len() <= b && occurs_at_exec(s, p, b - p.len())
        invariant
            b <= s.len(),
            trim_end_str(s@, p@) == trim_end_str(s@.subrange(0, b as int), p@),
        decreases b,
    {
        proof {
            let t = s@.subrange(0, b as int);
            assert(t.subrange(t.len() - p@.len(), t.len() as int) =~= s@.subrange(
                b - p@.len(),
                b as int,
            ));
            assert(t.subrange(0, t.len() - p@.len()) =~= s@.subrange(0, b - p@.len()));
        }
        b = b - p.len();
    }
    proof {
        let t = s@.subrange(0, b as int);
        if p@.len() > 0 && p@.len() <= b {
            assert(t.subrange(t.len() - p@.len(), t.len() as int) =~= s@.subrange(
                b - p@.len(),
                b as int,
            ));
        }
    }
    subvec(s, 0, b)
}

fn strip_fence_exec(s: &Vec<char>) -> (r: Vec<char>)
    ensures
        r@ == strip_fence(s@),
{
    let fence = chars_of("```");
    let fence_json = chars_of("```json");
    if starts_with_exec(s, &fence_json) {
        let rest = subvec(s, fence_json.len(), s.len());
        let t = trim_end_str_exec(&rest, &fence);
        trim_vec(&t)
    } else if starts_with_exec(s, &fence) {
        let rest = subvec(s, fence.len(), s.len());
        let t = trim_end_str_exec(&rest, &fence);
        trim_vec(&t)
    } else {
        subvec(s, 0, s.len())
    }
}

fn strip_think_exec(s: &Vec<char>) -> (r: Vec<char>)
    ensures
        r@ == strip_think(s@),
{
    let close = chars_of("</think>");
    match find_from_exec(s, &close, 0) {
        Some(i) => {
            proof {
                crate::text::lemma_find_from(s@, close@, 0);
                assert(crate::text::occurs_at(s@, close@, i as int));
                assert(i + close@.len() <= s@.len());
                assert(i + close.len() <= s.len());
            }
            let rest = subvec(s, i + close.len(), s.len());
            trim_vec(&rest)
        },
        None => subvec(s, 0, s.len()),
    }
}

/// The trimmed reply stripped of chat-template markers, code fences and thinking.
pub fn json_candidate_exec(raw: &str) -> (r: Vec<char>)
    ensures
        r@ == json_candidate(raw@),
{
    let v = chars_of(raw);
    let s0 = trim_vec(&v);
    let s1 = strip_trim_exec(&s0, "<start_of_turn>model\n");
    let s2 = strip_trim_exec(&s1, "<start_of_turn>model");
    let s3 = strip_trim_exec(&s2, "model\n");
    let s4 = strip_fence_exec(&s3);
    strip_think_exec(&s4)
}

/// Decodes a JSON string body (after its opening quote), tolerating a missing closing quote.
pub fn parse_json_string_value(s: &str) -> (r: Option<String>)
    ensures
        r matches Some(v) ==> string_value(s@) == Some(v@),
        r is None ==> string_value(s@) is None,
{
    let v = chars_of(s);
    string_value_exec(&v, 0)
}

fn string_value_exec(v: &Vec<char>, from: usize) -> (r: Option<String>)
    requires
        from <= v.len(),
    ensures
        r matches Some(x) ==> scan_string(v@, from as int, seq![]) == Some(x@),
        r is None ==> scan_string(v@, from as int, seq![]) is None,
{
    let mut out = String::new();
    let mut i = from;
    while i < v.len()
        invariant
            from <= i,
            scan_string(v@, from as int, seq![]) == scan_string(v@, i as int, out@),
        decreases v.len() - i,
    {
        let c = v[i];
        if c == '\\' {
            if i + 1 >= v.len() {
                return None;
            }
            let e = v[i + 1];
            let d = if e == 'n' {
                '\n'
            } else if e == 't' {
                '\t'
            } else if e == 'r' {
                '\r'
            } else {
                e
            };
            push_char(&mut out, d);
            i = i + 2;
        } else if c == '"' {
            return Some(out);
        } else {
            push_char(&mut out, c);
            i = i + 1;
        }
    }
    if out.as_str().unicode_len() == 0 {
        None
    } else {
        Some(out)
    }
}

/// Reads the string value of `"key": "..."` after the first `"key"` in `s`.
pub fn json_field_string(s: &str, key: &str) -> (r: Option<String>)
    ensures
        r matches Some(v) ==> field_string(s@, key@) == Some(v@),
        r is None ==> field_string(s@, key@) is None,
{
    let v = chars_of(s);
    let mut m = String::new();
    push_char(&mut m, '"');
    m.append(key);
    push_char(&mut m, '"');
    let mv = chars_of(m.as_str());
    assert(mv@ == seq!['"'] + key@ + seq!['"']);
    match find_from_exec(&v, &mv, 0) {
        None => None,
        Some(i) => {
            proof {
                crate::text::lemma_find_from(v@, mv@, 0);
            }
            let a = skip_ws(&v, i + mv.len());
            if a < v.len() && v[a] == ':' {
                let b = skip_ws(&v, a + 1);
                proof {
                    let rest = v@.subrange(a as int, v.len() as int);
                    assert(rest.drop_first() =~= v@.subrange(a + 1, v.len() as int));
                }
                if b < v.len() && v[b] == '"' {
                    proof {
                        let rest2 = v@.subrange(b as int, v.len() as int);
                        let tail = rest2.drop_first();
                        assert(tail =~= v@.subrange(b + 1, v.len() as int));
                        lemma_scan_shift(v@, tail, b + 1, 0, seq![]);
                    }
                    string_value_exec(&v, b + 1)
                } else {
                    None
                }
            } else {
                None
            }
        },
    }
}

/// Scanning a suffix of `v` is scanning `v` from the suffix's offset.
proof fn lemma_scan_shift(v: Seq<char>, tail: Seq<char>, off: int, i: int, out: Seq<char>)
    requires
        0 <= off <= v.len(),
        tail == v.subrange(off, v.len() as int),
        0 <= i,
    ensures
        scan_string(tail, i, out) == scan_string(v, off + i, out),
    decreases tail.len() - i,
{
    if i < tail.len() {
        assert(tail[i] == v[off + i]);
        if tail[i] == '\\' {
            if i + 1 < tail.len() {
                assert(tail[i + 1] == v[off + i + 1]);
                lemma_scan_shift(v, tail, off, i + 2, out.push(unescape(tail[i + 1])));
            }
        } else if tail[i] != '"' {
            lemma_scan_shift(v, tail, off, i + 1, out.push(tail[i]));
        }
    }
}

/// Salvages `{description, content}` from a reply cut off mid-string (no closing `}`).
pub fn recover_page_json(s: &str) -> (r: Option<PageJson>)
    ensures
        r matches Some(p) ==> recovered(s@) == Some((p.description@, p.content@)),
        r is None ==> recovered(s@) is None,
{
    let d = match json_field_string(s, "description") {
        Some(d) => d,
        None => return None,
    };
    let c = match json_field_string(s, "content") {
        Some(c) => c,
        None => String::new(),
    };
    if d.as_str().unicode_len() == 0 && c.as_str().unicode_len() == 0 {
        return None;
    }
    Some(PageJson { description: d, content: c })
}

/// Pulls JSON out of a model reply: trims it, strips chat-template markers, code
/// fences and a thinking block, then takes the whole text when it parses, else the
/// span from the first `{` to the last `}` when that parses, else a page salvaged from
/// a cut-off `{description, content}` object.
pub fn extract_json(raw: &str) -> (r: Result<JsonReply, ExtractJsonError>)
    ensures
        r matches Ok(j) ==> extracted(raw@) == Ok::<ReplyModel, ExtractJsonError>(j@),
        r matches Err(e) ==> extracted(raw@) == Err::<ReplyModel, ExtractJsonError>(e),
{
    let s = json_candidate_exec(raw);
    let st = string_of(&s);
    if parses_as_json(st.as_str()) {
        return Ok(JsonReply::Text(st));
    }
    let mut open = Vec::new();
    open.push('{');
    assert(open@ =~= seq!['{']);
    let start = match find_from_exec(&s, &open, 0) {
        Some(i) => i,
        None => return Err(ExtractJsonError::NoObject),
    };
    proof {
        crate::text::lemma_find_from(s@, open@, 0);
    }
    let slice = subvec(&s, start, s.len());
    match rfind_char_exec(&slice, '}') {
        Some(end) => {
            let t = string_of_range(&slice, 0, end + 1);
            if parses_as_json(t.as_str()) {
                return Ok(JsonReply::Text(t));
            }
        },
        None => {},
    }
    let slice_text = string_of(&slice);
    match recover_page_json(slice_text.as_str()) {
        Some(p) => Ok(JsonReply::Page(p)),
        None => Err(ExtractJsonError::Invalid),
    }
}


proof fn lemma_trim_end_keeps_head(x: Seq<char>)
    requires
        x.len() > 0,
        !is_ws(x[0]),
    ensures
        crate::text::trim_end(x).len() > 0,
    decreases x.len(),
{
    if x.len() > 1 && is_ws(x.last()) {
        assert(x.drop_last()[0] == x[0]);
        lemma_trim_end_keeps_head(x.drop_last());
    }
}

proof fn lemma_head_not_blank(x: Seq<char>)
    requires
        x.len() > 0,
        !is_ws(x[0]),
    ensures
        trim(x).len() > 0,
{
    assert(trim_start(x) == x);
    lemma_trim_end_keeps_head(x);
}

/// Reads a prose reply as a page: the first line (at most 100 characters) as
/// description, the trimmed reply as content. Models often answer in markdown when asked
/// for `{description, content}`.
pub fn prose_as_page_json(raw: &str) -> (r: Option<PageJson>)
    ensures
        r matches Some(p) ==> prose_page(raw@) == Some((p.description@, p.content@)),
        r is None ==> prose_page(raw@) is None,
{
    let v = chars_of(raw);
    let s = trim_vec(&v);
    if s.len() == 0 || s[0] == '{' {
        return None;
    }
    let mut nl = Vec::new();
    nl.push('\n');
    assert(nl@ =~= seq!['\n']);
    let found = find_from_exec(&s, &nl, 0);
    let mut e = s.len();
    match found {
        Some(i) => {
            proof {
                crate::text::lemma_find_from(s@, nl@, 0);
                assert(crate::text::occurs_at(s@, nl@, i as int));
                assert(s@.subrange(i as int, i + 1)[0] == s@[i as int]);
            }
            e = i;
            if e > 0 && s[e - 1] == '\r' {
                e = e - 1;
            }
        },
        None => {},
    }
    proof {
        let ls = lines(s@);
        let l = s@.subrange(0, e as int);
        crate::text::lemma_trim_head(v@);
        assert(s@[0] != '\n' && s@[0] != '\r');
        match found {
            Some(i) => {
                let line0 = s@.subrange(0, i as int);
                assert(i > 0);
                if line0.last() == '\r' {
                    assert(line0.drop_last() =~= l);
                } else {
                    assert(line0 =~= l);
                }
                assert(ls[0] == l);
            },
            None => {
                assert(s@.subrange(0, s@.len() as int) =~= s@);
                assert(ls[0] == l);
            },
        }
        assert(l.len() > 0 && l[0] == s@[0]);
        lemma_head_not_blank(l);
        assert(first_nonblank(ls) == l);
    }
    let take = if e > 100 {
        100
    } else {
        e
    };
    let description = string_of_range(&s, 0, take);
    let content = string_of(&s);
    Some(PageJson { description, content })
}

/// What one reading of a model reply gives: the extracted JSON, else a salvaged page
/// (from the trimmed reply), else the reply read as prose.
pub open spec fn json_attempt(raw: Seq<char>) -> Option<ReplyModel> {
    match extracted(raw) {
        Ok(j) => Some(j),
        Err(_) => match recovered(trim(raw)) {
            Some(p) => Some(ReplyModel::Page(p.0, p.1)),
            None => match prose_page(raw) {
                Some(p) => Some(ReplyModel::Page(p.0, p.1)),
                None => None,
            },
        },
    }
}

/// Reads JSON from one model reply (the first step of `complete_json`); `None` asks
/// for a retry with `retry_user_prompt`.
pub fn parse_json_attempt(raw: &str) -> (r: Option<JsonReply>)
    ensures
        r matches Some(j) ==> json_attempt(raw@) == Some(j@),
        r is None ==> json_attempt(raw@) is None,
{
    match extract_json(raw) {
        Ok(j) => return Some(j),
        Err(_) => {},
    }
    let v = chars_of(raw);
    let t = trim_vec(&v);
    let ts = string_of(&t);
    match recover_page_json(ts.as_str()) {
        Some(p) => return Some(JsonReply::Page(p)),
        None => {},
    }
    match prose_as_page_json(raw) {
        Some(p) => Some(JsonReply::Page(p)),
        None => None,
    }
}

/// The user prompt of the retry after a reply that held no JSON.
pub open spec fn retry_prompt(user: Seq<char>) -> Seq<char> {
    user
        + "\n\nYour previous reply was not valid JSON. Reply with ONLY one JSON object. No markdown fences, no commentary."@
}

/// The retry prompt after a reply that held no JSON.
pub fn retry_user_prompt(user: &str) -> (r: String)
    ensures
        r@ == retry_prompt(user@),
{
    let mut r = String::from_str(user);
    r.append(
        "\n\nYour previous reply was not valid JSON. Reply with ONLY one JSON object. No markdown fences, no commentary.",
    );
    r
}

/// Where reading a JSON reply stands: at the model's first reply, or at its reply to
/// the one retry.
#[derive(Debug, Clone, Copy, PartialEq, Eq, Structural)]
pub enum JsonStage {
    First,
    Retried,
}

/// What follows a reply: the JSON read from it, a retry with the given user prompt, or
/// failure with the reason the last reply could not be read.
pub enum JsonStep {
    Done(JsonReply),
    Retry(String),
    Failed(ExtractJsonError),
}

/// The step after the model's reply `raw` to the user prompt `user`, at `stage`: the
/// reply's JSON when it can be read; else, after the first reply, one retry with the
/// retry prompt; else, after the retry, failure with the reason `extract_json` gives.
pub fn json_step(stage: JsonStage, user: &str, raw: &str) -> (r: JsonStep)
    ensures
        json_attempt(raw@) matches Some(m) ==> (r matches JsonStep::Done(j) && j@ == m),
        json_attempt(raw@) is None && stage == JsonStage::First ==> (r matches JsonStep::Retry(p)
            && p@ == retry_prompt(user@)),
        json_attempt(raw@) is None && stage == JsonStage::Retried ==> (r matches JsonStep::Failed(e)
            && extracted(raw@) == Err::<ReplyModel, ExtractJsonError>(e)),
{
    match parse_json_attempt(raw) {
        Some(j) => JsonStep::Done(j),
        None => match stage {
            JsonStage::First => JsonStep::Retry(retry_user_prompt(user)),
            JsonStage::Retried => match extract_json(raw) {
                Ok(j) => JsonStep::Done(j),
                Err(e) => JsonStep::Failed(e),
            },
        },
    }
}

proof fn lemma_find_char_from(s: Seq<char>, ch: char, from: int, k: int)
    requires
        0 <= from <= k < s.len(),
        s[k] == ch,
        forall|j: int| from <= j < k ==> s[j] != ch,
    ensures
        crate::text::find_from(s, seq![ch], from) == Some(k),
    decreases k - from,
{
    if from == k {
        assert(s.subrange(k, k + 1) =~= seq![ch]);
    } else {
        assert(s.subrange(from, from + 1)[0] == s[from]);
        lemma_find_char_from(s, ch, from + 1, k);
    }
}

proof fn lemma_rfind_char_upto(s: Seq<char>, ch: char, upto: int, e: int)
    requires
        0 <= e <= upto < s.len(),
        s[e] == ch,
        forall|j: int| e < j < s.len() ==> s[j] != ch,
    ensures
        crate::text::rfind_char_upto(s, ch, upto) == Some(e),
    decreases upto - e,
{
    if upto > e {
        lemma_rfind_char_upto(s, ch, upto - 1, e);
    }
}

/// A reply whose text, once stripped, does not parse as a whole gives the span from its
/// first `{` to its last `}` when that span parses: text without `{` (`before`), then a
/// JSON object `object`, then text without `}` (`after`) gives `object`.
pub proof fn law_json_span_first_to_last_brace(
    raw: Seq<char>,
    before: Seq<char>,
    object: Seq<char>,
    after: Seq<char>,
)
    requires
        json_candidate(raw) == before + object + after,
        !json_accepts(json_candidate(raw)),
        forall|j: int| 0 <= j < before.len() ==> before[j] != '{',
        object.len() > 0,
        object[0] == '{',
        object.last() == '}',
        forall|j: int| 0 <= j < after.len() ==> after[j] != '}',
        json_accepts(object),
    ensures
        extracted(raw) == Ok::<ReplyModel, ExtractJsonError>(ReplyModel::Text(object)),
{
    let s = json_candidate(raw);
    let start = before.len() as int;
    assert(s[start] == '{');
    assert forall|j: int| 0 <= j < start implies s[j] != '{' by {
        assert(s[j] == before[j]);
    }
    lemma_find_char_from(s, '{', 0, start);
    let slice = s.subrange(start, s.len() as int);
    assert(slice =~= object + after);
    let e = object.len() - 1;
    assert(slice[e] == '}');
    assert forall|j: int| e < j < slice.len() implies slice[j] != '}' by {
        assert(slice[j] == after[j - object.len()]);
    }
    lemma_rfind_char_upto(slice, '}', slice.len() - 1, e);
    assert(slice.subrange(0, e + 1) =~= object);
}

/// A reply whose stripped text parses as JSON is read as that text, and a reply whose
/// stripped text neither parses nor holds a `{` has no JSON object.
pub proof fn law_json_whole_or_none(raw: Seq<char>)
    ensures
        json_accepts(json_candidate(raw)) ==> extracted(raw) == Ok::<ReplyModel, ExtractJsonError>(
            ReplyModel::Text(json_candidate(raw)),
        ),
        !json_accepts(json_candidate(raw)) && (forall|j: int|
            0 <= j < json_candidate(raw).len() ==> json_candidate(raw)[j] != '{') ==> extracted(raw)
            == Err::<ReplyModel, ExtractJsonError>(ExtractJsonError::NoObject),
{
    let s = json_candidate(raw);
    crate::text::lemma_find_from(s, seq!['{'], 0);
    match find_first(s, seq!['{']) {
        Some(i) => {
            assert(s.subrange(i, i + 1)[0] == s[i]);
        },
        None => {},
    }
}

} // verus!
