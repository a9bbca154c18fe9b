//! The tool that fetches web pages: what it asks for, what it accepts, and what it makes of
//! a page.

use crate::bytes::{byte_count, byte_len, byte_prefix, take_bytes};
use crate::file_tools::{concat, size_of_text};
use crate::internal_tools::{param, param_v, schema};
use crate::json::{fields, obj3, obj3_v, object_of, push_field, text_array1, text_array3};
use crate::json::{text_array_v, Json, JsonV};
use crate::markup::{convertible, is_convertible};
use crate::patterns::{
    compile_regex, fill_numbers, filled, regex_first_group, regex_first_groups, regex_group,
    regex_groups, regex_pieces, regex_split,
};
use crate::patterns::{regex_problem, replace_matches, replaced_by};
use crate::text::{
    contains, contains_str, dec, dec_text, ends_with, ends_with_str, find_from, join,
};
use crate::text::{
    join_strings, lines_from, lowercase, opt_text, owned, replace_all, replaced_from,
};
use crate::text::{same, slice_text, split_lines, starts_with, starts_with_str, texts, to_chars};
use crate::text::{to_lowercase, trim, trim_bounds, trim_str};
use crate::tool::Tool;
use vstd::prelude::*;

verus! {

/// The largest response, in bytes.
pub const MAX_RESPONSE_BYTES: usize = 5_242_880;

/// The timeout where none is given, in seconds.
pub const DEFAULT_TIMEOUT_SECS: u64 = 30;

/// The longest timeout, in seconds.
pub const MAX_TIMEOUT_SECS: u64 = 120;

/// The size beyond which a page is put into a file, in bytes.
pub const CACHE_THRESHOLD_BYTES: usize = 32_768;

/// The size of a preview at most, in bytes.
pub const PREVIEW_BYTES: usize = 24_576;

/// How many lines a preview shows of the start.
pub const PREVIEW_HEAD_LINES: usize = 100;

/// How many lines a preview shows of the end.
pub const PREVIEW_TAIL_LINES: usize = 50;

/// The Markdown that `html2md::parse_html` makes of a page.
pub uninterp spec fn html_markdown(html: Seq<char>) -> Seq<char>;

/// `html2md::parse_html`: the result depends on the page alone. It panics on some pages with an
/// item in no list, and runs out of stack on a page that nests too deep; `convertible` leaves
/// those pages out. The parser beneath it checks its own bookkeeping, and no page makes these
/// checks fail.
#[verifier::external_body]
fn html_to_markdown(html: &str) -> (r: String)
    requires
        convertible(html@),
    ensures
        r@ == html_markdown(html@),
{
    html2md::parse_html(html)
}

/// The page without its scripts and styles.
pub open spec fn without_scripts(html: Seq<char>) -> Seq<char> {
    replaced_by(
        "(?is)<style[^>]*>.*?</style>"@,
        replaced_by("(?is)<script[^>]*>.*?</script>"@, html, ""@),
        ""@,
    )
}

/// The page without its scripts and styles.
pub fn strip_script_style(html: &str) -> (r: String)
    ensures
        r@ == without_scripts(html@),
{
    let text = replace_matches("(?is)<script[^>]*>.*?</script>", html, "");
    replace_matches("(?is)<style[^>]*>.*?</style>", text.as_str(), "")
}

/// The text with its named character references decoded.
pub open spec fn named_decoded(s: Seq<char>) -> Seq<char> {
    let s = replaced_from(s, "&amp;"@, "&"@, 0);
    let s = replaced_from(s, "&lt;"@, "<"@, 0);
    let s = replaced_from(s, "&gt;"@, ">"@, 0);
    let s = replaced_from(s, "&quot;"@, "\""@, 0);
    let s = replaced_from(s, "&#39;"@, "'"@, 0);
    replaced_from(s, "&nbsp;"@, " "@, 0)
}

/// The text with its numeric character references decoded.
pub open spec fn numbers_decoded(s: Seq<char>) -> Seq<char> {
    let p = r"&#(x[0-9a-fA-F]+|\d+);"@;
    if regex_problem(p) is None {
        let pieces = regex_pieces(p, s);
        filled(pieces, regex_groups(p, s), pieces.len() as int)
    } else {
        s
    }
}

/// The text without the character `c` at its start.
pub open spec fn strip_start_char(s: Seq<char>, c: char) -> Seq<char>
    decreases s.len(),
{
    if s.len() > 0 && s[0] == c {
        strip_start_char(s.drop_first(), c)
    } else {
        s
    }
}

/// The text without the character `c` at its end.
pub open spec fn strip_end_char(s: Seq<char>, c: char) -> Seq<char>
    decreases s.len(),
{
    if s.len() > 0 && s.last() == c {
        strip_end_char(s.drop_last(), c)
    } else {
        s
    }
}

/// The text without the character `c` at either end.
pub open spec fn strip_char(s: Seq<char>, c: char) -> Seq<char> {
    strip_end_char(strip_start_char(s, c), c)
}

/// The text with its references decoded and its white space collapsed.
pub open spec fn collapsed(s: Seq<char>) -> Seq<char> {
    let s = numbers_decoded(named_decoded(s));
    let s = replaced_by(r"\n{3,}"@, s, "\n\n"@);
    let s = replaced_by(r"[ \t]+"@, strip_char(s, ' '), " "@);
    strip_char(join(lines_from(s, 0).map_values(|l: Seq<char>| trim(l)), "\n"@), '\n')
}

/// The readable text of a page.
pub open spec fn page_text(html: Seq<char>) -> Seq<char> {
    let s = without_scripts(html);
    let s = replaced_by(r"(?i)</(p|div|li|h[1-6]|tr|br\s*/?)>"@, s, "\n"@);
    collapsed(replaced_by(r"<[^>]+>"@, s, ""@))
}

/// The text without the character `c` at either end.
fn trim_char(s: &str, c: char) -> (r: String)
    ensures
        r@ == strip_char(s@, c),
{
    let v = to_chars(s);
    let mut a: usize = 0;
    assert(v@.skip(0) =~= v@);
    while a < v.len() && v[a] == c
        invariant
            a <= v@.len(),
            strip_start_char(v@.skip(a as int), c) == strip_start_char(v@, c),
        decreases v.len() - a,
    {
        assert(v@.skip(a as int).drop_first() =~= v@.skip(a + 1));
        a = a + 1;
    }
    assert(strip_start_char(v@, c) == v@.skip(a as int));
    let mut b: usize = v.len();
    assert(v@.subrange(a as int, b as int) =~= v@.skip(a as int));
    while b > a && v[b - 1] == c
        invariant
            a <= b <= v@.len(),
            strip_end_char(v@.subrange(a as int, b as int), c) == strip_end_char(
                v@.skip(a as int),
                c,
            ),
        decreases b,
    {
        assert(v@.subrange(a as int, b as int).drop_last() =~= v@.subrange(a as int, b - 1));
        b = b - 1;
    }
    slice_text(&v, a, b)
}

fn replace_text(s: &str, old: &str, new: &str) -> (r: String)
    requires
        old@.len() > 0,
    ensures
        r@ == replaced_from(s@, old@, new@, 0),
{
    let (t, _) = replace_all(s, old, new);
    t
}

/// The text with its character references decoded and its white space collapsed.
pub fn decode_entities_and_collapse(text: &str) -> (r: String)
    ensures
        r@ == collapsed(text@),
{
    proof {
        reveal_strlit("&amp;");
        reveal_strlit("&lt;");
        reveal_strlit("&gt;");
        reveal_strlit("&quot;");
        reveal_strlit("&#39;");
        reveal_strlit("&nbsp;");
    }
    let s = replace_text(text, "&amp;", "&");
    let s = replace_text(s.as_str(), "&lt;", "<");
    let s = replace_text(s.as_str(), "&gt;", ">");
    let s = replace_text(s.as_str(), "&quot;", "\"");
    let s = replace_text(s.as_str(), "&#39;", "'");
    let s = replace_text(s.as_str(), "&nbsp;", " ");
    let s = match compile_regex(r"&#(x[0-9a-fA-F]+|\d+);") {
        Ok(re) => fill_numbers(
            regex_split(&re, s.as_str()).as_slice(),
            regex_first_groups(&re, s.as_str()).as_slice(),
        ),
        Err(_) => s,
    };
    let s = replace_matches(r"\n{3,}", s.as_str(), "\n\n");
    let s = trim_char(s.as_str(), ' ');
    let s = replace_matches(r"[ \t]+", s.as_str(), " ");
    let lines = split_lines(s.as_str());
    let ghost lv = lines_from(s@, 0);
    let mut trimmed: Vec<String> = Vec::new();
    let mut i: usize = 0;
    while i < lines.len()
        invariant
            i <= lines@.len(),
            trimmed@.len() == i,
            forall|j: int| 0 <= j < i ==> (#[trigger] trimmed@[j])@ == trim(lines@[j]@),
        decreases lines.len() - i,
    {
        trimmed.push(trim_str(lines[i].as_str()));
        i = i + 1;
    }
    assert(lv == texts(lines@));
    assert(texts(trimmed@) =~= lv.map_values(|l: Seq<char>| trim(l)));
    let joined = join_strings(&trimmed, "\n");
    trim_char(joined.as_str(), '\n')
}

/// The readable text of a page, without any tags.
pub fn extract_text_from_html(html: &str) -> (r: String)
    ensures
        r@ == page_text(html@),
{
    let s = strip_script_style(html);
    let s = replace_matches(r"(?i)</(p|div|li|h[1-6]|tr|br\s*/?)>", s.as_str(), "\n");
    let s = replace_matches(r"<[^>]+>", s.as_str(), "");
    decode_entities_and_collapse(s.as_str())
}

/// The Markdown of a page, without its scripts and styles.
pub fn convert_html_to_markdown(html: &str) -> (r: String)
    requires
        convertible(without_scripts(html@)),
    ensures
        r@ == trim(html_markdown(without_scripts(html@))),
{
    let clean = strip_script_style(html);
    trim_str(html_to_markdown(clean.as_str()).as_str())
}

/// The title of a page.
pub open spec fn page_title(html: Seq<char>) -> Option<Seq<char>> {
    let p = r"(?is)<title[^>]*>(.*?)</title>"@;
    if regex_problem(p) is None {
        match regex_group(p, html) {
            Some(t) => if trim(t).len() > 0 {
                Some(trim(t))
            } else {
                None
            },
            None => None,
        }
    } else {
        None
    }
}

/// The title of a page, unless it is empty.
pub fn extract_title(html: &str) -> (r: Option<String>)
    ensures
        opt_text(r) == page_title(html@),
{
    let re = match compile_regex(r"(?is)<title[^>]*>(.*?)</title>") {
        Ok(re) => re,
        Err(_) => return None,
    };
    match regex_first_group(&re, html) {
        Some(t) => {
            let title = trim_str(t.as_str());
            if to_chars(title.as_str()).len() > 0 {
                Some(title)
            } else {
                None
            }
        },
        None => None,
    }
}

/// The text up to the first semicolon.
pub open spec fn before_semicolon(s: Seq<char>) -> Seq<char> {
    match find_from(s, ";"@, 0) {
        Some(p) => s.take(p),
        None => s,
    }
}

/// The MIME type of a content type.
pub open spec fn mime(content_type: Seq<char>) -> Seq<char> {
    lowercase(trim(before_semicolon(content_type)))
}

/// The MIME type of a content type: without its parameters, in lowercase.
pub fn mime_from(content_type: &str) -> (r: String)
    ensures
        r@ == mime(content_type@),
{
    let v = to_chars(content_type);
    let semi = to_chars(";");
    let end: usize = match crate::text::find(&v, &semi, 0) {
        Some(p) => p,
        None => v.len(),
    };
    let (a, b) = trim_bounds(&v, 0, end);
    assert(v@.subrange(0, end as int) =~= before_semicolon(content_type@));
    to_lowercase(slice_text(&v, a, b).as_str())
}

pub open spec fn is_image(m: Seq<char>) -> bool {
    starts_with(m, "image/"@) && !contains(m, "svg"@)
}

/// Whether the MIME type is that of an image that is no text.
pub fn is_image_mime(m: &str) -> (r: bool)
    ensures
        r == is_image(m@),
{
    starts_with_str(m, "image/") && !contains_str(m, "svg")
}

pub open spec fn is_textual(m: Seq<char>) -> bool {
    m.len() == 0 || starts_with(m, "text/"@) || m == "application/json"@ || ends_with(m, "+json"@)
        || m == "application/xml"@ || ends_with(m, "+xml"@) || m == "application/javascript"@ || m
        == "application/x-javascript"@
}

/// Whether the MIME type is that of a text.
pub fn is_textual_mime(m: &str) -> (r: bool)
    ensures
        r == is_textual(m@),
{
    to_chars(m).len() == 0 || starts_with_str(m, "text/") || same(m, "application/json")
        || ends_with_str(m, "+json") || same(m, "application/xml") || ends_with_str(m, "+xml")
        || same(m, "application/javascript") || same(m, "application/x-javascript")
}

/// The `Accept` header for a format.
pub open spec fn accepted(format: Seq<char>) -> Seq<char> {
    if format == "markdown"@ {
        "text/markdown;q=1.0, text/x-markdown;q=0.9, text/plain;q=0.8, text/html;q=0.7, */*;q=0.1"@
    } else if format == "text"@ {
        "text/plain;q=1.0, text/markdown;q=0.9, text/html;q=0.8, */*;q=0.1"@
    } else {
        "text/html;q=1.0, application/xhtml+xml;q=0.9, text/plain;q=0.8, text/markdown;q=0.7, */*;q=0.1"@
    }
}

/// The `Accept` header for a format.
pub fn accept_header(format: &str) -> (r: &'static str)
    ensures
        r@ == accepted(format@),
{
    if same(format, "markdown") {
        "text/markdown;q=1.0, text/x-markdown;q=0.9, text/plain;q=0.8, text/html;q=0.7, */*;q=0.1"
    } else if same(format, "text") {
        "text/plain;q=1.0, text/markdown;q=0.9, text/html;q=0.8, */*;q=0.1"
    } else {
        "text/html;q=1.0, application/xhtml+xml;q=0.9, text/plain;q=0.8, text/markdown;q=0.7, */*;q=0.1"
    }
}

/// The user agent of the first attempt.
pub fn browser_user_agent() -> (r: &'static str)
    ensures
        r@
            == "Mozilla/5.0 (Windows NT 10.0; Win64; x64) AppleWebKit/537.36 (KHTML, like Gecko) Chrome/143.0.0.0 Safari/537.36"@,
{
    "Mozilla/5.0 (Windows NT 10.0; Win64; x64) AppleWebKit/537.36 (KHTML, like Gecko) Chrome/143.0.0.0 Safari/537.36"
}

/// The user agent of the second attempt.
pub fn fallback_user_agent() -> (r: &'static str)
    ensures
        r@ == "gladiator/0.1"@,
{
    "gladiator/0.1"
}

/// Whether a response is a challenge, and the page is to be asked for once more under another
/// user agent.
pub fn is_cloudflare_challenge(status: u16, mitigated: Option<&str>) -> (r: bool)
    ensures
        r == (status == 403 && (mitigated matches Some(m) && m@ == "challenge"@)),
{
    match mitigated {
        Some(m) => status == 403 && same(m, "challenge"),
        None => false,
    }
}

/// A timeout within the bounds.
pub fn clamp_timeout(secs: u64) -> (r: u64)
    ensures
        r == if secs < 1 {
            1
        } else if secs > MAX_TIMEOUT_SECS {
            MAX_TIMEOUT_SECS
        } else {
            secs
        },
{
    if secs < 1 {
        1
    } else if secs > MAX_TIMEOUT_SECS {
        MAX_TIMEOUT_SECS
    } else {
        secs
    }
}

/// Whether the body is a page that is wanted as Markdown.
pub open spec fn wants_markdown(content_type: Seq<char>, format: Seq<char>) -> bool {
    (contains(content_type, "text/html"@) || starts_with(mime(content_type), "application/xhtml"@))
        && format != "html"@ && format != "text"@
}

/// A body in the format that is asked for; what is no page stays as it is.
pub open spec fn converted(raw: Seq<char>, content_type: Seq<char>, format: Seq<char>) -> Seq<char> {
    if wants_markdown(content_type, format) {
        trim(html_markdown(without_scripts(raw)))
    } else if (contains(content_type, "text/html"@) || starts_with(
        mime(content_type),
        "application/xhtml"@,
    )) && format == "text"@ {
        page_text(raw)
    } else {
        raw
    }
}

/// Whether a body can be given in the format that is asked for.
pub open spec fn can_convert(raw: Seq<char>, content_type: Seq<char>, format: Seq<char>) -> bool {
    wants_markdown(content_type, format) ==> convertible(without_scripts(raw))
}

/// A body in the format that is asked for; what is no page stays as it is. A page that cannot
/// be turned into Markdown is an error.
pub fn convert_content(raw: &str, content_type: &str, format: &str) -> (r: Result<String, String>)
    ensures
        match r {
            Ok(s) => can_convert(raw@, content_type@, format@) && s@ == converted(
                raw@,
                content_type@,
                format@,
            ),
            Err(e) => !can_convert(raw@, content_type@, format@) && e@
                == "Fetch failed: the page cannot be converted to markdown"@,
        },
{
    proof {
        reveal_strlit("html");
        reveal_strlit("text");
        assert("html"@[0] == 'h' && "text"@[0] == 't');
    }
    let m = mime_from(content_type);
    if !contains_str(content_type, "text/html") && !starts_with_str(
        m.as_str(),
        "application/xhtml",
    ) {
        return Ok(owned(raw));
    }
    if same(format, "html") {
        Ok(owned(raw))
    } else if same(format, "text") {
        Ok(extract_text_from_html(raw))
    } else if is_convertible(strip_script_style(raw).as_str()) {
        Ok(convert_html_to_markdown(raw))
    } else {
        Err(owned("Fetch failed: the page cannot be converted to markdown"))
    }
}

/// The longest start of a text that takes no more than so many bytes.
pub fn cap_bytes(s: &str, max_bytes: usize) -> (r: String)
    ensures
        r@ == byte_prefix(s@, max_bytes as int),
{
    take_bytes(s, max_bytes)
}

/// A text, or where it has many lines the first and the last of them.
pub open spec fn preview(s: Seq<char>) -> Seq<char> {
    let lines = lines_from(s, 0);
    if lines.len() <= PREVIEW_HEAD_LINES + PREVIEW_TAIL_LINES {
        s
    } else {
        join(lines.take(PREVIEW_HEAD_LINES as int), "\n"@)
            + "\n\n... [content truncated — full output cached, see below] ...\n\n"@ + join(
            lines.skip(lines.len() - PREVIEW_TAIL_LINES),
            "\n"@,
        )
    }
}

/// The lines from `from` to before `to`, joined.
fn join_range(lines: &Vec<String>, from: usize, to: usize) -> (r: String)
    requires
        from <= to <= lines@.len(),
    ensures
        r@ == join(texts(lines@).subrange(from as int, to as int), "\n"@),
{
    let mut part: Vec<String> = Vec::new();
    let mut i: usize = from;
    while i < to
        invariant
            from <= i <= to <= lines@.len(),
            part@.len() == i - from,
            forall|j: int| 0 <= j < i - from ==> (#[trigger] part@[j])@ == lines@[from + j]@,
        decreases to - i,
    {
        part.push(lines[i].clone());
        i = i + 1;
    }
    assert(texts(part@) =~= texts(lines@).subrange(from as int, to as int));
    join_strings(&part, "\n")
}

/// A text, or where it has many lines the first and the last of them.
pub fn make_preview(text: &str) -> (r: String)
    ensures
        r@ == preview(text@),
{
    let lines = split_lines(text);
    if lines.len() <= PREVIEW_HEAD_LINES + PREVIEW_TAIL_LINES {
        return owned(text);
    }
    let mut m = join_range(&lines, 0, PREVIEW_HEAD_LINES);
    m.append("\n\n... [content truncated — full output cached, see below] ...\n\n");
    m.append(join_range(&lines, lines.len() - PREVIEW_TAIL_LINES, lines.len()).as_str());
    proof {
        let lv = texts(lines@);
        assert(lv.subrange(0, PREVIEW_HEAD_LINES as int) =~= lv.take(PREVIEW_HEAD_LINES as int));
        assert(lv.subrange(lv.len() - PREVIEW_TAIL_LINES, lv.len() as int) =~= lv.skip(
            lv.len() - PREVIEW_TAIL_LINES,
        ));
    }
    m
}

/// Whether a text is too large to be returned whole.
pub fn needs_cache(content: &str) -> (r: bool)
    ensures
        r == (size_of_text(content@) > CACHE_THRESHOLD_BYTES),
{
    byte_count(content) > CACHE_THRESHOLD_BYTES
}

/// What is returned of a text that was put into a file.
pub open spec fn cached(content: Seq<char>, path: Seq<char>) -> Seq<char> {
    byte_prefix(preview(content), PREVIEW_BYTES as int) + "\n\n[Full content ("@ + dec(
        size_of_text(content),
    ) + " bytes) saved to: "@ + path + " — use read_file or grep to browse it.]"@
}

/// What is returned of a text that was put into a file.
pub fn cached_preview(content: &str, path: &str) -> (r: String)
    ensures
        r@ == cached(content@, path@),
{
    let p = make_preview(content);
    let mut m = take_bytes(p.as_str(), PREVIEW_BYTES);
    m.append("\n\n[Full content (");
    m.append(dec_text(byte_count(content) as u64).as_str());
    m.append(" bytes) saved to: ");
    m.append(path);
    m.append(" — use read_file or grep to browse it.]");
    m
}

/// What is returned of a text: all of it where it is small, else a preview and the path of the
/// file that it was put into. `stored` tells how writing that file came out; it is looked at
/// only where the text needs one.
pub fn maybe_cache_large(content: String, stored: Result<&str, &str>) -> (r: Result<
    String,
    String,
>)
    ensures
        ({
            let large = size_of_text(content@) > CACHE_THRESHOLD_BYTES;
            match stored {
                _ if !large => r == Ok::<String, String>(content),
                Ok(path) => r matches Ok(t) && t@ == cached(content@, path@),
                Err(e) => r matches Err(m) && m@ == e@,
            }
        }),
{
    if !needs_cache(content.as_str()) {
        return Ok(content);
    }
    match stored {
        Ok(path) => Ok(cached_preview(content.as_str(), path)),
        Err(e) => Err(owned(e)),
    }
}

/// Fetches web pages.
#[derive(Clone, Copy, Debug)]
pub struct WebFetchTool;

/// A page to fetch.
#[derive(Debug)]
pub struct FetchPlan {
    pub url: String,
    pub format: String,
    pub timeout_secs: u64,
}

/// Why the arguments are refused, where they are: no URL, one that is not for the web, or an
/// unknown format, in this order.
pub open spec fn fetch_refused(args: JsonV) -> Option<Seq<char>> {
    match args.str_at("url"@) {
        None => Some("Fetch failed: missing 'url' parameter"@),
        Some(u) => {
            let f = args.str_or("format"@, "markdown"@);
            if !starts_with(u, "http://"@) && !starts_with(u, "https://"@) {
                Some(
                    "Fetch failed: URL must start with http:// or https:// (got '"@ + u + "')"@,
                )
            } else if f != "markdown"@ && f != "text"@ && f != "html"@ {
                Some(
                    "Fetch failed: invalid format '"@ + f
                        + "' — must be 'markdown', 'text', or 'html'"@,
                )
            } else {
                None
            }
        },
    }
}

/// What a page is returned as: its source and its content, with its title where the content
/// says little.
pub open spec fn page_report(
    url: Seq<char>,
    raw: Seq<char>,
    content_type: Seq<char>,
    format: Seq<char>,
) -> Seq<char> {
    let content = converted(byte_prefix(raw, MAX_RESPONSE_BYTES as int), content_type, format);
    if raw.len() == 0 {
        "Fetched "@ + url + " — empty response body."@
    } else if trim(content).len() == 0 || size_of_text(content) < 20 {
        "Source: "@ + url + "\n\n"@ + (match page_title(raw) {
            Some(t) => "[Title: "@ + t + "]\n"@,
            None => Seq::empty(),
        } + content)
    } else {
        "Source: "@ + url + "\n\n"@ + content
    }
}

pub open spec fn fetch_parameters() -> JsonV {
    obj3_v(
        "type"@,
        JsonV::Str("object"@),
        "properties"@,
        obj3_v(
            "url"@,
            param_v("string"@, "The HTTP or HTTPS URL to fetch content from."@),
            "format"@,
            JsonV::Object(
                seq![
                    ("type"@, JsonV::Str("string"@)),
                    ("enum"@, text_array_v(seq!["markdown"@, "text"@, "html"@])),
                    ("default"@, JsonV::Str("markdown"@)),
                    (
                        "description"@,
                        JsonV::Str(
                            "Output format: 'markdown' (default, HTML→Markdown), 'text' (HTML→plain text), or 'html' (raw HTML)."@,
                        ),
                    ),
                ],
            ),
            "timeout"@,
            JsonV::Object(
                seq![
                    ("type"@, JsonV::Str("number"@)),
                    ("minimum"@, JsonV::Int(1)),
                    ("maximum"@, JsonV::Int(120)),
                    (
                        "description"@,
                        JsonV::Str("Optional timeout in seconds (max: 120). Defaults to 30."@),
                    ),
                ],
            ),
        ),
        "required"@,
        text_array_v(seq!["url"@]),
    )
}

impl WebFetchTool {
    pub fn new() -> (r: WebFetchTool)
        ensures
            r == WebFetchTool,
    {
        WebFetchTool
    }

    /// The page that the arguments ask for, unless they are refused.
    pub fn plan(&self, args: &Json) -> (r: Result<FetchPlan, String>)
        ensures
            match r {
                Ok(p) => fetch_refused(args@) is None && Some(p.url@) == args@.str_at("url"@)
                    && p.format@ == args@.str_or("format"@, "markdown"@) && p.timeout_secs == (
                match args@.at("timeout"@).as_u64() {
                    Some(n) => n,
                    None => DEFAULT_TIMEOUT_SECS,
                }),
                Err(e) => fetch_refused(args@) == Some(e@),
            },
    {
        let url = match args.str_at("url") {
            Some(u) => u,
            None => return Err(owned("Fetch failed: missing 'url' parameter")),
        };
        if !starts_with_str(url, "http://") && !starts_with_str(url, "https://") {
            let mut e = concat(
                "Fetch failed: URL must start with http:// or https:// (got '",
                url,
            );
            e.append("')");
            return Err(e);
        }
        let format = args.str_or("format", "markdown");
        if !same(format, "markdown") && !same(format, "text") && !same(format, "html") {
            let mut e = concat("Fetch failed: invalid format '", format);
            e.append("' — must be 'markdown', 'text', or 'html'");
            return Err(e);
        }
        let timeout_secs: u64 = match args.get("timeout") {
            Some(v) => match v.as_u64() {
                Some(n) => n,
                None => DEFAULT_TIMEOUT_SECS,
            },
            None => DEFAULT_TIMEOUT_SECS,
        };
        Ok(FetchPlan { url: owned(url), format: owned(format), timeout_secs })
    }

    /// Whether a response is accepted: by its status, given in words, its declared length and
    /// its content type, in this order.
    pub fn accept(
        &self,
        plan: &FetchPlan,
        success: bool,
        status: &str,
        length: Option<u64>,
        content_type: &str,
    ) -> (r: Result<(), String>)
        ensures
            ({
                let m = mime(content_type@);
                let too_long = length matches Some(n) && n > MAX_RESPONSE_BYTES;
                match r {
                    Ok(_) => success && !too_long && !is_image(m) && is_textual(m),
                    Err(e) => if !success {
                        e@ == "Fetch failed: HTTP "@ + status@ + " for "@ + plan.url@
                    } else if too_long {
                        e@ == "Fetch failed: declared content length ("@ + dec(
                            length.unwrap() as int,
                        ) + " bytes) exceeds max "@ + dec(MAX_RESPONSE_BYTES as int)
                    } else if is_image(m) {
                        e@ == "Fetch failed: unsupported image content type: "@ + m
                    } else {
                        !is_textual(m) && e@
                            == "Fetch failed: unsupported fetched file content type: "@ + m
                    },
                }
            }),
    {
        if !success {
            let mut e = concat("Fetch failed: HTTP ", status);
            e.append(" for ");
            e.append(plan.url.as_str());
            return Err(e);
        }
        if let Some(n) = length {
            if n > MAX_RESPONSE_BYTES as u64 {
                let mut e = concat(
                    "Fetch failed: declared content length (",
                    dec_text(n).as_str(),
                );
                e.append(" bytes) exceeds max ");
                e.append(dec_text(MAX_RESPONSE_BYTES as u64).as_str());
                return Err(e);
            }
        }
        let m = mime_from(content_type);
        if is_image_mime(m.as_str()) {
            return Err(concat("Fetch failed: unsupported image content type: ", m.as_str()));
        }
        if !is_textual_mime(m.as_str()) {
            return Err(
                concat("Fetch failed: unsupported fetched file content type: ", m.as_str()),
            );
        }
        Ok(())
    }

    /// What a page is returned as. A page that cannot be turned into Markdown is an error.
    pub fn render(&self, plan: &FetchPlan, raw_body: &str, content_type: &str) -> (r: Result<
        String,
        String,
    >)
        ensures
            ({
                let done = raw_body@.len() == 0 || can_convert(
                    byte_prefix(raw_body@, MAX_RESPONSE_BYTES as int),
                    content_type@,
                    plan.format@,
                );
                match r {
                    Ok(s) => done && s@ == page_report(
                        plan.url@,
                        raw_body@,
                        content_type@,
                        plan.format@,
                    ),
                    Err(e) => !done && e@
                        == "Fetch failed: the page cannot be converted to markdown"@,
                }
            }),
    {
        if to_chars(raw_body).len() == 0 {
            let mut m = concat("Fetched ", plan.url.as_str());
            m.append(" — empty response body.");
            return Ok(m);
        }
        let capped = cap_bytes(raw_body, MAX_RESPONSE_BYTES);
        let content = match convert_content(capped.as_str(), content_type, plan.format.as_str()) {
            Ok(c) => c,
            Err(e) => return Err(e),
        };
        let mut m = concat("Source: ", plan.url.as_str());
        m.append("\n\n");
        let bare = trim_str(content.as_str());
        if to_chars(bare.as_str()).len() == 0 || byte_count(content.as_str()) < 20 {
            let mut s = String::new();
            assert(s@ =~= Seq::empty());
            if let Some(t) = extract_title(raw_body) {
                s.append("[Title: ");
                assert(s@ =~= "[Title: "@);
                s.append(t.as_str());
                s.append("]\n");
            }
            s.append(content.as_str());
            m.append(s.as_str());
        } else {
            m.append(content.as_str());
        }
        Ok(m)
    }
}

impl Tool for WebFetchTool {
    fn name(&self) -> (r: &str)
        ensures
            r@ == "web_fetch"@,
    {
        "web_fetch"
    }

    fn description(&self) -> (r: &str)
        ensures
            r@ == "Fetch content from an HTTP or HTTPS URL and return it as text, markdown (default), or HTML. When the response is large (>32 KiB), the full content is cached to a temp file under /tmp/gladiator-webfetch/ and only a preview is returned — use read_file or grep on that path to browse the complete output."@,
    {
        "Fetch content from an HTTP or HTTPS URL and return it as text, markdown (default), or HTML. When the response is large (>32 KiB), the full content is cached to a temp file under /tmp/gladiator-webfetch/ and only a preview is returned — use read_file or grep on that path to browse the complete output."
    }

    fn parameters(&self) -> (r: Json)
        ensures
            r@ == fetch_parameters(),
    {
        let mut f: Vec<(String, Json)> = Vec::new();
        push_field(&mut f, "type", Json::text("string"));
        push_field(&mut f, "enum", text_array3("markdown", "text", "html"));
        push_field(&mut f, "default", Json::text("markdown"));
        push_field(
            &mut f,
            "description",
            Json::text(
                "Output format: 'markdown' (default, HTML→Markdown), 'text' (HTML→plain text), or 'html' (raw HTML).",
            ),
        );
        let mut t: Vec<(String, Json)> = Vec::new();
        push_field(&mut t, "type", Json::text("number"));
        push_field(&mut t, "minimum", Json::UInt(1));
        push_field(&mut t, "maximum", Json::UInt(120));
        push_field(
            &mut t,
            "description",
            Json::text("Optional timeout in seconds (max: 120). Defaults to 30."),
        );
        proof {
            let props = fetch_parameters()->Object_0[1].1->Object_0;
            assert(fields(f@) =~= props[1].1->Object_0);
            assert(fields(t@) =~= props[2].1->Object_0);
        }
        schema(
            obj3(
                "url",
                param("string", "The HTTP or HTTPS URL to fetch content from."),
                "format",
                object_of(f),
                "timeout",
                object_of(t),
            ),
            text_array1("url"),
        )
    }
}

/// What is returned of a large page is bounded, whatever the page: its preview takes no more
/// bytes than its limit.
pub proof fn lemma_preview_is_bounded(content: Seq<char>)
    ensures
        byte_len(byte_prefix(preview(content), PREVIEW_BYTES as int)) <= PREVIEW_BYTES,
{
    crate::bytes::lemma_byte_prefix(preview(content), PREVIEW_BYTES as int);
}

} // verus!
