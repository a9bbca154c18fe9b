//! What the tools let through, hand back and leave out.

use crate::bash_tool::{asked_timeout, command_report, danger_from, refused};
use crate::bash_tool::{DEFAULT_TIMEOUT_MS, MAX_TIMEOUT_MS};
use crate::bytes::{byte_len, byte_prefix, lemma_byte_prefix};
use crate::file_tools::{line_range, named_path, size_of_text, MAX_READ_SIZE, MAX_WRITE_SIZE};
use crate::json::JsonV;
use crate::text::{contains, dec, ends_with, is_space, join, lines_from, lowercase, signed_dec};
use crate::patterns::{filled, number_of, numbered_char, regex_group, regex_problem};
use crate::patterns::{regex_replaced, replaced_by};
use crate::text::{find_from, lemma_find_from, replaced_from, starts_with, trim};
use crate::text_laws::{lemma_numeral, lemma_trimmed};
use crate::web_fetch::{
    accepted, cached, collapsed, converted, fetch_refused, is_image, is_textual, mime,
    named_decoded, numbers_decoded, page_report, page_text, page_title, preview, strip_char, strip_end_char,
    strip_start_char, without_scripts,
};
use crate::web_fetch::{
    html_markdown, CACHE_THRESHOLD_BYTES, MAX_RESPONSE_BYTES, MAX_TIMEOUT_SECS, PREVIEW_BYTES,
};
use vstd::prelude::*;

verus! {

/// The limits: a file of up to 1 MiB is read, up to 10 MiB written, a command runs for two
/// minutes unless asked otherwise and for ten at most, up to 5 MiB of a page are taken, a fetch
/// waits for two minutes at most, and a page above 32 KiB is shown by a preview of up to 24 KiB.
pub proof fn lemma_limits()
    ensures
        MAX_READ_SIZE == 1024 * 1024,
        MAX_WRITE_SIZE == 10 * 1024 * 1024,
        DEFAULT_TIMEOUT_MS == 2 * 60 * 1000,
        MAX_TIMEOUT_MS == 10 * 60 * 1000,
        MAX_RESPONSE_BYTES == 5 * 1024 * 1024,
        MAX_TIMEOUT_SECS == 2 * 60,
        CACHE_THRESHOLD_BYTES == 32 * 1024,
        PREVIEW_BYTES == 24 * 1024,
{
}

// ---- files

/// The text under a key.
pub open spec fn text_under(v: JsonV, k: Seq<char>) -> Option<Seq<char>> {
    match v.get(k) {
        Some(JsonV::Str(s)) => Some(s),
        _ => None,
    }
}

/// A path that is absolute, or begins at the home directory, is taken as it is; every other
/// stands below the working directory, and where that is the current one, below it.
pub proof fn lemma_paths(
    args: JsonV,
    key: Seq<char>,
    dir: Seq<char>,
    cwd: Result<Seq<char>, Seq<char>>,
)
    ensures
        match text_under(args, key) {
            None => named_path(args, key, dir, cwd) is Err,
            Some(p) => if p.len() > 0 && (p[0] == '/' || p[0] == '~') {
                named_path(args, key, dir, cwd) == Ok::<Seq<char>, Seq<char>>(p)
            } else if dir != "."@ {
                named_path(args, key, dir, cwd) == Ok::<Seq<char>, Seq<char>>(dir + seq!['/'] + p)
            } else {
                match cwd {
                    Ok(d) => named_path(args, key, dir, cwd) == Ok::<Seq<char>, Seq<char>>(
                        d + seq!['/'] + p,
                    ),
                    Err(_) => named_path(args, key, dir, cwd) is Err,
                }
            },
        },
{
    reveal_strlit("/");
    reveal_strlit("~");
    assert("/"@ =~= seq!['/']);
    assert("~"@ =~= seq!['~']);
    if let Some(p) = text_under(args, key) {
        if p.len() > 0 {
            assert(p.subrange(0, 1) =~= seq![p[0]]);
            assert(seq![p[0]][0] == p[0]);
            assert(starts_with(p, "/"@) <==> p[0] == '/');
            assert(starts_with(p, "~"@) <==> p[0] == '~');
        }
    }
}

/// The whole number under a key.
pub open spec fn number_under(v: JsonV, k: Seq<char>) -> Option<int> {
    match v.get(k) {
        Some(JsonV::Int(n)) => if 0 <= n <= u64::MAX {
            Some(n)
        } else {
            None
        },
        _ => None,
    }
}

/// Without an offset a file is read from its first line on, with one from that line on, counted
/// from 1, or from the last where the file is shorter; without a limit to its end, with one so
/// many lines at most.
pub proof fn lemma_lines_asked_for(args: JsonV, total: int)
    requires
        0 <= total,
        number_under(args, "offset"@) matches Some(n) ==> n <= usize::MAX,
        number_under(args, "limit"@) matches Some(n) ==> n <= usize::MAX,
    ensures
        ({
            let (start, end) = line_range(args, total);
            &&& 0 <= start <= end <= total
            &&& number_under(args, "offset"@) is None ==> start == 0
            &&& number_under(args, "offset"@) == Some(0int) ==> start == 0
            &&& number_under(args, "offset"@) matches Some(n) ==> 1 <= n <= total ==> start == n - 1
            &&& number_under(args, "offset"@) matches Some(n) ==> n > total > 0 ==> start == total
                - 1
            &&& number_under(args, "limit"@) is None ==> end == total
            &&& number_under(args, "limit"@) matches Some(n) ==> end - start == if n < total
                - start {
                n
            } else {
                total - start
            }
        }),
{
}

/// The size of a text is that of its bytes, where a machine can count them.
pub proof fn lemma_size(s: Seq<char>)
    requires
        byte_len(s) <= usize::MAX,
    ensures
        size_of_text(s) == byte_len(s),
{
    lemma_byte_prefix(s, usize::MAX as int);
}

// ---- commands

/// A command that contains what wipes a disk or takes a machine down is refused, and for that
/// reason; every other that says something is run, where its timeout is within the bounds.
pub proof fn lemma_what_is_refused(args: JsonV)
    ensures
        ({
            let wait = match number_under(args, "timeout"@) {
                Some(n) => n,
                None => 120_000,
            };
            match text_under(args, "command"@) {
                None => refused(args) is Some,
                Some(c) => refused(args) is None <==> {
                    &&& exists|i: int| 0 <= i < c.len() && !is_space(#[trigger] c[i])
                    &&& !contains(c, "rm -rf /"@)
                    &&& !contains(c, "sudo rm"@)
                    &&& !contains(c, ":(){ :|:& };:"@)
                    &&& !contains(c, "chmod -R 777 /"@)
                    &&& !contains(c, "dd if="@)
                    &&& 0 < wait <= 600_000
                },
            }
        }),
{
    reveal_with_fuel(danger_from, 6);
    if let Some(c) = text_under(args, "command"@) {
        lemma_trimmed(c);
        if trim(c).len() > 0 {
            let (a, b) = choose|a: int, b: int|
                0 <= a <= b <= c.len() && trim(c) == #[trigger] c.subrange(a, b) && (forall|i: int|
                    0 <= i < c.len() && (i < a || b <= i) ==> is_space(#[trigger] c[i]));
            assert(trim(c)[0] == c[a]);
        } else {
            let (a, b) = choose|a: int, b: int|
                0 <= a <= b <= c.len() && trim(c) == #[trigger] c.subrange(a, b) && (forall|i: int|
                    0 <= i < c.len() && (i < a || b <= i) ==> is_space(#[trigger] c[i]));
            assert(a == b);
        }
    }
}

/// A command waits as long as it is asked to, and two minutes where nothing is said.
pub proof fn lemma_waiting(args: JsonV)
    ensures
        asked_timeout(args) as int == match number_under(args, "timeout"@) {
            Some(n) => n,
            None => 120_000,
        },
{
}

/// The report of a command begins with the command and its exit code, goes on with all that it
/// wrote, and ends with what it complained of, where it did.
pub proof fn lemma_command_reported(command: Seq<char>, code: int, out: Seq<char>, err: Seq<char>)
    ensures
        ({
            let r = command_report(command, code, out, err);
            let head = "Command: "@ + command + "\nExit code: "@ + signed_dec(code)
                + "\nSTDOUT:\n"@ + out;
            &&& r.take(head.len() as int) == head
            &&& err.len() == 0 ==> r == head
            &&& err.len() > 0 ==> r == head + "\nSTDERR:\n"@ + err
        }),
{
    let head = "Command: "@ + command + "\nExit code: "@ + signed_dec(code) + "\nSTDOUT:\n"@ + out;
    let r = command_report(command, code, out, err);
    assert(r.take(head.len() as int) =~= head);
    if err.len() == 0 {
        assert(r =~= head);
    } else {
        assert(r =~= head + "\nSTDERR:\n"@ + err);
    }
}

// ---- pages

/// A page is fetched only from the web, and only into a format that is known.
pub proof fn lemma_what_is_not_fetched(args: JsonV)
    ensures
        fetch_refused(args) is None <==> {
            &&& text_under(args, "url"@) matches Some(u) && (starts_with(u, "http://"@)
                || starts_with(u, "https://"@))
            &&& text_under(args, "format"@) matches Some(f) ==> f == "markdown"@ || f == "text"@ || f
                == "html"@
        },
{
}

/// The type of a content is what stands before its parameters, without white space, in
/// lowercase.
pub proof fn lemma_mime(kind: Seq<char>, parameters: Seq<char>)
    requires
        !kind.contains(';'),
    ensures
        mime(kind) == lowercase(trim(kind)),
        mime(kind + seq![';'] + parameters) == lowercase(trim(kind)),
{
    reveal_strlit(";");
    let s = kind + seq![';'] + parameters;
    let p = kind.len() as int;
    lemma_find_from(kind, ";"@, 0);
    lemma_find_from(s, ";"@, 0);
    if let Some(q) = find_from(kind, ";"@, 0) {
        assert(kind.subrange(q, q + 1)[0] == ';');
        assert(kind[q] == ';');
    }
    assert(s.subrange(p, p + 1) =~= ";"@);
    assert(crate::text::is_at(s, ";"@, p));
    if let Some(q) = find_from(s, ";"@, 0) {
        if q < p {
            assert(s.subrange(q, q + 1)[0] == ';');
            assert(kind[q] == ';');
        }
    }
    assert(s.take(p) =~= kind);
}

/// What reads as text: text of any kind, JSON, XML and scripts, and what says nothing of itself.
/// An image is none, unless it is written as text.
pub proof fn lemma_what_is_text(m: Seq<char>)
    ensures
        is_textual(m) <==> m.len() == 0 || starts_with(m, "text/"@) || m == "application/json"@
            || ends_with(m, "+json"@) || m == "application/xml"@ || ends_with(m, "+xml"@) || m
            == "application/javascript"@ || m == "application/x-javascript"@,
        is_image(m) <==> starts_with(m, "image/"@) && !contains(m, "svg"@),
{
}

/// What is no web page comes back as it is, and so does one that is wanted as HTML.
pub proof fn lemma_what_is_not_converted(raw: Seq<char>, kind: Seq<char>, format: Seq<char>)
    requires
        format == "html"@ || (!contains(kind, "text/html"@) && !starts_with(
            mime(kind),
            "application/xhtml"@,
        )),
    ensures
        converted(raw, kind, format) == raw,
{
    reveal_strlit("html");
    reveal_strlit("text");
    assert("html"@[0] == 'h' && "text"@[0] == 't');
}

/// A web page without scripts and styles is what its Markdown or its text is made of.
pub proof fn lemma_what_is_converted(a: Seq<char>, b: Seq<char>, kind: Seq<char>, format: Seq<char>)
    requires
        contains(kind, "text/html"@) || starts_with(mime(kind), "application/xhtml"@),
        format != "html"@,
        without_scripts(a) == without_scripts(b),
    ensures
        converted(a, kind, format) == converted(b, kind, format),
        format == "text"@ ==> converted(a, kind, format) == page_text(a),
        format != "text"@ ==> converted(a, kind, format) == trim(html_markdown(without_scripts(a))),
{
}

/// A text of up to 150 lines is shown whole; of a longer one the first 100 lines are shown and
/// the last 50.
pub proof fn lemma_previewed(s: Seq<char>)
    ensures
        ({
            let lines = lines_from(s, 0);
            &&& lines.len() <= 150 ==> preview(s) == s
            &&& lines.len() > 150 ==> preview(s) == join(lines.subrange(0, 100), "\n"@)
                + "\n\n... [content truncated — full output cached, see below] ...\n\n"@ + join(
                lines.subrange(lines.len() - 50, lines.len() as int),
                "\n"@,
            )
        }),
{
    let lines = lines_from(s, 0);
    if lines.len() > 150 {
        assert(lines.subrange(0, 100) =~= lines.take(100));
        assert(lines.subrange(lines.len() - 50, lines.len() as int) =~= lines.skip(
            lines.len() - 50,
        ));
    }
}

/// A page that was put into a file is answered with the beginning of its preview, up to 24 KiB,
/// its size, and the file.
pub proof fn lemma_cached(content: Seq<char>, path: Seq<char>)
    ensures
        exists|head: Seq<char>| #[trigger]
            head.is_prefix_of(preview(content)) && byte_len(head) <= 24 * 1024 && (byte_len(
                preview(content),
            ) <= 24 * 1024 ==> head == preview(content)) && cached(content, path) == head
                + "\n\n[Full content ("@ + dec(size_of_text(content)) + " bytes) saved to: "@ + path
                + " — use read_file or grep to browse it.]"@,
{
    let head = byte_prefix(preview(content), PREVIEW_BYTES as int);
    lemma_byte_prefix(preview(content), PREVIEW_BYTES as int);
    assert(head.is_prefix_of(preview(content)));
}

/// A page is answered with its address and its content; where the content is empty or shorter
/// than 20 bytes, with its title before it.
pub proof fn lemma_page_reported(url: Seq<char>, raw: Seq<char>, kind: Seq<char>, format: Seq<char>)
    requires
        byte_len(raw) <= 5 * 1024 * 1024,
        raw.len() > 0,
    ensures
        ({
            let content = converted(raw, kind, format);
            let little = trim(content).len() == 0 || size_of_text(content) < 20;
            page_report(url, raw, kind, format) == "Source: "@ + url + "\n\n"@ + if little {
                match page_title(raw) {
                    Some(t) => "[Title: "@ + t + "]\n"@ + content,
                    None => content,
                }
            } else {
                content
            }
        }),
{
    lemma_byte_prefix(raw, MAX_RESPONSE_BYTES as int);
    let content = converted(raw, kind, format);
    assert(Seq::<char>::empty() + content =~= content);
}

/// A character is taken from both ends of a text as often as it stands there, and nothing else.
pub proof fn lemma_stripped(s: Seq<char>, c: char)
    ensures
        ({
            let t = strip_char(s, c);
            &&& t.len() > 0 ==> t[0] != c && t.last() != c
            &&& exists|a: int, b: int|
                0 <= a <= b <= s.len() && t == #[trigger] s.subrange(a, b) && (forall|i: int|
                    0 <= i < s.len() && (i < a || b <= i) ==> #[trigger] s[i] == c)
        }),
{
    let a = lemma_stripped_start(s, c);
    let t = s.skip(a);
    let b = lemma_stripped_end(t, c);
    assert(t.take(b) =~= s.subrange(a, a + b));
    assert forall|i: int| 0 <= i < s.len() && (i < a || a + b <= i) implies #[trigger] s[i] == c by {
        if i >= a {
            assert(t[i - a] == s[i]);
        }
    }
    if strip_char(s, c).len() > 0 {
        assert(strip_char(s, c)[0] == s[a]);
        assert(strip_char(s, c).last() == t[b - 1]);
    }
}

proof fn lemma_stripped_start(s: Seq<char>, c: char) -> (a: int)
    ensures
        0 <= a <= s.len(),
        strip_start_char(s, c) == s.skip(a),
        forall|i: int| 0 <= i < a ==> #[trigger] s[i] == c,
        a < s.len() ==> s[a] != c,
    decreases s.len(),
{
    if s.len() > 0 && s[0] == c {
        let a = lemma_stripped_start(s.drop_first(), c);
        assert(s.drop_first().skip(a) =~= s.skip(a + 1));
        assert forall|i: int| 0 <= i < a + 1 implies #[trigger] s[i] == c by {
            if i > 0 {
                assert(s.drop_first()[i - 1] == s[i]);
            }
        }
        a + 1
    } else {
        assert(s.skip(0) =~= s);
        0
    }
}

proof fn lemma_stripped_end(s: Seq<char>, c: char) -> (b: int)
    ensures
        0 <= b <= s.len(),
        strip_end_char(s, c) == s.take(b),
        forall|i: int| b <= i < s.len() ==> #[trigger] s[i] == c,
        b > 0 ==> s[b - 1] != c,
    decreases s.len(),
{
    if s.len() > 0 && s.last() == c {
        let b = lemma_stripped_end(s.drop_last(), c);
        assert(s.drop_last().take(b) =~= s.take(b));
        assert forall|i: int| b <= i < s.len() implies #[trigger] s[i] == c by {
            if i < s.len() - 1 {
                assert(s.drop_last()[i] == s[i]);
            }
        }
        b
    } else {
        assert(s.take(s.len() as int) =~= s);
        s.len() as int
    }
}

// ---- character references

/// A number that is written in decimal reads as that number, and a character reference with it
/// stands for the character that has it.
pub proof fn lemma_decimal_reference(n: int)
    requires
        n >= 0,
    ensures
        number_of(dec(n), 10) == Some(n),
        n < 0xd800 || 0xe000 <= n <= 0x10ffff ==> numbered_char(dec(n)) == seq![n as char],
        0xd800 <= n < 0xe000 || n > 0x10ffff ==> numbered_char(dec(n)).len() == 0,
{
    lemma_decimal(n);
    lemma_numeral(n);
    assert('0' <= dec(n)[0] <= '9');
}

proof fn lemma_decimal(n: int)
    requires
        n >= 0,
    ensures
        number_of(dec(n), 10) == Some(n),
    decreases n,
{
    lemma_numeral(n);
    let s = dec(n);
    let k = s.len() - 1;
    assert('0' <= s[k] <= '9');
    if n < 10 {
        assert(s.drop_last() =~= Seq::empty());
        assert(s.last() as int == 48 + n);
        assert(number_of(Seq::<char>::empty(), 10) == Some(0int));
    } else {
        lemma_decimal(n / 10);
        assert(s.drop_last() =~= dec(n / 10));
        assert(s.last() as int == 48 + n % 10);
        assert((n / 10) * 10 + n % 10 == n);
    }
}

/// Behind an `x` a reference is written in sixteen digits, in either case.
pub proof fn lemma_hexadecimal_reference(s: Seq<char>, c: char, d: int)
    requires
        0 <= d < 16,
        c == 'x' || c == 'X',
    ensures
        ({
            let low = if d < 10 {
                (48 + d) as char
            } else {
                (87 + d) as char
            };
            let high = if d < 10 {
                (48 + d) as char
            } else {
                (55 + d) as char
            };
            &&& number_of(s, 16) matches Some(n) ==> number_of(s.push(low), 16) == Some(16 * n + d)
                && number_of(s.push(high), 16) == Some(16 * n + d)
            &&& number_of(Seq::empty(), 16) == Some(0int)
            &&& s.len() > 0 && (number_of(s, 16) matches Some(n) && (0 <= n < 0xd800 || 0xe000 <= n
                <= 0x10ffff)) ==> numbered_char(seq![c] + s) == seq![
                number_of(s, 16).unwrap() as char,
            ]
        }),
{
    let low = if d < 10 {
        (48 + d) as char
    } else {
        (87 + d) as char
    };
    let high = if d < 10 {
        (48 + d) as char
    } else {
        (55 + d) as char
    };
    assert(s.push(low).drop_last() =~= s);
    assert(s.push(high).drop_last() =~= s);
    let t = seq![c] + s;
    assert(t[0] == c);
    assert(t.skip(1) =~= s);
}

/// Between the references the text stays as it is.
pub proof fn lemma_references_filled(pieces: Seq<Seq<char>>, numbers: Seq<Seq<char>>, n: int)
    requires
        0 <= n < pieces.len(),
    ensures
        filled(pieces, numbers, 0).len() == 0,
        n < numbers.len() ==> filled(pieces, numbers, n + 1) == filled(pieces, numbers, n)
            + pieces[n] + numbered_char(numbers[n]),
        n >= numbers.len() ==> filled(pieces, numbers, n + 1) == filled(pieces, numbers, n)
            + pieces[n],
{
}

/// A text without references has none to decode.
pub proof fn lemma_no_named_references(s: Seq<char>)
    requires
        !s.contains('&'),
    ensures
        named_decoded(s) == s,
{
    reveal_strlit("&amp;");
    reveal_strlit("&lt;");
    reveal_strlit("&gt;");
    reveal_strlit("&quot;");
    reveal_strlit("&#39;");
    reveal_strlit("&nbsp;");
    lemma_not_there(s, "&amp;"@, "&"@);
    lemma_not_there(s, "&lt;"@, "<"@);
    lemma_not_there(s, "&gt;"@, ">"@);
    lemma_not_there(s, "&quot;"@, "\""@);
    lemma_not_there(s, "&#39;"@, "'"@);
    lemma_not_there(s, "&nbsp;"@, " "@);
}

proof fn lemma_not_there(s: Seq<char>, old: Seq<char>, new: Seq<char>)
    requires
        !s.contains('&'),
        old.len() > 0,
        old[0] == '&',
    ensures
        replaced_from(s, old, new, 0) == s,
{
    lemma_find_from(s, old, 0);
    if let Some(p) = find_from(s, old, 0) {
        assert(s.subrange(p, p + old.len())[0] == s[p]);
        assert(s[p] == '&');
    }
    assert(s.skip(0) =~= s);
}

/// Scripts and styles are taken out of a page before anything else is made of it, and the tags
/// after that; where a block ends a line does.
pub proof fn lemma_page_text_is_made_of(html: Seq<char>)
    requires
        regex_problem("(?is)<style[^>]*>.*?</style>"@) is None,
        regex_problem("(?is)<script[^>]*>.*?</script>"@) is None,
        regex_problem(r"(?i)</(p|div|li|h[1-6]|tr|br\s*/?)>"@) is None,
        regex_problem(r"<[^>]+>"@) is None,
    ensures
        ({
            let clean = regex_replaced(
                "(?is)<style[^>]*>.*?</style>"@,
                regex_replaced("(?is)<script[^>]*>.*?</script>"@, html, ""@),
                ""@,
            );
            let ended = regex_replaced(
                r"(?i)</(p|div|li|h[1-6]|tr|br\s*/?)>"@,
                clean,
                "\n"@,
            );
            &&& without_scripts(html) == clean
            &&& page_text(html) == collapsed(regex_replaced(r"<[^>]+>"@, ended, ""@))
        }),
{
}

/// Collapsed text neither begins nor ends with a line break.
pub proof fn lemma_collapsed_ends(s: Seq<char>)
    ensures
        collapsed(s).len() > 0 ==> collapsed(s)[0] != '\n' && collapsed(s).last() != '\n',
{
    let t = numbers_decoded(named_decoded(s));
    let t = replaced_by(r"\n{3,}"@, t, "\n\n"@);
    let t = replaced_by(r"[ \t]+"@, strip_char(t, ' '), " "@);
    lemma_stripped(join(lines_from(t, 0).map_values(|l: Seq<char>| trim(l)), "\n"@), '\n');
}

/// The title of a page is what its title tag holds, without white space around it; an empty one
/// is none.
pub proof fn lemma_title(html: Seq<char>)
    requires
        regex_problem(r"(?is)<title[^>]*>(.*?)</title>"@) is None,
    ensures
        match regex_group(r"(?is)<title[^>]*>(.*?)</title>"@, html) {
            Some(t) => page_title(html) == if trim(t).len() > 0 {
                Some(trim(t))
            } else {
                None
            },
            None => page_title(html) is None,
        },
{
}

/// A page is asked for first of all in the format that is wanted.
pub proof fn lemma_accept(format: Seq<char>)
    ensures
        format == "markdown"@ ==> accepted(format)
            == "text/markdown;q=1.0, text/x-markdown;q=0.9, text/plain;q=0.8, text/html;q=0.7, */*;q=0.1"@,
        format == "text"@ ==> accepted(format)
            == "text/plain;q=1.0, text/markdown;q=0.9, text/html;q=0.8, */*;q=0.1"@,
        format != "markdown"@ && format != "text"@ ==> accepted(format)
            == "text/html;q=1.0, application/xhtml+xml;q=0.9, text/plain;q=0.8, text/markdown;q=0.7, */*;q=0.1"@,
{
    reveal_strlit("markdown");
    reveal_strlit("text");
    assert("markdown"@.len() == 8 && "text"@.len() == 4);
}

} // verus!
