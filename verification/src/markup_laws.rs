//! Which pages are turned into Markdown.

use crate::markup::{
    convertible, has_mark, in_list, scanned, table_count, Mode, OutlineV, Reach, ScanV,
};
use crate::text::ascii_lower;
use vstd::prelude::*;

verus! {

proof fn lemma_tables_left(s: OutlineV)
    ensures
        s.leave_tables().refused == s.refused,
    decreases s.open.len(),
{
    if let Some(t) = s.bare_table() {
        if 0 <= t < s.open.len() && s.leave(t).open.len() < s.open.len() {
            lemma_tables_left(s.leave(t));
        }
    }
}

/// No end tag makes a page one that cannot be converted.
pub proof fn lemma_end_tags_are_taken(s: OutlineV, name: Seq<char>)
    ensures
        s.end(name).refused == s.refused,
{
}

proof fn lemma_plain_start(s: OutlineV, name: Seq<char>, closed: bool)
    requires
        !s.refused,
        name != "li"@,
    ensures
        !s.start_plain(name, closed).refused,
{
    lemma_tables_left(s);
}

/// Whether the page is read as it stands: nothing refused, no template or drawing open, and no
/// doubt about what is open.
pub open spec fn plain(s: OutlineV) -> bool {
    !s.refused && !s.inert() && !s.lost && !s.drawn()
}

/// On a page that is read as it stands, a start tag is refused only where more than 256 elements
/// or more than six tables would be open, where it is an item in no list while a mark may be open,
/// or where it is one that the converter cannot take.
pub proof fn lemma_start_tags_are_taken(s: OutlineV, name: Seq<char>, closed: bool)
    requires
        plain(s),
        name != "li"@,
        name != "selectedcontent"@,
    ensures
        s.start(name, closed).refused <==> s.start(name, closed).open.len() > 256 || table_count(
            s.start(name, closed).open,
        ) > 6,
{
    lemma_plain_start(s, name, closed);
}

/// An item in no list is refused while a mark is open, and taken where none is.
pub proof fn lemma_items(s: OutlineV)
    requires
        plain(s),
        s.open.len() < 256,
        s.find_kin("li"@, Reach::Near) is None,
        s.find("p"@, Reach::Button) is None,
        s.find("p?"@, Reach::Button) is None,
        table_count(s.open) <= 6,
    ensures
        s.start("li"@, false).refused <==> has_mark(s.open) && !in_list(s.open),
{
    reveal_strlit("li");
    reveal_strlit("selectedcontent");
    reveal_strlit("table");
    assert("li"@.len() == 2 && "selectedcontent"@.len() == 15 && "table"@.len() == 5);
    assert(s.close_p() == s);
    let r = s.push("li"@);
    assert(r.open.drop_last() =~= s.open);
    assert(table_count(r.open) == table_count(s.open));
}

// ---- reading tags

proof fn lemma_reading_goes_on(a: Seq<char>, b: Seq<char>, n: int)
    requires
        0 <= n <= a.len(),
    ensures
        scanned(a + b, n) == scanned(a, n),
    decreases n,
{
    if n > 0 {
        lemma_reading_goes_on(a, b, n - 1);
        assert((a + b)[n - 1] == a[n - 1]);
    }
}

proof fn lemma_one_more(s: Seq<char>, c: char)
    ensures
        scanned(s.push(c), s.len() as int + 1) == scanned(s, s.len() as int).step(c),
{
    lemma_reading_goes_on(s, seq![c], s.len() as int);
    assert(s + seq![c] =~= s.push(c));
}

/// Whether the text is a name in small letters.
pub open spec fn small(name: Seq<char>) -> bool {
    name.len() > 0 && forall|i: int| 0 <= i < name.len() ==> 'a' <= #[trigger] name[i] <= 'z'
}

proof fn lemma_name_is_read(s: Seq<char>, name: Seq<char>, before: ScanV, ends: bool)
    requires
        small(name),
        scanned(s, s.len() as int) == before,
        before.mode == (if ends {
            Mode::Close
        } else {
            Mode::Open
        }),
    ensures
        scanned(s + name, (s + name).len() as int) == (ScanV {
            mode: Mode::Name,
            ends,
            slash: false,
            name,
            ..before
        }),
    decreases name.len(),
{
    let last = name.last();
    let rest = name.drop_last();
    assert(name[name.len() - 1] == last);
    assert(ascii_lower(last) == last);
    assert(s + name =~= (s + rest).push(last));
    lemma_one_more(s + rest, last);
    if rest.len() == 0 {
        assert(s + rest =~= s);
        assert(name =~= seq![last]);
    } else {
        assert(small(rest)) by {
            assert forall|i: int| 0 <= i < rest.len() implies 'a' <= #[trigger] rest[i] <= 'z' by {
                assert(rest[i] == name[i]);
            }
        }
        lemma_name_is_read(s, rest, before, ends);
        assert(rest.push(last) =~= name);
    }
}

proof fn lemma_start_is_read(s: Seq<char>, name: Seq<char>)
    requires
        small(name),
        scanned(s, s.len() as int).mode == Mode::Text,
    ensures
        ({
            let open = s + seq!['<'] + name + seq!['>'];
            scanned(open, open.len() as int).page == scanned(s, s.len() as int).page.start(
                name,
                false,
            )
        }),
{
    let a = s.push('<');
    lemma_one_more(s, '<');
    lemma_name_is_read(a, name, scanned(s, s.len() as int).to(Mode::Open), false);
    let b = a + name;
    lemma_one_more(b, '>');
    assert(s + seq!['<'] + name + seq!['>'] =~= b.push('>'));
}

proof fn lemma_end_is_read(s: Seq<char>, name: Seq<char>)
    requires
        small(name),
        scanned(s, s.len() as int).mode == Mode::Text,
    ensures
        ({
            let end = s + seq!['<', '/'] + name + seq!['>'];
            let read = scanned(end, end.len() as int);
            read.page == scanned(s, s.len() as int).page.end(name) && read.mode == Mode::Text
        }),
{
    let a = s.push('<');
    lemma_one_more(s, '<');
    let c = a.push('/');
    lemma_one_more(a, '/');
    lemma_name_is_read(c, name, scanned(s, s.len() as int).to(Mode::Close), true);
    let d = c + name;
    lemma_one_more(d, '>');
    assert(s + seq!['<', '/'] + name + seq!['>'] =~= d.push('>'));
}

/// A tag opens its element and an end tag ends it, wherever text is read; what stands between two
/// tags changes nothing.
pub proof fn lemma_tags_are_read(s: Seq<char>, name: Seq<char>, text: Seq<char>)
    requires
        small(name),
        scanned(s, s.len() as int).mode == Mode::Text,
        forall|i: int| 0 <= i < text.len() ==> #[trigger] text[i] != '<',
    ensures
        ({
            let page = scanned(s, s.len() as int).page;
            let open = s + seq!['<'] + name + seq!['>'];
            let end = s + seq!['<', '/'] + name + seq!['>'];
            &&& scanned(open, open.len() as int).page == page.start(name, false)
            &&& scanned(end, end.len() as int).page == page.end(name)
            &&& scanned(end, end.len() as int).mode == Mode::Text
            &&& scanned(s + text, (s + text).len() as int) == scanned(s, s.len() as int)
        }),
{
    lemma_start_is_read(s, name);
    lemma_end_is_read(s, name);
    lemma_text_is_passed(s, text);
}

proof fn lemma_text_is_passed(s: Seq<char>, text: Seq<char>)
    requires
        scanned(s, s.len() as int).mode == Mode::Text,
        forall|i: int| 0 <= i < text.len() ==> #[trigger] text[i] != '<',
    ensures
        scanned(s + text, (s + text).len() as int) == scanned(s, s.len() as int),
    decreases text.len(),
{
    if text.len() > 0 {
        let rest = text.drop_last();
        assert forall|i: int| 0 <= i < rest.len() implies #[trigger] rest[i] != '<' by {
            assert(rest[i] == text[i]);
        }
        lemma_text_is_passed(s, rest);
        assert(text[text.len() - 1] == text.last());
        assert(s + text =~= (s + rest).push(text.last()));
        lemma_one_more(s + rest, text.last());
    } else {
        assert(s + text =~= s);
    }
}

/// A page is converted where nothing in it was refused.
pub proof fn lemma_converted(html: Seq<char>)
    ensures
        convertible(html) <==> !scanned(html, html.len() as int).page.refused,
        scanned(html, 0).mode == Mode::Text,
        scanned(html, 0).page.open.len() == 0,
        plain(scanned(html, 0).page),
{
}

/// What was refused stays refused, whatever follows.
pub proof fn lemma_refusal_stays(s: OutlineV, name: Seq<char>, closed: bool)
    requires
        s.refused,
    ensures
        s.start(name, closed).refused,
        s.end(name).refused,
{
}

/// A block that is opened where no paragraph is open stands in what is open, and nothing else
/// changes.
pub proof fn lemma_blocks_open(s: OutlineV)
    requires
        plain(s),
        s.open.len() < 256,
        table_count(s.open) <= 6,
        s.find("p"@, Reach::Button) is None,
        s.find("p?"@, Reach::Button) is None,
    ensures
        s.start("div"@, false) == s.push("div"@),
        s.push("div"@).open == s.open.push("div"@),
{
    reveal_strlit("div");
    reveal_strlit("li");
    reveal_strlit("dd");
    reveal_strlit("dt");
    reveal_strlit("svg");
    reveal_strlit("math");
    reveal_strlit("h1");
    reveal_strlit("h2");
    reveal_strlit("h3");
    reveal_strlit("h4");
    reveal_strlit("h5");
    reveal_strlit("h6");
    reveal_strlit("selectedcontent");
    reveal_strlit("table");
    assert("div"@.len() == 3 && "li"@.len() == 2 && "dd"@.len() == 2 && "dt"@.len() == 2);
    assert("div"@[0] == 'd' && "svg"@[0] == 's' && "math"@.len() == 4);
    assert("h1"@.len() == 2 && "h2"@.len() == 2 && "h3"@.len() == 2 && "h4"@.len() == 2
        && "h5"@.len() == 2 && "h6"@.len() == 2);
    assert("selectedcontent"@.len() == 15 && "table"@.len() == 5);
    assert(s.close_p() == s);
    let r = s.push("div"@);
    assert(r.open.drop_last() =~= s.open);
    assert(table_count(r.open) == table_count(s.open));
}

} // verus!
