//! Which pages can be turned into Markdown.
//!
//! The converter remembers places in its output while a mark such as a link or an emphasis
//! is open. An item that stands in no list makes it take characters from the start of the
//! output, and the remembered places go wrong. It also calls itself once for each level of
//! nesting, and several times for each level of nested tables.
//!
//! So a page is read tag by tag, as a browser reads it, and the elements that are open are
//! kept. Where it is no longer certain which ones are, the page is lost: from there on an
//! element counts as open until its end comes in its place, and no item may come while a mark
//! counts as open.

use crate::text::{
    ascii_lower, clone_strings, owned, same, texts, to_ascii_lower, to_chars,
};
use vstd::prelude::*;

verus! {

/// How many elements may be open at once.
pub const MAX_NESTING: usize = 256;

/// How many tables may be open at once.
pub const MAX_TABLES: usize = 6;

/// Elements during which the converter remembers a place in its output.
pub open spec fn is_mark(name: Seq<char>) -> bool {
    name == "a"@ || name == "b"@ || name == "blockquote"@ || name == "cite"@ || name == "del"@
        || name == "em"@ || name == "i"@ || name == "q"@ || name == "s"@ || name == "strong"@
}

fn mark(name: &str) -> (r: bool)
    ensures
        r == is_mark(name@),
{
    same(name, "a") || same(name, "b") || same(name, "blockquote") || same(name, "cite")
        || same(name, "del") || same(name, "em") || same(name, "i") || same(name, "q")
        || same(name, "s") || same(name, "strong")
}

/// Lists.
pub open spec fn is_list(name: Seq<char>) -> bool {
    name == "menu"@ || name == "ol"@ || name == "ul"@
}

fn list(name: &str) -> (r: bool)
    ensures
        r == is_list(name@),
{
    same(name, "menu") || same(name, "ol") || same(name, "ul")
}

/// Elements whose end may be left out.
pub open spec fn is_item(name: Seq<char>) -> bool {
    name == "dd"@ || name == "dt"@ || name == "li"@
}

fn item(name: &str) -> (r: bool)
    ensures
        r == is_item(name@),
{
    same(name, "dd") || same(name, "dt") || same(name, "li")
}

/// Headings.
pub open spec fn is_heading(name: Seq<char>) -> bool {
    name == "h1"@ || name == "h2"@ || name == "h3"@ || name == "h4"@ || name == "h5"@
        || name == "h6"@
}

fn heading(name: &str) -> (r: bool)
    ensures
        r == is_heading(name@),
{
    same(name, "h1") || same(name, "h2") || same(name, "h3") || same(name, "h4")
        || same(name, "h5") || same(name, "h6")
}

/// Elements that are opened anew after what they stand in has ended.
pub open spec fn is_format(name: Seq<char>) -> bool {
    name == "a"@ || name == "b"@ || name == "big"@ || name == "code"@ || name == "em"@
        || name == "font"@ || name == "i"@ || name == "nobr"@ || name == "s"@
        || name == "small"@ || name == "strike"@ || name == "strong"@ || name == "tt"@
        || name == "u"@
}

fn format(name: &str) -> (r: bool)
    ensures
        r == is_format(name@),
{
    same(name, "a") || same(name, "b") || same(name, "big") || same(name, "code")
        || same(name, "em") || same(name, "font") || same(name, "i") || same(name, "nobr")
        || same(name, "s") || same(name, "small") || same(name, "strike")
        || same(name, "strong") || same(name, "tt") || same(name, "u")
}

/// Elements whose contents are no markup of the page.
pub open spec fn is_drawing(name: Seq<char>) -> bool {
    name == "math"@ || name == "svg"@
}

fn drawing(name: &str) -> (r: bool)
    ensures
        r == is_drawing(name@),
{
    same(name, "math") || same(name, "svg")
}

/// Elements that end with what they stand in.
pub open spec fn is_soft(name: Seq<char>) -> bool {
    name == "dialog"@ || name == "search"@
}

fn soft(name: &str) -> (r: bool)
    ensures
        r == is_soft(name@),
{
    same(name, "dialog") || same(name, "search")
}

/// Elements that end a paragraph and stay open up to their end.
pub open spec fn is_block(name: Seq<char>) -> bool {
    is_heading(name) || name == "address"@ || name == "article"@ || name == "aside"@
        || name == "blockquote"@ || name == "center"@ || name == "details"@ || name == "dir"@
        || name == "div"@ || name == "dl"@ || name == "fieldset"@ || name == "figcaption"@
        || name == "figure"@ || name == "footer"@ || name == "header"@ || name == "hgroup"@
        || name == "listing"@ || name == "main"@ || name == "menu"@ || name == "nav"@
        || name == "ol"@ || name == "pre"@ || name == "section"@ || name == "summary"@
        || name == "ul"@
}

fn block(name: &str) -> (r: bool)
    ensures
        r == is_block(name@),
{
    heading(name) || same(name, "address") || same(name, "article") || same(name, "aside")
        || same(name, "blockquote") || same(name, "center") || same(name, "details")
        || same(name, "dir") || same(name, "div") || same(name, "dl") || same(name, "fieldset")
        || same(name, "figcaption") || same(name, "figure") || same(name, "footer")
        || same(name, "header") || same(name, "hgroup") || same(name, "listing")
        || same(name, "main") || same(name, "menu") || same(name, "nav") || same(name, "ol")
        || same(name, "pre") || same(name, "section") || same(name, "summary")
        || same(name, "ul")
}

/// Elements that stay open up to their end and end no paragraph.
pub open spec fn is_holder(name: Seq<char>) -> bool {
    name == "applet"@ || name == "button"@ || name == "marquee"@ || name == "object"@
        || name == "select"@
}

fn holder(name: &str) -> (r: bool)
    ensures
        r == is_holder(name@),
{
    same(name, "applet") || same(name, "button") || same(name, "marquee")
        || same(name, "object") || same(name, "select")
}

/// Cells of a table.
pub open spec fn is_cell(name: Seq<char>) -> bool {
    name == "td"@ || name == "th"@
}

fn cell(name: &str) -> (r: bool)
    ensures
        r == is_cell(name@),
{
    same(name, "td") || same(name, "th")
}

/// Groups of rows of a table.
pub open spec fn is_group(name: Seq<char>) -> bool {
    name == "tbody"@ || name == "tfoot"@ || name == "thead"@
}

fn group(name: &str) -> (r: bool)
    ensures
        r == is_group(name@),
{
    same(name, "tbody") || same(name, "tfoot") || same(name, "thead")
}

/// Columns of a table.
pub open spec fn is_column(name: Seq<char>) -> bool {
    name == "col"@ || name == "colgroup"@
}

fn column(name: &str) -> (r: bool)
    ensures
        r == is_column(name@),
{
    same(name, "col") || same(name, "colgroup")
}

/// Parts of a table.
pub open spec fn is_part(name: Seq<char>) -> bool {
    is_cell(name) || is_group(name) || is_column(name) || name == "caption"@ || name == "tr"@
}

fn part(name: &str) -> (r: bool)
    ensures
        r == is_part(name@),
{
    cell(name) || group(name) || column(name) || same(name, "caption") || same(name, "tr")
}

/// Elements that the end of another kind of element does not reach over.
pub open spec fn is_special(name: Seq<char>) -> bool {
    is_block(name) || is_holder(name) || is_item(name) || is_part(name) || name == "form"@
        || name == "p"@ || name == "table"@ || name == "template"@
}

fn special(name: &str) -> (r: bool)
    ensures
        r == is_special(name@),
{
    block(name) || holder(name) || item(name) || part(name) || same(name, "form")
        || same(name, "p") || same(name, "table") || same(name, "template")
}

/// Elements inside which what was formatted before stays as it is.
pub open spec fn is_fence(name: Seq<char>) -> bool {
    is_cell(name) || name == "applet"@ || name == "caption"@ || name == "marquee"@
        || name == "object"@ || name == "template"@
}

fn fence(name: &str) -> (r: bool)
    ensures
        r == is_fence(name@),
{
    cell(name) || same(name, "applet") || same(name, "caption") || same(name, "marquee")
        || same(name, "object") || same(name, "template")
}

/// Elements that the end tag of an element outside does not end.
pub open spec fn is_wall(name: Seq<char>) -> bool {
    is_fence(name) || name == "select"@ || name == "table"@
}

fn wall(name: &str) -> (r: bool)
    ensures
        r == is_wall(name@),
{
    fence(name) || same(name, "select") || same(name, "table")
}

/// Annotations.
pub open spec fn is_ruby(name: Seq<char>) -> bool {
    name == "rb"@ || name == "rp"@ || name == "rt"@ || name == "rtc"@
}

fn ruby(name: &str) -> (r: bool)
    ensures
        r == is_ruby(name@),
{
    same(name, "rb") || same(name, "rp") || same(name, "rt") || same(name, "rtc")
}

/// Elements that hold text only, in which nothing is a tag but their end.
pub open spec fn is_raw(name: Seq<char>) -> bool {
    name == "iframe"@ || name == "noembed"@ || name == "noframes"@ || name == "noscript"@
        || name == "script"@ || name == "style"@ || name == "textarea"@ || name == "title"@
        || name == "xmp"@
}

fn raw(name: &str) -> (r: bool)
    ensures
        r == is_raw(name@),
{
    same(name, "iframe") || same(name, "noembed") || same(name, "noframes")
        || same(name, "noscript") || same(name, "script") || same(name, "style")
        || same(name, "textarea") || same(name, "title") || same(name, "xmp")
}

/// Elements of a drawing in which markup of the page may stand.
pub open spec fn is_leaf(name: Seq<char>) -> bool {
    name == "annotation-xml"@ || name == "desc"@ || name == "foreignobject"@ || name == "mi"@
        || name == "mn"@ || name == "mo"@ || name == "ms"@ || name == "mtext"@
        || name == "title"@
}

fn leaf(name: &str) -> (r: bool)
    ensures
        r == is_leaf(name@),
{
    same(name, "annotation-xml") || same(name, "desc") || same(name, "foreignobject")
        || same(name, "mi") || same(name, "mn") || same(name, "mo") || same(name, "ms")
        || same(name, "mtext") || same(name, "title")
}

/// Elements that end a drawing in which they stand.
pub open spec fn is_breakout(name: Seq<char>) -> bool {
    is_heading(name) || is_item(name) || is_list(name) || name == "b"@ || name == "big"@
        || name == "blockquote"@ || name == "body"@ || name == "br"@ || name == "center"@
        || name == "code"@ || name == "div"@ || name == "dl"@ || name == "em"@
        || name == "embed"@ || name == "head"@ || name == "hr"@ || name == "i"@
        || name == "img"@ || name == "listing"@ || name == "meta"@ || name == "nobr"@
        || name == "p"@ || name == "pre"@ || name == "ruby"@ || name == "s"@ || name == "small"@
        || name == "span"@ || name == "strike"@ || name == "strong"@ || name == "sub"@
        || name == "sup"@ || name == "table"@ || name == "tt"@ || name == "u"@ || name == "var"@
}

fn breakout(name: &str) -> (r: bool)
    ensures
        r == is_breakout(name@),
{
    heading(name) || item(name) || list(name) || same(name, "b") || same(name, "big")
        || same(name, "blockquote") || same(name, "body") || same(name, "br")
        || same(name, "center") || same(name, "code") || same(name, "div") || same(name, "dl")
        || same(name, "em") || same(name, "embed") || same(name, "head") || same(name, "hr")
        || same(name, "i") || same(name, "img") || same(name, "listing") || same(name, "meta")
        || same(name, "nobr") || same(name, "p") || same(name, "pre") || same(name, "ruby")
        || same(name, "s") || same(name, "small") || same(name, "span") || same(name, "strike")
        || same(name, "strong") || same(name, "sub") || same(name, "sup") || same(name, "table")
        || same(name, "tt") || same(name, "u") || same(name, "var")
}

/// Elements that hold nothing, or of which there is only one.
pub open spec fn is_flat(name: Seq<char>) -> bool {
    name == "area"@ || name == "base"@ || name == "basefont"@ || name == "bgsound"@
        || name == "body"@ || name == "br"@ || name == "col"@ || name == "embed"@
        || name == "frame"@ || name == "head"@ || name == "hr"@ || name == "html"@
        || name == "image"@ || name == "img"@ || name == "input"@ || name == "keygen"@
        || name == "link"@ || name == "meta"@ || name == "param"@ || name == "source"@
        || name == "track"@ || name == "wbr"@
}

fn flat(name: &str) -> (r: bool)
    ensures
        r == is_flat(name@),
{
    same(name, "area") || same(name, "base") || same(name, "basefont") || same(name, "bgsound")
        || same(name, "body") || same(name, "br") || same(name, "col") || same(name, "embed")
        || same(name, "frame") || same(name, "head") || same(name, "hr") || same(name, "html")
        || same(name, "image") || same(name, "img") || same(name, "input")
        || same(name, "keygen") || same(name, "link") || same(name, "meta")
        || same(name, "param") || same(name, "source") || same(name, "track")
        || same(name, "wbr")
}
// ---- the open elements

/// The last of the names, or an empty one.
pub open spec fn top(open: Seq<Seq<char>>) -> Seq<char> {
    if open.len() == 0 {
        Seq::empty()
    } else {
        open.last()
    }
}

/// How far the end of an element reaches.
#[derive(Clone, Copy, Debug, PartialEq, Eq, Structural)]
pub enum Reach {
    /// Up to a wall.
    Wall,
    /// Up to a wall or a numbered or bulleted list.
    Item,
    /// Up to a wall or a button.
    Button,
    /// Up to a table.
    Table,
    /// Up to anything but what an item closes the item before it through.
    Near,
    /// Up to a fence.
    Fence,
}

/// Whether the reach ends at the element.
pub open spec fn stops(reach: Reach, name: Seq<char>) -> bool {
    match reach {
        Reach::Wall => is_wall(name),
        Reach::Item => is_wall(name) || name == "ol"@ || name == "ul"@,
        Reach::Button => is_wall(name) || name == "button"@,
        Reach::Table => name == "table"@ || name == "template"@,
        Reach::Near => is_special(name) && name != "address"@ && name != "div"@ && name != "p"@,
        Reach::Fence => is_fence(name),
    }
}

/// Whether the two elements end each other.
pub open spec fn akin(a: Seq<char>, b: Seq<char>) -> bool {
    a == b || is_heading(a) && is_heading(b) || is_cell(a) && is_cell(b) || is_group(a)
        && is_group(b) || is_item(a) && is_item(b) && a != "li"@ && b != "li"@
}

/// Where the innermost element stands that is `name`, or that is akin to it, within reach.
pub open spec fn found(
    open: Seq<Seq<char>>,
    name: Seq<char>,
    kin: bool,
    reach: Reach,
) -> Option<int>
    decreases open.len(),
{
    if open.len() == 0 {
        None
    } else if open.last() == name || kin && akin(open.last(), name) {
        Some(open.len() - 1)
    } else if stops(reach, open.last()) {
        None
    } else {
        found(open.drop_last(), name, kin, reach)
    }
}

/// The names that are opened anew.
pub open spec fn formats(open: Seq<Seq<char>>) -> Seq<Seq<char>>
    decreases open.len(),
{
    if open.len() == 0 {
        Seq::empty()
    } else if is_format(open.last()) {
        formats(open.drop_last()).push(open.last())
    } else {
        formats(open.drop_last())
    }
}

/// The first `n` names, and of those from `from` on what is opened anew.
pub open spec fn kept(open: Seq<Seq<char>>, n: int, from: int) -> Seq<Seq<char>> {
    open.take(n) + formats(open.skip(from))
}

/// The innermost special element.
pub open spec fn top_special(open: Seq<Seq<char>>) -> Seq<char>
    decreases open.len(),
{
    if open.len() == 0 {
        Seq::empty()
    } else if is_special(open.last()) {
        open.last()
    } else {
        top_special(open.drop_last())
    }
}

/// Whether the innermost element stands in a list, and in no cell inside it.
pub open spec fn in_list(open: Seq<Seq<char>>) -> bool
    decreases open.len(),
{
    open.len() > 0 && !is_cell(open.last()) && (is_list(open.last()) || in_list(open.drop_last()))
}

pub open spec fn has_mark(open: Seq<Seq<char>>) -> bool {
    exists|i: int| 0 <= i < open.len() && is_mark(#[trigger] open[i])
}

pub open spec fn has_format(open: Seq<Seq<char>>) -> bool {
    exists|i: int| 0 <= i < open.len() && is_format(#[trigger] open[i])
}

pub open spec fn has_soft(open: Seq<Seq<char>>) -> bool {
    exists|i: int| 0 <= i < open.len() && is_soft(#[trigger] open[i])
}

pub open spec fn has_special(open: Seq<Seq<char>>) -> bool {
    exists|i: int| 0 <= i < open.len() && is_special(#[trigger] open[i])
}

pub open spec fn has_leaf(open: Seq<Seq<char>>) -> bool {
    exists|i: int| 0 <= i < open.len() && is_leaf(#[trigger] open[i])
}

/// Where the outermost drawing begins.
pub open spec fn drawing_at(open: Seq<Seq<char>>, i: int) -> Option<int>
    decreases open.len() - i,
{
    if i < 0 || i >= open.len() {
        None
    } else if is_drawing(open[i]) {
        Some(i)
    } else {
        drawing_at(open, i + 1)
    }
}

/// How many tables are open.
pub open spec fn table_count(open: Seq<Seq<char>>) -> nat
    decreases open.len(),
{
    if open.len() == 0 {
        0
    } else {
        table_count(open.drop_last()) + (if open.last() == "table"@ {
            1nat
        } else {
            0
        })
    }
}

fn ends_reach(reach: Reach, name: &str) -> (r: bool)
    ensures
        r == stops(reach, name@),
{
    match reach {
        Reach::Wall => wall(name),
        Reach::Item => wall(name) || same(name, "ol") || same(name, "ul"),
        Reach::Button => wall(name) || same(name, "button"),
        Reach::Table => same(name, "table") || same(name, "template"),
        Reach::Near => special(name) && !same(name, "address") && !same(name, "div") && !same(
            name,
            "p",
        ),
        Reach::Fence => fence(name),
    }
}

fn related(a: &str, b: &str) -> (r: bool)
    ensures
        r == akin(a@, b@),
{
    same(a, b) || heading(a) && heading(b) || cell(a) && cell(b) || group(a) && group(b) || item(
        a,
    ) && item(b) && !same(a, "li") && !same(b, "li")
}

fn find(open: &Vec<String>, name: &str, kin: bool, reach: Reach) -> (r: Option<usize>)
    ensures
        match r {
            Some(i) => i < open@.len() && found(texts(open@), name@, kin, reach) == Some(i as int),
            None => found(texts(open@), name@, kin, reach) is None,
        },
{
    let ghost all = texts(open@);
    let mut n: usize = open.len();
    assert(all.take(n as int) =~= all);
    while n > 0
        invariant
            n <= open@.len(),
            all == texts(open@),
            found(all, name@, kin, reach) == found(all.take(n as int), name@, kin, reach),
        decreases n,
    {
        let s = open[n - 1].as_str();
        assert(all.take(n as int).last() == s@);
        assert(all.take(n as int).drop_last() =~= all.take(n - 1));
        if same(s, name) || kin && related(s, name) {
            return Some(n - 1);
        }
        if ends_reach(reach, s) {
            return None;
        }
        n = n - 1;
    }
    None
}

fn last_name(open: &Vec<String>) -> (r: &str)
    ensures
        r@ == top(texts(open@)),
{
    proof {
        reveal_strlit("");
        assert(""@ =~= Seq::empty());
        assert(texts(open@).len() == open@.len());
    }
    if open.len() == 0 {
        ""
    } else {
        open[open.len() - 1].as_str()
    }
}

fn last_special(open: &Vec<String>) -> (r: &str)
    ensures
        r@ == top_special(texts(open@)),
{
    let ghost all = texts(open@);
    let mut n: usize = open.len();
    proof {
        reveal_strlit("");
        assert(""@ =~= Seq::empty());
        assert(all.take(n as int) =~= all);
    }
    while n > 0
        invariant
            n <= open@.len(),
            all == texts(open@),
            top_special(all) == top_special(all.take(n as int)),
        decreases n,
    {
        let s = open[n - 1].as_str();
        assert(all.take(n as int).last() == s@);
        assert(all.take(n as int).drop_last() =~= all.take(n - 1));
        if special(s) {
            return s;
        }
        n = n - 1;
    }
    assert(""@ =~= Seq::empty()) by {
        reveal_strlit("");
    }
    ""
}

fn push_name(open: &mut Vec<String>, name: &str)
    ensures
        texts(final(open)@) == texts(old(open)@).push(name@),
{
    let ghost before = open@;
    open.push(owned(name));
    assert(texts(open@) =~= texts(before).push(name@));
}

fn pop_name(open: &mut Vec<String>)
    requires
        old(open)@.len() > 0,
    ensures
        texts(final(open)@) == texts(old(open)@).drop_last(),
        final(open)@.len() == old(open)@.len() - 1,
{
    let ghost before = open@;
    let gone = open.pop();
    assert(texts(open@) =~= texts(before).drop_last());
}

fn clip_names(open: &mut Vec<String>, n: usize)
    requires
        n <= old(open)@.len(),
    ensures
        texts(final(open)@) == texts(old(open)@).take(n as int),
{
    let ghost before = open@;
    open.truncate(n);
    assert(texts(open@) =~= texts(before).take(n as int));
}

fn remove_name(open: &mut Vec<String>, i: usize)
    requires
        i < old(open)@.len(),
    ensures
        texts(final(open)@) == texts(old(open)@).remove(i as int),
{
    let ghost before = open@;
    let gone = open.remove(i);
    assert(texts(open@) =~= texts(before).remove(i as int));
}

fn keep_names(open: &mut Vec<String>, n: usize, from: usize)
    requires
        n <= old(open)@.len(),
        from <= old(open)@.len(),
    ensures
        texts(final(open)@) == kept(texts(old(open)@), n as int, from as int),
{
    let ghost all = texts(open@);
    let ghost rest = all.skip(from as int);
    let mut tail: Vec<String> = Vec::new();
    let mut i: usize = from;
    assert(texts(tail@) =~= formats(rest.take(0)));
    while i < open.len()
        invariant
            from <= i <= open@.len(),
            all == texts(open@),
            rest == all.skip(from as int),
            texts(tail@) == formats(rest.take(i - from)),
        decreases open.len() - i,
    {
        assert(rest.take(i + 1 - from).last() == open@[i as int]@);
        assert(rest.take(i + 1 - from).drop_last() =~= rest.take(i - from));
        if format(open[i].as_str()) {
            push_name(&mut tail, open[i].as_str());
        }
        i = i + 1;
    }
    assert(rest.take(i - from) =~= rest);
    clip_names(open, n);
    let ghost first = open@;
    let ghost last = tail@;
    open.append(&mut tail);
    assert(texts(open@) =~= texts(first) + texts(last));
}

fn has_name(open: &Vec<String>, name: &str) -> (r: bool)
    ensures
        r == texts(open@).contains(name@),
{
    let mut i: usize = 0;
    while i < open.len()
        invariant
            i <= open@.len(),
            forall|j: int| 0 <= j < i ==> (#[trigger] texts(open@)[j]) != name@,
        decreases open.len() - i,
    {
        assert(texts(open@)[i as int] == open@[i as int]@);
        if same(open[i].as_str(), name) {
            return true;
        }
        i = i + 1;
    }
    assert(texts(open@).len() == open@.len());
    false
}

fn marked(open: &Vec<String>) -> (r: bool)
    ensures
        r == has_mark(texts(open@)),
{
    let mut i: usize = 0;
    while i < open.len()
        invariant
            i <= open@.len(),
            forall|j: int| 0 <= j < i ==> !is_mark(#[trigger] texts(open@)[j]),
        decreases open.len() - i,
    {
        assert(texts(open@)[i as int] == open@[i as int]@);
        if mark(open[i].as_str()) {
            return true;
        }
        i = i + 1;
    }
    assert(texts(open@).len() == open@.len());
    false
}

/// Whether an element that is opened anew stands from `from` on.
fn format_from(open: &Vec<String>, from: usize) -> (r: bool)
    requires
        from <= open@.len(),
    ensures
        r == has_format(texts(open@).skip(from as int)),
{
    let ghost rest = texts(open@).skip(from as int);
    let mut i: usize = from;
    while i < open.len()
        invariant
            from <= i <= open@.len(),
            rest == texts(open@).skip(from as int),
            forall|j: int| 0 <= j < i - from ==> !is_format(#[trigger] rest[j]),
        decreases open.len() - i,
    {
        assert(rest[i - from] == open@[i as int]@);
        if format(open[i].as_str()) {
            return true;
        }
        i = i + 1;
    }
    assert(rest.len() == open@.len() - from);
    false
}

fn softened(open: &Vec<String>) -> (r: bool)
    ensures
        r == has_soft(texts(open@)),
{
    let mut i: usize = 0;
    while i < open.len()
        invariant
            i <= open@.len(),
            forall|j: int| 0 <= j < i ==> !is_soft(#[trigger] texts(open@)[j]),
        decreases open.len() - i,
    {
        assert(texts(open@)[i as int] == open@[i as int]@);
        if soft(open[i].as_str()) {
            return true;
        }
        i = i + 1;
    }
    assert(texts(open@).len() == open@.len());
    false
}

/// Whether a leaf stands from `from` on.
fn leaf_from(open: &Vec<String>, from: usize) -> (r: bool)
    requires
        from <= open@.len(),
    ensures
        r == has_leaf(texts(open@).skip(from as int)),
{
    let ghost rest = texts(open@).skip(from as int);
    let mut i: usize = from;
    while i < open.len()
        invariant
            from <= i <= open@.len(),
            rest == texts(open@).skip(from as int),
            forall|j: int| 0 <= j < i - from ==> !is_leaf(#[trigger] rest[j]),
        decreases open.len() - i,
    {
        assert(rest[i - from] == open@[i as int]@);
        if leaf(open[i].as_str()) {
            return true;
        }
        i = i + 1;
    }
    assert(rest.len() == open@.len() - from);
    false
}

fn find_drawing(open: &Vec<String>) -> (r: Option<usize>)
    ensures
        match r {
            Some(i) => i < open@.len() && drawing_at(texts(open@), 0) == Some(i as int),
            None => drawing_at(texts(open@), 0) is None,
        },
{
    let ghost all = texts(open@);
    let mut i: usize = 0;
    while i < open.len()
        invariant
            i <= open@.len(),
            all == texts(open@),
            drawing_at(all, 0) == drawing_at(all, i as int),
        decreases open.len() - i,
    {
        assert(all[i as int] == open@[i as int]@);
        if drawing(open[i].as_str()) {
            return Some(i);
        }
        i = i + 1;
    }
    assert(all.len() == open@.len());
    None
}

fn listed(open: &Vec<String>) -> (r: bool)
    ensures
        r == in_list(texts(open@)),
{
    let ghost all = texts(open@);
    let mut n: usize = open.len();
    assert(all.take(n as int) =~= all);
    while n > 0
        invariant
            n <= open@.len(),
            all == texts(open@),
            in_list(all) == in_list(all.take(n as int)),
        decreases n,
    {
        let s = open[n - 1].as_str();
        assert(all.take(n as int).last() == s@);
        assert(all.take(n as int).drop_last() =~= all.take(n - 1));
        if cell(s) {
            return false;
        }
        if list(s) {
            return true;
        }
        n = n - 1;
    }
    false
}

fn count_tables(open: &Vec<String>) -> (r: usize)
    ensures
        r == table_count(texts(open@)),
{
    let ghost start = texts(open@);
    let mut n: usize = 0;
    let mut k: usize = 0;
    while n < open.len()
        invariant
            k <= n <= open@.len(),
            start == texts(open@),
            k == table_count(start.take(n as int)),
        decreases open.len() - n,
    {
        assert(start.take(n + 1).last() == open@[n as int]@);
        assert(start.take(n + 1).drop_last() =~= start.take(n as int));
        if same(open[n].as_str(), "table") {
            k = k + 1;
        }
        n = n + 1;
    }
    assert(start.take(n as int) =~= start);
    k
}

/// What is known of a page up to some place.
#[derive(Debug)]
pub struct Outline {
    /// The elements that may be open, from the outside in; unless the page is lost, exactly
    /// those of the special ones that are.
    pub open: Vec<String>,
    /// Whether a form awaits its end.
    pub form: bool,
    /// Whether an element may have been opened anew, which is not among those.
    pub renewed: bool,
    /// Whether it is no longer certain what is open.
    pub lost: bool,
    /// Whether it is no longer certain what a tag is.
    pub unsure: bool,
    pub refused: bool,
}

/// The model of an [`Outline`].
#[verifier::ext_equal]
pub struct OutlineV {
    pub open: Seq<Seq<char>>,
    pub form: bool,
    pub renewed: bool,
    pub lost: bool,
    pub unsure: bool,
    pub refused: bool,
}

impl View for Outline {
    type V = OutlineV;

    open spec fn view(&self) -> OutlineV {
        OutlineV {
            open: texts(self.open@),
            form: self.form,
            renewed: self.renewed,
            lost: self.lost,
            unsure: self.unsure,
            refused: self.refused,
        }
    }
}

impl OutlineV {
    pub open spec fn empty() -> OutlineV {
        OutlineV {
            open: Seq::empty(),
            form: false,
            renewed: false,
            lost: false,
            unsure: false,
            refused: false,
        }
    }

    pub open spec fn with(self, open: Seq<Seq<char>>) -> OutlineV {
        OutlineV { open, ..self }
    }

    pub open spec fn lose(self) -> OutlineV {
        OutlineV { lost: true, ..self }
    }

    /// Lost, and not even certain of the tags.
    pub open spec fn confuse(self) -> OutlineV {
        OutlineV { lost: true, unsure: true, ..self }
    }

    pub open spec fn refuse(self) -> OutlineV {
        OutlineV { refused: true, ..self }
    }

    pub open spec fn push(self, name: Seq<char>) -> OutlineV {
        self.with(self.open.push(name))
    }

    /// Without the innermost element.
    pub open spec fn pop(self) -> OutlineV {
        self.with(self.open.drop_last())
    }

    /// The first `n` elements.
    pub open spec fn clip(self, n: int) -> OutlineV {
        self.with(self.open.take(n))
    }

    /// The first `n` elements, and of those from `from` on what is opened anew.
    pub open spec fn keep(self, n: int, from: int) -> OutlineV {
        OutlineV {
            open: kept(self.open, n, from),
            renewed: self.renewed || has_format(self.open.skip(from)),
            ..self
        }
    }

    /// After the end of the element at `i`.
    pub open spec fn leave(self, i: int) -> OutlineV {
        self.keep(i, i + 1)
    }

    /// After the end of all in the element at `i`.
    pub open spec fn empty_out(self, i: int) -> OutlineV {
        self.keep(i + 1, i + 1)
    }

    /// Without the element at `i`, with which others may have ended.
    pub open spec fn drop_at(self, i: int) -> OutlineV {
        OutlineV { open: self.open.remove(i), renewed: true, ..self }
    }

    /// Whether something that is opened anew may stand in the innermost element.
    pub open spec fn blurred(self) -> bool {
        self.renewed && has_format(self.open)
    }

    pub open spec fn find(self, name: Seq<char>, reach: Reach) -> Option<int> {
        found(self.open, name, false, reach)
    }

    pub open spec fn find_kin(self, name: Seq<char>, reach: Reach) -> Option<int> {
        found(self.open, name, true, reach)
    }

    /// Whether the innermost element is `name`.
    pub open spec fn ends_in(self, name: Seq<char>) -> bool {
        self.open.len() > 0 && self.open.last() == name
    }

    /// Whether a template is open, whose contents are no part of the page.
    pub open spec fn inert(self) -> bool {
        self.ends_in("template"@)
    }

    /// Whether a drawing is open, and only what stands in it after it.
    pub open spec fn drawn(self) -> bool {
        !self.lost && drawing_at(self.open, 0) is Some
    }

    /// After the end of the paragraph, if one is open.
    pub open spec fn close_p(self) -> OutlineV {
        match self.find("p"@, Reach::Button) {
            Some(i) => self.leave(i),
            None => match self.find("p?"@, Reach::Button) {
                Some(i) => self.drop_at(i),
                None => self,
            },
        }
    }

    /// Where the paragraph that is open may have ended.
    pub open spec fn blur_p(self) -> OutlineV {
        match self.find("p"@, Reach::Button) {
            Some(i) => self.with(self.open.update(i, "p?"@)),
            None => self,
        }
    }

    /// Where an item that is open may have ended.
    pub open spec fn blur(self) -> OutlineV {
        if is_item(top_special(self.open)) {
            self.lose()
        } else {
            self.blur_p()
        }
    }

    /// Where the cell or the caption begins that is open in the innermost table.
    pub open spec fn cell_at(self) -> Option<int> {
        match self.find_kin("td"@, Reach::Table) {
            Some(i) => Some(i),
            None => self.find("caption"@, Reach::Table),
        }
    }

    /// After the end of that cell or caption.
    pub open spec fn leave_cell(self) -> OutlineV {
        match self.cell_at() {
            Some(i) => self.clip(i),
            None => self,
        }
    }

    /// The innermost table, where nothing but parts of it may stand.
    pub open spec fn bare_table(self) -> Option<int> {
        if self.cell_at() is Some {
            None
        } else {
            self.find("table"@, Reach::Table)
        }
    }

    /// An item that stands in no list is refused where a mark may be open.
    pub open spec fn start_item(self, name: Seq<char>) -> OutlineV {
        let s = match self.find_kin(name, Reach::Near) {
            Some(i) => self.leave(i),
            None => self,
        }.close_p();
        let r = s.push(name);
        if name == "li"@ && has_mark(s.open) && !in_list(s.open) {
            r.refuse()
        } else {
            r
        }
    }

    pub open spec fn start_heading(self, name: Seq<char>) -> OutlineV {
        let s = self.close_p();
        if s.open.len() > 0 && is_heading(s.open.last()) && !s.blurred() {
            s.pop().push(name)
        } else if is_heading(top_special(s.open)) {
            s.lose().push(name)
        } else {
            s.push(name)
        }
    }

    pub open spec fn start_part(self, name: Seq<char>) -> OutlineV {
        let s = self.leave_cell();
        match s.find("table"@, Reach::Table) {
            None => self,
            Some(t) => if is_column(name) {
                s.empty_out(t)
            } else if is_group(name) || name == "caption"@ {
                s.empty_out(t).push(name)
            } else {
                let row = s.find("tr"@, Reach::Table);
                if is_cell(name) && row is Some {
                    s.empty_out(row.unwrap()).push(name)
                } else {
                    let u = match s.find_kin("tbody"@, Reach::Table) {
                        Some(g) => s.empty_out(g),
                        None => s.empty_out(t).push("tbody"@),
                    }.push("tr"@);
                    if is_cell(name) {
                        u.push(name)
                    } else {
                        u
                    }
                }
            },
        }
    }

    /// After the end of the tables in which another one cannot stand.
    pub open spec fn leave_tables(self) -> OutlineV
        decreases self.open.len(),
    {
        match self.bare_table() {
            Some(t) => if 0 <= t < self.open.len() && self.leave(t).open.len() < self.open.len() {
                self.leave(t).leave_tables()
            } else {
                self
            },
            None => self,
        }
    }

    pub open spec fn start_form(self) -> OutlineV {
        if self.form {
            self
        } else if self.bare_table() is Some {
            OutlineV { form: true, ..self }
        } else {
            OutlineV { form: true, ..self.close_p().push("form"@) }
        }
    }

    pub open spec fn start_choice(self, name: Seq<char>) -> OutlineV {
        let chosen = self.find("select"@, Reach::Wall) is Some;
        let s = if chosen {
            self.blur()
        } else {
            self
        };
        let t = if !s.blurred() && s.ends_in("option"@) {
            s.pop()
        } else {
            s
        };
        let u = if !t.blurred() && chosen && name == "optgroup"@ && t.ends_in("optgroup"@) {
            t.pop()
        } else {
            t
        };
        u.push(name)
    }

    /// An annotation ends what stands in the annotated text.
    pub open spec fn start_ruby(self, name: Seq<char>) -> OutlineV {
        match self.find("ruby"@, Reach::Wall) {
            Some(i) => if has_special(self.open.skip(i)) || self.open.take(i).contains(
                "ruby"@,
            ) {
                self.blur().push(name)
            } else {
                self.push(name)
            },
            None => self.push(name),
        }
    }

    /// A link ends the link before it.
    pub open spec fn start_link(self, name: Seq<char>) -> OutlineV {
        match self.find(name, Reach::Fence) {
            Some(i) => if has_soft(self.open) {
                self.lose().push(name)
            } else if name == "a"@ && !has_special(self.open.skip(i)) {
                self.drop_at(i).push(name)
            } else {
                OutlineV { renewed: true, ..self }.push(name)
            },
            None => self.push(name),
        }
    }

    /// The elements that are read by rules of their own, and the rest.
    pub open spec fn start_other(self, name: Seq<char>) -> OutlineV {
        if name == "form"@ {
            self.start_form()
        } else if name == "select"@ {
            match self.find("select"@, Reach::Wall) {
                Some(i) => self.leave(i),
                None => self.push(name),
            }
        } else if name == "button"@ {
            match self.find("button"@, Reach::Wall) {
                Some(i) => self.leave(i).push(name),
                None => self.push(name),
            }
        } else if name == "input"@ {
            match self.find("select"@, Reach::Wall) {
                Some(i) => if self.bare_table() is Some {
                    self.lose()
                } else {
                    self.leave(i)
                },
                None => self,
            }
        } else if name == "hr"@ {
            let s = self.close_p();
            if s.find("select"@, Reach::Wall) is Some {
                s.blur()
            } else {
                s
            }
        } else if name == "option"@ || name == "optgroup"@ {
            self.start_choice(name)
        } else if is_ruby(name) {
            self.start_ruby(name)
        } else if name == "a"@ || name == "nobr"@ {
            self.start_link(name)
        } else if name == "isindex"@ {
            self.lose().push(name)
        } else if name == "frameset"@ {
            self.confuse().push(name)
        } else if is_flat(name) {
            self
        } else {
            self.push(name)
        }
    }

    pub open spec fn start_plain(self, name: Seq<char>, closed: bool) -> OutlineV {
        if is_item(name) {
            self.start_item(name)
        } else if is_drawing(name) {
            if closed {
                self
            } else {
                self.push(name)
            }
        } else if is_heading(name) {
            self.start_heading(name)
        } else if is_block(name) || is_soft(name) || name == "p"@ || name == "plaintext"@ || name
            == "xmp"@ {
            self.close_p().push(name)
        } else if is_part(name) {
            self.start_part(name)
        } else if name == "table"@ {
            self.leave_tables().blur_p().push(name)
        } else {
            self.start_other(name)
        }
    }

    /// In a template only other templates count.
    pub open spec fn start_inert(self, name: Seq<char>) -> OutlineV {
        if name == "template"@ {
            self.push(name)
        } else if name == "frameset"@ || name == "plaintext"@ {
            self.refuse()
        } else if is_drawing(name) {
            OutlineV { unsure: true, ..self }
        } else {
            self
        }
    }

    /// Where the page is lost, every element may stay open, and no item may come while a mark
    /// may be open.
    pub open spec fn start_lost(self, name: Seq<char>) -> OutlineV {
        let s = if is_drawing(name) || name == "frameset"@ {
            self.confuse()
        } else {
            self
        };
        if name == "li"@ && has_mark(s.open) || name == "plaintext"@ && s.unsure {
            s.refuse()
        } else if is_flat(name) && !s.unsure {
            s
        } else {
            s.push(
                if s.unsure && name == "template"@ {
                    "?"@
                } else {
                    name
                },
            )
        }
    }

    pub open spec fn start_drawn(self, name: Seq<char>, closed: bool) -> OutlineV {
        if is_leaf(top(self.open)) || !is_breakout(name) && (is_special(name) || is_soft(name)
            || name == "font"@ || name == "frameset"@) {
            self.confuse().start_lost(name)
        } else if is_breakout(name) {
            self.clip(drawing_at(self.open, 0).unwrap()).start_plain(name, closed)
        } else if closed {
            self
        } else {
            self.push(name)
        }
    }

    /// Refused where more is open than may be.
    pub open spec fn limited(self) -> OutlineV {
        if self.open.len() > MAX_NESTING || table_count(self.open) > MAX_TABLES {
            self.refuse()
        } else {
            self
        }
    }

    /// A start tag, which may be closed at once.
    pub open spec fn start(self, name: Seq<char>, closed: bool) -> OutlineV {
        if self.refused || name == "selectedcontent"@ {
            self.refuse()
        } else if self.inert() {
            self.start_inert(name)
        } else if self.lost {
            self.start_lost(name)
        } else if self.drawn() {
            self.start_drawn(name, closed)
        } else {
            self.start_plain(name, closed)
        }.limited()
    }

    pub open spec fn end_form(self) -> OutlineV {
        if !self.form {
            self
        } else {
            let s = OutlineV { form: false, ..self };
            match s.find("form"@, Reach::Wall) {
                None => if s.open.contains("form"@) {
                    s.lose()
                } else {
                    s
                },
                Some(_) => {
                    let t = s.blur();
                    match t.find("form"@, Reach::Wall) {
                        Some(i) => t.with(t.open.remove(i)),
                        None => t,
                    }
                },
            }
        }
    }

    pub open spec fn end_part(self, name: Seq<char>) -> OutlineV {
        match self.find(name, Reach::Table) {
            None => self,
            Some(i) => if is_cell(name) || name == "caption"@ {
                self.clip(i)
            } else {
                let s = self.leave_cell();
                match s.find(name, Reach::Table) {
                    Some(j) => s.leave(j),
                    None => s,
                }
            },
        }
    }

    pub open spec fn end_loose(self, name: Seq<char>) -> OutlineV {
        if self.ends_in(name) {
            self.pop()
        } else if !self.open.contains(name) {
            self
        } else if has_soft(self.open) {
            self.lose()
        } else {
            let s = OutlineV { renewed: true, ..self };
            match s.find(name, Reach::Fence) {
                Some(i) => if is_format(name) && !has_special(s.open.skip(i)) {
                    s.drop_at(i)
                } else {
                    s
                },
                None => s,
            }
        }
    }

    pub open spec fn end_plain(self, name: Seq<char>) -> OutlineV {
        if is_block(name) || is_soft(name) || is_holder(name) {
            match found(self.open, name, is_heading(name), Reach::Wall) {
                Some(i) => if is_fence(name) {
                    self.clip(i)
                } else {
                    self.leave(i)
                },
                None => self,
            }
        } else if is_column(name) || name == "template"@ {
            self
        } else if is_part(name) || name == "table"@ {
            self.end_part(name)
        } else if is_item(name) {
            match self.find(
                name,
                if name == "li"@ {
                    Reach::Item
                } else {
                    Reach::Wall
                },
            ) {
                Some(i) => self.leave(i),
                None => self,
            }
        } else if name == "p"@ {
            self.close_p()
        } else if name == "form"@ {
            self.end_form()
        } else {
            self.end_loose(name)
        }
    }

    pub open spec fn end_drawn(self, name: Seq<char>) -> OutlineV {
        let root = drawing_at(self.open, 0).unwrap();
        if self.ends_in(name) {
            self.pop()
        } else if has_leaf(self.open.skip(root)) {
            self.confuse()
        } else if name == "p"@ || name == "br"@ {
            self.clip(root).end_plain(name)
        } else {
            match self.find(name, Reach::Near) {
                Some(i) => if i >= root {
                    self.clip(i)
                } else {
                    self.end_through(name)
                },
                None => self.end_through(name),
            }
        }
    }

    /// An end tag that reaches out of the drawing.
    pub open spec fn end_through(self, name: Seq<char>) -> OutlineV {
        if name == "form"@ && !self.form {
            self
        } else if is_special(name) && name != "form"@ {
            self.end_plain(name)
        } else if self.open.contains(name) || name == "form"@ {
            self.confuse()
        } else {
            self
        }
    }

    /// An end tag.
    pub open spec fn end(self, name: Seq<char>) -> OutlineV {
        if self.refused {
            self
        } else if self.inert() {
            if name == "template"@ {
                self.pop()
            } else {
                self
            }
        } else if self.lost {
            if self.ends_in(name) {
                self.pop()
            } else {
                self
            }
        } else if self.drawn() {
            self.end_drawn(name)
        } else {
            self.end_plain(name)
        }
    }
}

proof fn lemma_formats_len(open: Seq<Seq<char>>)
    ensures
        formats(open).len() <= open.len(),
    decreases open.len(),
{
    if open.len() > 0 {
        lemma_formats_len(open.drop_last());
    }
}

impl Outline {
    /// Nothing is open.
    fn new() -> (r: Outline)
        ensures
            r@ == OutlineV::empty(),
    {
        let open: Vec<String> = Vec::new();
        assert(texts(open@) =~= Seq::empty());
        Outline {
            open,
            form: false,
            renewed: false,
            lost: false,
            unsure: false,
            refused: false,
        }
    }

    fn push(&mut self, name: &str)
        ensures
            final(self)@ == old(self)@.push(name@),
    {
        push_name(&mut self.open, name);
    }

    fn pop(&mut self)
        requires
            old(self).open@.len() > 0,
        ensures
            final(self)@ == old(self)@.pop(),
    {
        pop_name(&mut self.open);
    }

    fn clip(&mut self, n: usize)
        requires
            n <= old(self).open@.len(),
        ensures
            final(self)@ == old(self)@.clip(n as int),
    {
        clip_names(&mut self.open, n);
    }

    fn keep(&mut self, n: usize, from: usize)
        requires
            n <= old(self).open@.len(),
            from <= old(self).open@.len(),
        ensures
            final(self)@ == old(self)@.keep(n as int, from as int),
    {
        self.renewed = self.renewed || format_from(&self.open, from);
        keep_names(&mut self.open, n, from);
    }

    fn leave(&mut self, i: usize)
        requires
            i < old(self).open@.len(),
        ensures
            final(self)@ == old(self)@.leave(i as int),
    {
        assert(i < self.open.len());
        self.keep(i, i + 1);
    }

    fn drop_at(&mut self, i: usize)
        requires
            i < old(self).open@.len(),
        ensures
            final(self)@ == old(self)@.drop_at(i as int),
    {
        remove_name(&mut self.open, i);
        self.renewed = true;
    }

    fn is_blurred(&self) -> (r: bool)
        ensures
            r == self@.blurred(),
    {
        assert(self@.open.skip(0) =~= self@.open);
        self.renewed && format_from(&self.open, 0)
    }

    fn empty_out(&mut self, i: usize)
        requires
            i < old(self).open@.len(),
        ensures
            final(self)@ == old(self)@.empty_out(i as int),
    {
        assert(i < self.open.len());
        self.keep(i + 1, i + 1);
    }

    fn confuse(&mut self)
        ensures
            final(self)@ == old(self)@.confuse(),
    {
        self.lost = true;
        self.unsure = true;
    }

    fn find(&self, name: &str, reach: Reach) -> (r: Option<usize>)
        ensures
            match r {
                Some(i) => i < self.open@.len() && self@.find(name@, reach) == Some(i as int),
                None => self@.find(name@, reach) is None,
            },
    {
        find(&self.open, name, false, reach)
    }

    fn find_kin(&self, name: &str, reach: Reach) -> (r: Option<usize>)
        ensures
            match r {
                Some(i) => i < self.open@.len() && self@.find_kin(name@, reach) == Some(i as int),
                None => self@.find_kin(name@, reach) is None,
            },
    {
        find(&self.open, name, true, reach)
    }

    fn ends_in(&self, name: &str) -> (r: bool)
        ensures
            r == self@.ends_in(name@),
            r ==> self.open@.len() > 0,
    {
        assert(self@.open.len() == self.open@.len());
        self.open.len() > 0 && same(self.open[self.open.len() - 1].as_str(), name)
    }

    fn close_p(&mut self)
        ensures
            final(self)@ == old(self)@.close_p(),
    {
        if let Some(i) = self.find("p", Reach::Button) {
            self.leave(i);
        } else if let Some(i) = self.find("p?", Reach::Button) {
            self.drop_at(i);
        }
    }

    fn blur_p(&mut self)
        ensures
            final(self)@ == old(self)@.blur_p(),
    {
        if let Some(i) = self.find("p", Reach::Button) {
            let ghost before = self.open@;
            self.open.set(i, owned("p?"));
            assert(texts(self.open@) =~= texts(before).update(i as int, "p?"@));
        }
    }

    fn blur(&mut self)
        ensures
            final(self)@ == old(self)@.blur(),
    {
        if item(last_special(&self.open)) {
            self.lost = true;
        } else {
            self.blur_p();
        }
    }

    fn cell_at(&self) -> (r: Option<usize>)
        ensures
            match r {
                Some(i) => i < self.open@.len() && self@.cell_at() == Some(i as int),
                None => self@.cell_at() is None,
            },
    {
        match self.find_kin("td", Reach::Table) {
            Some(i) => Some(i),
            None => self.find("caption", Reach::Table),
        }
    }

    fn leave_cell(&mut self)
        ensures
            final(self)@ == old(self)@.leave_cell(),
    {
        if let Some(i) = self.cell_at() {
            self.clip(i);
        }
    }

    fn bare_table(&self) -> (r: Option<usize>)
        ensures
            match r {
                Some(i) => i < self.open@.len() && self@.bare_table() == Some(i as int),
                None => self@.bare_table() is None,
            },
    {
        if self.cell_at().is_some() {
            None
        } else {
            self.find("table", Reach::Table)
        }
    }

    /// Whether a special element is open from `from` on.
    fn special_from(&self, from: usize) -> (r: bool)
        requires
            from <= self.open@.len(),
        ensures
            r == has_special(self@.open.skip(from as int)),
    {
        let ghost rest = self@.open.skip(from as int);
        let mut i: usize = from;
        assert(self@.open.len() == self.open@.len());
        while i < self.open.len()
            invariant
                from <= i <= self.open@.len(),
                self@.open == texts(self.open@),
                rest == self@.open.skip(from as int),
                forall|j: int| 0 <= j < i - from ==> !is_special(#[trigger] rest[j]),
            decreases self.open.len() - i,
        {
            assert(rest[i - from] == self.open@[i as int]@);
            if special(self.open[i].as_str()) {
                return true;
            }
            i = i + 1;
        }
        assert(rest.len() == self.open@.len() - from);
        false
    }

    fn start_item(&mut self, name: &str)
        ensures
            final(self)@ == old(self)@.start_item(name@),
    {
        if let Some(i) = self.find_kin(name, Reach::Near) {
            self.leave(i);
        }
        self.close_p();
        let stray = same(name, "li") && marked(&self.open) && !listed(&self.open);
        self.push(name);
        if stray {
            self.refused = true;
        }
    }

    fn start_heading(&mut self, name: &str)
        ensures
            final(self)@ == old(self)@.start_heading(name@),
    {
        self.close_p();
        assert(self@.open.len() == self.open@.len());
        if self.open.len() > 0 && heading(self.open[self.open.len() - 1].as_str())
            && !self.is_blurred() {
            self.pop();
        } else if heading(last_special(&self.open)) {
            self.lost = true;
        }
        self.push(name);
    }

    fn start_part(&mut self, name: &str)
        ensures
            final(self)@ == old(self)@.start_part(name@),
    {
        let t = match self.table_behind() {
            Some(t) => t,
            None => return,
        };
        self.leave_cell();
        if column(name) {
            self.empty_out(t);
        } else if group(name) || same(name, "caption") {
            self.empty_out(t);
            self.push(name);
        } else {
            let row = self.find("tr", Reach::Table);
            if cell(name) && row.is_some() {
                self.empty_out(row.unwrap());
                self.push(name);
            } else {
                match self.find_kin("tbody", Reach::Table) {
                    Some(g) => {
                        self.empty_out(g);
                    },
                    None => {
                        self.empty_out(t);
                        self.push("tbody");
                    },
                }
                self.push("tr");
                if cell(name) {
                    self.push(name);
                }
            }
        }
    }

    /// Where the innermost table begins, after the end of the cell that is open in it.
    fn table_behind(&self) -> (r: Option<usize>)
        ensures
            match r {
                Some(t) => t < self@.leave_cell().open.len() && self@.leave_cell().find(
                    "table"@,
                    Reach::Table,
                ) == Some(t as int),
                None => self@.leave_cell().find("table"@, Reach::Table) is None,
            },
    {
        let mut rest = Outline {
            open: clone_strings(self.open.as_slice()),
            form: self.form,
            renewed: self.renewed,
            lost: self.lost,
            unsure: self.unsure,
            refused: self.refused,
        };
        assert(rest@ =~= self@);
        rest.leave_cell();
        rest.find("table", Reach::Table)
    }

    fn leave_tables(&mut self)
        ensures
            final(self)@ == old(self)@.leave_tables(),
        decreases old(self).open@.len(),
    {
        if let Some(t) = self.bare_table() {
            proof {
                lemma_formats_len(self@.open.skip(t + 1));
                assert(self@.open.len() == self.open@.len());
                assert(self@.leave(t as int).open.len() < self@.open.len());
            }
            self.leave(t);
            assert(self@.open.len() == self.open@.len());
            self.leave_tables();
        }
    }

    fn start_form(&mut self)
        ensures
            final(self)@ == old(self)@.start_form(),
    {
        if !self.form {
            if self.bare_table().is_none() {
                self.close_p();
                self.push("form");
            }
            self.form = true;
        }
    }

    fn start_choice(&mut self, name: &str)
        ensures
            final(self)@ == old(self)@.start_choice(name@),
    {
        let chosen = self.find("select", Reach::Wall).is_some();
        if chosen {
            self.blur();
        }
        if !self.is_blurred() && self.ends_in("option") {
            self.pop();
        }
        if !self.is_blurred() && chosen && same(name, "optgroup") && self.ends_in("optgroup") {
            self.pop();
        }
        self.push(name);
    }

    fn start_ruby(&mut self, name: &str)
        ensures
            final(self)@ == old(self)@.start_ruby(name@),
    {
        if let Some(i) = self.find("ruby", Reach::Wall) {
            let mut below = clone_strings(self.open.as_slice());
            clip_names(&mut below, i);
            if self.special_from(i) || has_name(&below, "ruby") {
                self.blur();
            }
        }
        self.push(name);
    }

    fn start_link(&mut self, name: &str)
        ensures
            final(self)@ == old(self)@.start_link(name@),
    {
        if let Some(i) = self.find(name, Reach::Fence) {
            if softened(&self.open) {
                self.lost = true;
            } else if same(name, "a") && !self.special_from(i) {
                self.drop_at(i);
            } else {
                self.renewed = true;
            }
        }
        self.push(name);
    }

    fn start_other(&mut self, name: &str)
        ensures
            final(self)@ == old(self)@.start_other(name@),
    {
        if same(name, "form") {
            self.start_form();
        } else if same(name, "select") {
            match self.find("select", Reach::Wall) {
                Some(i) => self.leave(i),
                None => self.push(name),
            }
        } else if same(name, "button") {
            if let Some(i) = self.find("button", Reach::Wall) {
                self.leave(i);
            }
            self.push(name);
        } else if same(name, "input") {
            if let Some(i) = self.find("select", Reach::Wall) {
                if self.bare_table().is_some() {
                    self.lost = true;
                } else {
                    self.leave(i);
                }
            }
        } else if same(name, "hr") {
            self.close_p();
            if self.find("select", Reach::Wall).is_some() {
                self.blur();
            }
        } else if same(name, "option") || same(name, "optgroup") {
            self.start_choice(name);
        } else if ruby(name) {
            self.start_ruby(name);
        } else if same(name, "a") || same(name, "nobr") {
            self.start_link(name);
        } else if same(name, "isindex") {
            self.lost = true;
            self.push(name);
        } else if same(name, "frameset") {
            self.confuse();
            self.push(name);
        } else if flat(name) {
        } else {
            self.push(name);
        }
    }

    fn start_plain(&mut self, name: &str, closed: bool)
        ensures
            final(self)@ == old(self)@.start_plain(name@, closed),
    {
        if item(name) {
            self.start_item(name);
        } else if drawing(name) {
            if !closed {
                self.push(name);
            }
        } else if heading(name) {
            self.start_heading(name);
        } else if block(name) || soft(name) || same(name, "p") || same(name, "plaintext") || same(
            name,
            "xmp",
        ) {
            self.close_p();
            self.push(name);
        } else if part(name) {
            self.start_part(name);
        } else if same(name, "table") {
            self.leave_tables();
            self.blur_p();
            self.push(name);
        } else {
            self.start_other(name);
        }
    }

    fn start_inert(&mut self, name: &str)
        ensures
            final(self)@ == old(self)@.start_inert(name@),
    {
        if same(name, "template") {
            self.push(name);
        } else if same(name, "frameset") || same(name, "plaintext") {
            self.refused = true;
        } else if drawing(name) {
            self.unsure = true;
        }
    }

    fn start_lost(&mut self, name: &str)
        ensures
            final(self)@ == old(self)@.start_lost(name@),
    {
        if drawing(name) || same(name, "frameset") {
            self.confuse();
        }
        if same(name, "li") && marked(&self.open) || same(name, "plaintext") && self.unsure {
            self.refused = true;
        } else if flat(name) && !self.unsure {
        } else if self.unsure && same(name, "template") {
            self.push("?");
        } else {
            self.push(name);
        }
    }

    fn start_drawn(&mut self, name: &str, closed: bool)
        requires
            old(self)@.drawn(),
        ensures
            final(self)@ == old(self)@.start_drawn(name@, closed),
    {
        if leaf(last_name(&self.open)) || !breakout(name) && (special(name) || soft(name) || same(
            name,
            "font",
        ) || same(name, "frameset")) {
            self.confuse();
            self.start_lost(name);
        } else if breakout(name) {
            if let Some(i) = find_drawing(&self.open) {
                self.clip(i);
                self.start_plain(name, closed);
            }
        } else if !closed {
            self.push(name);
        }
    }

    fn is_drawn(&self) -> (r: bool)
        ensures
            r == self@.drawn(),
    {
        !self.lost && find_drawing(&self.open).is_some()
    }

    /// A start tag, which may be closed at once.
    fn start(&mut self, name: &str, closed: bool)
        ensures
            final(self)@ == old(self)@.start(name@, closed),
    {
        if self.refused || same(name, "selectedcontent") {
            self.refused = true;
        } else if self.ends_in("template") {
            self.start_inert(name);
        } else if self.lost {
            self.start_lost(name);
        } else if self.is_drawn() {
            self.start_drawn(name, closed);
        } else {
            self.start_plain(name, closed);
        }
        assert(self@.open.len() == self.open@.len());
        if self.open.len() > MAX_NESTING || count_tables(&self.open) > MAX_TABLES {
            self.refused = true;
        }
    }

    fn end_form(&mut self)
        ensures
            final(self)@ == old(self)@.end_form(),
    {
        if self.form {
            self.form = false;
            if self.find("form", Reach::Wall).is_none() {
                if has_name(&self.open, "form") {
                    self.lost = true;
                }
            } else {
                self.blur();
                if let Some(i) = self.find("form", Reach::Wall) {
                    remove_name(&mut self.open, i);
                }
            }
        }
    }

    fn end_part(&mut self, name: &str)
        ensures
            final(self)@ == old(self)@.end_part(name@),
    {
        if let Some(i) = self.find(name, Reach::Table) {
            if cell(name) || same(name, "caption") {
                self.clip(i);
            } else {
                self.leave_cell();
                if let Some(j) = self.find(name, Reach::Table) {
                    self.leave(j);
                }
            }
        }
    }

    fn end_loose(&mut self, name: &str)
        ensures
            final(self)@ == old(self)@.end_loose(name@),
    {
        if self.ends_in(name) {
            self.pop();
        } else if !has_name(&self.open, name) {
        } else if softened(&self.open) {
            self.lost = true;
        } else {
            self.renewed = true;
            if let Some(i) = self.find(name, Reach::Fence) {
                if format(name) && !self.special_from(i) {
                    self.drop_at(i);
                }
            }
        }
    }

    fn end_plain(&mut self, name: &str)
        ensures
            final(self)@ == old(self)@.end_plain(name@),
    {
        if block(name) || soft(name) || holder(name) {
            if let Some(i) = find(&self.open, name, heading(name), Reach::Wall) {
                if fence(name) {
                    self.clip(i);
                } else {
                    self.leave(i);
                }
            }
        } else if column(name) || same(name, "template") {
        } else if part(name) || same(name, "table") {
            self.end_part(name);
        } else if item(name) {
            let reach = if same(name, "li") {
                Reach::Item
            } else {
                Reach::Wall
            };
            if let Some(i) = self.find(name, reach) {
                self.leave(i);
            }
        } else if same(name, "p") {
            self.close_p();
        } else if same(name, "form") {
            self.end_form();
        } else {
            self.end_loose(name);
        }
    }

    fn end_through(&mut self, name: &str)
        ensures
            final(self)@ == old(self)@.end_through(name@),
    {
        if same(name, "form") && !self.form {
        } else if special(name) && !same(name, "form") {
            self.end_plain(name);
        } else if has_name(&self.open, name) || same(name, "form") {
            self.confuse();
        }
    }

    fn end_drawn(&mut self, name: &str)
        requires
            old(self)@.drawn(),
        ensures
            final(self)@ == old(self)@.end_drawn(name@),
    {
        let root = match find_drawing(&self.open) {
            Some(i) => i,
            None => return,
        };
        if self.ends_in(name) {
            self.pop();
        } else if leaf_from(&self.open, root) {
            self.confuse();
        } else if same(name, "p") || same(name, "br") {
            self.clip(root);
            self.end_plain(name);
        } else {
            match self.find(name, Reach::Near) {
                Some(i) => if i >= root {
                    self.clip(i);
                } else {
                    self.end_through(name);
                },
                None => self.end_through(name),
            }
        }
    }

    /// An end tag.
    fn end(&mut self, name: &str)
        ensures
            final(self)@ == old(self)@.end(name@),
    {
        if self.refused {
        } else if self.ends_in("template") {
            if same(name, "template") {
                self.pop();
            }
        } else if self.lost {
            if self.ends_in(name) {
                self.pop();
            }
        } else if self.is_drawn() {
            self.end_drawn(name);
        } else {
            self.end_plain(name);
        }
    }
}

// ---- tags

/// Where in the page the reading stands.
#[derive(Clone, Copy, Debug, PartialEq, Eq, Structural)]
pub enum Mode {
    Text,
    /// After `<`.
    Open,
    /// After `</`.
    Close,
    /// In the name of a tag.
    Name,
    /// Before an attribute.
    Gap,
    /// In the name of an attribute.
    Attribute,
    /// After the name of an attribute.
    Named,
    /// Before the value of an attribute.
    Equals,
    Double,
    Single,
    Bare,
    /// After `<!`.
    Bang,
    /// After `<!-`.
    BangDash,
    /// After `<!--`.
    Begun,
    /// After `<!---`.
    BegunDash,
    Comment,
    /// In a comment after `-`.
    Dash,
    /// In a comment after `--`.
    Dashes,
    /// In a comment after `--!`.
    DashesBang,
    /// In something that ends with the next `>`.
    Skip,
    /// In text in which only one end tag counts.
    Raw,
    /// There, after `<`.
    RawOpen,
    /// There, in the name of an end tag.
    RawName,
    /// In text that goes on to the end of the page.
    Plain,
}

/// The reading of a page.
#[derive(Debug)]
pub struct Scan {
    pub mode: Mode,
    /// Whether the tag is an end tag.
    pub ends: bool,
    /// Whether the last character was a slash between attributes.
    pub slash: bool,
    /// The name of the tag as far as it has come.
    pub name: String,
    /// The element whose text is being read.
    pub raw: String,
    pub page: Outline,
}

/// The model of a [`Scan`].
#[verifier::ext_equal]
pub struct ScanV {
    pub mode: Mode,
    pub ends: bool,
    pub slash: bool,
    pub name: Seq<char>,
    pub raw: Seq<char>,
    pub page: OutlineV,
}

impl View for Scan {
    type V = ScanV;

    open spec fn view(&self) -> ScanV {
        ScanV {
            mode: self.mode,
            ends: self.ends,
            slash: self.slash,
            name: self.name@,
            raw: self.raw@,
            page: self.page@,
        }
    }
}

/// White space between attributes.
pub open spec fn is_blank(c: char) -> bool {
    c == ' ' || c == '\t' || c == '\n' || c == '\r' || c == '\u{c}'
}

pub open spec fn is_letter(c: char) -> bool {
    'a' <= c && c <= 'z' || 'A' <= c && c <= 'Z'
}

fn blank(c: char) -> (r: bool)
    ensures
        r == is_blank(c),
{
    c == ' ' || c == '\t' || c == '\n' || c == '\r' || c == '\u{c}'
}

fn letter(c: char) -> (r: bool)
    ensures
        r == is_letter(c),
{
    'a' <= c && c <= 'z' || 'A' <= c && c <= 'Z'
}

impl OutlineV {
    /// Whether the tags belong to a drawing.
    pub open spec fn foreign(self) -> bool {
        !self.inert() && self.drawn() && !is_leaf(top(self.open))
    }

    /// How the page is read on after the start tag.
    pub open spec fn mode_after(self, name: Seq<char>) -> Mode {
        if self.foreign() {
            Mode::Text
        } else if name == "plaintext"@ {
            Mode::Plain
        } else if is_raw(name) {
            Mode::Raw
        } else {
            Mode::Text
        }
    }

    /// Whether text that holds anything like a tag is refused.
    pub open spec fn strict(self) -> bool {
        self.inert() || self.lost && self.unsure
    }

    /// Whether a section of plain characters may begin.
    pub open spec fn takes_sections(self) -> bool {
        self.unsure && self.strict() || self.drawn()
    }
}

impl ScanV {
    pub open spec fn begin() -> ScanV {
        ScanV {
            mode: Mode::Text,
            ends: false,
            slash: false,
            name: Seq::empty(),
            raw: Seq::empty(),
            page: OutlineV::empty(),
        }
    }

    pub open spec fn to(self, mode: Mode) -> ScanV {
        ScanV { mode, ..self }
    }

    /// The first character of a name.
    pub open spec fn begin_name(self, ends: bool, c: char) -> ScanV {
        ScanV {
            mode: Mode::Name,
            ends,
            slash: false,
            name: seq![ascii_lower(c)],
            ..self
        }
    }

    /// The end of a tag.
    pub open spec fn finish(self) -> ScanV {
        if self.ends {
            ScanV { mode: Mode::Text, page: self.page.end(self.name), ..self }
        } else {
            ScanV {
                mode: self.page.mode_after(self.name),
                raw: self.name,
                page: self.page.start(self.name, self.slash),
                ..self
            }
        }
    }

    /// What was no end tag after all.
    pub open spec fn back_to_raw(self, c: char) -> ScanV {
        ScanV {
            mode: if c == '<' {
                Mode::RawOpen
            } else {
                Mode::Raw
            },
            page: if self.page.strict() || c == '!' && self.raw == "script"@ {
                self.page.refuse()
            } else {
                self.page
            },
            ..self
        }
    }

    /// A character inside a tag.
    pub open spec fn attribute(self, c: char) -> ScanV {
        let quoted = self.mode == Mode::Double || self.mode == Mode::Single;
        let valued = quoted || self.mode == Mode::Bare || self.mode == Mode::Equals;
        if self.mode == Mode::Double {
            self.to(
                if c == '"' {
                    Mode::Gap
                } else {
                    Mode::Double
                },
            )
        } else if self.mode == Mode::Single {
            self.to(
                if c == '\'' {
                    Mode::Gap
                } else {
                    Mode::Single
                },
            )
        } else if c == '>' {
            self.finish()
        } else if is_blank(c) {
            let s = ScanV { slash: false, ..self };
            if self.mode == Mode::Equals {
                s
            } else if self.mode == Mode::Attribute || self.mode == Mode::Named {
                s.to(Mode::Named)
            } else {
                s.to(Mode::Gap)
            }
        } else if c == '/' && !valued {
            ScanV { mode: Mode::Gap, slash: true, ..self }
        } else {
            let s = ScanV { slash: false, ..self };
            if self.mode == Mode::Equals {
                s.to(
                    if c == '"' {
                        Mode::Double
                    } else if c == '\'' {
                        Mode::Single
                    } else {
                        Mode::Bare
                    },
                )
            } else if self.mode == Mode::Bare {
                s
            } else if c == '=' && self.mode != Mode::Gap {
                s.to(Mode::Equals)
            } else {
                s.to(Mode::Attribute)
            }
        }
    }

    /// A character in a comment or a declaration.
    pub open spec fn comment(self, c: char) -> ScanV {
        if self.mode == Mode::Bang {
            if c == '-' {
                self.to(Mode::BangDash)
            } else if c == '>' {
                self.to(Mode::Text)
            } else if c == '[' && self.page.takes_sections() {
                ScanV { mode: Mode::Skip, page: self.page.refuse(), ..self }
            } else {
                self.to(Mode::Skip)
            }
        } else if self.mode == Mode::BangDash {
            self.to(
                if c == '-' {
                    Mode::Begun
                } else if c == '>' {
                    Mode::Text
                } else {
                    Mode::Skip
                },
            )
        } else if self.mode == Mode::Begun {
            self.to(
                if c == '-' {
                    Mode::BegunDash
                } else if c == '>' {
                    Mode::Text
                } else {
                    Mode::Comment
                },
            )
        } else if self.mode == Mode::BegunDash {
            self.to(
                if c == '-' {
                    Mode::Dashes
                } else if c == '>' {
                    Mode::Text
                } else {
                    Mode::Comment
                },
            )
        } else if self.mode == Mode::Dash {
            self.to(
                if c == '-' {
                    Mode::Dashes
                } else {
                    Mode::Comment
                },
            )
        } else if self.mode == Mode::Dashes {
            self.to(
                if c == '>' {
                    Mode::Text
                } else if c == '!' {
                    Mode::DashesBang
                } else if c == '-' {
                    Mode::Dashes
                } else {
                    Mode::Comment
                },
            )
        } else if self.mode == Mode::DashesBang && c == '>' {
            self.to(Mode::Text)
        } else {
            self.to(
                if c == '-' {
                    Mode::Dash
                } else {
                    Mode::Comment
                },
            )
        }
    }

    /// One character.
    pub open spec fn step(self, c: char) -> ScanV {
        match self.mode {
            Mode::Text => if c == '<' {
                self.to(Mode::Open)
            } else {
                self
            },
            Mode::Open => if is_letter(c) {
                self.begin_name(false, c)
            } else {
                self.to(
                    if c == '/' {
                        Mode::Close
                    } else if c == '!' {
                        Mode::Bang
                    } else if c == '?' {
                        Mode::Skip
                    } else if c == '<' {
                        Mode::Open
                    } else {
                        Mode::Text
                    },
                )
            },
            Mode::Close => if is_letter(c) {
                self.begin_name(true, c)
            } else {
                self.to(
                    if c == '>' {
                        Mode::Text
                    } else {
                        Mode::Skip
                    },
                )
            },
            Mode::Name => if c == '>' {
                self.finish()
            } else if is_blank(c) {
                self.to(Mode::Gap)
            } else if c == '/' {
                ScanV { mode: Mode::Gap, slash: true, ..self }
            } else {
                ScanV { name: self.name.push(ascii_lower(c)), ..self }
            },
            Mode::Skip => if c == '>' {
                self.to(Mode::Text)
            } else {
                self
            },
            Mode::Raw => if c == '<' {
                self.to(Mode::RawOpen)
            } else {
                self
            },
            Mode::RawOpen => if c == '/' {
                ScanV { mode: Mode::RawName, name: Seq::empty(), ..self }
            } else {
                self.back_to_raw(c)
            },
            Mode::RawName => if is_letter(c) || c == '-' {
                ScanV { name: self.name.push(ascii_lower(c)), ..self }
            } else if self.name == self.raw && c == '>' {
                ScanV { ends: true, slash: false, ..self }.finish()
            } else if self.name == self.raw && (is_blank(c) || c == '/') {
                ScanV { mode: Mode::Gap, ends: true, slash: false, ..self }
            } else {
                self.back_to_raw(c)
            },
            Mode::Gap | Mode::Attribute | Mode::Named | Mode::Equals | Mode::Double | Mode::Single
            | Mode::Bare => self.attribute(c),
            Mode::Plain => self,
            _ => self.comment(c),
        }
    }
}

/// The reading of the first `n` characters.
pub open spec fn scanned(s: Seq<char>, n: int) -> ScanV
    decreases n,
{
    if n <= 0 {
        ScanV::begin()
    } else {
        scanned(s, n - 1).step(s[n - 1])
    }
}

/// Whether a page can be turned into Markdown: an item stands in a list, or no mark is open
/// there, and no more elements and tables are open at once than may be.
pub open spec fn convertible(html: Seq<char>) -> bool {
    !scanned(html, html.len() as int).page.refused
}

impl Scan {
    fn finish(&mut self)
        ensures
            final(self)@ == old(self)@.finish(),
    {
        let name = self.name.clone();
        if self.ends {
            self.mode = Mode::Text;
            self.page.end(name.as_str());
            return ;
        }
        let foreign = !self.page.ends_in("template") && self.page.is_drawn() && !leaf(
            last_name(&self.page.open),
        );
        self.mode = if foreign {
            Mode::Text
        } else if same(name.as_str(), "plaintext") {
            Mode::Plain
        } else if raw(name.as_str()) {
            Mode::Raw
        } else {
            Mode::Text
        };
        self.page.start(name.as_str(), self.slash);
        self.raw = name;
    }

    fn begin_name(&mut self, ends: bool, c: char)
        ensures
            final(self)@ == old(self)@.begin_name(ends, c),
    {
        self.mode = Mode::Name;
        self.ends = ends;
        self.slash = false;
        let mut name = String::new();
        name.push(to_ascii_lower(c));
        assert(name@ =~= seq![ascii_lower(c)]);
        self.name = name;
    }

    fn strict(&self) -> (r: bool)
        ensures
            r == self@.page.strict(),
    {
        self.page.ends_in("template") || self.page.lost && self.page.unsure
    }

    fn back_to_raw(&mut self, c: char)
        ensures
            final(self)@ == old(self)@.back_to_raw(c),
    {
        self.mode = if c == '<' {
            Mode::RawOpen
        } else {
            Mode::Raw
        };
        if self.strict() || c == '!' && same(self.raw.as_str(), "script") {
            self.page.refused = true;
        }
    }

    fn attribute(&mut self, c: char)
        ensures
            final(self)@ == old(self)@.attribute(c),
    {
        let valued = self.mode == Mode::Double || self.mode == Mode::Single || self.mode
            == Mode::Bare || self.mode == Mode::Equals;
        if self.mode == Mode::Double {
            if c == '"' {
                self.mode = Mode::Gap;
            }
        } else if self.mode == Mode::Single {
            if c == '\'' {
                self.mode = Mode::Gap;
            }
        } else if c == '>' {
            self.finish();
        } else if blank(c) {
            self.slash = false;
            if self.mode == Mode::Equals {
            } else if self.mode == Mode::Attribute || self.mode == Mode::Named {
                self.mode = Mode::Named;
            } else {
                self.mode = Mode::Gap;
            }
        } else if c == '/' && !valued {
            self.mode = Mode::Gap;
            self.slash = true;
        } else {
            self.slash = false;
            if self.mode == Mode::Equals {
                self.mode = if c == '"' {
                    Mode::Double
                } else if c == '\'' {
                    Mode::Single
                } else {
                    Mode::Bare
                };
            } else if self.mode == Mode::Bare {
            } else if c == '=' && self.mode != Mode::Gap {
                self.mode = Mode::Equals;
            } else {
                self.mode = Mode::Attribute;
            }
        }
    }

    fn comment(&mut self, c: char)
        ensures
            final(self)@ == old(self)@.comment(c),
    {
        if self.mode == Mode::Bang && c == '[' && (self.page.unsure && self.strict()
            || self.page.is_drawn()) {
            self.page.refused = true;
        }
        let next = match self.mode {
            Mode::Bang => if c == '-' {
                Mode::BangDash
            } else if c == '>' {
                Mode::Text
            } else {
                Mode::Skip
            },
            Mode::BangDash => if c == '-' {
                Mode::Begun
            } else if c == '>' {
                Mode::Text
            } else {
                Mode::Skip
            },
            Mode::Begun => if c == '-' {
                Mode::BegunDash
            } else if c == '>' {
                Mode::Text
            } else {
                Mode::Comment
            },
            Mode::BegunDash => if c == '-' {
                Mode::Dashes
            } else if c == '>' {
                Mode::Text
            } else {
                Mode::Comment
            },
            Mode::Dash => if c == '-' {
                Mode::Dashes
            } else {
                Mode::Comment
            },
            Mode::Dashes => if c == '>' {
                Mode::Text
            } else if c == '!' {
                Mode::DashesBang
            } else if c == '-' {
                Mode::Dashes
            } else {
                Mode::Comment
            },
            _ => if self.mode == Mode::DashesBang && c == '>' {
                Mode::Text
            } else if c == '-' {
                Mode::Dash
            } else {
                Mode::Comment
            },
        };
        self.mode = next;
    }

    fn step(&mut self, c: char)
        ensures
            final(self)@ == old(self)@.step(c),
    {
        match self.mode {
            Mode::Text => {
                if c == '<' {
                    self.mode = Mode::Open;
                }
            },
            Mode::Open => {
                if letter(c) {
                    self.begin_name(false, c);
                } else {
                    self.mode = if c == '/' {
                        Mode::Close
                    } else if c == '!' {
                        Mode::Bang
                    } else if c == '?' {
                        Mode::Skip
                    } else if c == '<' {
                        Mode::Open
                    } else {
                        Mode::Text
                    };
                }
            },
            Mode::Close => {
                if letter(c) {
                    self.begin_name(true, c);
                } else {
                    self.mode = if c == '>' {
                        Mode::Text
                    } else {
                        Mode::Skip
                    };
                }
            },
            Mode::Name => {
                if c == '>' {
                    self.finish();
                } else if blank(c) {
                    self.mode = Mode::Gap;
                } else if c == '/' {
                    self.mode = Mode::Gap;
                    self.slash = true;
                } else {
                    self.name.push(to_ascii_lower(c));
                }
            },
            Mode::Skip => {
                if c == '>' {
                    self.mode = Mode::Text;
                }
            },
            Mode::Raw => {
                if c == '<' {
                    self.mode = Mode::RawOpen;
                }
            },
            Mode::RawOpen => {
                if c == '/' {
                    self.mode = Mode::RawName;
                    self.name = String::new();
                    assert(self.name@ =~= Seq::empty());
                } else {
                    self.back_to_raw(c);
                }
            },
            Mode::RawName => {
                let found = same(self.name.as_str(), self.raw.as_str());
                if letter(c) || c == '-' {
                    self.name.push(to_ascii_lower(c));
                } else if found && c == '>' {
                    self.ends = true;
                    self.slash = false;
                    self.finish();
                } else if found && (blank(c) || c == '/') {
                    self.mode = Mode::Gap;
                    self.ends = true;
                    self.slash = false;
                } else {
                    self.back_to_raw(c);
                }
            },
            Mode::Gap | Mode::Attribute | Mode::Named | Mode::Equals | Mode::Double | Mode::Single
            | Mode::Bare => self.attribute(c),
            Mode::Plain => {},
            _ => self.comment(c),
        }
    }
}

/// Whether a page can be turned into Markdown.
pub fn is_convertible(html: &str) -> (r: bool)
    ensures
        r == convertible(html@),
{
    let v = to_chars(html);
    let mut scan = Scan {
        mode: Mode::Text,
        ends: false,
        slash: false,
        name: String::new(),
        raw: String::new(),
        page: Outline::new(),
    };
    assert(scan@ =~= ScanV::begin());
    let mut i: usize = 0;
    while i < v.len()
        invariant
            i <= v@.len(),
            scan@ == scanned(v@, i as int),
        decreases v.len() - i,
    {
        scan.step(v[i]);
        i = i + 1;
    }
    !scan.page.refused
}

// ---- laws

/// A page that has been refused stays so.
pub proof fn lemma_refused_stays(html: Seq<char>, n: int, m: int)
    requires
        0 <= n <= m <= html.len(),
        scanned(html, n).page.refused,
    ensures
        scanned(html, m).page.refused,
    decreases m - n,
{
    if n < m {
        lemma_refused_stays(html, n, m - 1);
    }
}

proof fn lemma_scanned_prefix(a: Seq<char>, b: Seq<char>, n: int)
    requires
        0 <= n <= a.len(),
    ensures
        scanned(a + b, n) == scanned(a, n),
    decreases n,
{
    if n > 0 {
        lemma_scanned_prefix(a, b, n - 1);
        assert((a + b)[n - 1] == a[n - 1]);
    }
}

/// Whatever follows it, a page that cannot be turned into Markdown stays one that cannot.
pub proof fn lemma_nothing_mends_a_page(a: Seq<char>, b: Seq<char>)
    requires
        !convertible(a),
    ensures
        !convertible(a + b),
{
    lemma_scanned_prefix(a, b, a.len() as int);
    lemma_refused_stays(a + b, a.len() as int, (a + b).len() as int);
}

proof fn lemma_scanned_text(html: Seq<char>, n: int)
    requires
        0 <= n <= html.len(),
        forall|i: int| 0 <= i < html.len() ==> html[i] != '<',
    ensures
        scanned(html, n) == ScanV::begin(),
    decreases n,
{
    if n > 0 {
        lemma_scanned_text(html, n - 1);
    }
}

/// Text without a tag can be turned into Markdown.
pub proof fn lemma_text_is_convertible(html: Seq<char>)
    requires
        forall|i: int| 0 <= i < html.len() ==> html[i] != '<',
    ensures
        convertible(html),
{
    lemma_scanned_text(html, html.len() as int);
}

/// Where no mark is open, or in a list, an item is refused only where too much is open.
pub proof fn lemma_item_is_taken(s: OutlineV, closed: bool)
    requires
        !s.refused,
        !s.inert(),
        !s.lost,
        !s.drawn(),
        ({
            let before = match s.find_kin("li"@, Reach::Near) {
                Some(i) => s.leave(i),
                None => s,
            }.close_p();
            !has_mark(before.open) || in_list(before.open)
        }),
    ensures
        s.start("li"@, closed).refused ==> s.start("li"@, closed).open.len() > MAX_NESTING
            || table_count(s.start("li"@, closed).open) > MAX_TABLES,
{
    reveal_strlit("li");
    reveal_strlit("selectedcontent");
    assert("li"@.len() == 2 && "selectedcontent"@.len() == 15);
    assert(s.start("li"@, closed) == s.start_item("li"@).limited());
}

} // verus!
