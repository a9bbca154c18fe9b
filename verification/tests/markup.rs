use gladiator::markup::is_convertible;
use gladiator::web_fetch::convert_html_to_markdown;

/// The next number of a fixed sequence.
fn next(state: &mut u64) -> u64 {
    *state = state.wrapping_mul(6364136223846793005).wrapping_add(1442695040888963407);
    *state >> 33
}

const NAMES: [&str; 74] = [
    "a", "b", "i", "s", "em", "del", "q", "cite", "blockquote", "strong", "li", "ul", "ol", "menu",
    "div", "address", "section", "h1", "h2", "h3", "p", "span", "button", "dl", "dd", "dt", "table",
    "tr", "td", "th", "tbody", "thead", "caption", "col", "colgroup", "select", "option",
    "optgroup", "input", "hr", "svg", "g", "path", "math", "mi", "desc", "title", "foreignObject",
    "object", "applet", "form", "ruby", "rt", "pre", "br", "x-y", "dialog", "search", "template",
    "template", "nobr", "code", "font", "details", "summary", "center", "marquee", "dir", "isindex",
    "textarea", "noscript", "style", "frameset", "body",
];

/// A page of random tags and texts, of which some close what is open. Each page keeps to a few
/// kinds of elements, with items and marks among them.
fn page(state: &mut u64, tags: u64) -> String {
    let mut out = String::new();
    let mut names: Vec<&str> = vec!["li", "li", "b", "ul"];
    for _ in 0..2 + next(state) % 8 {
        names.push(NAMES[(next(state) % 74) as usize]);
    }
    let kinds = names.len() as u64;
    let mut open: Vec<&str> = Vec::new();
    for _ in 0..tags {
        match next(state) % 12 {
            0 => out.push_str("é\n"),
            1 => out.push_str("\n\nt "),
            2 | 3 => {
                let name = names[(next(state) % kinds) as usize];
                out.push_str(&format!("</{}>", name));
            }
            4 | 5 | 6 => {
                if let Some(name) = open.pop() {
                    out.push_str(&format!("</{}>", name));
                }
            }
            7 if next(state) % 8 == 0 => out.push_str("<!-- <ul> -->"),
            8 if next(state) % 8 == 0 => out.push_str("<path d='<b>'/>"),
            _ => {
                let name = names[(next(state) % kinds) as usize];
                out.push_str(&format!("<{}>", name));
                open.push(name);
            }
        }
    }
    out
}

/// Converts the pages with an item that can be converted, and counts those with a mark too.
fn converts_what_is_convertible(seed: u64, pages: usize, tags: u64) -> usize {
    let mut state = seed;
    let mut marked = 0;
    for _ in 0..pages {
        let p = page(&mut state, tags);
        if p.contains("<li>") && is_convertible(&p) {
            convert_html_to_markdown(&p);
            if p.contains("<b") || p.contains("<a>") || p.contains("<i>") || p.contains("<q>") {
                marked += 1;
            }
        }
    }
    marked
}

#[test]
fn short_pages_are_converted() {
    assert!(converts_what_is_convertible(1, 6_000, 10) > 100);
}

#[test]
fn middling_pages_are_converted() {
    assert!(converts_what_is_convertible(2, 6_000, 18) > 100);
}

#[test]
fn longer_pages_are_converted() {
    assert!(converts_what_is_convertible(3, 6_000, 30) > 100);
}

#[test]
fn repeated_pages_are_converted() {
    let mut state = 4;
    let mut deep = 0;
    for _ in 0..60 {
        let p = page(&mut state, 5).replace("</ul>", "").repeat(300);
        if is_convertible(&format!("<ul>{}", p)) {
            convert_html_to_markdown(&format!("<ul>{}", p));
        } else {
            deep += 1;
        }
    }
    assert!(deep > 10 && deep < 50);
}
