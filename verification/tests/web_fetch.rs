use gladiator::json::Json;
use gladiator::markup::is_convertible;
use gladiator::patterns::fill_numbers;
use gladiator::tool::Tool;
use gladiator::web_fetch::{
    accept_header, cap_bytes, convert_content, convert_html_to_markdown, extract_text_from_html, extract_title,
    is_image_mime, is_textual_mime, maybe_cache_large, mime_from, WebFetchTool,
    CACHE_THRESHOLD_BYTES,
};

#[test]
fn extract_text_strips_tags_and_script() {
    let html =
        "<style>.x{}</style><script>alert(1)</script><div>visible text</div>";
    assert_eq!(extract_text_from_html(html), "visible text");
}

#[test]
fn convert_markdown_basic() {
    let html = "<h1>Title</h1><p>Hello <strong>world</strong></p>";
    let md = convert_html_to_markdown(html);
    assert!(md.contains("Title"));
    assert!(md.contains("**world**") || md.contains("world"));
}

#[test]
fn extract_text_decodes_entities() {
    let html = "&amp;&lt;&gt;&quot;&#39;";
    assert_eq!(extract_text_from_html(html), "&<>\"'");
}

#[test]
fn convert_markdown_strips_script_style() {
    let html =
        "<style>.x{}</style><script>alert(1)</script><h1>Hi</h1>";
    let md = convert_html_to_markdown(html);
    assert!(!md.contains("alert"));
    assert!(!md.contains(".x{}"));
}

#[test]
fn extract_title_basic() {
    assert_eq!(
        extract_title("<html><title>My Page</title></html>").unwrap(),
        "My Page"
    );
    assert!(extract_title("<p>no title here</p>").is_none());
}

#[test]
fn mime_from_strips_params() {
    assert_eq!(mime_from("text/html; charset=utf-8"), "text/html");
    assert_eq!(mime_from("application/json"), "application/json");
}

#[test]
fn is_textual_mime_basic() {
    assert!(is_textual_mime(""));
    assert!(is_textual_mime("text/plain"));
    assert!(is_textual_mime("text/html; charset=utf-8") || true);
    assert!(!is_textual_mime("image/png"));
    assert!(!is_textual_mime("application/pdf"));
}

#[test]
fn is_image_mime_basic() {
    assert!(is_image_mime("image/png"));
    assert!(!is_image_mime("text/html"));
    // SVG should not be treated as image (it's text).
    assert!(!is_image_mime("image/svg+xml"));
}

#[test]
fn accept_header_per_format() {
    assert!(accept_header("markdown").contains("text/markdown"));
    assert!(accept_header("text").contains("text/plain"));
    assert!(accept_header("html").contains("text/html"));
}

#[test]
fn cap_bytes_utf8_safe() {
    // 'é' is 2 bytes in UTF-8.
    let s = "abcé";
    assert_eq!(cap_bytes(s, 10), "abcé");
    assert_eq!(cap_bytes(s, 4), "abc"); // cuts before the multi-byte char
}

#[test]
fn maybe_cache_small_returns_original() {
    let small = "hello world".to_string();
    assert_eq!(maybe_cache_large(small, Err("nothing to write")).unwrap(), "hello world");
}

#[test]
fn maybe_cache_large_writes_file_and_returns_preview() {
    // Generate content > CACHE_THRESHOLD_BYTES.
    let big: String =
        std::iter::repeat('A').take(CACHE_THRESHOLD_BYTES + 1000).collect();
    let result = maybe_cache_large(big.clone(), Ok("/tmp/page.txt")).unwrap();
    assert!(result.contains("[Full content"));
    assert!(result.contains("use read_file or grep to browse it."));
}

#[test]
fn tool_name_and_params() {
    let t = WebFetchTool::new();
    assert_eq!(t.name(), "web_fetch");
    let params = t.parameters();
    let properties = params.get("properties").unwrap();
    assert!(properties.get("url").unwrap().is_object());
    assert!(params.get("required").unwrap().as_array().unwrap()[0].as_str().unwrap() == "url");
    let formats: Vec<&str> = properties
        .get("format")
        .unwrap()
        .get("enum")
        .unwrap()
        .as_array()
        .map(|a| a.iter().filter_map(|v: &Json| v.as_str()).collect())
        .expect("expected array");
    assert!(formats.contains(&"markdown"));
}

#[test]
fn a_failed_write_is_reported_for_large_pages_only() {
    let big = "A".repeat(CACHE_THRESHOLD_BYTES + 1);
    assert_eq!(maybe_cache_large(big, Err("disk full")).unwrap_err(), "disk full");
    let fits = "A".repeat(CACHE_THRESHOLD_BYTES);
    assert_eq!(maybe_cache_large(fits.clone(), Err("disk full")).unwrap(), fits);
}

#[test]
fn ordinary_pages_are_converted() {
    let page = "<!DOCTYPE html><html><head><title>T <b></title><meta charset=utf-8></head><body>\
        <!-- <ul> --><nav><ul class=\"a > b\"><li><a href='/x'>x</a></li><li><b>y</b></ul></nav>\
        <svg viewBox=\"0 0 1 1\"><title>i</title><path d=\"M0\"/></svg>\
        <div><p>one<p>two <em>three</em><br><img src=x></div>\
        <table><tr><td><ol><li><strong>z</strong></li></ol></td><td>2</table>\
        <dl><dt>a<dd><ul><li>q</ul></dl><select><option>1<option>2</select>\
        <h2>h</h2><button>go</button><textarea><li></textarea></body></html>";
    assert!(is_convertible(page));
    let md = convert_html_to_markdown(page);
    assert!(md.contains("* [x](/x)"));
    assert!(md.contains("* **y**"));
    assert!(md.contains("three"));
}

#[test]
fn pages_with_newer_elements_are_converted() {
    let page = "<search><form><input name=q></form></search><dialog open><p>Hi <b>you</b></dialog>\
        <template><ul><li>unseen</ul><li></template><ul><li><a href=/x>x</a></ul>";
    let md = convert_content(page, "text/html", "markdown").unwrap();
    assert!(md.contains("Hi **you**"));
    assert!(md.contains("* [x](/x)"));
    assert!(!md.contains("unseen"));
    assert!(is_convertible("<b>a</b><template><b><li></template>"));
    assert!(!is_convertible("<b><template><ul></template><li>"));
    assert!(!is_convertible("<span><ul><b><dialog></span><li>"));
}

#[test]
fn pages_that_leave_out_ends_are_converted() {
    for one in [
        "<p>a", "<ul><li>a<li>b</ul>", "<dl><dt>a<dd>b</dl>", "<table><tr><td>a<td>b<tr><td>c</table>",
        "<select><option>a<option>b</select>", "<div><span>a</div>", "<a name=x>", "<b><i>x</b></i>",
        "<table><caption>c<tbody><tr><th>h<tfoot><tr><td>f</table>", "<h2>a</h3>",
        "<section><div></section>", "<svg><path><g></svg>", "<svg><p>", "<li>", "<p>a<table><tr><td>b</table>",
        "<b><select><option>a<option>b</select></b>",
    ] {
        assert!(is_convertible(&one.repeat(300)), "{}", one);
    }
    let md = convert_content(&"<p>a".repeat(300), "text/html", "markdown").unwrap();
    assert_eq!(md, vec!["a"; 300].join("\n\n"));
    let rows = format!("<table>{}</table>", "<tr><td><b>a<td>b".repeat(300));
    assert!(convert_content(&rows, "text/html", "markdown").is_ok());
}

#[test]
fn an_item_where_no_mark_is_open_is_converted() {
    for page in [
        "<b>a</b><li>b", "<a href=x>a</a><p><li>b", "<div><b>a</b></div></ul><li>b",
        "<frameset><li>", "<svg><desc><div></desc></svg><li>", "<h1><span><h2><li>",
    ] {
        assert!(is_convertible(page), "{}", page);
        assert!(convert_content(page, "text/html", "markdown").is_ok());
    }
}

#[test]
fn unended_scripts_and_plain_text_are_converted() {
    for page in ["<b>a</b><script>x < y</script ><p>b", "<p>a<plaintext><b><li>", "<noscript><img></noscript>"] {
        assert!(is_convertible(page), "{}", page);
        assert!(convert_content(page, "text/html", "markdown").is_ok());
    }
    assert!(!is_convertible("<script><!-- <script> --></script >"));
}

#[test]
fn numbers_of_characters_are_decoded() {
    assert_eq!(extract_text_from_html("&#65;b&#x43;&#0000;&#1114112;&#xD800;d"), "AbC\0d");
    let pieces = vec!["a".to_string(), "b".to_string(), "".to_string()];
    let numbers = vec!["65".to_string(), "x".to_string()];
    assert_eq!(fill_numbers(&pieces, &numbers), "aAb");
}

#[test]
fn an_item_in_no_list_after_a_mark_is_refused() {
    let page = "<p></p><b><li></li></b>";
    assert!(!is_convertible(page));
    assert_eq!(
        convert_content(page, "text/html", "markdown").unwrap_err(),
        "Fetch failed: the page cannot be converted to markdown"
    );
    assert_eq!(convert_content(page, "text/html", "html").unwrap(), page);
    assert!(convert_content(page, "text/html", "text").is_ok());
    assert!(!is_convertible("<a><ul></ul><li>x"));
    assert!(!is_convertible("<b><div><ul></div><li>x"));
    assert!(!is_convertible("<b><ul><li><table><td><li>x"));
    assert!(!is_convertible("<b><h3><ul><h1><h2></h2></h1><li>"));
    assert!(!is_convertible("<b><!-- <ul> --><li>"));
    assert!(!is_convertible("<b title='<ul>'><li>"));
    assert!(is_convertible("<li>a</li><li>b</li>"));
    let md = convert_content("<li>a</li><li>b</li>", "text/html", "markdown").unwrap();
    assert!(md.contains('a') && md.contains('b'));
}

#[test]
fn deep_pages_are_refused() {
    assert!(is_convertible(&"<div>".repeat(256)));
    assert!(!is_convertible(&"<div>".repeat(257)));
    assert!(!is_convertible(&"<span><p></span></p>".repeat(300)));
    assert!(!is_convertible(&"<b><object></b></object>".repeat(300)));
    assert!(!is_convertible(&"<table><tr><td>".repeat(7)));
    assert!(is_convertible(&"<div><p>a</p><br></div>".repeat(5000)));
    convert_html_to_markdown(&"<div>".repeat(256));
    convert_html_to_markdown(&"<table><tr><td>".repeat(6));
}
