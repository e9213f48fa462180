use www_search::browse::{extract_readable_text, ExtractError};
use www_search::dom::{Document, Step};
use www_search::engines::{run, search_url};
use www_search::render::{render, text_of_node};
use www_search::search::{extract, Correlation, EngineType, ExtractionRules, SearchData};
use www_search::url::normalize_url;

fn el(doc: &mut Document, parent: usize, tag: &str, classes: &[&str], attrs: &[(&str, &str)]) -> usize {
    let classes: Vec<String> = classes.iter().map(|c| c.to_string()).collect();
    let attrs: Vec<(String, String)> = attrs.iter().map(|(k, v)| (k.to_string(), v.to_string())).collect();
    doc.add_element(parent, tag, classes, attrs)
}

fn text(doc: &mut Document, parent: usize, t: &str) -> usize {
    doc.add_text(parent, t)
}

fn fields(r: &SearchData) -> (&str, &str, &str) {
    (r.title.as_str(), r.url.as_str(), r.description.as_str())
}

/// `<html><body>...</body></html>`, returning the document and the body.
fn page() -> (Document, usize) {
    let mut doc = Document::new();
    let html = el(&mut doc, 0, "html", &[], &[]);
    let body = el(&mut doc, html, "body", &[], &[]);
    (doc, body)
}

#[test]
fn render_wraps_emphasis_and_trims_text_nodes() {
    let mut doc = Document::new();
    let b = el(&mut doc, 0, "b", &[], &[]);
    text(&mut doc, b, "  before ");
    let em = el(&mut doc, b, "em", &[], &[]);
    text(&mut doc, em, "\n word\t");
    text(&mut doc, b, " after  ");
    assert_eq!(render(&doc, b, "em"), "before*word*after");
    assert_eq!(text_of_node(&doc, b), "  before \n word\t after  ");
}

#[test]
fn render_of_childless_element_is_empty() {
    let mut doc = Document::new();
    let b = el(&mut doc, 0, "div", &[], &[]);
    assert_eq!(render(&doc, b, "em"), "");
}

#[test]
fn normalize_unwraps_protocol_relative_redirect() {
    let raw = "//example.com/x?uddg=https%3A%2F%2Ftarget.example%2Fpage";
    assert_eq!(normalize_url(raw, "https://duckduckgo.com", Some("uddg")), "https://target.example/page");
}

#[test]
fn normalize_resolves_origin_relative_link() {
    assert_eq!(normalize_url("/search?q=hello", "https://example.com", None), "https://example.com/search?q=hello");
    assert_eq!(normalize_url("/search?q=hello", "https://example.com", Some("uddg")), "https://example.com/search?q=hello");
    assert_eq!(normalize_url("/search?q=hello", "https://example.com", Some("q")), "hello");
}

#[test]
fn normalize_keeps_plain_and_unparsable_links() {
    assert_eq!(normalize_url("https://a.example/b?x=1", "https://o.example", Some("uddg")), "https://a.example/b?x=1");
    assert_eq!(normalize_url("not a url", "https://o.example", Some("uddg")), "not a url");
    assert_eq!(normalize_url("//x.example/?uddg=", "https://o.example", Some("uddg")), "https://x.example/?uddg=");
    assert_eq!(normalize_url("", "https://o.example", Some("uddg")), "");
}

#[test]
fn search_url_encodes_query() {
    assert_eq!(search_url(EngineType::Google, "rust lang"), "https://www.google.com/search?q=rust%20lang");
    assert_eq!(search_url(EngineType::DuckDuckGo, "a&b"), "https://lite.duckduckgo.com/lite/?q=a%26b");
}

/// One DuckDuckGo lite result: a row with the link, a row with the snippet.
fn ddg_result(doc: &mut Document, table: usize, href: &str, title: &str, snippet: Option<&str>) {
    let tr = el(doc, table, "tr", &[], &[]);
    let td = el(doc, tr, "td", &[], &[]);
    let a = el(doc, td, "a", &["result-link"], &[("href", href)]);
    text(doc, a, title);
    if let Some(s) = snippet {
        let tr2 = el(doc, table, "tr", &[], &[]);
        let cell = el(doc, tr2, "td", &["result-snippet"], &[]);
        text(doc, cell, s);
    }
}

#[test]
fn duckduckgo_rows_give_results_in_order() {
    let (mut doc, body) = page();
    let table = el(&mut doc, body, "table", &[], &[]);
    ddg_result(&mut doc, table, "//duckduckgo.com/l/?uddg=https%3A%2F%2Fone.example%2F&rut=1", " One ", Some(" first snippet "));
    ddg_result(&mut doc, table, "https://two.example/", "Two", None);
    ddg_result(&mut doc, table, "https://three.example/", "Three", Some("third"));
    let r = run(EngineType::DuckDuckGo, &doc);
    assert_eq!(r.len(), 3);
    assert_eq!(fields(&r[0]), ("One", "https://one.example/", "first snippet"));
    // the scan goes on through later rows until one holds a snippet
    assert_eq!(fields(&r[1]), ("Two", "https://two.example/", "third"));
    assert_eq!(fields(&r[2]), ("Three", "https://three.example/", "third"));
}

#[test]
fn duckduckgo_result_without_snippet_has_empty_description() {
    let (mut doc, body) = page();
    let table = el(&mut doc, body, "table", &[], &[]);
    ddg_result(&mut doc, table, "https://only.example/", "Only", None);
    let r = run(EngineType::DuckDuckGo, &doc);
    assert_eq!(r.len(), 1);
    assert_eq!(fields(&r[0]), ("Only", "https://only.example/", ""));
}

/// One Google result: an anchor with `ping` and `data-ved` holding an `h3`,
/// and somewhere else a `div` with the same `data-ved` holding the snippet.
fn google_anchor(doc: &mut Document, parent: usize, target: &str, key: &str, title: &str) {
    let ping = format!("/url?sa=t&source=web&url={}&ved={}", target, key);
    let a = el(doc, parent, "a", &[], &[("ping", ping.as_str()), ("data-ved", key), ("href", target)]);
    let h3 = el(doc, a, "h3", &[], &[]);
    text(doc, h3, title);
}

fn google_snippet(doc: &mut Document, parent: usize, key: &str, words: &[&str]) {
    let c = el(doc, parent, "div", &[], &[("data-ved", key)]);
    el(doc, c, "div", &[], &[]);
    let second = el(doc, c, "div", &[], &[]);
    let inner = el(doc, second, "div", &[], &[]);
    let span = el(doc, inner, "span", &[], &[]);
    text(doc, span, words[0]);
    let em = el(doc, span, "em", &[], &[]);
    text(doc, em, words[1]);
    text(doc, span, words[2]);
}

#[test]
fn google_shared_key_matches_each_anchor_to_its_own_container() {
    let (mut doc, body) = page();
    let links = el(&mut doc, body, "div", &[], &[]);
    google_anchor(&mut doc, links, "https%3A%2F%2Fa.example%2F", "k1", "Alpha");
    google_anchor(&mut doc, links, "https%3A%2F%2Fb.example%2F", "k2", "Beta");
    google_anchor(&mut doc, links, "https%3A%2F%2Fc.example%2F", "k3", "Gamma");
    let snippets = el(&mut doc, body, "div", &[], &[]);
    google_snippet(&mut doc, snippets, "k3", &["about ", "gamma", " here"]);
    google_snippet(&mut doc, snippets, "k1", &["about ", "alpha", " here"]);
    google_snippet(&mut doc, snippets, "k2", &["about ", "beta", " here"]);
    let r = run(EngineType::Google, &doc);
    assert_eq!(r.len(), 3);
    assert_eq!(fields(&r[0]), ("Alpha", "https://a.example/", "about*alpha*here"));
    assert_eq!(fields(&r[1]), ("Beta", "https://b.example/", "about*beta*here"));
    assert_eq!(fields(&r[2]), ("Gamma", "https://c.example/", "about*gamma*here"));
}

#[test]
fn google_missing_descent_step_leaves_description_empty() {
    let (mut doc, body) = page();
    google_anchor(&mut doc, body, "https%3A%2F%2Fa.example%2F", "k1", "Alpha");
    let c = el(&mut doc, body, "div", &[], &[("data-ved", "k1")]);
    let only = el(&mut doc, c, "div", &[], &[]);
    text(&mut doc, only, "not reached");
    let r = run(EngineType::Google, &doc);
    assert_eq!(r.len(), 1);
    assert_eq!(fields(&r[0]), ("Alpha", "https://a.example/", ""));
}

#[test]
fn blank_title_is_discarded() {
    let (mut doc, body) = page();
    let table = el(&mut doc, body, "table", &[], &[]);
    ddg_result(&mut doc, table, "https://blank.example/", "   \n ", Some("has snippet"));
    ddg_result(&mut doc, table, "https://kept.example/", "Kept", None);
    ddg_result(&mut doc, table, "", "No link", None);
    let r = run(EngineType::DuckDuckGo, &doc);
    assert_eq!(r.len(), 1);
    assert_eq!(fields(&r[0]), ("Kept", "https://kept.example/", ""));
}

#[test]
fn unrelated_document_gives_no_results() {
    let mut doc = Document::new();
    el(&mut doc, 0, "html", &[], &[]);
    assert!(run(EngineType::Google, &doc).is_empty());
    assert!(run(EngineType::DuckDuckGo, &doc).is_empty());
    assert!(run(EngineType::Google, &Document::new()).is_empty());
}

#[test]
fn extraction_twice_gives_the_same_results() {
    let (mut doc, body) = page();
    let table = el(&mut doc, body, "table", &[], &[]);
    ddg_result(&mut doc, table, "https://one.example/", "One", Some("s1"));
    ddg_result(&mut doc, table, "https://two.example/", "Two", Some("s2"));
    let first = run(EngineType::DuckDuckGo, &doc);
    let second = run(EngineType::DuckDuckGo, &doc);
    assert_eq!(first.len(), second.len());
    for (x, y) in first.iter().zip(second.iter()) {
        assert_eq!(fields(x), fields(y));
    }
}

#[test]
fn adjacent_sibling_correlation() {
    let (mut doc, body) = page();
    let a = el(&mut doc, body, "a", &["hit"], &[("href", "https://x.example/")]);
    text(&mut doc, a, "X");
    text(&mut doc, body, " between ");
    el(&mut doc, body, "br", &[], &[]);
    let p = el(&mut doc, body, "p", &[], &[]);
    text(&mut doc, p, " about x ");
    let rules = ExtractionRules {
        anchor: vec![Step { tag: "a".to_string(), class: Some("hit".to_string()), attr: None }],
        title: Vec::new(),
        url_attr: "href".to_string(),
        origin: "https://o.example".to_string(),
        redirect_key: None,
        correlation: Correlation::AdjacentSibling { tag: "p".to_string() },
        emphasis: "em".to_string(),
    };
    let r = extract(&doc, &rules);
    assert_eq!(r.len(), 1);
    assert_eq!(fields(&r[0]), ("X", "https://x.example/", "about x"));
}

#[test]
fn readable_text_comes_from_first_rule_that_finds_text() {
    let (mut doc, body) = page();
    let p0 = el(&mut doc, body, "p", &[], &[]);
    text(&mut doc, p0, "outside");
    let main = el(&mut doc, body, "main", &[], &[]);
    let p1 = el(&mut doc, main, "p", &[], &[]);
    text(&mut doc, p1, "main only");
    let article = el(&mut doc, main, "article", &[], &[]);
    let p2 = el(&mut doc, article, "p", &[], &[]);
    text(&mut doc, p2, "  first  ");
    el(&mut doc, article, "p", &[], &[]);
    let p3 = el(&mut doc, article, "p", &[], &[]);
    text(&mut doc, p3, "second");
    assert_eq!(extract_readable_text(&doc), Ok("first\n\nsecond".to_string()));
}

#[test]
fn readable_text_skips_rules_without_text() {
    let (mut doc, body) = page();
    let main = el(&mut doc, body, "main", &[], &[]);
    let article = el(&mut doc, main, "article", &[], &[]);
    let empty = el(&mut doc, article, "p", &[], &[]);
    text(&mut doc, empty, "   ");
    let p = el(&mut doc, main, "p", &[], &[]);
    text(&mut doc, p, "in main");
    assert_eq!(extract_readable_text(&doc), Ok("in main".to_string()));
}

#[test]
fn readable_text_falls_back_to_body() {
    let (mut doc, body) = page();
    let div = el(&mut doc, body, "div", &[], &[]);
    text(&mut doc, div, "  just a div ");
    assert_eq!(extract_readable_text(&doc), Ok("just a div".to_string()));
}

#[test]
fn readable_text_fails_on_empty_page() {
    let (doc, _body) = page();
    assert_eq!(extract_readable_text(&doc), Err(ExtractError::NoReadableContent));
    let mut bare = Document::new();
    el(&mut bare, 0, "html", &[], &[]);
    assert_eq!(extract_readable_text(&bare), Err(ExtractError::NoReadableContent));
}
