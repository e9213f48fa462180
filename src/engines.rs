//! The rule table of each supported engine, the dispatcher that runs the
//! matching extractor, and the address of an engine's result page.

use vstd::prelude::*;

use crate::dom::{Document, Step};
use crate::search::{extract, extraction, results_view, Correlation, EngineType, ExtractionRules, SearchData};

verus! {

/// What `urlencoding::encode` returns for a string.
pub uninterp spec fn url_encoded(s: Seq<char>) -> Seq<char>;

/// Relies on `urlencoding::encode`: percent-encodes every byte of the UTF-8
/// form except ASCII letters, digits and `-`, `_`, `.`, `~`.
#[verifier::external_body]
fn encode_component(s: &str) -> (r: String)
    ensures
        r@ == url_encoded(s@),
{
    urlencoding::encode(s).into_owned()
}

fn step(tag: &str, class: Option<&str>, attr: Option<&str>) -> (r: Step)
    ensures
        r.tag@ == tag@,
        r.class matches Some(c) ==> class matches Some(k) && c@ == k@,
        r.class is None ==> class is None,
        r.attr matches Some(a) ==> attr matches Some(k) && a@ == k@,
        r.attr is None ==> attr is None,
{
    Step {
        tag: tag.to_owned(),
        class: match class {
            Some(c) => Some(c.to_owned()),
            None => None,
        },
        attr: match attr {
            Some(a) => Some(a.to_owned()),
            None => None,
        },
    }
}

/// The step has exactly the given tag, class and attribute.
pub open spec fn is_step(st: Step, tag: Seq<char>, class: Option<Seq<char>>, attr: Option<Seq<char>>) -> bool {
    &&& st.tag@ == tag
    &&& match class {
        Some(c) => st.class matches Some(k) && k@ == c,
        None => st.class is None,
    }
    &&& match attr {
        Some(a) => st.attr matches Some(k) && k@ == a,
        None => st.attr is None,
    }
}

/// Google's rules: anchors carrying a `ping` attribute; the title is the
/// first `h3` below the anchor; the address is the `url` parameter of the
/// `ping` link; the description is found through the anchor's `data-ved`
/// value, from the `div` that shares it, through its second `div` child, that
/// child's first `div` child and then its first `span` child.
pub open spec fn is_google_rules(r: ExtractionRules) -> bool {
    &&& r.anchor@.len() == 1
    &&& is_step(r.anchor@[0], "a"@, None, Some("ping"@))
    &&& r.title@.len() == 1
    &&& is_step(r.title@[0], "h3"@, None, None)
    &&& r.url_attr@ == "ping"@
    &&& r.origin@ == "https://www.google.com"@
    &&& r.redirect_key matches Some(k) && k@ == "url"@
    &&& r.emphasis@ == "em"@
    &&& match r.correlation {
        Correlation::SharedKey { key_attr, container_tag, descent } => {
            &&& key_attr@ == "data-ved"@
            &&& container_tag@ == "div"@
            &&& descent@.len() == 3
            &&& descent@[0].0@ == "div"@ && descent@[0].1 == 1
            &&& descent@[1].0@ == "div"@ && descent@[1].1 == 0
            &&& descent@[2].0@ == "span"@ && descent@[2].1 == 0
        },
        _ => false,
    }
}

/// DuckDuckGo's rules (its lite page): anchors `a` of class `result-link`,
/// whose own rendering is the title; the address is the `uddg` parameter of
/// the `href` link; the description is the first `td` of class
/// `result-snippet` in the first later sibling of the anchor's row that holds
/// one.
pub open spec fn is_duckduckgo_rules(r: ExtractionRules) -> bool {
    &&& r.anchor@.len() == 1
    &&& is_step(r.anchor@[0], "a"@, Some("result-link"@), None)
    &&& r.title@.len() == 0
    &&& r.url_attr@ == "href"@
    &&& r.origin@ == "https://lite.duckduckgo.com"@
    &&& r.redirect_key matches Some(k) && k@ == "uddg"@
    &&& r.emphasis@ == "em"@
    &&& match r.correlation {
        Correlation::SiblingRow { row_tag, cell } => {
            &&& row_tag@ == "tr"@
            &&& cell@.len() == 1
            &&& is_step(cell@[0], "td"@, Some("result-snippet"@), None)
        },
        _ => false,
    }
}

/// The rule table of `engine`.
pub open spec fn is_engine_rules(engine: EngineType, r: ExtractionRules) -> bool {
    match engine {
        EngineType::Google => is_google_rules(r),
        EngineType::DuckDuckGo => is_duckduckgo_rules(r),
    }
}

/// The rule table of Google's result page.
pub fn google_rules() -> (r: ExtractionRules)
    ensures
        is_google_rules(r),
{
    let mut descent: Vec<(String, usize)> = Vec::new();
    descent.push(("div".to_owned(), 1));
    descent.push(("div".to_owned(), 0));
    descent.push(("span".to_owned(), 0));
    ExtractionRules {
        anchor: vec![step("a", None, Some("ping"))],
        title: vec![step("h3", None, None)],
        url_attr: "ping".to_owned(),
        origin: "https://www.google.com".to_owned(),
        redirect_key: Some("url".to_owned()),
        correlation: Correlation::SharedKey {
            key_attr: "data-ved".to_owned(),
            container_tag: "div".to_owned(),
            descent,
        },
        emphasis: "em".to_owned(),
    }
}

/// The rule table of DuckDuckGo's lite result page.
pub fn duckduckgo_rules() -> (r: ExtractionRules)
    ensures
        is_duckduckgo_rules(r),
{
    ExtractionRules {
        anchor: vec![step("a", Some("result-link"), None)],
        title: Vec::new(),
        url_attr: "href".to_owned(),
        origin: "https://lite.duckduckgo.com".to_owned(),
        redirect_key: Some("uddg".to_owned()),
        correlation: Correlation::SiblingRow {
            row_tag: "tr".to_owned(),
            cell: vec![step("td", Some("result-snippet"), None)],
        },
        emphasis: "em".to_owned(),
    }
}

/// The rule table of an engine.
pub fn rules_for(engine: EngineType) -> (r: ExtractionRules)
    ensures
        is_engine_rules(engine, r),
{
    match engine {
        EngineType::Google => google_rules(),
        EngineType::DuckDuckGo => duckduckgo_rules(),
    }
}

/// Runs the extractor of `engine` on a document.
pub fn run(engine: EngineType, doc: &Document) -> (r: Vec<SearchData>)
    ensures
        exists|rules: ExtractionRules| is_engine_rules(engine, rules) && results_view(r@) == extraction(doc@, rules),
{
    let rules = rules_for(engine);
    extract(doc, &rules)
}

/// The address of the result page of `engine` for `query`.
pub open spec fn search_page(engine: EngineType, query: Seq<char>) -> Seq<char> {
    match engine {
        EngineType::Google => "https://www.google.com/search?q="@ + url_encoded(query),
        EngineType::DuckDuckGo => "https://lite.duckduckgo.com/lite/?q="@ + url_encoded(query),
    }
}

/// The address of the result page of `engine` for `query`, with the query
/// percent-encoded.
pub fn search_url(engine: EngineType, query: &str) -> (r: String)
    ensures
        r@ == search_page(engine, query@),
{
    let encoded = encode_component(query);
    let mut r = String::new();
    match engine {
        EngineType::Google => r.append("https://www.google.com/search?q="),
        EngineType::DuckDuckGo => r.append("https://lite.duckduckgo.com/lite/?q="),
    }
    r.append(encoded.as_str());
    r
}

} // verus!
