//! Result extraction: one generic extractor driven by a table of rules, and
//! the rules for each supported engine.

use vstd::prelude::*;

use crate::dom::{
    attr_of, enclosing_tagged, find_keyed, is_element, next_sibling_holding, next_sibling_tagged,
    nth_child, select, select_from, Document, Node, Step,
};
use crate::query::{
    attr, enclosing, find_keyed_element, nth_child_tagged, select_all, select_first,
    sibling_holding, sibling_tagged,
};
use crate::render::{render, rendered};
use crate::strings::{trim_text, trimmed};
use crate::url::{normalize_url, normalized};

verus! {

/// The supported search engines.
#[derive(Clone, Copy, Debug, PartialEq, Eq, Structural)]
pub enum EngineType {
    Google,
    DuckDuckGo,
}

/// One search result.
#[derive(Clone, Debug)]
pub struct SearchData {
    pub title: String,
    pub url: String,
    pub description: String,
}

impl View for SearchData {
    type V = (Seq<char>, Seq<char>, Seq<char>);

    open spec fn view(&self) -> (Seq<char>, Seq<char>, Seq<char>) {
        (self.title@, self.url@, self.description@)
    }
}

/// How a result anchor is tied to its description.
pub enum Correlation {
    /// From the anchor's enclosing row (the nearest ancestor with tag
    /// `row_tag`), the first later sibling row holding a cell that matches
    /// `cell`; the description is that cell.
    SiblingRow { row_tag: String, cell: Vec<Step> },
    /// The first element of the whole document with tag `container_tag` whose
    /// attribute `key_attr` equals the anchor's; from there, for each
    /// `(tag, n)` in `descent`, the `n`-th child with that tag.
    SharedKey { key_attr: String, container_tag: String, descent: Vec<(String, usize)> },
    /// The first later sibling of the anchor with the given tag.
    AdjacentSibling { tag: String },
}

/// The rules for one engine, tried on every document in the same way.
pub struct ExtractionRules {
    /// Pattern of the candidate anchors, matched below the document node.
    pub anchor: Vec<Step>,
    /// Pattern of the title element below the anchor (its first match); an
    /// empty pattern means the anchor itself.
    pub title: Vec<Step>,
    /// Attribute of the anchor that holds its link.
    pub url_attr: String,
    /// Origin that origin-relative links are resolved against.
    pub origin: String,
    /// Query parameter of a redirecting link that holds the destination.
    pub redirect_key: Option<String>,
    pub correlation: Correlation,
    /// Tag rendered as `*`-emphasis.
    pub emphasis: String,
}

/// The optional string as an optional character sequence.
pub open spec fn opt_view(o: Option<String>) -> Option<Seq<char>> {
    match o {
        Some(s) => Some(s@),
        None => None,
    }
}

/// The element whose rendering is the title of candidate `a`.
pub open spec fn title_node(s: Seq<Node>, a: int, rules: ExtractionRules) -> Option<usize> {
    if rules.title@.len() == 0 {
        Some(a as usize)
    } else {
        let m = select(s, a, rules.title@);
        if m.len() > 0 { Some(m[0]) } else { None }
    }
}

/// The title of candidate `a`: the trimmed rendering of its title element.
pub open spec fn title_of(s: Seq<Node>, a: int, rules: ExtractionRules) -> Seq<char> {
    match title_node(s, a, rules) {
        Some(t) => trimmed(rendered(s, t as int, rules.emphasis@)),
        None => Seq::empty(),
    }
}

/// The address of candidate `a`: its link attribute, normalized; empty where
/// the attribute is missing or empty.
pub open spec fn url_of(s: Seq<Node>, a: int, rules: ExtractionRules) -> Seq<char> {
    match attr_of(s, a, rules.url_attr@) {
        Some(raw) => if raw.len() > 0 {
            normalized(raw, rules.origin@, opt_view(rules.redirect_key))
        } else {
            Seq::empty()
        },
        None => Seq::empty(),
    }
}

/// Following `descent[k..]` down from node `c`.
pub open spec fn descend(s: Seq<Node>, c: int, descent: Seq<(String, usize)>, k: int) -> Option<usize>
    decreases descent.len() - k,
{
    if k < 0 || k >= descent.len() {
        Some(c as usize)
    } else {
        match nth_child(s, c, descent[k].0@, descent[k].1 as nat) {
            Some(d) => descend(s, d as int, descent, k + 1),
            None => None,
        }
    }
}

/// The element that holds the description of candidate `a`, if one is found.
pub open spec fn description_node(s: Seq<Node>, a: int, rules: ExtractionRules) -> Option<usize> {
    match rules.correlation {
        Correlation::SiblingRow { row_tag, cell } => match enclosing_tagged(s, a, row_tag@) {
            Some(r) => match next_sibling_holding(s, r as int, cell@) {
                Some(row) => Some(select(s, row as int, cell@)[0]),
                None => None,
            },
            None => None,
        },
        Correlation::SharedKey { key_attr, container_tag, descent } => match attr_of(s, a, key_attr@) {
            Some(k) => match find_keyed(s, container_tag@, key_attr@, k) {
                Some(c) => descend(s, c as int, descent@, 0),
                None => None,
            },
            None => None,
        },
        Correlation::AdjacentSibling { tag } => next_sibling_tagged(s, a, tag@),
    }
}

/// The description of candidate `a`: the trimmed rendering of its
/// description element, or empty where none is found.
pub open spec fn description_of(s: Seq<Node>, a: int, rules: ExtractionRules) -> Seq<char> {
    match description_node(s, a, rules) {
        Some(d) => trimmed(rendered(s, d as int, rules.emphasis@)),
        None => Seq::empty(),
    }
}

/// Candidate `a` gives a result: its title and its address are not empty.
pub open spec fn kept(s: Seq<Node>, a: int, rules: ExtractionRules) -> bool {
    title_of(s, a, rules).len() > 0 && url_of(s, a, rules).len() > 0
}

/// The result that candidate `a` gives: title, address, description.
pub open spec fn record_of(s: Seq<Node>, a: int, rules: ExtractionRules) -> (Seq<char>, Seq<char>, Seq<char>) {
    (title_of(s, a, rules), url_of(s, a, rules), description_of(s, a, rules))
}

/// The results given by the candidates `cands`, in their order.
pub open spec fn results_over(s: Seq<Node>, rules: ExtractionRules, cands: Seq<usize>) -> Seq<(Seq<char>, Seq<char>, Seq<char>)>
    decreases cands.len(),
{
    if cands.len() == 0 {
        Seq::empty()
    } else {
        let a = cands.last() as int;
        results_over(s, rules, cands.drop_last()) + if kept(s, a, rules) {
            seq![record_of(s, a, rules)]
        } else {
            Seq::empty()
        }
    }
}

/// The candidate anchors of a document, in document order.
pub open spec fn candidates(s: Seq<Node>, rules: ExtractionRules) -> Seq<usize> {
    select(s, 0, rules.anchor@)
}

/// What extraction with `rules` gives on a document.
pub open spec fn extraction(s: Seq<Node>, rules: ExtractionRules) -> Seq<(Seq<char>, Seq<char>, Seq<char>)> {
    results_over(s, rules, candidates(s, rules))
}

/// The results as triples of title, address and description.
pub open spec fn results_view(v: Seq<SearchData>) -> Seq<(Seq<char>, Seq<char>, Seq<char>)> {
    v.map_values(|d: SearchData| d@)
}

fn follow_descent(doc: &Document, c: usize, descent: &Vec<(String, usize)>) -> (r: Option<usize>)
    requires
        c < doc@.len(),
    ensures
        r == descend(doc@, c as int, descent@, 0),
        r matches Some(d) ==> d < doc@.len(),
{
    let len = doc.len();
    let mut cur: usize = c;
    let mut k: usize = 0;
    while k < descent.len()
        invariant
            len == doc@.len(),
            cur < len,
            k <= descent@.len(),
            descend(doc@, c as int, descent@, 0) == descend(doc@, cur as int, descent@, k as int),
        decreases descent@.len() - k,
    {
        match nth_child_tagged(doc, cur, descent[k].0.as_str(), descent[k].1) {
            Some(d) => {
                cur = d;
            },
            None => {
                return None;
            },
        }
        k = k + 1;
    }
    Some(cur)
}

fn find_description(doc: &Document, a: usize, rules: &ExtractionRules) -> (r: Option<usize>)
    requires
        a < doc@.len(),
    ensures
        r == description_node(doc@, a as int, *rules),
        r matches Some(d) ==> d < doc@.len(),
{
    match &rules.correlation {
        Correlation::SiblingRow { row_tag, cell } => match enclosing(doc, a, row_tag.as_str()) {
            Some(row) => match sibling_holding(doc, row, cell) {
                Some(next) => select_first(doc, next, cell),
                None => None,
            },
            None => None,
        },
        Correlation::SharedKey { key_attr, container_tag, descent } => match attr(doc, a, key_attr.as_str()) {
            Some(k) => match find_keyed_element(doc, container_tag.as_str(), key_attr.as_str(), k.as_str()) {
                Some(c) => follow_descent(doc, c, descent),
                None => None,
            },
            None => None,
        },
        Correlation::AdjacentSibling { tag } => sibling_tagged(doc, a, tag.as_str()),
    }
}

fn find_title(doc: &Document, a: usize, rules: &ExtractionRules) -> (r: Option<usize>)
    requires
        a < doc@.len(),
    ensures
        r == title_node(doc@, a as int, *rules),
        r matches Some(t) ==> t < doc@.len(),
{
    if rules.title.len() == 0 {
        Some(a)
    } else {
        select_first(doc, a, &rules.title)
    }
}

fn find_url(doc: &Document, a: usize, rules: &ExtractionRules) -> (r: String)
    requires
        a < doc@.len(),
    ensures
        r@ == url_of(doc@, a as int, *rules),
{
    match attr(doc, a, rules.url_attr.as_str()) {
        Some(raw) => {
            if raw.unicode_len() == 0 {
                String::new()
            } else {
                let key: Option<&str> = match &rules.redirect_key {
                    Some(k) => Some(k.as_str()),
                    None => None,
                };
                normalize_url(raw.as_str(), rules.origin.as_str(), key)
            }
        },
        None => String::new(),
    }
}

/// The result that candidate anchor `a` gives, if it has a title and an
/// address.
pub fn extract_one(doc: &Document, a: usize, rules: &ExtractionRules) -> (r: Option<SearchData>)
    requires
        a < doc@.len(),
    ensures
        r is Some <==> kept(doc@, a as int, *rules),
        r matches Some(d) ==> d@ == record_of(doc@, a as int, *rules),
{
    let title = match find_title(doc, a, rules) {
        Some(t) => {
            let text = render(doc, t, rules.emphasis.as_str());
            trim_text(text.as_str())
        },
        None => String::new(),
    };
    if title.unicode_len() == 0 {
        return None;
    }
    let url = find_url(doc, a, rules);
    if url.unicode_len() == 0 {
        return None;
    }
    let description = match find_description(doc, a, rules) {
        Some(d) => {
            let text = render(doc, d, rules.emphasis.as_str());
            trim_text(text.as_str())
        },
        None => String::new(),
    };
    Some(SearchData { title, url, description })
}

/// Extracts the results of a document with the given rules: one for each
/// candidate anchor, in document order, that has a title and an address.
pub fn extract(doc: &Document, rules: &ExtractionRules) -> (r: Vec<SearchData>)
    ensures
        results_view(r@) == extraction(doc@, *rules),
{
    let len = doc.len();
    if len == 0 {
        return Vec::new();
    }
    let cands = select_all(doc, 0, &rules.anchor);
    let mut out: Vec<SearchData> = Vec::new();
    let mut k: usize = 0;
    while k < cands.len()
        invariant
            len == doc@.len(),
            0 < len,
            forall|m: int| 0 <= m < cands@.len() ==> cands@[m] < len,
            k <= cands@.len(),
            results_view(out@) == results_over(doc@, *rules, cands@.subrange(0, k as int)),
        decreases cands@.len() - k,
    {
        let a = cands[k];
        let ghost before = out@;
        match extract_one(doc, a, rules) {
            Some(d) => {
                out.push(d);
                assert(results_view(out@) =~= results_view(before) + seq![d@]);
            },
            None => {},
        }
        assert(cands@.subrange(0, k + 1).drop_last() =~= cands@.subrange(0, k as int));
        k = k + 1;
    }
    assert(cands@.subrange(0, k as int) =~= cands@);
    out
}

proof fn lemma_results_over_kept(s: Seq<Node>, rules: ExtractionRules, cands: Seq<usize>)
    ensures
        forall|i: int| 0 <= i < results_over(s, rules, cands).len() ==> exists|m: int| 0 <= m < cands.len()
            && kept(s, cands[m] as int, rules) && #[trigger] results_over(s, rules, cands)[i] == record_of(s, cands[m] as int, rules),
    decreases cands.len(),
{
    if cands.len() > 0 {
        let init = cands.drop_last();
        lemma_results_over_kept(s, rules, init);
        let r = results_over(s, rules, cands);
        assert forall|i: int| 0 <= i < r.len() implies exists|m: int| 0 <= m < cands.len()
            && kept(s, cands[m] as int, rules) && #[trigger] r[i] == record_of(s, cands[m] as int, rules) by {
            if i < results_over(s, rules, init).len() {
                let m = choose|m: int| 0 <= m < init.len() && kept(s, init[m] as int, rules)
                    && results_over(s, rules, init)[i] == record_of(s, init[m] as int, rules);
                assert(cands[m] == init[m]);
            } else {
                assert(cands[cands.len() - 1] == cands.last());
            }
        }
    }
}

/// Every result has a non-empty title and a non-empty address: a candidate
/// whose rendered title is empty or only white space never gives a result.
pub proof fn lemma_results_have_titles(s: Seq<Node>, rules: ExtractionRules)
    ensures
        forall|i: int| 0 <= i < extraction(s, rules).len() ==> (#[trigger] extraction(s, rules)[i]).0.len() > 0
            && extraction(s, rules)[i].1.len() > 0,
{
    lemma_results_over_kept(s, rules, candidates(s, rules));
}

proof fn lemma_results_over_len(s: Seq<Node>, rules: ExtractionRules, cands: Seq<usize>)
    ensures
        results_over(s, rules, cands).len() <= cands.len(),
    decreases cands.len(),
{
    if cands.len() > 0 {
        lemma_results_over_len(s, rules, cands.drop_last());
    }
}

/// A document in which the rules find no candidate anchor gives no results,
/// and no failure: extraction degrades to an empty sequence.
pub proof fn lemma_no_candidates_no_results(s: Seq<Node>, rules: ExtractionRules)
    requires
        candidates(s, rules).len() == 0,
    ensures
        extraction(s, rules) == Seq::<(Seq<char>, Seq<char>, Seq<char>)>::empty(),
{
    lemma_results_over_len(s, rules, candidates(s, rules));
}

/// Extraction is repeatable: any two result lists that `extract` can return
/// for the same document and rules are identical, in the same order.
pub proof fn lemma_extraction_repeatable(s: Seq<Node>, rules: ExtractionRules, first: Seq<SearchData>, second: Seq<SearchData>)
    requires
        results_view(first) == extraction(s, rules),
        results_view(second) == extraction(s, rules),
    ensures
        first.len() == second.len(),
        forall|i: int| 0 <= i < first.len() ==> (#[trigger] first[i])@ == second[i]@,
{
    assert forall|i: int| 0 <= i < first.len() implies (#[trigger] first[i])@ == second[i]@ by {
        assert(results_view(first)[i] == results_view(second)[i]);
    }
}

proof fn lemma_select_from_empty(s: Seq<Node>, root: int, steps: Seq<Step>, j: int)
    requires
        steps.len() > 0,
        forall|m: int| 0 <= m < s.len() ==> !(is_element(s, m) && (#[trigger] s[m]).tag@ == steps[steps.len() - 1].tag@),
    ensures
        select_from(s, root, steps, j).len() == 0,
    decreases s.len() - j,
{
    if 0 <= j < s.len() {
        assert(!(is_element(s, j) && s[j].tag@ == steps[steps.len() - 1].tag@));
        lemma_select_from_empty(s, root, steps, j + 1);
    }
}

/// A document with no element of the anchors' tag (an unrelated page, an
/// empty `<html>`) gives no results, and no failure.
pub proof fn lemma_unrelated_document_no_results(s: Seq<Node>, rules: ExtractionRules)
    requires
        rules.anchor@.len() > 0,
        forall|m: int| 0 <= m < s.len() ==> !(is_element(s, m) && (#[trigger] s[m]).tag@ == rules.anchor@[rules.anchor@.len() - 1].tag@),
    ensures
        extraction(s, rules) == Seq::<(Seq<char>, Seq<char>, Seq<char>)>::empty(),
{
    lemma_select_from_empty(s, 0, rules.anchor@, 1);
    lemma_no_candidates_no_results(s, rules);
}

} // verus!
