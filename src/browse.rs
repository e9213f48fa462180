//! Page-body extraction: the readable text of a page, from the first of an
//! ordered list of paragraph patterns that finds any text, else from the
//! whole body.

use vstd::prelude::*;

use crate::dom::{select, Document, Node, Step};
use crate::query::{select_all, select_first};
use crate::render::{text_of, text_of_node};
use crate::strings::{trim_text, trimmed};

verus! {

/// Why no text could be extracted.
#[derive(Clone, Copy, Debug, PartialEq, Eq, Structural)]
pub enum ExtractError {
    /// No pattern found a paragraph with text, and the body holds none.
    NoReadableContent,
}

/// The strings as character sequences.
pub open spec fn strings_view(v: Seq<String>) -> Seq<Seq<char>> {
    v.map_values(|x: String| x@)
}

/// The trimmed texts of the nodes `ms`, those that are empty left out.
pub open spec fn texts_of(s: Seq<Node>, ms: Seq<usize>) -> Seq<Seq<char>>
    decreases ms.len(),
{
    if ms.len() == 0 {
        Seq::empty()
    } else {
        let t = trimmed(text_of(s, ms.last() as int));
        texts_of(s, ms.drop_last()) + if t.len() > 0 {
            seq![t]
        } else {
            Seq::empty()
        }
    }
}

/// The paragraphs that a pattern finds in a document, as non-empty texts.
pub open spec fn paragraphs(s: Seq<Node>, rule: Seq<Step>) -> Seq<Seq<char>> {
    texts_of(s, select(s, 0, rule))
}

/// The blocks joined with one blank line between each two.
pub open spec fn joined(ps: Seq<Seq<char>>) -> Seq<char>
    decreases ps.len(),
{
    if ps.len() == 0 {
        Seq::empty()
    } else if ps.len() == 1 {
        ps[0]
    } else {
        joined(ps.drop_last()) + seq!['\n', '\n'] + ps.last()
    }
}

/// The first pattern, from index `k` on, that finds any paragraph.
pub open spec fn first_rule_from(s: Seq<Node>, rules: Seq<Vec<Step>>, k: int) -> Option<int>
    decreases rules.len() - k,
{
    if k < 0 || k >= rules.len() {
        None
    } else if paragraphs(s, rules[k]@).len() > 0 {
        Some(k)
    } else {
        first_rule_from(s, rules, k + 1)
    }
}

/// The text of the whole body: the trimmed text of the first node that the
/// fallback pattern finds, if that is not empty.
pub open spec fn body_text(s: Seq<Node>, fallback: Seq<Step>) -> Option<Seq<char>> {
    let m = select(s, 0, fallback);
    if m.len() > 0 && trimmed(text_of(s, m[0] as int)).len() > 0 {
        Some(trimmed(text_of(s, m[0] as int)))
    } else {
        None
    }
}

/// The readable text of a document: the paragraphs of the first pattern that
/// finds any, joined; else the text of the body; else nothing.
pub open spec fn readable(s: Seq<Node>, rules: Seq<Vec<Step>>, fallback: Seq<Step>) -> Option<Seq<char>> {
    match first_rule_from(s, rules, 0) {
        Some(k) => Some(joined(paragraphs(s, rules[k]@))),
        None => body_text(s, fallback),
    }
}

fn paragraph_texts(doc: &Document, rule: &Vec<Step>) -> (r: Vec<String>)
    ensures
        strings_view(r@) == paragraphs(doc@, rule@),
{
    let len = doc.len();
    if len == 0 {
        return Vec::new();
    }
    let ms = select_all(doc, 0, rule);
    let mut out: Vec<String> = Vec::new();
    let mut k: usize = 0;
    while k < ms.len()
        invariant
            len == doc@.len(),
            forall|m: int| 0 <= m < ms@.len() ==> ms@[m] < len,
            ms@ == select(doc@, 0, rule@),
            k <= ms@.len(),
            strings_view(out@) == texts_of(doc@, ms@.subrange(0, k as int)),
        decreases ms@.len() - k,
    {
        let ghost before = out@;
        let raw = text_of_node(doc, ms[k]);
        let t = trim_text(raw.as_str());
        if t.unicode_len() > 0 {
            out.push(t);
            assert(strings_view(out@) =~= strings_view(before) + seq![t@]);
        }
        assert(ms@.subrange(0, k + 1).drop_last() =~= ms@.subrange(0, k as int));
        k = k + 1;
    }
    assert(ms@.subrange(0, k as int) =~= ms@);
    out
}

fn join_blocks(ps: &Vec<String>) -> (r: String)
    ensures
        r@ == joined(strings_view(ps@)),
{
    let mut acc = String::new();
    let mut k: usize = 0;
    while k < ps.len()
        invariant
            k <= ps@.len(),
            acc@ == joined(strings_view(ps@.subrange(0, k as int))),
        decreases ps@.len() - k,
    {
        let ghost before = acc@;
        if k > 0 {
            acc.append("\n\n");
            proof {
                reveal_strlit("\n\n");
            }
        }
        acc.append(ps[k].as_str());
        assert(strings_view(ps@.subrange(0, k + 1)).drop_last() =~= strings_view(ps@.subrange(0, k as int)));
        if k == 0 {
            assert(acc@ =~= strings_view(ps@.subrange(0, 1))[0]);
        } else {
            assert(acc@ =~= before + seq!['\n', '\n'] + ps@[k as int]@);
        }
        k = k + 1;
    }
    assert(ps@.subrange(0, k as int) =~= ps@);
    acc
}

/// The readable text of a document: the paragraphs that the first of `rules`
/// to find any paragraph text finds, trimmed and joined with a blank line;
/// if no pattern finds any, the trimmed text of the first node that
/// `fallback` finds; if that is empty too, an error.
pub fn extract_readable_text_with(doc: &Document, rules: &Vec<Vec<Step>>, fallback: &Vec<Step>) -> (r: Result<String, ExtractError>)
    ensures
        r is Ok <==> readable(doc@, rules@, fallback@) is Some,
        r matches Ok(t) ==> readable(doc@, rules@, fallback@) == Some(t@),
{
    let ghost rv = rules@;
    let mut k: usize = 0;
    while k < rules.len()
        invariant
            rv == rules@,
            k <= rules@.len(),
            first_rule_from(doc@, rv, 0) == first_rule_from(doc@, rv, k as int),
        decreases rules@.len() - k,
    {
        let ps = paragraph_texts(doc, &rules[k]);
        if ps.len() > 0 {
            return Ok(join_blocks(&ps));
        }
        k = k + 1;
    }
    let len = doc.len();
    if len == 0 {
        return Err(ExtractError::NoReadableContent);
    }
    match select_first(doc, 0, fallback) {
        Some(b) => {
            let raw = text_of_node(doc, b);
            let t = trim_text(raw.as_str());
            if t.unicode_len() > 0 {
                Ok(t)
            } else {
                Err(ExtractError::NoReadableContent)
            }
        },
        None => Err(ExtractError::NoReadableContent),
    }
}

fn tag_step(tag: &str) -> (r: Step)
    ensures
        r.tag@ == tag@,
        r.class is None,
        r.attr is None,
{
    Step { tag: tag.to_owned(), class: None, attr: None }
}

/// The pattern is the chain of plain tags `tags`, each a descendant of the
/// one before.
pub open spec fn is_tag_path(p: Seq<Step>, tags: Seq<Seq<char>>) -> bool {
    &&& p.len() == tags.len()
    &&& forall|i: int| 0 <= i < p.len() ==> (#[trigger] p[i]).tag@ == tags[i] && p[i].class is None && p[i].attr is None
}

/// The paragraph patterns, most specific first: `main article p`, `main p`,
/// `article p`, `body p`; and the fallback `body`.
pub open spec fn is_readable_rules(rules: Seq<Vec<Step>>, fallback: Seq<Step>) -> bool {
    &&& rules.len() == 4
    &&& is_tag_path(rules[0]@, seq!["main"@, "article"@, "p"@])
    &&& is_tag_path(rules[1]@, seq!["main"@, "p"@])
    &&& is_tag_path(rules[2]@, seq!["article"@, "p"@])
    &&& is_tag_path(rules[3]@, seq!["body"@, "p"@])
    &&& is_tag_path(fallback, seq!["body"@])
}

/// The paragraph patterns of readable text, most specific first.
pub fn readable_rules() -> (r: (Vec<Vec<Step>>, Vec<Step>))
    ensures
        is_readable_rules(r.0@, r.1@),
{
    let rules = vec![
        vec![tag_step("main"), tag_step("article"), tag_step("p")],
        vec![tag_step("main"), tag_step("p")],
        vec![tag_step("article"), tag_step("p")],
        vec![tag_step("body"), tag_step("p")],
    ];
    let fallback = vec![tag_step("body")];
    (rules, fallback)
}

/// The readable text of a page, by the patterns of [`readable_rules`].
pub fn extract_readable_text(doc: &Document) -> (r: Result<String, ExtractError>)
    ensures
        exists|rules: (Vec<Vec<Step>>, Vec<Step>)| {
            &&& is_readable_rules(rules.0@, rules.1@)
            &&& (r is Ok <==> readable(doc@, rules.0@, rules.1@) is Some)
            &&& (r matches Ok(t) ==> readable(doc@, rules.0@, rules.1@) == Some(t@))
        },
{
    let rules = readable_rules();
    extract_readable_text_with(doc, &rules.0, &rules.1)
}

proof fn lemma_first_rule_from(s: Seq<Node>, rules: Seq<Vec<Step>>, k: int, j: int)
    requires
        0 <= j <= k < rules.len(),
        paragraphs(s, rules[k]@).len() > 0,
        forall|i: int| 0 <= i < k ==> paragraphs(s, #[trigger] rules[i]@).len() == 0,
    ensures
        first_rule_from(s, rules, j) == Some(k),
    decreases k - j,
{
    if j < k {
        lemma_first_rule_from(s, rules, k, j + 1);
    }
}

/// Once a pattern finds paragraph text and no earlier pattern does, the
/// readable text is made of that pattern's paragraphs alone, whatever later
/// patterns or the body would give.
pub proof fn lemma_first_finding_rule_wins(s: Seq<Node>, rules: Seq<Vec<Step>>, fallback: Seq<Step>, k: int)
    requires
        0 <= k < rules.len(),
        paragraphs(s, rules[k]@).len() > 0,
        forall|i: int| 0 <= i < k ==> paragraphs(s, #[trigger] rules[i]@).len() == 0,
    ensures
        readable(s, rules, fallback) == Some(joined(paragraphs(s, rules[k]@))),
{
    lemma_first_rule_from(s, rules, k, 0);
}

} // verus!
