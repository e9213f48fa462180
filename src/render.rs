//! Turning a subtree into text: the plain concatenation of its text nodes,
//! and the rendering that trims each text node and marks emphasis with `*`.

use vstd::prelude::*;

use crate::dom::{is_child, Document, Node};
use crate::strings::{trim_text, trimmed};
use crate::query::tag_is;

verus! {

/// The text of the children of `i` found at index `j` or later, each child
/// contributing its own text (a text node) or the text below it (an element).
pub open spec fn text_from(s: Seq<Node>, i: int, j: int) -> Seq<char>
    decreases s.len() - j,
{
    if j < 0 || j >= s.len() {
        Seq::empty()
    } else {
        let piece = if is_child(s, j, i) {
            if s[j].is_text {
                s[j].text@
            } else {
                text_from(s, j, j + 1)
            }
        } else {
            Seq::empty()
        };
        piece + text_from(s, i, j + 1)
    }
}

/// All text below node `i`, in document order, with nothing added between
/// text nodes.
pub open spec fn text_of(s: Seq<Node>, i: int) -> Seq<char> {
    if 0 <= i < s.len() && s[i].is_text {
        s[i].text@
    } else {
        text_from(s, i, i + 1)
    }
}

/// The rendering of the children of `i` found at index `j` or later: a text
/// node gives its trimmed text, an element with the emphasis tag gives its own
/// rendering between two `*`, any other element gives its own rendering.
pub open spec fn render_from(s: Seq<Node>, i: int, j: int, emph: Seq<char>) -> Seq<char>
    decreases s.len() - j,
{
    if j < 0 || j >= s.len() {
        Seq::empty()
    } else {
        let piece = if is_child(s, j, i) {
            if s[j].is_text {
                trimmed(s[j].text@)
            } else if s[j].tag@ == emph {
                seq!['*'] + render_from(s, j, j + 1, emph) + seq!['*']
            } else {
                render_from(s, j, j + 1, emph)
            }
        } else {
            Seq::empty()
        };
        piece + render_from(s, i, j + 1, emph)
    }
}

/// The rendering of the children of node `i`; an element without children
/// renders to nothing.
pub open spec fn rendered(s: Seq<Node>, i: int, emph: Seq<char>) -> Seq<char> {
    render_from(s, i, i + 1, emph)
}

fn text_below(doc: &Document, i: usize, start: usize) -> (r: String)
    requires
        start <= doc@.len(),
    ensures
        r@ == text_from(doc@, i as int, start as int),
    decreases doc@.len() - start,
{
    let len = doc.len();
    let mut acc = String::new();
    let mut j: usize = start;
    while j < len
        invariant
            len == doc@.len(),
            start <= j <= len,
            text_from(doc@, i as int, start as int) == acc@ + text_from(doc@, i as int, j as int),
        decreases len - j,
    {
        let n = doc.node(j);
        if n.parent == Some(i) {
            if n.is_text {
                acc.append(n.text.as_str());
            } else {
                let t = text_below(doc, j, j + 1);
                acc.append(t.as_str());
            }
        }
        assert(text_from(doc@, i as int, start as int) == acc@ + text_from(doc@, i as int, j + 1));
        j = j + 1;
    }
    acc
}

/// All text below node `i`, in document order.
pub fn text_of_node(doc: &Document, i: usize) -> (r: String)
    requires
        i < doc@.len(),
    ensures
        r@ == text_of(doc@, i as int),
{
    let len = doc.len();
    let n = doc.node(i);
    if n.is_text {
        n.text.clone()
    } else {
        text_below(doc, i, i + 1)
    }
}

fn render_below(doc: &Document, i: usize, start: usize, emph: &str) -> (r: String)
    requires
        start <= doc@.len(),
    ensures
        r@ == render_from(doc@, i as int, start as int, emph@),
    decreases doc@.len() - start,
{
    let len = doc.len();
    let mut acc = String::new();
    let mut j: usize = start;
    while j < len
        invariant
            len == doc@.len(),
            start <= j <= len,
            render_from(doc@, i as int, start as int, emph@) == acc@ + render_from(doc@, i as int, j as int, emph@),
        decreases len - j,
    {
        let n = doc.node(j);
        if n.parent == Some(i) {
            if n.is_text {
                let t = trim_text(n.text.as_str());
                acc.append(t.as_str());
            } else if tag_is(doc, j, emph) {
                let t = render_below(doc, j, j + 1, emph);
                acc.append("*");
                acc.append(t.as_str());
                acc.append("*");
                proof {
                    reveal_strlit("*");
                }
            } else {
                let t = render_below(doc, j, j + 1, emph);
                acc.append(t.as_str());
            }
        }
        assert(render_from(doc@, i as int, start as int, emph@) == acc@ + render_from(doc@, i as int, j + 1, emph@));
        j = j + 1;
    }
    acc
}

/// The rendering of node `i`: text nodes trimmed and concatenated, elements
/// with the emphasis tag wrapped in a single `*` on each side.
pub fn render(doc: &Document, i: usize, emph: &str) -> (r: String)
    requires
        i < doc@.len(),
    ensures
        r@ == rendered(doc@, i as int, emph@),
{
    let len = doc.len();
    render_below(doc, i, i + 1, emph)
}

/// An element holding a text, then an emphasis element holding one text,
/// then a text, renders to the three trimmed texts with the middle one
/// between two `*`: surrounding white space of the source does not show.
pub proof fn lemma_emphasis_rendering(s: Seq<Node>, b: int, emph: Seq<char>)
    requires
        0 <= b,
        s.len() == b + 5,
        s.len() <= usize::MAX,
        is_child(s, b + 1, b) && s[b + 1].is_text,
        is_child(s, b + 2, b) && !s[b + 2].is_text && s[b + 2].tag@ == emph,
        is_child(s, b + 3, b + 2) && s[b + 3].is_text,
        is_child(s, b + 4, b) && s[b + 4].is_text,
    ensures
        rendered(s, b, emph) == trimmed(s[b + 1].text@) + seq!['*'] + trimmed(s[b + 3].text@) + seq!['*']
            + trimmed(s[b + 4].text@),
{
    let t1 = trimmed(s[b + 1].text@);
    let t2 = trimmed(s[b + 3].text@);
    let t3 = trimmed(s[b + 4].text@);
    assert(render_from(s, b, b + 5, emph) == Seq::<char>::empty());
    assert(render_from(s, b, b + 4, emph) =~= t3);
    assert(render_from(s, b + 2, b + 5, emph) == Seq::<char>::empty());
    assert(render_from(s, b + 2, b + 4, emph) =~= Seq::<char>::empty());
    assert(render_from(s, b + 2, b + 3, emph) =~= t2);
    assert(render_from(s, b, b + 3, emph) =~= t3);
    assert(render_from(s, b, b + 2, emph) =~= seq!['*'] + t2 + seq!['*'] + t3);
    assert(render_from(s, b, b + 1, emph) =~= t1 + (seq!['*'] + t2 + seq!['*'] + t3));
    assert(rendered(s, b, emph) =~= t1 + seq!['*'] + t2 + seq!['*'] + t3);
}

} // verus!
