//! Queries over a [`Document`]: attributes, classes, descendant patterns,
//! children and siblings.

use vstd::prelude::*;

use crate::dom::{
    attr_from, attr_of, enclosing_tagged, chain_above, find_keyed, find_keyed_from, has_class, is_desc, is_element,
    fits_pattern, next_sibling_holding, next_sibling_tagged, nth_child, nth_child_from, select, select_from,
    sibling_holding_from, sibling_tagged_from, step_ok, wf_nodes, Document, Step,
};
use crate::strings::same_text;

verus! {

/// The value of the first attribute called `name` on node `j`, if any.
pub fn attr(doc: &Document, j: usize, name: &str) -> (r: Option<String>)
    requires
        j < doc@.len(),
    ensures
        r matches Some(v) ==> attr_of(doc@, j as int, name@) == Some(v@),
        r is None ==> attr_of(doc@, j as int, name@) is None,
{
    let n = doc.node(j);
    if n.is_text {
        return None;
    }
    let mut k: usize = 0;
    while k < n.attrs.len()
        invariant
            j < doc@.len(),
            *n == doc@[j as int],
            !n.is_text,
            k <= n.attrs@.len(),
            attr_from(n.attrs@, name@, 0) == attr_from(n.attrs@, name@, k as int),
        decreases n.attrs@.len() - k,
    {
        if same_text(n.attrs[k].0.as_str(), name) {
            let v = n.attrs[k].1.clone();
            assert(n.attrs@[k as int].0@ == name@);
            assert(v@ == n.attrs@[k as int].1@);
            return Some(v);
        }
        k = k + 1;
    }
    None
}

/// Whether node `j` is an element carrying class `c`.
fn class_present(doc: &Document, j: usize, c: &str) -> (r: bool)
    requires
        j < doc@.len(),
    ensures
        r == has_class(doc@, j as int, c@),
{
    let n = doc.node(j);
    let mut k: usize = 0;
    while k < n.classes.len()
        invariant
            *n == doc@[j as int],
            k <= n.classes@.len(),
            forall|m: int| 0 <= m < k ==> n.classes@[m]@ != c@,
        decreases n.classes@.len() - k,
    {
        if same_text(n.classes[k].as_str(), c) {
            return true;
        }
        k = k + 1;
    }
    false
}

/// Whether node `j` is an element whose tag name is `tag`.
pub fn tag_is(doc: &Document, j: usize, tag: &str) -> (r: bool)
    requires
        j < doc@.len(),
    ensures
        r == (is_element(doc@, j as int) && doc@[j as int].tag@ == tag@),
{
    let n = doc.node(j);
    !n.is_text && same_text(n.tag.as_str(), tag)
}

/// Whether node `j` is an element that the step describes.
fn step_fits(doc: &Document, j: usize, st: &Step) -> (r: bool)
    requires
        j < doc@.len(),
    ensures
        r == step_ok(doc@, j as int, *st),
{
    if !tag_is(doc, j, st.tag.as_str()) {
        return false;
    }
    match &st.class {
        Some(c) => {
            if !class_present(doc, j, c.as_str()) {
                return false;
            }
        },
        None => {},
    }
    match &st.attr {
        Some(a) => attr(doc, j, a.as_str()).is_some(),
        None => true,
    }
}

/// Whether node `j` lies strictly below node `a`.
pub fn below(doc: &Document, j: usize, a: usize) -> (r: bool)
    requires
        j < doc@.len(),
    ensures
        r == is_desc(doc@, j as int, a as int),
{
    let len = doc.len();
    let mut cur: usize = j;
    loop
        invariant
            len == doc@.len(),
            wf_nodes(doc@),
            cur < len,
            is_desc(doc@, j as int, a as int) == is_desc(doc@, cur as int, a as int),
        decreases cur,
    {
        match doc.node(cur).parent {
            Some(p) => {
                if p == a {
                    return true;
                }
                cur = p;
            },
            None => {
                return false;
            },
        }
    }
}

/// The nearest proper ancestor of `j` with the given tag.
pub fn enclosing(doc: &Document, j: usize, tag: &str) -> (r: Option<usize>)
    requires
        j < doc@.len(),
    ensures
        r == enclosing_tagged(doc@, j as int, tag@),
        r matches Some(k) ==> k < doc@.len(),
{
    let len = doc.len();
    let mut cur: usize = j;
    loop
        invariant
            len == doc@.len(),
            wf_nodes(doc@),
            cur < len,
            enclosing_tagged(doc@, j as int, tag@) == enclosing_tagged(doc@, cur as int, tag@),
        decreases cur,
    {
        match doc.node(cur).parent {
            Some(p) => {
                if tag_is(doc, p, tag) {
                    return Some(p);
                }
                cur = p;
            },
            None => {
                return None;
            },
        }
    }
}

/// Whether node `j` matches the descendant pattern `steps`.
pub fn matches_pattern(doc: &Document, j: usize, steps: &Vec<Step>) -> (r: bool)
    requires
        j < doc@.len(),
    ensures
        r == fits_pattern(doc@, j as int, steps@),
{
    let len = doc.len();
    if steps.len() == 0 {
        return false;
    }
    if !step_fits(doc, j, &steps[steps.len() - 1]) {
        return false;
    }
    let mut k: usize = steps.len() - 1;
    let mut cur: usize = j;
    while k > 0
        invariant
            len == doc@.len(),
            wf_nodes(doc@),
            cur < len,
            k < steps@.len(),
            chain_above(doc@, j as int, steps@, steps@.len() - 1) == chain_above(doc@, cur as int, steps@, k as int),
        decreases cur,
    {
        match doc.node(cur).parent {
            Some(p) => {
                if step_fits(doc, p, &steps[k - 1]) {
                    k = k - 1;
                }
                cur = p;
            },
            None => {
                return false;
            },
        }
    }
    true
}

/// All nodes below `root` that match `steps`, in document order.
pub fn select_all(doc: &Document, root: usize, steps: &Vec<Step>) -> (r: Vec<usize>)
    requires
        root < doc@.len(),
    ensures
        r@ == select(doc@, root as int, steps@),
        forall|k: int| 0 <= k < r@.len() ==> r@[k] < doc@.len(),
{
    let len = doc.len();
    let mut out: Vec<usize> = Vec::new();
    let mut j: usize = root + 1;
    while j < len
        invariant
            len == doc@.len(),
            root < j <= len,
            select(doc@, root as int, steps@) == out@ + select_from(doc@, root as int, steps@, j as int),
            forall|k: int| 0 <= k < out@.len() ==> out@[k] < len,
        decreases len - j,
    {
        if below(doc, j, root) && matches_pattern(doc, j, steps) {
            out.push(j);
            assert(out@ + select_from(doc@, root as int, steps@, j + 1) =~= out@.drop_last() + select_from(doc@, root as int, steps@, j as int));
        }
        j = j + 1;
    }
    assert(out@ + select_from(doc@, root as int, steps@, j as int) =~= out@);
    out
}

/// The first node below `root` that matches `steps`, if any.
pub fn select_first(doc: &Document, root: usize, steps: &Vec<Step>) -> (r: Option<usize>)
    requires
        root < doc@.len(),
    ensures
        r matches Some(k) ==> select(doc@, root as int, steps@).len() > 0 && k == select(doc@, root as int, steps@)[0],
        r is None ==> select(doc@, root as int, steps@).len() == 0,
        r matches Some(k) ==> k < doc@.len(),
{
    let all = select_all(doc, root, steps);
    if all.len() == 0 {
        None
    } else {
        Some(all[0])
    }
}

/// The `n`-th child element of `i` with the given tag, counting from zero.
pub fn nth_child_tagged(doc: &Document, i: usize, tag: &str, n: usize) -> (r: Option<usize>)
    requires
        i < doc@.len(),
    ensures
        r == nth_child(doc@, i as int, tag@, n as nat),
        r matches Some(k) ==> k < doc@.len(),
{
    let len = doc.len();
    let mut j: usize = i + 1;
    let mut left: usize = n;
    while j < len
        invariant
            len == doc@.len(),
            i < j <= len,
            left <= n,
            nth_child(doc@, i as int, tag@, n as nat) == nth_child_from(doc@, i as int, tag@, left as nat, j as int),
        decreases len - j,
    {
        if doc.node(j).parent == Some(i) && tag_is(doc, j, tag) {
            if left == 0 {
                return Some(j);
            }
            left = left - 1;
        }
        j = j + 1;
    }
    None
}

/// The first element after `i` among its siblings with the given tag.
pub fn sibling_tagged(doc: &Document, i: usize, tag: &str) -> (r: Option<usize>)
    requires
        i < doc@.len(),
    ensures
        r == next_sibling_tagged(doc@, i as int, tag@),
        r matches Some(k) ==> k < doc@.len(),
{
    let len = doc.len();
    let mut j: usize = i + 1;
    while j < len
        invariant
            len == doc@.len(),
            i < j <= len,
            next_sibling_tagged(doc@, i as int, tag@) == sibling_tagged_from(doc@, i as int, tag@, j as int),
        decreases len - j,
    {
        if doc.node(j).parent == doc.node(i).parent && tag_is(doc, j, tag) {
            return Some(j);
        }
        j = j + 1;
    }
    None
}

/// The first element after `i` among its siblings that holds a descendant
/// matching `steps`.
pub fn sibling_holding(doc: &Document, i: usize, steps: &Vec<Step>) -> (r: Option<usize>)
    requires
        i < doc@.len(),
    ensures
        r == next_sibling_holding(doc@, i as int, steps@),
        r matches Some(k) ==> k < doc@.len(),
        r matches Some(k) ==> select(doc@, k as int, steps@).len() > 0,
{
    let len = doc.len();
    let mut j: usize = i + 1;
    while j < len
        invariant
            len == doc@.len(),
            i < j <= len,
            next_sibling_holding(doc@, i as int, steps@) == sibling_holding_from(doc@, i as int, steps@, j as int),
        decreases len - j,
    {
        if doc.node(j).parent == doc.node(i).parent && !doc.node(j).is_text && select_first(doc, j, steps).is_some() {
            return Some(j);
        }
        j = j + 1;
    }
    None
}

/// The first element of the document with the given tag whose attribute
/// `name` is `value`.
pub fn find_keyed_element(doc: &Document, tag: &str, name: &str, value: &str) -> (r: Option<usize>)
    ensures
        r == find_keyed(doc@, tag@, name@, value@),
        r matches Some(k) ==> k < doc@.len(),
{
    let len = doc.len();
    let mut j: usize = 0;
    while j < len
        invariant
            len == doc@.len(),
            j <= len,
            find_keyed(doc@, tag@, name@, value@) == find_keyed_from(doc@, tag@, name@, value@, j as int),
        decreases len - j,
    {
        if tag_is(doc, j, tag) {
            match attr(doc, j, name) {
                Some(v) => {
                    if same_text(v.as_str(), value) {
                        return Some(j);
                    }
                },
                None => {},
            }
        }
        j = j + 1;
    }
    None
}

} // verus!
