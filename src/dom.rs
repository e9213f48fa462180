//! An HTML tree held as an arena of nodes in document order.
//!
//! Node 0 is the document itself. Every other node names its parent, which
//! always stands before it. Text nodes carry text; element nodes carry a tag
//! name, their class list and their attributes. Nodes are appended in the
//! order in which they appear in the document, so index order is document
//! order.

use vstd::prelude::*;

verus! {

/// One node of a [`Document`].
pub struct Node {
    pub is_text: bool,
    pub tag: String,
    pub text: String,
    pub classes: Vec<String>,
    pub attrs: Vec<(String, String)>,
    pub parent: Option<usize>,
}

/// One step of a descendant pattern: an element with the given tag name,
/// optionally carrying a class and optionally carrying an attribute.
pub struct Step {
    pub tag: String,
    pub class: Option<String>,
    pub attr: Option<String>,
}

/// A parsed document, read-only once built.
pub struct Document {
    nodes: Vec<Node>,
}

/// Every parent stands before its child and is an element; only node 0 has none.
pub open spec fn wf_nodes(s: Seq<Node>) -> bool {
    forall|i: int|
        0 <= i < s.len() ==> match #[trigger] s[i].parent {
            Some(p) => 0 < i && p < i && !s[p as int].is_text,
            None => i == 0,
        }
}

/// Node `j` exists and is an element.
pub open spec fn is_element(s: Seq<Node>, j: int) -> bool {
    0 <= j < s.len() && !s[j].is_text
}

/// Node `j` exists and its parent is `i`.
pub open spec fn is_child(s: Seq<Node>, j: int, i: int) -> bool {
    0 <= j < s.len() && s[j].parent == Some(i as usize)
}

/// Node `j` lies strictly below node `a`.
pub open spec fn is_desc(s: Seq<Node>, j: int, a: int) -> bool
    decreases j,
{
    if 0 <= j < s.len() {
        match s[j].parent {
            Some(p) => p == a || (p < j && is_desc(s, p as int, a)),
            None => false,
        }
    } else {
        false
    }
}

/// The value of the first attribute called `name` among `attrs[k..]`.
pub open spec fn attr_from(attrs: Seq<(String, String)>, name: Seq<char>, k: int) -> Option<Seq<char>>
    decreases attrs.len() - k,
{
    if k < 0 || k >= attrs.len() {
        None
    } else if attrs[k].0@ == name {
        Some(attrs[k].1@)
    } else {
        attr_from(attrs, name, k + 1)
    }
}

/// The value of the first attribute called `name` on node `j`.
pub open spec fn attr_of(s: Seq<Node>, j: int, name: Seq<char>) -> Option<Seq<char>> {
    if is_element(s, j) {
        attr_from(s[j].attrs@, name, 0)
    } else {
        None
    }
}

/// Node `j` carries class `c`.
pub open spec fn has_class(s: Seq<Node>, j: int, c: Seq<char>) -> bool {
    exists|k: int| 0 <= k < s[j].classes@.len() && #[trigger] s[j].classes@[k]@ == c
}

/// Node `j` is an element that the step describes.
pub open spec fn step_ok(s: Seq<Node>, j: int, st: Step) -> bool {
    &&& is_element(s, j)
    &&& s[j].tag@ == st.tag@
    &&& (st.class matches Some(c) ==> has_class(s, j, c@))
    &&& (st.attr matches Some(a) ==> attr_of(s, j, a@).is_some())
}

/// The first `k` steps can be found, in order, among the ancestors of `j`;
/// each step is matched by the nearest ancestor that fits it.
pub open spec fn chain_above(s: Seq<Node>, j: int, steps: Seq<Step>, k: int) -> bool
    decreases j,
{
    if k <= 0 {
        true
    } else if 0 <= j < s.len() {
        match s[j].parent {
            Some(p) => if p < j {
                if step_ok(s, p as int, steps[k - 1]) {
                    chain_above(s, p as int, steps, k - 1)
                } else {
                    chain_above(s, p as int, steps, k)
                }
            } else {
                false
            },
            None => false,
        }
    } else {
        false
    }
}

/// Node `j` matches the descendant pattern `steps`: it fits the last step
/// and the earlier steps are found among its ancestors.
pub open spec fn fits_pattern(s: Seq<Node>, j: int, steps: Seq<Step>) -> bool {
    &&& steps.len() > 0
    &&& step_ok(s, j, steps[steps.len() - 1])
    &&& chain_above(s, j, steps, steps.len() - 1)
}

/// The nodes from index `j` on that lie below `root` and match `steps`, in
/// document order.
pub open spec fn select_from(s: Seq<Node>, root: int, steps: Seq<Step>, j: int) -> Seq<usize>
    decreases s.len() - j,
{
    if j < 0 || j >= s.len() {
        Seq::empty()
    } else if is_desc(s, j, root) && fits_pattern(s, j, steps) {
        seq![j as usize] + select_from(s, root, steps, j + 1)
    } else {
        select_from(s, root, steps, j + 1)
    }
}

/// All nodes below `root` that match `steps`, in document order.
pub open spec fn select(s: Seq<Node>, root: int, steps: Seq<Step>) -> Seq<usize> {
    select_from(s, root, steps, root + 1)
}

/// Among the children of `i` from index `j` on, the `n`-th element with the
/// given tag (counting from zero).
pub open spec fn nth_child_from(s: Seq<Node>, i: int, tag: Seq<char>, n: nat, j: int) -> Option<usize>
    decreases s.len() - j,
{
    if j < 0 || j >= s.len() {
        None
    } else if is_child(s, j, i) && is_element(s, j) && s[j].tag@ == tag {
        if n == 0 {
            Some(j as usize)
        } else {
            nth_child_from(s, i, tag, (n - 1) as nat, j + 1)
        }
    } else {
        nth_child_from(s, i, tag, n, j + 1)
    }
}

/// The `n`-th child element of `i` with the given tag (counting from zero).
pub open spec fn nth_child(s: Seq<Node>, i: int, tag: Seq<char>, n: nat) -> Option<usize> {
    nth_child_from(s, i, tag, n, i + 1)
}

/// The nearest proper ancestor of `j` with the given tag.
pub open spec fn enclosing_tagged(s: Seq<Node>, j: int, tag: Seq<char>) -> Option<usize>
    decreases j,
{
    if 0 <= j < s.len() {
        match s[j].parent {
            Some(p) => if p < j {
                if is_element(s, p as int) && s[p as int].tag@ == tag {
                    Some(p)
                } else {
                    enclosing_tagged(s, p as int, tag)
                }
            } else {
                None
            },
            None => None,
        }
    } else {
        None
    }
}

/// The first element sibling of `i` at index `j` or later with the given tag.
pub open spec fn sibling_tagged_from(s: Seq<Node>, i: int, tag: Seq<char>, j: int) -> Option<usize>
    decreases s.len() - j,
{
    if j < 0 || j >= s.len() || i < 0 || i >= s.len() {
        None
    } else if s[j].parent == s[i].parent && is_element(s, j) && s[j].tag@ == tag {
        Some(j as usize)
    } else {
        sibling_tagged_from(s, i, tag, j + 1)
    }
}

/// The first element after `i` among its siblings with the given tag.
pub open spec fn next_sibling_tagged(s: Seq<Node>, i: int, tag: Seq<char>) -> Option<usize> {
    sibling_tagged_from(s, i, tag, i + 1)
}

/// The first element sibling of `i` at index `j` or later that holds a
/// descendant matching `steps`.
pub open spec fn sibling_holding_from(s: Seq<Node>, i: int, steps: Seq<Step>, j: int) -> Option<usize>
    decreases s.len() - j,
{
    if j < 0 || j >= s.len() || i < 0 || i >= s.len() {
        None
    } else if s[j].parent == s[i].parent && is_element(s, j) && select(s, j, steps).len() > 0 {
        Some(j as usize)
    } else {
        sibling_holding_from(s, i, steps, j + 1)
    }
}

/// The first element after `i` among its siblings that holds a descendant
/// matching `steps`.
pub open spec fn next_sibling_holding(s: Seq<Node>, i: int, steps: Seq<Step>) -> Option<usize> {
    sibling_holding_from(s, i, steps, i + 1)
}

/// The first element at index `j` or later with the given tag whose attribute
/// `name` is `value`.
pub open spec fn find_keyed_from(s: Seq<Node>, tag: Seq<char>, name: Seq<char>, value: Seq<char>, j: int) -> Option<usize>
    decreases s.len() - j,
{
    if j < 0 || j >= s.len() {
        None
    } else if is_element(s, j) && s[j].tag@ == tag && attr_of(s, j, name) == Some(value) {
        Some(j as usize)
    } else {
        find_keyed_from(s, tag, name, value, j + 1)
    }
}

/// The first element of the document with the given tag whose attribute
/// `name` is `value`.
pub open spec fn find_keyed(s: Seq<Node>, tag: Seq<char>, name: Seq<char>, value: Seq<char>) -> Option<usize> {
    find_keyed_from(s, tag, name, value, 0)
}

impl View for Document {
    type V = Seq<Node>;

    closed spec fn view(&self) -> Seq<Node> {
        self.nodes@
    }
}

impl Document {
    #[verifier::type_invariant]
    spec fn inv(self) -> bool {
        wf_nodes(self.nodes@)
    }

    /// An empty document: only the document node, with an empty tag.
    pub fn new() -> (d: Document)
        ensures
            d@.len() == 1,
            !d@[0].is_text,
            d@[0].tag@.len() == 0,
            d@[0].classes@.len() == 0,
            d@[0].attrs@.len() == 0,
            d@[0].parent.is_none(),
    {
        let root = Node {
            is_text: false,
            tag: String::new(),
            text: String::new(),
            classes: Vec::new(),
            attrs: Vec::new(),
            parent: None,
        };
        let mut nodes: Vec<Node> = Vec::new();
        nodes.push(root);
        Document { nodes }
    }

    /// The number of nodes; the document is always well formed.
    pub fn len(&self) -> (r: usize)
        ensures
            r == self@.len(),
            wf_nodes(self@),
    {
        proof {
            use_type_invariant(self);
        }
        self.nodes.len()
    }

    /// The node at index `i`.
    pub fn node(&self, i: usize) -> (r: &Node)
        requires
            i < self@.len(),
        ensures
            *r == self@[i as int],
    {
        &self.nodes[i]
    }

    fn append(&mut self, n: Node) -> (r: usize)
        requires
            match n.parent {
                Some(p) => p < old(self)@.len() && !old(self)@[p as int].is_text,
                None => false,
            },
        ensures
            r == old(self)@.len(),
            final(self)@ == old(self)@.push(n),
    {
        proof {
            use_type_invariant(&*self);
        }
        let mut nodes: Vec<Node> = Vec::new();
        std::mem::swap(&mut nodes, &mut self.nodes);
        let r = nodes.len();
        nodes.push(n);
        assert(wf_nodes(nodes@)) by {
            assert forall|i: int| 0 <= i < nodes@.len() implies match #[trigger] nodes@[i].parent {
                Some(p) => 0 < i && p < i && !nodes@[p as int].is_text,
                None => i == 0,
            } by {
                if i < r {
                    assert(nodes@[i] == old(self)@[i]);
                }
            }
        }
        self.nodes = nodes;
        r
    }

    /// Appends an element as the last child of `parent` and returns its index.
    pub fn add_element(&mut self, parent: usize, tag: &str, classes: Vec<String>, attrs: Vec<(String, String)>) -> (r: usize)
        requires
            parent < old(self)@.len(),
            !old(self)@[parent as int].is_text,
        ensures
            r == old(self)@.len(),
            final(self)@.len() == old(self)@.len() + 1,
            final(self)@.subrange(0, r as int) == old(self)@,
            !final(self)@[r as int].is_text,
            final(self)@[r as int].tag@ == tag@,
            final(self)@[r as int].classes == classes,
            final(self)@[r as int].attrs == attrs,
            final(self)@[r as int].parent == Some(parent),
    {
        let n = Node { is_text: false, tag: tag.to_owned(), text: String::new(), classes, attrs, parent: Some(parent) };
        let r = self.append(n);
        assert(self@.subrange(0, r as int) =~= old(self)@);
        r
    }

    /// Appends a text node as the last child of `parent` and returns its index.
    pub fn add_text(&mut self, parent: usize, text: &str) -> (r: usize)
        requires
            parent < old(self)@.len(),
            !old(self)@[parent as int].is_text,
        ensures
            r == old(self)@.len(),
            final(self)@.len() == old(self)@.len() + 1,
            final(self)@.subrange(0, r as int) == old(self)@,
            final(self)@[r as int].is_text,
            final(self)@[r as int].text@ == text@,
            final(self)@[r as int].parent == Some(parent),
    {
        let n = Node {
            is_text: true,
            tag: String::new(),
            text: text.to_owned(),
            classes: Vec::new(),
            attrs: Vec::new(),
            parent: Some(parent),
        };
        let r = self.append(n);
        assert(self@.subrange(0, r as int) =~= old(self)@);
        r
    }
}

} // verus!
