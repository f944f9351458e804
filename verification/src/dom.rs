//! A plain-value model of the DOM subtree the editor is attached to.
//!
//! The host owns the live nodes; it hands the library a snapshot of the part
//! the logic reads: element ids and class lists, whether an element is an
//! HTML element, and the text carried by text nodes.  Everything the rest of
//! the crate states about offsets is expressed against the rendered text of
//! such a tree.

use vstd::prelude::*;

verus! {

/// One node of the modelled DOM subtree: a text node with its character
/// data, or an element with its children.
pub enum DomNode {
    Text(String),
    Element(DomElement),
}

/// An element node: the attributes the editor logic reads, plus the ordered
/// children.
pub struct DomElement {
    /// The element's `id` attribute.
    pub id: String,
    /// The element's class list, in order.
    pub classes: Vec<String>,
    /// Whether the live node is an HTML element (as opposed to, say, SVG).
    pub is_html: bool,
    /// The child nodes, in document order.
    pub children: Vec<DomNode>,
}

/// A point inside the modelled subtree: the path of child indices leading
/// from the root to the container node, and an offset within the container
/// (a character index for a text node, a child index for an element).
pub struct DomPosition {
    /// Child indices from the root down to the container node.
    pub path: Vec<usize>,
    /// Offset within the container node.
    pub offset: usize,
}

/// The text a node renders: the character data of a text node, or the
/// concatenation of the children's rendered text for an element.
pub open spec fn node_text(n: DomNode) -> Seq<char>
    decreases n,
{
    match n {
        DomNode::Text(s) => s@,
        DomNode::Element(e) => nodes_text(e.children@),
    }
}

/// The concatenation of the rendered text of a sequence of sibling nodes.
pub open spec fn nodes_text(ns: Seq<DomNode>) -> Seq<char>
    decreases ns,
{
    if ns.len() == 0 {
        Seq::empty()
    } else {
        node_text(ns[0]) + nodes_text(ns.subrange(1, ns.len() as int))
    }
}

/// The text an element renders.
pub open spec fn element_text(e: DomElement) -> Seq<char> {
    nodes_text(e.children@)
}

/// Rendered text distributes over concatenation of sibling lists.
pub proof fn lemma_nodes_text_concat(a: Seq<DomNode>, b: Seq<DomNode>)
    ensures
        nodes_text(a + b) == nodes_text(a) + nodes_text(b),
    decreases a.len(),
{
    if a.len() == 0 {
        assert(a + b =~= b);
        assert(nodes_text(a) + nodes_text(b) =~= nodes_text(b));
    } else {
        assert((a + b).len() > 0);
        assert((a + b)[0] == a[0]);
        assert((a + b).subrange(1, (a + b).len() as int) =~= a.subrange(1, a.len() as int) + b);
        lemma_nodes_text_concat(a.subrange(1, a.len() as int), b);
        assert(node_text(a[0]) + (nodes_text(a.subrange(1, a.len() as int)) + nodes_text(b)) =~= (
        node_text(a[0]) + nodes_text(a.subrange(1, a.len() as int))) + nodes_text(b));
    }
}

/// A one-node list renders exactly that node's text.
pub proof fn lemma_nodes_text_singleton(n: DomNode)
    ensures
        nodes_text(seq![n]) == node_text(n),
{
    assert(seq![n].len() == 1);
    assert(seq![n][0] == n);
    assert(seq![n].subrange(1, 1) =~= Seq::<DomNode>::empty());
    assert(nodes_text(Seq::<DomNode>::empty()) == Seq::<char>::empty());
    assert(node_text(n) + Seq::<char>::empty() =~= node_text(n));
}

/// Extending a prefix of siblings by one node appends that node's text.
pub proof fn lemma_nodes_text_take_succ(ns: Seq<DomNode>, i: int)
    requires
        0 <= i < ns.len(),
    ensures
        nodes_text(ns.subrange(0, i + 1)) == nodes_text(ns.subrange(0, i)) + node_text(ns[i]),
{
    assert(ns.subrange(0, i + 1) =~= ns.subrange(0, i) + seq![ns[i]]);
    lemma_nodes_text_concat(ns.subrange(0, i), seq![ns[i]]);
    lemma_nodes_text_singleton(ns[i]);
}

impl DomNode {
    /// Build the string a node renders, child texts concatenated in document
    /// order.
    pub fn render_text(&self) -> (r: String)
        ensures
            r@ == node_text(*self),
        decreases *self,
    {
        match self {
            DomNode::Text(s) => s.clone(),
            DomNode::Element(e) => {
                proof {
                    assert(*e == (*self)->Element_0);
                    assert(decreases_to!(*self => (*self)->Element_0.children@));
                }
                let out = render_nodes_prefix(&e.children, e.children.len());
                proof {
                    assert(e.children@.subrange(0, e.children@.len() as int) =~= e.children@);
                }
                out
            },
        }
    }
}

/// Build the string rendered by the first `k` nodes of a sibling list.
#[verifier::loop_isolation(false)]
pub fn render_nodes_prefix(ns: &Vec<DomNode>, k: usize) -> (r: String)
    requires
        k <= ns.len(),
    ensures
        r@ == nodes_text(ns@.subrange(0, k as int)),
    decreases ns@,
{
    let mut out = String::new();
    let mut i: usize = 0;
    while i < k
        invariant
            i <= k,
            out@ == nodes_text(ns@.subrange(0, i as int)),
        decreases k - i,
    {
        let piece = ns[i].render_text();
        out.append(piece.as_str());
        proof {
            lemma_nodes_text_take_succ(ns@, i as int);
        }
        i = i + 1;
    }
    out
}

/// Whether (`path`, `off`) names a well-formed point within `n`: the path
/// must lead through existing children, and the offset must not pass the end
/// of the container (its character data for a text node, its child list for
/// an element).
pub open spec fn boundary_valid(n: DomNode, path: Seq<usize>, off: usize) -> bool
    decreases path.len(),
{
    if path.len() == 0 {
        match n {
            DomNode::Text(s) => off <= s@.len(),
            DomNode::Element(e) => off <= e.children@.len(),
        }
    } else {
        match n {
            DomNode::Text(s) => false,
            DomNode::Element(e) => {
                &&& (path[0] as int) < e.children@.len()
                &&& boundary_valid(e.children@[path[0] as int], path.subrange(1, path.len() as int), off)
            },
        }
    }
}

/// The text rendered strictly before the point (`path`, `off`) within `n`.
pub open spec fn text_before(n: DomNode, path: Seq<usize>, off: usize) -> Seq<char>
    recommends
        boundary_valid(n, path, off),
    decreases path.len(),
{
    if path.len() == 0 {
        match n {
            DomNode::Text(s) => s@.subrange(0, off as int),
            DomNode::Element(e) => nodes_text(e.children@.subrange(0, off as int)),
        }
    } else {
        match n {
            DomNode::Text(s) => Seq::empty(),
            DomNode::Element(e) => nodes_text(e.children@.subrange(0, path[0] as int))
                + text_before(e.children@[path[0] as int], path.subrange(1, path.len() as int), off),
        }
    }
}

/// Whether an element's class list contains the class `c`.
pub open spec fn has_class_spec(e: DomElement, c: Seq<char>) -> bool {
    exists|i: int| 0 <= i < e.classes@.len() && e.classes@[i]@ == c
}

impl DomElement {
    /// Whether this element's class list contains the class `c`.
    pub fn has_class(&self, c: &String) -> (b: bool)
        ensures
            b == has_class_spec(*self, c@),
    {
        let mut i: usize = 0;
        while i < self.classes.len()
            invariant
                i <= self.classes@.len(),
                forall|j: int| 0 <= j < i ==> self.classes@[j]@ != c@,
            decreases self.classes@.len() - i,
        {
            if self.classes[i].eq(c) {
                return true;
            }
            i = i + 1;
        }
        false
    }
}

/// The first element, in document order, whose id is `id` and whose class
/// list contains `class`; the model of an id-plus-class selector lookup.
pub open spec fn find_element_spec(n: DomNode, id: Seq<char>, class: Seq<char>) -> Option<
    DomElement,
>
    decreases n,
{
    match n {
        DomNode::Text(s) => None,
        DomNode::Element(e) => if e.id@ == id && has_class_spec(e, class) {
            Some(e)
        } else {
            find_in_children_spec(e.children@, id, class)
        },
    }
}

/// `find_element_spec` over a sibling list, left to right.
pub open spec fn find_in_children_spec(ns: Seq<DomNode>, id: Seq<char>, class: Seq<char>) -> Option<
    DomElement,
>
    decreases ns,
{
    if ns.len() == 0 {
        None
    } else {
        match find_element_spec(ns[0], id, class) {
            Some(e) => Some(e),
            None => find_in_children_spec(ns.subrange(1, ns.len() as int), id, class),
        }
    }
}

/// Searching a concatenation searches the left part first.
pub proof fn lemma_find_in_children_concat(
    a: Seq<DomNode>,
    b: Seq<DomNode>,
    id: Seq<char>,
    class: Seq<char>,
)
    ensures
        find_in_children_spec(a + b, id, class) == (match find_in_children_spec(a, id, class) {
            Some(e) => Some(e),
            None => find_in_children_spec(b, id, class),
        }),
    decreases a.len(),
{
    if a.len() == 0 {
        assert(a + b =~= b);
    } else {
        assert((a + b)[0] == a[0]);
        assert((a + b).subrange(1, (a + b).len() as int) =~= a.subrange(1, a.len() as int) + b);
        lemma_find_in_children_concat(a.subrange(1, a.len() as int), b, id, class);
    }
}

/// Searching a one-node list searches that node.
pub proof fn lemma_find_in_children_singleton(n: DomNode, id: Seq<char>, class: Seq<char>)
    ensures
        find_in_children_spec(seq![n], id, class) == find_element_spec(n, id, class),
{
    assert(seq![n][0] == n);
    assert(seq![n].subrange(1, 1) =~= Seq::<DomNode>::empty());
    assert(find_in_children_spec(Seq::<DomNode>::empty(), id, class) is None);
}

/// Whether `path` leads through existing children of `n`.
pub open spec fn node_path_valid(n: DomNode, path: Seq<usize>) -> bool
    decreases path.len(),
{
    if path.len() == 0 {
        true
    } else {
        match n {
            DomNode::Text(s) => false,
            DomNode::Element(e) => (path[0] as int) < e.children@.len() && node_path_valid(
                e.children@[path[0] as int],
                path.subrange(1, path.len() as int),
            ),
        }
    }
}

/// The node `path` leads to, starting from `n`.
pub open spec fn node_at(n: DomNode, path: Seq<usize>) -> DomNode
    recommends
        node_path_valid(n, path),
    decreases path.len(),
{
    if path.len() == 0 {
        n
    } else {
        match n {
            DomNode::Text(s) => n,
            DomNode::Element(e) => if (path[0] as int) < e.children@.len() {
                node_at(e.children@[path[0] as int], path.subrange(1, path.len() as int))
            } else {
                n
            },
        }
    }
}

/// Find the path of child indices to the first element, in document order,
/// with the given id and class; `None` when no element matches.
#[verifier::loop_isolation(false)]
pub fn find_element_path(n: &DomNode, id: &String, class: &String) -> (r: Option<Vec<usize>>)
    ensures
        r matches Some(p) ==> {
            &&& node_path_valid(*n, p@)
            &&& find_element_spec(*n, id@, class@) matches Some(e) && node_at(*n, p@)
                == DomNode::Element(e)
        },
        r is None ==> find_element_spec(*n, id@, class@) is None,
    decreases *n,
{
    match n {
        DomNode::Text(s) => None,
        DomNode::Element(e) => {
            if e.id.eq(id) && e.has_class(class) {
                let p: Vec<usize> = Vec::new();
                proof {
                    assert(p@ =~= Seq::<usize>::empty());
                }
                Some(p)
            } else {
                let mut i: usize = 0;
                while i < e.children.len()
                    invariant
                        i <= e.children@.len(),
                        find_in_children_spec(e.children@.subrange(0, i as int), id@, class@)
                            is None,
                    decreases e.children@.len() - i,
                {
                    proof {
                        assert(*e == (*n)->Element_0);
                        assert(decreases_to!(*n => (*n)->Element_0.children[i as int]));
                    }
                    let found = find_element_path(&e.children[i], id, class);
                    proof {
                        assert(e.children@.subrange(0, i + 1) =~= e.children@.subrange(0, i as int)
                            + seq![e.children@[i as int]]);
                        lemma_find_in_children_concat(
                            e.children@.subrange(0, i as int),
                            seq![e.children@[i as int]],
                            id@,
                            class@,
                        );
                        lemma_find_in_children_singleton(e.children@[i as int], id@, class@);
                    }
                    if let Some(inner) = found {
                        let ghost inner_snap = inner@;
                        let mut p = inner;
                        p.insert(0, i);
                        proof {
                            assert(e.children@ =~= e.children@.subrange(0, i + 1)
                                + e.children@.subrange(i + 1, e.children@.len() as int));
                            lemma_find_in_children_concat(
                                e.children@.subrange(0, i + 1),
                                e.children@.subrange(i + 1, e.children@.len() as int),
                                id@,
                                class@,
                            );
                            assert(p@[0] == i);
                            assert(p@.subrange(1, p@.len() as int) =~= inner_snap);
                        }
                        return Some(p);
                    }
                    i = i + 1;
                }
                proof {
                    assert(e.children@.subrange(0, e.children@.len() as int) =~= e.children@);
                }
                None
            }
        },
    }
}

/// Carve the node `path[depth..]` leads to out of the owned tree `n`.
pub fn take_at_path(n: DomNode, path: &Vec<usize>, depth: usize) -> (r: DomNode)
    requires
        depth <= path@.len(),
        node_path_valid(n, path@.subrange(depth as int, path@.len() as int)),
    ensures
        r == node_at(n, path@.subrange(depth as int, path@.len() as int)),
    decreases path@.len() - depth,
{
    proof {
        let tail = path@.subrange(depth as int, path@.len() as int);
        if depth < path@.len() {
            assert(tail[0] == path@[depth as int]);
            assert(tail.subrange(1, tail.len() as int) =~= path@.subrange(
                depth as int + 1,
                path@.len() as int,
            ));
        } else {
            assert(tail =~= Seq::<usize>::empty());
        }
    }
    if depth == path.len() {
        n
    } else {
        match n {
            DomNode::Element(mut e) => {
                let idx = path[depth];
                let child = e.children.remove(idx);
                take_at_path(child, path, depth + 1)
            },
            DomNode::Text(t) => {
                proof {
                    assert(false);
                }
                DomNode::Text(t)
            },
        }
    }
}

/// `boundary_valid`, with an element as the root container.
pub open spec fn element_boundary_valid(e: DomElement, path: Seq<usize>, off: usize) -> bool {
    boundary_valid(DomNode::Element(e), path, off)
}

/// `text_before`, with an element as the root container.
pub open spec fn element_text_before(e: DomElement, path: Seq<usize>, off: usize) -> Seq<char> {
    text_before(DomNode::Element(e), path, off)
}

/// The text before a well-formed point is never longer than the whole
/// rendered text.
pub proof fn lemma_text_before_le(n: DomNode, path: Seq<usize>, off: usize)
    requires
        boundary_valid(n, path, off),
    ensures
        text_before(n, path, off).len() <= node_text(n).len(),
    decreases path.len(),
{
    if path.len() == 0 {
        match n {
            DomNode::Text(s) => {},
            DomNode::Element(e) => {
                assert(e.children@ =~= e.children@.subrange(0, off as int) + e.children@.subrange(
                    off as int,
                    e.children@.len() as int,
                ));
                lemma_nodes_text_concat(
                    e.children@.subrange(0, off as int),
                    e.children@.subrange(off as int, e.children@.len() as int),
                );
            },
        }
    } else {
        match n {
            DomNode::Text(s) => {},
            DomNode::Element(e) => {
                let idx = path[0] as int;
                lemma_text_before_le(e.children@[idx], path.subrange(1, path.len() as int), off);
                assert(e.children@ =~= e.children@.subrange(0, idx + 1) + e.children@.subrange(
                    idx + 1,
                    e.children@.len() as int,
                ));
                lemma_nodes_text_concat(
                    e.children@.subrange(0, idx + 1),
                    e.children@.subrange(idx + 1, e.children@.len() as int),
                );
                lemma_nodes_text_take_succ(e.children@, idx);
            },
        }
    }
}

/// `lemma_text_before_le`, with an element as the root container.
pub proof fn lemma_element_text_before_le(e: DomElement, path: Seq<usize>, off: usize)
    requires
        element_boundary_valid(e, path, off),
    ensures
        element_text_before(e, path, off).len() <= element_text(e).len(),
{
    lemma_text_before_le(DomNode::Element(e), path, off);
}

/// Build the text before the point (`path[depth..]`, `off`) within `n`, or
/// `None` when the point does not name a well-formed place in the tree.
pub fn text_before_string(n: &DomNode, path: &Vec<usize>, depth: usize, off: usize) -> (r: Option<
    String,
>)
    requires
        depth <= path@.len(),
    ensures
        r is Some <==> boundary_valid(*n, path@.subrange(depth as int, path@.len() as int), off),
        r matches Some(s) ==> s@ == text_before(
            *n,
            path@.subrange(depth as int, path@.len() as int),
            off,
        ),
    decreases *n,
{
    let ghost tail = path@.subrange(depth as int, path@.len() as int);
    if depth == path.len() {
        match n {
            DomNode::Text(s) => {
                let len = s.as_str().unicode_len();
                if off <= len {
                    Some(s.as_str().substring_char(0, off).to_owned())
                } else {
                    None
                }
            },
            DomNode::Element(e) => {
                if off <= e.children.len() {
                    Some(render_nodes_prefix(&e.children, off))
                } else {
                    None
                }
            },
        }
    } else {
        proof {
            assert(tail.len() > 0);
            assert(tail[0] == path@[depth as int]);
            assert(tail.subrange(1, tail.len() as int) =~= path@.subrange(
                depth as int + 1,
                path@.len() as int,
            ));
        }
        match n {
            DomNode::Text(s) => None,
            DomNode::Element(e) => {
                let idx = path[depth];
                if idx < e.children.len() {
                    proof {
                        assert(*e == (*n)->Element_0);
                        assert(decreases_to!(*n => (*n)->Element_0.children[idx as int]));
                    }
                    let mut pre = render_nodes_prefix(&e.children, idx);
                    match text_before_string(&e.children[idx], path, depth + 1, off) {
                        Some(rest) => {
                            pre.append(rest.as_str());
                            Some(pre)
                        },
                        None => None,
                    }
                } else {
                    None
                }
            },
        }
    }
}

/// `text_before_string`, with an element as the root container.
pub fn element_text_before_string(e: &DomElement, path: &Vec<usize>, off: usize) -> (r: Option<
    String,
>)
    ensures
        r is Some <==> element_boundary_valid(*e, path@, off),
        r matches Some(s) ==> s@ == element_text_before(*e, path@, off),
{
    proof {
        assert(path@.subrange(0, path@.len() as int) =~= path@);
    }
    if path.len() == 0 {
        if off <= e.children.len() {
            Some(render_nodes_prefix(&e.children, off))
        } else {
            None
        }
    } else {
        let idx = path[0];
        if idx < e.children.len() {
            let mut pre = render_nodes_prefix(&e.children, idx);
            match text_before_string(&e.children[idx], path, 1, off) {
                Some(rest) => {
                    pre.append(rest.as_str());
                    Some(pre)
                },
                None => None,
            }
        } else {
            None
        }
    }
}

} // verus!
