//! The UI capability: builds the editor chrome around the attach target.
//!
//! Styling is outside work the host performs; what the library models and
//! verifies is the structural contract: initialization may freely
//! restructure the root's children, but must move their text content, intact
//! and in order, into a single content host tagged with the recognizable
//! marker class.

use vstd::prelude::*;

use crate::dom::DomElement;
use crate::dom::DomNode;
use crate::dom::element_text;
use crate::dom::has_class_spec;
use crate::dom::node_text;
use crate::dom::nodes_text;
use crate::dom::lemma_nodes_text_take_succ;
use crate::editor::EditorError;

verus! {

/// The marker class of the inner editable content container.
pub open spec fn content_css_class() -> Seq<char> {
    "duald_editor_content"@
}

/// The marker class of the inner editable content container.
pub fn content_css_class_str() -> (r: &'static str)
    ensures
        r@ == content_css_class(),
{
    "duald_editor_content"
}

/// Whether a node is a realized content host: an element tagged with the
/// content marker class.
pub open spec fn is_content_host(n: DomNode) -> bool {
    n matches DomNode::Element(e) && has_class_spec(e, content_css_class())
}

/// The capability that builds the editor's chrome.  An implementation may
/// restyle and restructure the root's children, but must preserve their text
/// content, moved into a content host that later lookups can locate by its
/// marker class.
pub trait EditorUI: Sized {
    /// On which roots this implementation's `init` succeeds.
    spec fn init_ok(editor: DomElement) -> bool;

    /// Realize the chrome under the given root, returning the transformed
    /// root.  On success the root's text is preserved, at least one child is
    /// a content host, and every content host carries exactly the text the
    /// root carried before.
    fn init(editor: DomElement) -> (r: Result<(Self, DomElement), EditorError>)
        ensures
            r is Ok <==> Self::init_ok(editor),
            r matches Ok(p) ==> {
                &&& element_text(p.1) == element_text(editor)
                &&& exists|i: int|
                    0 <= i < p.1.children@.len() && is_content_host(#[trigger] p.1.children@[i])
                &&& forall|i: int|
                    0 <= i < p.1.children@.len() && is_content_host(#[trigger] p.1.children@[i])
                        ==> node_text(p.1.children@[i]) == element_text(editor)
            },
    ;
}

/// Locate the first realized content host among the given children.
pub fn find_content_host(children: &Vec<DomNode>) -> (r: Option<usize>)
    ensures
        r matches Some(i) ==> i < children@.len() && is_content_host(children@[i as int]),
        r is None ==> forall|i: int|
            0 <= i < children@.len() ==> !is_content_host(#[trigger] children@[i]),
{
    let needle = content_css_class_str().to_owned();
    let mut i: usize = 0;
    while i < children.len()
        invariant
            i <= children@.len(),
            needle@ == content_css_class(),
            forall|j: int| 0 <= j < i ==> !is_content_host(#[trigger] children@[j]),
        decreases children@.len() - i,
    {
        match &children[i] {
            DomNode::Element(e) => {
                if e.has_class(&needle) {
                    return Some(i);
                }
            },
            DomNode::Text(s) => {},
        }
        i = i + 1;
    }
    None
}

/// The stock UI: wraps the root's children in a fresh content host, beside
/// an empty header element.
pub struct DefaultUI {}

impl EditorUI for DefaultUI {
    /// The stock UI's transformation is total: it succeeds on every root.
    open spec fn init_ok(editor: DomElement) -> bool {
        true
    }

    fn init(editor: DomElement) -> (r: Result<(Self, DomElement), EditorError>)
        ensures
            r is Ok,
    {
        let header = DomElement {
            id: "".to_owned(),
            classes: Vec::new(),
            is_html: true,
            children: Vec::new(),
        };
        let mut content_classes: Vec<String> = Vec::new();
        content_classes.push(content_css_class_str().to_owned());
        let content = DomElement {
            id: "".to_owned(),
            classes: content_classes,
            is_html: true,
            children: editor.children,
        };
        let ghost content_snap = content;
        let mut new_children: Vec<DomNode> = Vec::new();
        new_children.push(DomNode::Element(header));
        new_children.push(DomNode::Element(content));
        let new_root = DomElement {
            id: editor.id,
            classes: editor.classes,
            is_html: editor.is_html,
            children: new_children,
        };
        proof {
            let ns = new_root.children@;
            assert(ns.len() == 2);
            assert(ns.subrange(0, 0) =~= Seq::<DomNode>::empty());
            lemma_nodes_text_take_succ(ns, 0);
            lemma_nodes_text_take_succ(ns, 1);
            assert(ns.subrange(0, 2) =~= ns);
            assert(node_text(ns[0]) == nodes_text(Seq::<DomNode>::empty()));
            assert(nodes_text(ns) =~= node_text(ns[1]));
            assert(node_text(ns[1]) == element_text(editor));
            assert(content_snap.classes@[0]@ == content_css_class());
            assert(is_content_host(ns[1]));
            assert(!is_content_host(ns[0]));
        }
        Ok((DefaultUI {  }, new_root))
    }
}

} // verus!
