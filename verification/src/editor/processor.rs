//! The cursor resolver: derives a logical cursor from what the host reports
//! of the browser's native selection state.
//!
//! The host hands over a `SelectionEnvironment`: whether the editor root has
//! an owning document and a visible window, and what each of the two
//! selection accessors (window first, document as the documented cross-engine
//! fallback) reported.  Resolution is a pure function of that snapshot and
//! the modelled editor subtree; every malformed input degrades to `None`,
//! never to an error.

use vstd::prelude::*;
use vstd::string::StrSliceExecFns;

use crate::dom::DomElement;
use crate::dom::DomPosition;
use crate::dom::element_boundary_valid;
use crate::dom::element_text;
use crate::dom::element_text_before;
use crate::dom::element_text_before_string;
use crate::dom::lemma_element_text_before_le;
use crate::editor::Bound;
use crate::editor::Cursor;
use crate::editor::EditorError;

verus! {

/// The two boundary points of one reported selection range.
pub struct RangeSnapshot {
    /// Where the range starts: its container node and offset.
    pub start: DomPosition,
    /// Where the range ends: its container node and offset.
    pub end: DomPosition,
}

/// What one selection object reported: whether it is collapsed, and its
/// ranges in order.  Only the first range is consulted; multi-range
/// selections are not supported.
pub struct SelectionSnapshot {
    /// Whether the selection's start and end boundaries coincide.
    pub collapsed: bool,
    /// The selection's ranges, in order.
    pub ranges: Vec<RangeSnapshot>,
}

/// The outcome of asking one host object for its selection.
pub enum SelectionAccess {
    /// The accessor threw.
    Failed,
    /// The accessor returned no selection.
    Missing,
    /// The accessor returned a selection.
    Available(SelectionSnapshot),
}

/// Everything the host reports about the native selection state at one
/// instant.
pub struct SelectionEnvironment {
    /// Whether the editor root has an owning document.
    pub has_document: bool,
    /// Whether that document has an accessible default view (window).
    pub has_window: bool,
    /// What the window's selection accessor reported.
    pub window_selection: SelectionAccess,
    /// What the document's selection accessor reported, the fallback for
    /// engines that expose selection only there.
    pub document_selection: SelectionAccess,
}

/// The selection resolution consults: the window's, else the document's,
/// else none.  Absent entirely when the root is detached or windowless.
pub open spec fn active_selection(env: SelectionEnvironment) -> Option<SelectionSnapshot> {
    if !env.has_document || !env.has_window {
        None
    } else {
        match env.window_selection {
            SelectionAccess::Available(sel) => Some(sel),
            _ => match env.document_selection {
                SelectionAccess::Available(sel) => Some(sel),
                _ => None,
            },
        }
    }
}

/// What cursor resolution returns: `Insert` at the end offset for a
/// collapsed selection, a `Select` over both offsets otherwise, and `None`
/// whenever anything along the way is absent or malformed.  An offset is the
/// length of the text rendered before the boundary, relative to the start of
/// the editor root.
pub open spec fn find_cursor_spec(root: DomElement, env: SelectionEnvironment) -> Option<Cursor> {
    match active_selection(env) {
        None => None,
        Some(sel) => {
            if sel.ranges@.len() == 0 {
                None
            } else {
                let range = sel.ranges@[0];
                if !element_boundary_valid(root, range.end.path@, range.end.offset) {
                    None
                } else {
                    let end_off = element_text_before(root, range.end.path@, range.end.offset).len();
                    if sel.collapsed {
                        Some(Cursor::Insert(end_off as usize))
                    } else {
                        if !element_boundary_valid(root, range.start.path@, range.start.offset) {
                            None
                        } else {
                            let start_off = element_text_before(
                                root,
                                range.start.path@,
                                range.start.offset,
                            ).len();
                            Some(
                                Cursor::Select(
                                    (
                                        Bound::Included(start_off as usize),
                                        Bound::Included(end_off as usize),
                                    ),
                                ),
                            )
                        }
                    }
                }
            }
        },
    }
}

/// The capability that installs selection-tracking listeners on the host.
/// The listener installation itself is outside work; an implementation holds
/// whatever state it needs to keep those listeners alive.
pub trait TextProcessor: Sized {
    /// On which inputs this implementation's `attach` succeeds.
    spec fn attach_ok(editor: DomElement, has_owner_document: bool) -> bool;

    /// Attach to the given editor root; `has_owner_document` reports whether
    /// the root still belongs to a document, without which no listener can
    /// be installed.
    fn attach(editor: &DomElement, has_owner_document: bool) -> (r: Result<Self, EditorError>)
        ensures
            r is Ok <==> Self::attach_ok(*editor, has_owner_document),
            !has_owner_document ==> r is Err,
    ;
}

/// The stock processor: tracks cursor changes through the resolver.
pub struct DefaultProcessor {}

impl TextProcessor for DefaultProcessor {
    /// The stock processor attaches whenever the root has an owning
    /// document.
    open spec fn attach_ok(editor: DomElement, has_owner_document: bool) -> bool {
        has_owner_document
    }

    fn attach(editor: &DomElement, has_owner_document: bool) -> (r: Result<Self, EditorError>)
        ensures
            r is Ok <==> has_owner_document,
            !has_owner_document ==> (r matches Err(err) && err
                == EditorError::ProcessorNoOwningDocument),
    {
        if has_owner_document {
            Ok(DefaultProcessor {  })
        } else {
            Err(EditorError::ProcessorNoOwningDocument)
        }
    }
}

impl DefaultProcessor {
    /// Derive the logical cursor from the reported selection state: the
    /// result is exactly `find_cursor_spec` of the inputs.
    pub fn find_cursor(editor: &DomElement, env: &SelectionEnvironment) -> (r: Option<Cursor>)
        ensures
            r == find_cursor_spec(*editor, *env),
    {
        if !env.has_document {
            return None;
        }
        if !env.has_window {
            return None;
        }
        let sel = match &env.window_selection {
            SelectionAccess::Available(s) => s,
            _ => match &env.document_selection {
                SelectionAccess::Available(s) => s,
                _ => { return None },
            },
        };
        if sel.ranges.len() == 0 {
            return None;
        }
        let range = &sel.ranges[0];
        let end_s = match element_text_before_string(editor, &range.end.path, range.end.offset) {
            Some(s) => s,
            None => { return None },
        };
        let end_off = end_s.as_str().unicode_len();
        if sel.collapsed {
            Some(Cursor::Insert(end_off))
        } else {
            let start_s = match element_text_before_string(
                editor,
                &range.start.path,
                range.start.offset,
            ) {
                Some(s) => s,
                None => { return None },
            };
            let start_off = start_s.as_str().unicode_len();
            Some(Cursor::Select((Bound::Included(start_off), Bound::Included(end_off))))
        }
    }
}

/// Every collapsed selection whose end boundary names a well-formed point
/// resolves to `Insert(k)`, where `k` is the boundary's logical offset, and
/// `k` never exceeds the length of the root's rendered content.
pub proof fn lemma_resolve_collapsed(
    root: DomElement,
    env: SelectionEnvironment,
    sel: SelectionSnapshot,
)
    requires
        active_selection(env) == Some(sel),
        sel.ranges@.len() > 0,
        sel.collapsed,
        element_boundary_valid(root, sel.ranges@[0].end.path@, sel.ranges@[0].end.offset),
    ensures
        ({
            let k = element_text_before(root, sel.ranges@[0].end.path@, sel.ranges@[0].end.offset).len();
            &&& find_cursor_spec(root, env) == Some(Cursor::Insert(k as usize))
            &&& k <= element_text(root).len()
        }),
{
    lemma_element_text_before_le(root, sel.ranges@[0].end.path@, sel.ranges@[0].end.offset);
}

/// Every non-collapsed selection with well-formed boundaries resolves to
/// `Select((Included(s), Included(e)))`: both bounds are normalized to
/// `Included` regardless of how the host represented its boundary points,
/// and both offsets lie within the rendered content.
pub proof fn lemma_resolve_selection(
    root: DomElement,
    env: SelectionEnvironment,
    sel: SelectionSnapshot,
)
    requires
        active_selection(env) == Some(sel),
        sel.ranges@.len() > 0,
        !sel.collapsed,
        element_boundary_valid(root, sel.ranges@[0].start.path@, sel.ranges@[0].start.offset),
        element_boundary_valid(root, sel.ranges@[0].end.path@, sel.ranges@[0].end.offset),
    ensures
        ({
            let s = element_text_before(
                root,
                sel.ranges@[0].start.path@,
                sel.ranges@[0].start.offset,
            ).len();
            let e = element_text_before(root, sel.ranges@[0].end.path@, sel.ranges@[0].end.offset).len();
            &&& find_cursor_spec(root, env) == Some(
                Cursor::Select((Bound::Included(s as usize), Bound::Included(e as usize))),
            )
            &&& s <= element_text(root).len()
            &&& e <= element_text(root).len()
        }),
{
    lemma_element_text_before_le(root, sel.ranges@[0].start.path@, sel.ranges@[0].start.offset);
    lemma_element_text_before_le(root, sel.ranges@[0].end.path@, sel.ranges@[0].end.offset);
}

/// Resolution is a pure function of the editor subtree and the reported
/// selection state: resolving twice without an intervening change yields
/// identical results.
pub proof fn lemma_resolve_idempotent(
    root1: DomElement,
    env1: SelectionEnvironment,
    root2: DomElement,
    env2: SelectionEnvironment,
)
    requires
        root1 == root2,
        env1 == env2,
    ensures
        find_cursor_spec(root1, env1) == find_cursor_spec(root2, env2),
{
}

/// Resolution degrades to `None`, never to an error, whenever the root has
/// no owning document, the document has no visible window, no selection is
/// available from either accessor, or the selection reports zero ranges.
pub proof fn lemma_resolve_absent(root: DomElement, env: SelectionEnvironment)
    ensures
        !env.has_document ==> find_cursor_spec(root, env) is None,
        !env.has_window ==> find_cursor_spec(root, env) is None,
        active_selection(env) is None ==> find_cursor_spec(root, env) is None,
        (active_selection(env) matches Some(sel) && sel.ranges@.len() == 0)
            ==> find_cursor_spec(root, env) is None,
{
}

} // verus!
