//! Model-level core of a browser-embedded rich-text editor.
//!
//! The live DOM, the browser's `Selection` object, and event listeners are
//! outside collaborators that the surrounding host drives; this crate holds
//! the verified logic they feed: the logical text buffer with its formatting
//! spans, the span map between logical offsets and DOM positions, the cursor
//! resolver that turns a reported selection into a logical cursor, and the
//! editor composition root that ties them together.  The host converts live
//! nodes and selection state into the plain-value models declared here and
//! hands them over; everything the library then computes is verified.

use vstd::prelude::*;

pub mod buffer;
pub mod dom;
pub mod editor;
pub mod logger;

use crate::dom::DomNode;
use crate::dom::element_text;
use crate::dom::find_element_spec;
use crate::dom::find_element_path;
use crate::dom::take_at_path;
use crate::editor::Editor;
use crate::editor::EditorError;
use crate::editor::DefaultEditor;
use crate::editor::primary_css_class;
use crate::editor::primary_css_class_str;
use crate::editor::processor::DefaultProcessor;
use crate::editor::processor::TextProcessor;
use crate::editor::ui::DefaultUI;
use crate::editor::ui::EditorUI;
use crate::logger::LogLevel;
use crate::logger::LoggerConfig;
use crate::logger::setup_logger;

verus! {

/// The document an attach call works against: the explicit argument when
/// one was given, else the global window's document.
pub open spec fn resolved_document(doc: Option<DomNode>, window_doc: Option<DomNode>) -> Option<
    DomNode,
> {
    match doc {
        Some(d) => Some(d),
        None => window_doc,
    }
}

/// Attach an editor to the element with the given id, which must also carry
/// the `duald_editor` marker class.  `doc` is the caller's document model;
/// `window_doc` is the global window's, consulted when no explicit document
/// was given.  Configuration errors name exactly what is missing; on
/// success the editor is initialized from the located element's content.
pub fn attach_to<UI: EditorUI, Processor: TextProcessor>(
    id: &str,
    doc: Option<DomNode>,
    window_doc: Option<DomNode>,
) -> (r: Result<Editor<UI, Processor>, EditorError>)
    ensures
        resolved_document(doc, window_doc) is None ==> (r matches Err(err) && err
            == EditorError::NoRenderingContext),
        (resolved_document(doc, window_doc) matches Some(d) && find_element_spec(
            d,
            id@,
            primary_css_class(),
        ) is None) ==> (r matches Err(err) && err == EditorError::EditorElementNotFound),
        (resolved_document(doc, window_doc) matches Some(d) && find_element_spec(
            d,
            id@,
            primary_css_class(),
        ) matches Some(e) && !e.is_html) ==> (r matches Err(err) && err
            == EditorError::NotAnHtmlElement),
        r is Ok <==> (resolved_document(doc, window_doc) matches Some(d) && find_element_spec(
            d,
            id@,
            primary_css_class(),
        ) matches Some(e) && e.is_html && Processor::attach_ok(e, true) && UI::init_ok(e)),
        r matches Ok(ed) ==> (resolved_document(doc, window_doc) matches Some(d)
            && find_element_spec(d, id@, primary_css_class()) matches Some(e) && {
            &&& e.is_html
            &&& ed.cursor is None
            &&& ed.buffer.wf()
            &&& ed.span_map.wf(ed.buffer.content@.len())
            &&& ed.buffer.content@ == element_text(e)
            &&& element_text(ed.root) == element_text(e)
        }),
{
    let d = match doc {
        Some(d) => d,
        None => match window_doc {
            Some(w) => w,
            None => { return Err(EditorError::NoRenderingContext) },
        },
    };
    let id_owned = id.to_owned();
    let class_owned = primary_css_class_str().to_owned();
    let path = match find_element_path(&d, &id_owned, &class_owned) {
        Some(p) => p,
        None => { return Err(EditorError::EditorElementNotFound) },
    };
    proof {
        assert(path@.subrange(0, path@.len() as int) =~= path@);
    }
    let target = take_at_path(d, &path, 0);
    let elem = match target {
        DomNode::Element(e) => e,
        DomNode::Text(t) => {
            proof {
                assert(false);
            }
            return Err(EditorError::EditorElementNotFound)
        },
    };
    if !elem.is_html {
        return Err(EditorError::NotAnHtmlElement);
    }
    Editor::<UI, Processor>::init(elem, true)
}

/// `attach_to` with the stock UI and processor capabilities: the entry
/// point the host exposes.  With the stock capabilities nothing past the
/// element triage can fail, so each outcome is characterized exactly.
pub fn attach_default_editor_to(id: &str, doc: Option<DomNode>, window_doc: Option<DomNode>) -> (r:
    Result<(), EditorError>)
    ensures
        r is Ok <==> (resolved_document(doc, window_doc) matches Some(d) && find_element_spec(
            d,
            id@,
            primary_css_class(),
        ) matches Some(e) && e.is_html),
        (r matches Err(err) && err == EditorError::NoRenderingContext) <==> resolved_document(
            doc,
            window_doc,
        ) is None,
        (r matches Err(err) && err == EditorError::EditorElementNotFound) <==> (resolved_document(
            doc,
            window_doc,
        ) matches Some(d) && find_element_spec(d, id@, primary_css_class()) is None),
        (r matches Err(err) && err == EditorError::NotAnHtmlElement) <==> (resolved_document(
            doc,
            window_doc,
        ) matches Some(d) && find_element_spec(d, id@, primary_css_class()) matches Some(e)
            && !e.is_html),
{
    let editor: DefaultEditor = match attach_to::<DefaultUI, DefaultProcessor>(
        id,
        doc,
        window_doc,
    ) {
        Ok(ed) => ed,
        Err(err) => { return Err(err) },
    };
    Ok(())
}

/// Process-wide startup: initialize the logging context the host will wire
/// to its console sink.
pub fn setup() -> (r: LoggerConfig)
    ensures
        r.level == LogLevel::Trace,
{
    setup_logger()
}

} // verus!
