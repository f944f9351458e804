//! Editor composition root: the cursor/selection value types, the error
//! family surfaced to the entry point, and the `Editor` state that ties the
//! buffer, the span map, and the capability implementations together.

use vstd::prelude::*;

pub mod processor;
pub mod ui;

use crate::buffer::Buffer;
use crate::buffer::HtmlSpanMap;
use crate::buffer::extract;
use crate::dom::DomElement;
use crate::dom::element_text;
use crate::editor::processor::DefaultProcessor;
use crate::editor::processor::SelectionEnvironment;
use crate::editor::processor::TextProcessor;
use crate::editor::processor::find_cursor_spec;
use crate::editor::ui::DefaultUI;
use crate::editor::ui::EditorUI;
use crate::editor::ui::find_content_host;
use crate::editor::ui::is_content_host;

verus! {

/// One endpoint of a range, generic over the offset type.  Used both for
/// logical buffer ranges and for ranges over DOM positions.
#[derive(Clone, Copy, Debug, PartialEq, Eq, Structural)]
pub enum Bound<T> {
    Unbounded,
    Included(T),
    Excluded(T),
}

/// A pair of bounds: a whole range.
pub type BoundTup<T> = (Bound<T>, Bound<T>);

/// A logical cursor: a collapsed caret at a buffer offset, or a selection
/// between two buffer offsets.
#[derive(Clone, Copy, Debug, PartialEq, Eq)]
pub enum Cursor {
    Select(BoundTup<usize>),
    Insert(usize),
}

/// Configuration and initialization failures surfaced to the caller of the
/// attach entry point.  Selection-resolution failures are never reported this
/// way; they degrade to an absent cursor instead.
#[derive(Clone, Copy, Debug, PartialEq, Eq, Structural)]
pub enum EditorError {
    /// No document was supplied and no default document exists.
    NoRenderingContext,
    /// No element with the requested id carries the required marker class.
    EditorElementNotFound,
    /// The targeted element is not an HTML element.
    NotAnHtmlElement,
    /// The targeted element has no owning document.
    NoOwningDocument,
    /// The processor found no owning document on the root it was handed.
    ProcessorNoOwningDocument,
    /// The UI capability failed to build the editor chrome.
    UiInitFailed,
    /// The processor capability failed to attach its listeners.
    ProcessorAttachFailed,
}

impl EditorError {
    /// The human-readable message for this error.
    pub open spec fn message_spec(&self) -> Seq<char> {
        match self {
            EditorError::NoRenderingContext => "No default document found. Duald is likely not running in a web browser environment."@,
            EditorError::EditorElementNotFound => "Failed to locate targeted editor element. Note that it is also required to give the targeted element the `duald_editor` CSS class."@,
            EditorError::NotAnHtmlElement => "Located element is not an html element."@,
            EditorError::NoOwningDocument => "Requested editor does not have an owning document. There is no way to attach action listeners."@,
            EditorError::ProcessorNoOwningDocument => "Editor element does not have an owning document!"@,
            EditorError::UiInitFailed => "Editor UI failed to initialize."@,
            EditorError::ProcessorAttachFailed => "Text processor failed to attach to the editor."@,
        }
    }

    /// A human-readable message sufficient to fix the page markup.
    pub fn message(&self) -> (r: String)
        ensures
            r@ == self.message_spec(),
    {
        match self {
            EditorError::NoRenderingContext => "No default document found. Duald is likely not running in a web browser environment.".to_owned(),
            EditorError::EditorElementNotFound => "Failed to locate targeted editor element. Note that it is also required to give the targeted element the `duald_editor` CSS class.".to_owned(),
            EditorError::NotAnHtmlElement => "Located element is not an html element.".to_owned(),
            EditorError::NoOwningDocument => "Requested editor does not have an owning document. There is no way to attach action listeners.".to_owned(),
            EditorError::ProcessorNoOwningDocument => "Editor element does not have an owning document!".to_owned(),
            EditorError::UiInitFailed => "Editor UI failed to initialize.".to_owned(),
            EditorError::ProcessorAttachFailed => "Text processor failed to attach to the editor.".to_owned(),
        }
    }
}

/// The editor in its attached state: the capability implementations, the
/// transformed root subtree, and the logical state derived from it.  Between
/// events it holds at most one current cursor, overwritten wholesale on each
/// recomputation.
pub struct Editor<UI: EditorUI, Processor: TextProcessor> {
    /// The UI capability's state.
    pub ui: UI,
    /// The processor capability's state.
    pub processor: Processor,
    /// The transformed editor root, content host included.
    pub root: DomElement,
    /// The logical buffer extracted from the content host.
    pub buffer: Buffer,
    /// The mapping between the buffer's ranges and DOM positions within the
    /// content host.
    pub span_map: HtmlSpanMap,
    /// The current cursor; absent until a selection change is resolved.
    pub cursor: Option<Cursor>,
}

impl<UI: EditorUI, Processor: TextProcessor> Editor<UI, Processor> {
    /// Attach to the given root element: install the processor's listeners,
    /// realize the chrome, and extract the initial buffer and span map from
    /// the realized content host.  Fails up front when the root has no
    /// owning document; succeeds exactly when both capabilities do.
    pub fn init(editor: DomElement, has_owner_document: bool) -> (r: Result<Self, EditorError>)
        ensures
            !has_owner_document ==> (r matches Err(err) && err == EditorError::NoOwningDocument),
            r is Ok <==> (has_owner_document && Processor::attach_ok(editor, has_owner_document)
                && UI::init_ok(editor)),
            r matches Ok(ed) ==> {
                &&& ed.cursor is None
                &&& ed.buffer.wf()
                &&& ed.span_map.wf(ed.buffer.content@.len())
                &&& ed.buffer.content@ == element_text(editor)
                &&& element_text(ed.root) == element_text(editor)
                &&& exists|i: int|
                    0 <= i < ed.root.children@.len() && is_content_host(
                        #[trigger] ed.root.children@[i],
                    ) && ed.span_map.maps_tree(ed.root.children@[i], ed.buffer.content@)
            },
    {
        if !has_owner_document {
            return Err(EditorError::NoOwningDocument);
        }
        let processor = match Processor::attach(&editor, has_owner_document) {
            Ok(p) => p,
            Err(err) => { return Err(err) },
        };
        let (ui, new_root) = match UI::init(editor) {
            Ok(p) => p,
            Err(err) => { return Err(err) },
        };
        let idx = match find_content_host(&new_root.children) {
            Some(i) => i,
            None => {
                proof {
                    assert(false);
                }
                return Err(EditorError::UiInitFailed)
            },
        };
        let (buffer, span_map) = extract(&new_root.children[idx]);
        let ed = Editor { ui, processor, root: new_root, buffer, span_map, cursor: None };
        proof {
            assert(is_content_host(ed.root.children@[idx as int]));
            assert(ed.span_map.maps_tree(ed.root.children@[idx as int], ed.buffer.content@));
        }
        Ok(ed)
    }

    /// Resolve the reported selection state against the editor root and
    /// store the outcome as the current cursor, replacing the previous one
    /// wholesale.  Nothing else changes.
    pub fn update_cursor(&mut self, env: &SelectionEnvironment)
        ensures
            final(self).cursor == find_cursor_spec(old(self).root, *env),
            final(self).root == old(self).root,
            final(self).buffer == old(self).buffer,
            final(self).span_map == old(self).span_map,
            final(self).ui == old(self).ui,
            final(self).processor == old(self).processor,
    {
        let c = DefaultProcessor::find_cursor(&self.root, env);
        self.cursor = c;
    }

    /// Leave the attached state, releasing the host's subtree and handing
    /// the logical buffer back to the caller.
    pub fn detach(self) -> (r: Buffer)
        ensures
            r == self.buffer,
    {
        let Editor { ui, processor, root, buffer, span_map, cursor } = self;
        buffer
    }
}

/// The editor with the stock UI and processor capabilities.
pub type DefaultEditor = Editor<DefaultUI, DefaultProcessor>;

/// The marker class an attach target must carry.
pub open spec fn primary_css_class() -> Seq<char> {
    "duald_editor"@
}

/// The marker class an attach target must carry.
pub fn primary_css_class_str() -> (r: &'static str)
    ensures
        r@ == primary_css_class(),
{
    "duald_editor"
}

} // verus!
