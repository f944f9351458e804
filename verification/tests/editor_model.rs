use duald::attach_default_editor_to;
use duald::attach_to;
use duald::buffer::extract;
use duald::dom::DomElement;
use duald::dom::DomNode;
use duald::dom::DomPosition;
use duald::editor::Bound;
use duald::editor::Cursor;
use duald::editor::EditorError;
use duald::editor::processor::DefaultProcessor;
use duald::editor::processor::RangeSnapshot;
use duald::editor::processor::SelectionAccess;
use duald::editor::processor::SelectionEnvironment;
use duald::editor::processor::SelectionSnapshot;
use duald::editor::processor::TextProcessor;
use duald::editor::ui::DefaultUI;
use duald::editor::ui::EditorUI;
use duald::editor::ui::find_content_host;

fn text(s: &str) -> DomNode {
    DomNode::Text(s.to_string())
}

fn element(id: &str, classes: &[&str], children: Vec<DomNode>) -> DomElement {
    DomElement {
        id: id.to_string(),
        classes: classes.iter().map(|c| c.to_string()).collect(),
        is_html: true,
        children,
    }
}

fn position(path: &[usize], offset: usize) -> DomPosition {
    DomPosition { path: path.to_vec(), offset }
}

fn environment_with(sel: SelectionAccess) -> SelectionEnvironment {
    SelectionEnvironment {
        has_document: true,
        has_window: true,
        window_selection: sel,
        document_selection: SelectionAccess::Missing,
    }
}

fn collapsed_at(path: &[usize], offset: usize) -> SelectionAccess {
    SelectionAccess::Available(SelectionSnapshot {
        collapsed: true,
        ranges: vec![RangeSnapshot { start: position(path, offset), end: position(path, offset) }],
    })
}

fn selection_between(
    start_path: &[usize],
    start_off: usize,
    end_path: &[usize],
    end_off: usize,
) -> SelectionAccess {
    SelectionAccess::Available(SelectionSnapshot {
        collapsed: false,
        ranges: vec![RangeSnapshot {
            start: position(start_path, start_off),
            end: position(end_path, end_off),
        }],
    })
}

#[test]
fn render_text_concatenates_in_document_order() {
    let root = DomNode::Element(element(
        "root",
        &[],
        vec![text("ab"), DomNode::Element(element("", &[], vec![text("cd")])), text("ef")],
    ));
    assert_eq!(root.render_text(), "abcdef");
}

#[test]
fn collapsed_caret_after_abc_resolves_to_insert_3() {
    let root = element("editor", &["duald_editor"], vec![text("abcdef")]);
    let env = environment_with(collapsed_at(&[0], 3));
    let cursor = DefaultProcessor::find_cursor(&root, &env);
    assert_eq!(cursor, Some(Cursor::Insert(3)));
}

#[test]
fn selecting_cd_resolves_to_select_2_4() {
    let root = element("editor", &["duald_editor"], vec![text("abcdef")]);
    let env = environment_with(selection_between(&[0], 2, &[0], 4));
    let cursor = DefaultProcessor::find_cursor(&root, &env);
    assert_eq!(cursor, Some(Cursor::Select((Bound::Included(2), Bound::Included(4)))));
}

#[test]
fn offsets_span_element_boundaries() {
    // Root renders "abcdef" as "ab", <span>"cd"</span>, "ef".
    let root = element(
        "editor",
        &["duald_editor"],
        vec![text("ab"), DomNode::Element(element("", &[], vec![text("cd")])), text("ef")],
    );
    // Caret inside the nested element, after "c": logical offset 3.
    let env = environment_with(collapsed_at(&[1, 0], 1));
    assert_eq!(DefaultProcessor::find_cursor(&root, &env), Some(Cursor::Insert(3)));
    // An element-container boundary: after the root's second child.
    let env = environment_with(collapsed_at(&[], 2));
    assert_eq!(DefaultProcessor::find_cursor(&root, &env), Some(Cursor::Insert(4)));
}

#[test]
fn document_fallback_resolves_when_window_selection_fails() {
    let root = element("editor", &["duald_editor"], vec![text("abcdef")]);
    let env = SelectionEnvironment {
        has_document: true,
        has_window: true,
        window_selection: SelectionAccess::Failed,
        document_selection: collapsed_at(&[0], 3),
    };
    assert_eq!(DefaultProcessor::find_cursor(&root, &env), Some(Cursor::Insert(3)));
}

#[test]
fn resolution_absent_cases_return_none() {
    let root = element("editor", &["duald_editor"], vec![text("abcdef")]);
    // (a) no owning document
    let mut env = environment_with(collapsed_at(&[0], 3));
    env.has_document = false;
    assert_eq!(DefaultProcessor::find_cursor(&root, &env), None);
    // no visible window
    let mut env = environment_with(collapsed_at(&[0], 3));
    env.has_window = false;
    assert_eq!(DefaultProcessor::find_cursor(&root, &env), None);
    // (b) no selection from either accessor
    let env = SelectionEnvironment {
        has_document: true,
        has_window: true,
        window_selection: SelectionAccess::Failed,
        document_selection: SelectionAccess::Missing,
    };
    assert_eq!(DefaultProcessor::find_cursor(&root, &env), None);
    // (c) a selection with zero ranges
    let env = environment_with(SelectionAccess::Available(SelectionSnapshot {
        collapsed: true,
        ranges: vec![],
    }));
    assert_eq!(DefaultProcessor::find_cursor(&root, &env), None);
}

#[test]
fn malformed_boundaries_return_none() {
    let root = element("editor", &["duald_editor"], vec![text("abcdef")]);
    // Offset past the end of the text node.
    let env = environment_with(collapsed_at(&[0], 7));
    assert_eq!(DefaultProcessor::find_cursor(&root, &env), None);
    // Path to a child that does not exist.
    let env = environment_with(collapsed_at(&[3], 0));
    assert_eq!(DefaultProcessor::find_cursor(&root, &env), None);
    // Path descending through a text node.
    let env = environment_with(collapsed_at(&[0, 0], 0));
    assert_eq!(DefaultProcessor::find_cursor(&root, &env), None);
}

#[test]
fn resolution_is_idempotent_without_selection_change() {
    let root = element("editor", &["duald_editor"], vec![text("abcdef")]);
    let env = environment_with(selection_between(&[0], 1, &[0], 5));
    let first = DefaultProcessor::find_cursor(&root, &env);
    let second = DefaultProcessor::find_cursor(&root, &env);
    assert_eq!(first, second);
    assert_eq!(first, Some(Cursor::Select((Bound::Included(1), Bound::Included(5)))));
}

#[test]
fn only_the_first_range_is_consulted() {
    let root = element("editor", &["duald_editor"], vec![text("abcdef")]);
    let env = environment_with(SelectionAccess::Available(SelectionSnapshot {
        collapsed: true,
        ranges: vec![
            RangeSnapshot { start: position(&[0], 2), end: position(&[0], 2) },
            RangeSnapshot { start: position(&[0], 5), end: position(&[0], 5) },
        ],
    }));
    assert_eq!(DefaultProcessor::find_cursor(&root, &env), Some(Cursor::Insert(2)));
}

#[test]
fn extraction_round_trips_hello_world() {
    let host = DomNode::Element(element("", &["duald_editor_content"], vec![text("hello world")]));
    let (buffer, span_map) = extract(&host);
    assert_eq!(buffer.content, "hello world");
    assert_eq!(host.render_text(), buffer.content);
    assert_eq!(buffer.spans.len(), 1);
    assert_eq!(buffer.spans[0], (Bound::Included(0), Bound::Excluded(11)));
    assert_eq!(span_map.entries.len(), 1);
    let entry = &span_map.entries[0];
    assert_eq!(entry.logical, (Bound::Included(0), Bound::Excluded(11)));
    match &entry.dom {
        (Bound::Included(start), Bound::Excluded(end)) => {
            assert_eq!(start.path, vec![0]);
            assert_eq!(start.offset, 0);
            assert_eq!(end.path, vec![0]);
            assert_eq!(end.offset, 11);
        },
        _ => panic!("unexpected dom bounds"),
    }
}

#[test]
fn extraction_tiles_the_buffer_across_runs() {
    let host = DomNode::Element(element(
        "",
        &[],
        vec![text("ab"), DomNode::Element(element("", &[], vec![text("cd")])), text("ef")],
    ));
    let (buffer, span_map) = extract(&host);
    assert_eq!(buffer.content, "abcdef");
    let ranges: Vec<_> = span_map.entries.iter().map(|e| e.logical).collect();
    assert_eq!(
        ranges,
        vec![
            (Bound::Included(0), Bound::Excluded(2)),
            (Bound::Included(2), Bound::Excluded(4)),
            (Bound::Included(4), Bound::Excluded(6)),
        ]
    );
    let paths: Vec<_> = span_map.entries.iter().map(|e| match &e.dom {
        (Bound::Included(p), _) => p.path.clone(),
        _ => panic!("unexpected dom bound"),
    }).collect();
    assert_eq!(paths, vec![vec![0], vec![1, 0], vec![2]]);
}

#[test]
fn ui_init_preserves_text_in_a_content_host() {
    let root = element("editor", &["duald_editor"], vec![text("abcdef")]);
    let (_ui, new_root) = DefaultUI::init(root).unwrap();
    let idx = find_content_host(&new_root.children).unwrap();
    assert_eq!(idx, 1);
    assert_eq!(new_root.children[idx].render_text(), "abcdef");
    assert_eq!(DomNode::Element(new_root).render_text(), "abcdef");
}

#[test]
fn find_content_host_ignores_unmarked_children() {
    let children = vec![
        text("plain"),
        DomNode::Element(element("", &["toolbar"], vec![])),
        DomNode::Element(element("", &["duald_editor_content"], vec![text("x")])),
    ];
    assert_eq!(find_content_host(&children), Some(2));
    let unmarked = vec![text("plain"), DomNode::Element(element("", &["toolbar"], vec![]))];
    assert_eq!(find_content_host(&unmarked), None);
}

#[test]
fn attach_fails_without_a_marker_class_naming_it() {
    let doc = DomNode::Element(element(
        "html",
        &[],
        vec![DomNode::Element(element("editor", &[], vec![text("abc")]))],
    ));
    let err = attach_default_editor_to("editor", Some(doc), None).unwrap_err();
    assert_eq!(err, EditorError::EditorElementNotFound);
    assert!(err.message().contains("duald_editor"));
}

#[test]
fn attach_fails_without_any_document() {
    let err = attach_default_editor_to("editor", None, None).unwrap_err();
    assert_eq!(err, EditorError::NoRenderingContext);
    assert!(!err.message().is_empty());
}

#[test]
fn attach_falls_back_to_the_window_document() {
    let window_doc = DomNode::Element(element(
        "html",
        &[],
        vec![DomNode::Element(element("editor", &["duald_editor"], vec![text("abc")]))],
    ));
    assert!(attach_default_editor_to("editor", None, Some(window_doc)).is_ok());
}

#[test]
fn attach_rejects_a_non_html_element() {
    let mut target = element("editor", &["duald_editor"], vec![text("abc")]);
    target.is_html = false;
    let doc = DomNode::Element(element("html", &[], vec![DomNode::Element(target)]));
    let err = attach_default_editor_to("editor", Some(doc), None).unwrap_err();
    assert_eq!(err, EditorError::NotAnHtmlElement);
}

#[test]
fn attach_picks_the_element_with_both_id_and_class() {
    // A decoy with the right id but no marker class comes first.
    let doc = DomNode::Element(element(
        "html",
        &[],
        vec![
            DomNode::Element(element("editor", &["other"], vec![text("wrong")])),
            DomNode::Element(element("editor", &["duald_editor"], vec![text("right")])),
        ],
    ));
    let editor = attach_to::<DefaultUI, DefaultProcessor>("editor", Some(doc), None).unwrap();
    assert_eq!(editor.buffer.content, "right");
}

#[test]
fn initialized_editor_holds_buffer_and_no_cursor() {
    let doc = DomNode::Element(element(
        "html",
        &[],
        vec![DomNode::Element(element("editor", &["duald_editor"], vec![text("abcdef")]))],
    ));
    let editor = attach_to::<DefaultUI, DefaultProcessor>("editor", Some(doc), None).unwrap();
    assert_eq!(editor.buffer.content, "abcdef");
    assert!(editor.cursor.is_none());
    assert_eq!(editor.span_map.entries.len(), 1);
}

#[test]
fn update_cursor_tracks_the_transformed_root() {
    let doc = DomNode::Element(element(
        "html",
        &[],
        vec![DomNode::Element(element("editor", &["duald_editor"], vec![text("abcdef")]))],
    ));
    let mut editor = attach_to::<DefaultUI, DefaultProcessor>("editor", Some(doc), None).unwrap();
    // After UI init the text lives in the content host: child 1, text node 0.
    let env = environment_with(collapsed_at(&[1, 0], 3));
    editor.update_cursor(&env);
    assert_eq!(editor.cursor, Some(Cursor::Insert(3)));
    let mut env = environment_with(collapsed_at(&[1, 0], 3));
    env.has_document = false;
    editor.update_cursor(&env);
    assert_eq!(editor.cursor, None);
}

#[test]
fn detach_hands_the_buffer_back() {
    let doc = DomNode::Element(element(
        "html",
        &[],
        vec![DomNode::Element(element("editor", &["duald_editor"], vec![text("abc")]))],
    ));
    let editor = attach_to::<DefaultUI, DefaultProcessor>("editor", Some(doc), None).unwrap();
    let buffer = editor.detach();
    assert_eq!(buffer.content, "abc");
}

#[test]
fn error_messages_are_human_readable() {
    assert_eq!(
        EditorError::NotAnHtmlElement.message(),
        "Located element is not an html element."
    );
    assert!(EditorError::NoOwningDocument.message().contains("owning document"));
    assert!(EditorError::NoRenderingContext.message().contains("No default document"));
}

#[test]
fn processor_attach_requires_an_owning_document() {
    let root = element("editor", &["duald_editor"], vec![text("abc")]);
    assert!(DefaultProcessor::attach(&root, true).is_ok());
    match DefaultProcessor::attach(&root, false) {
        Err(err) => {
            assert_eq!(err, EditorError::ProcessorNoOwningDocument);
            assert_eq!(err.message(), "Editor element does not have an owning document!");
        }
        Ok(_) => panic!("attach must fail without an owning document"),
    }
}

#[test]
fn ui_init_always_succeeds() {
    let root = element("editor", &["duald_editor"], vec![text("abc")]);
    assert!(DefaultUI::init(root).is_ok());
}

#[test]
fn attach_succeeds_whenever_the_triage_passes() {
    // The stock capabilities cannot fail past the element triage, so a
    // well-formed page always attaches.
    let doc = DomNode::Element(element(
        "html",
        &[],
        vec![
            text("before"),
            DomNode::Element(element("editor", &["duald_editor"], vec![text("abcdef")])),
        ],
    ));
    assert!(attach_default_editor_to("editor", Some(doc), None).is_ok());
}
