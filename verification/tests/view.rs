use diagram_preview::cache::{CachedD2Diagram, DiagramError, RenderImage};
use diagram_preview::d2::D2State;
use diagram_preview::d2_view::{d2_presentation, render_d2_diagram, DiagramBody, DiagramElement};
use diagram_preview::diagram::{
    diagram_element_id, render_diagram_code_view, render_diagram_copy_button,
    render_diagram_tab_header, CopiedCodeBlocks, CopyButtonVisibility, ElementId, TabClick,
};
use diagram_preview::markdown::ParsedMarkdownD2Diagram;

fn child(prefix: &str, document: u64, child: &str) -> ElementId {
    ElementId::NamedChild { prefix: prefix.to_string(), document, child: child.to_string() }
}

fn show(
    cached: Option<CachedD2Diagram>,
    showing_code: bool,
    visibility: CopyButtonVisibility,
) -> DiagramElement {
    let diagram =
        ParsedMarkdownD2Diagram { content_range: 0..6, contents: "x -> y".to_string() };
    let mut state = D2State::default();
    if let Some(cached) = cached {
        state.cache.insert(diagram.contents.clone(), cached);
        state.order = vec![diagram.contents.clone()];
    }
    render_d2_diagram(&diagram, &state, 4, 120, showing_code, visibility)
}

fn ready() -> Option<CachedD2Diagram> {
    let render_image = Some(Ok(RenderImage { id: 7 }));
    Some(CachedD2Diagram { render_image, fallback_image: None })
}

fn failed() -> Option<CachedD2Diagram> {
    let error = DiagramError::Raster { reason: "no".to_string() };
    Some(CachedD2Diagram {
        render_image: Some(Err(error)),
        fallback_image: Some(RenderImage { id: 8 }),
    })
}

fn is_loading(element: &DiagramElement) -> bool {
    matches!(&element.body, DiagramBody::Code { loading: Some(_), .. })
}

#[test]
fn element_ids_tell_elements_apart() {
    let id = diagram_element_id("copy-d2-code", 4, 120);
    assert_eq!(id, child("copy-d2-code", 4, "120"));
    assert!(id.same(&id.clone()));
    assert!(!id.same(&diagram_element_id("copy-d2-code", 4, 121)));
    assert!(!id.same(&diagram_element_id("copy-d2-code", 5, 120)));
    assert!(!id.same(&diagram_element_id("diagram-tab-code", 4, 120)));
    let body = ElementId::NamedInteger { name: "copy-d2-code".to_string(), number: 120 };
    assert!(!id.same(&body));
    assert!(body.same(&body.clone()));
}

#[test]
fn tabs_show_which_is_selected() {
    let (preview, code) = render_diagram_tab_header(4, 120, false);
    assert_eq!(preview.label, "Preview");
    assert_eq!(preview.id, child("diagram-tab-preview", 4, "120"));
    assert!(preview.selected && !preview.show_code);
    assert_eq!(preview.click(), None);
    assert_eq!(code.label, "Code");
    assert_eq!(code.id, child("diagram-tab-code", 4, "120"));
    assert!(!code.selected && code.show_code);
    assert_eq!(code.click(), Some(TabClick { source_offset: 120, show_code: true }));

    let (preview, code) = render_diagram_tab_header(4, 120, true);
    assert_eq!(preview.click(), Some(TabClick { source_offset: 120, show_code: false }));
    assert_eq!(code.click(), None);
}

#[test]
fn copy_button_copies_for_two_seconds() {
    let button = render_diagram_copy_button(
        "copy-d2-code",
        4,
        120,
        "x -> y",
        CopyButtonVisibility::VisibleOnHover,
    );
    assert_eq!(button.hover_group.as_deref(), Some("code_block"));
    let other = render_diagram_copy_button(
        "copy-d2-code",
        4,
        200,
        "z",
        CopyButtonVisibility::AlwaysVisible,
    );
    assert_eq!(other.hover_group, None);

    let mut copied = CopiedCodeBlocks::new();
    assert!(!copied.contains(&button.id));
    let request = copied.click(&button);
    assert_eq!(request.clipboard, "x -> y");
    assert_eq!(request.button, button.id);
    assert_eq!(request.reset_after_seconds, 2);
    assert!(copied.contains(&button.id));
    copied.click(&button);
    copied.click(&other);
    copied.reset(&request.button);
    assert!(!copied.contains(&button.id));
    assert!(copied.contains(&other.id));
}

#[test]
fn code_view_shows_the_source() {
    assert_eq!(render_diagram_code_view("x -> y").text, "x -> y");
}

#[test]
fn presentation_of_every_state() {
    let pending = CachedD2Diagram::new(Some(RenderImage { id: 8 }));
    let empty = CachedD2Diagram::new(None);
    let ready = ready().expect("is there");
    let failed = failed().expect("is there");
    let image = |id| Some(RenderImage { id });
    assert_eq!(d2_presentation(false, None), (None, true));
    assert_eq!(d2_presentation(true, None), (None, true));
    assert_eq!(d2_presentation(false, Some(&empty)), (None, true));
    assert_eq!(d2_presentation(false, Some(&pending)), (image(8), true));
    assert_eq!(d2_presentation(true, Some(&pending)), (None, true));
    assert_eq!(d2_presentation(false, Some(&ready)), (image(7), true));
    assert_eq!(d2_presentation(true, Some(&ready)), (None, true));
    assert_eq!(d2_presentation(false, Some(&failed)), (None, false));
    assert_eq!(d2_presentation(true, Some(&failed)), (None, false));
}

#[test]
fn picture_is_shown_below_tabs() {
    let element = show(ready(), false, CopyButtonVisibility::AlwaysVisible);
    assert!(element.tabs.is_some());
    assert_eq!(element.copy_button.expect("there is a button").code, "x -> y");
    match element.body {
        DiagramBody::Picture { id, image, alternative } => {
            let name = "d2-diagram-body".to_string();
            assert_eq!(id, ElementId::NamedInteger { name, number: 120 });
            assert_eq!(image.id, 7);
            assert_eq!(alternative, "Failed to load D2 diagram");
        }
        DiagramBody::Code { .. } => panic!("shows the source"),
    }
}

#[test]
fn source_is_shown_on_the_code_tab() {
    let element = show(ready(), true, CopyButtonVisibility::VisibleOnHover);
    let (preview, code) = element.tabs.expect("there are tabs");
    assert!(!preview.selected && code.selected);
    match element.body {
        DiagramBody::Code { code, loading } => {
            assert_eq!(code.text, "x -> y");
            assert!(loading.is_none());
        }
        DiagramBody::Picture { .. } => panic!("shows the picture"),
    }
}

#[test]
fn note_is_shown_while_rendering() {
    let element = show(None, false, CopyButtonVisibility::AlwaysVisible);
    match &element.body {
        DiagramBody::Code { code, loading } => {
            assert_eq!(code.text, "x -> y");
            let label = loading.as_ref().expect("there is a note");
            assert_eq!(label.text, "Rendering...");
            assert_eq!(label.animation, "d2-loading-pulse");
            assert_eq!(label.period_seconds, 2);
        }
        DiagramBody::Picture { .. } => panic!("shows a picture"),
    }
    let pending = Some(CachedD2Diagram::new(None));
    assert!(is_loading(&show(pending, false, CopyButtonVisibility::Hidden)));
    let edited = Some(CachedD2Diagram::new(Some(RenderImage { id: 8 })));
    assert!(!is_loading(&show(edited, false, CopyButtonVisibility::Hidden)));
    assert!(!is_loading(&show(None, true, CopyButtonVisibility::Hidden)));
}

#[test]
fn failed_diagram_has_no_tabs_but_a_button() {
    let element = show(failed(), false, CopyButtonVisibility::AlwaysVisible);
    assert!(element.tabs.is_none());
    assert!(element.copy_button.is_some());
    assert!(!is_loading(&element));
    assert!(matches!(element.body, DiagramBody::Code { .. }));
}
