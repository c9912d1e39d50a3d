//! What is shown of a D2 diagram.

use crate::cache::{
    completed, lasting_image, pending, CachedD2Diagram, DiagramError, RenderImage,
};
use crate::d2::D2State;
use crate::diagram::{
    copy_button_of, diagram_id, render_diagram_code_view, render_diagram_copy_button,
    render_diagram_tab_header, tabs_of, CodeView, CopyButton, CopyButtonView, CopyButtonVisibility,
    DiagramTab, DiagramTabView, ElementId, ElementIdView,
};
use crate::markdown::ParsedMarkdownD2Diagram;
use vstd::prelude::*;

verus! {

/// Whether rendering a diagram has failed.
pub open spec fn has_failed(cached: Option<CachedD2Diagram>) -> bool {
    cached matches Some(diagram) && diagram.render_image matches Some(Err(_))
}

/// The picture to paint for a diagram, and whether the Preview and Code tabs apply. They don't
/// where rendering has failed, because only the source is there to be shown.
pub open spec fn presentation(showing_code: bool, cached: Option<CachedD2Diagram>) -> (
    Option<RenderImage>,
    bool,
) {
    if has_failed(cached) {
        (None, false)
    } else if showing_code {
        (None, true)
    } else {
        (
            match cached {
                Some(diagram) => lasting_image(diagram),
                None => None,
            },
            true,
        )
    }
}

/// The tabs are hidden exactly where rendering has failed, and no picture is painted then, nor
/// where the source is asked for.
pub proof fn law_failed_diagram_shows_its_source(
    showing_code: bool,
    cached: Option<CachedD2Diagram>,
)
    ensures
        presentation(showing_code, cached).1 == !has_failed(cached),
        has_failed(cached) || showing_code ==> presentation(showing_code, cached).0 is None,
{
}

/// A picture takes the place of the source as soon as rendering comes out with it.
pub proof fn law_rendered_picture_is_shown(diagram: CachedD2Diagram, image: RenderImage)
    requires
        diagram.render_image is None,
    ensures
        presentation(false, Some(completed(diagram, Ok(image)))) == (Some(image), true),
{
}

/// A failure takes the place of a picture that was only shown meanwhile.
pub proof fn law_failure_ends_the_fallback(diagram: CachedD2Diagram, error: DiagramError)
    requires
        diagram.render_image is None,
    ensures
        presentation(false, Some(completed(diagram, Err(error)))) == (None::<RenderImage>, false),
{
}

/// A picture that is shown for a diagram is the one that is shown for its successor while that
/// renders.
pub proof fn law_successor_shows_the_same_picture(diagram: CachedD2Diagram, image: RenderImage)
    requires
        presentation(false, Some(diagram)).0 == Some(image),
    ensures
        presentation(false, Some(pending(lasting_image(diagram)))) == (Some(image), true),
{
}

/// What is painted of a diagram, by what came of rendering it: a picture that came out, or, until
/// something does, the one to be shown meanwhile; nothing where the source is asked for, where
/// rendering has failed, or where there is no diagram. The tabs apply but where it has failed.
pub proof fn law_presentation(showing_code: bool, diagram: CachedD2Diagram, image: RenderImage)
    ensures
        presentation(showing_code, None) == (None::<RenderImage>, true),
        diagram.render_image is Some && diagram.render_image->0 is Err ==> presentation(
            showing_code,
            Some(diagram),
        ) == (None::<RenderImage>, false),
        diagram.render_image == Some(Ok::<RenderImage, DiagramError>(image)) ==> presentation(
            showing_code,
            Some(diagram),
        ) == (
            if showing_code {
                None
            } else {
                Some(image)
            },
            true,
        ),
        diagram.render_image is None ==> presentation(showing_code, Some(diagram)) == (
            if showing_code {
                None
            } else {
                diagram.fallback_image
            },
            true,
        ),
{
}

/// The picture to paint for a diagram, and whether the Preview and Code tabs apply.
pub fn d2_presentation(showing_code: bool, cached: Option<&CachedD2Diagram>) -> (r: (
    Option<RenderImage>,
    bool,
))
    ensures
        r == presentation(
            showing_code,
            match cached {
                Some(diagram) => Some(*diagram),
                None => None,
            },
        ),
{
    match cached {
        Some(diagram) => match &diagram.render_image {
            Some(Err(_)) => (None, false),
            Some(Ok(image)) => if showing_code {
                (None, true)
            } else {
                (Some(*image), true)
            },
            None => if showing_code {
                (None, true)
            } else {
                (diagram.fallback_image, true)
            },
        },
        None => (None, true),
    }
}

/// The note that a diagram is being rendered.
#[derive(Debug)]
pub struct LoadingLabel {
    pub text: String,
    /// The animation that makes the note pulsate.
    pub animation: String,
    /// How long one pulse takes, in seconds.
    pub period_seconds: u64,
}

/// What is shown below the tabs.
#[derive(Debug)]
pub enum DiagramBody {
    /// The picture, with what is shown where the host cannot paint it.
    Picture { id: ElementId, image: RenderImage, alternative: String },
    /// The source, with a note if a picture is to come.
    Code { code: CodeView, loading: Option<LoadingLabel> },
}

/// A diagram as it is shown. The elements form the group `code_block`.
#[derive(Debug)]
pub struct DiagramElement {
    /// The Preview and Code tabs, where there are any.
    pub tabs: Option<(DiagramTab, DiagramTab)>,
    pub body: DiagramBody,
    pub copy_button: Option<CopyButton>,
}

/// What is shown below the tabs, over texts.
pub enum DiagramBodyView {
    Picture { id: ElementIdView, image: RenderImage, alternative: Seq<char> },
    Code { text: Seq<char>, loading: Option<(Seq<char>, Seq<char>, u64)> },
}

/// A diagram as it is shown, over texts.
pub struct DiagramElementView {
    pub tabs: Option<(DiagramTabView, DiagramTabView)>,
    pub body: DiagramBodyView,
    pub copy_button: Option<CopyButtonView>,
}

impl View for DiagramBody {
    type V = DiagramBodyView;

    open spec fn view(&self) -> DiagramBodyView {
        match *self {
            DiagramBody::Picture { id, image, alternative } => DiagramBodyView::Picture {
                id: id@,
                image,
                alternative: alternative@,
            },
            DiagramBody::Code { code, loading } => DiagramBodyView::Code {
                text: code.text@,
                loading: match loading {
                    Some(label) => Some((label.text@, label.animation@, label.period_seconds)),
                    None => None,
                },
            },
        }
    }
}

impl View for DiagramElement {
    type V = DiagramElementView;

    open spec fn view(&self) -> DiagramElementView {
        DiagramElementView {
            tabs: match self.tabs {
                Some(tabs) => Some((tabs.0@, tabs.1@)),
                None => None,
            },
            body: self.body@,
            copy_button: match self.copy_button {
                Some(button) => Some(button@),
                None => None,
            },
        }
    }
}

/// What the cache holds for a text.
pub open spec fn cached_for(
    cache: Map<Seq<char>, CachedD2Diagram>,
    contents: Seq<char>,
) -> Option<CachedD2Diagram> {
    if cache.contains_key(contents) {
        Some(cache[contents])
    } else {
        None
    }
}

/// What is shown below the tabs: the picture if there is one to paint, or else the source, with a
/// note while a picture is to come.
pub open spec fn body_of(
    contents: Seq<char>,
    cached: Option<CachedD2Diagram>,
    source_offset: usize,
    showing_code: bool,
) -> DiagramBodyView {
    match presentation(showing_code, cached) {
        (Some(image), _) => DiagramBodyView::Picture {
            id: ElementIdView::NamedInteger {
                name: "d2-diagram-body"@,
                number: source_offset as u64,
            },
            image,
            alternative: "Failed to load D2 diagram"@,
        },
        (None, show_tabs) => DiagramBodyView::Code {
            text: contents,
            loading: if !showing_code && show_tabs {
                Some(("Rendering..."@, "d2-loading-pulse"@, 2u64))
            } else {
                None
            },
        },
    }
}

/// What is shown of a diagram. Where the copy button is hidden there is nothing to click on.
pub open spec fn element_of(
    contents: Seq<char>,
    cached: Option<CachedD2Diagram>,
    document: u64,
    source_offset: usize,
    showing_code: bool,
    visibility: CopyButtonVisibility,
) -> DiagramElementView {
    let interactive = visibility != CopyButtonVisibility::Hidden;
    DiagramElementView {
        tabs: if interactive && presentation(showing_code, cached).1 {
            Some(tabs_of(document, source_offset, showing_code))
        } else {
            None
        },
        body: body_of(contents, cached, source_offset, showing_code),
        copy_button: if interactive {
            Some(copy_button_of("copy-d2-code"@, document, source_offset, contents, visibility))
        } else {
            None
        },
    }
}

/// The source of a diagram is never out of reach where there are elements to click on: it is
/// shown, or there are tabs to switch to it; and the button always copies it.
pub proof fn law_source_is_always_in_reach(
    contents: Seq<char>,
    cached: Option<CachedD2Diagram>,
    document: u64,
    source_offset: usize,
    showing_code: bool,
    visibility: CopyButtonVisibility,
)
    requires
        visibility != CopyButtonVisibility::Hidden,
    ensures
        ({
            let element = element_of(
                contents,
                cached,
                document,
                source_offset,
                showing_code,
                visibility,
            );
            &&& element.tabs is Some || (element.body matches DiagramBodyView::Code { text, loading }
                && text == contents)
            &&& element.copy_button matches Some(button) && button.code == contents
        }),
{
}

/// The note that a picture is to come is shown only while none has come and none is shown.
pub proof fn law_note_only_while_rendering(
    contents: Seq<char>,
    cached: Option<CachedD2Diagram>,
    source_offset: usize,
    showing_code: bool,
)
    ensures
        (body_of(contents, cached, source_offset, showing_code) matches DiagramBodyView::Code {
            text,
            loading,
        } && loading is Some) <==> !showing_code && (cached matches Some(diagram)
            ==> diagram.render_image is None && diagram.fallback_image is None),
{
}

/// What is shown of a D2 diagram in a document.
pub fn render_d2_diagram(
    parsed: &ParsedMarkdownD2Diagram,
    d2_state: &D2State,
    document: u64,
    source_offset: usize,
    showing_code: bool,
    copy_button_visibility: CopyButtonVisibility,
) -> (r: DiagramElement)
    requires
        d2_state.wf(),
    ensures
        r@ == element_of(
            parsed.contents@,
            cached_for(d2_state@.cache, parsed.contents@),
            document,
            source_offset,
            showing_code,
            copy_button_visibility,
        ),
        r.copy_button is Some <==> copy_button_visibility != CopyButtonVisibility::Hidden,
        r.copy_button matches Some(button) ==> button.code@ == parsed.contents@ && button.id@
            == diagram_id("copy-d2-code"@, document, source_offset) && (button.hover_group is Some
            <==> copy_button_visibility == CopyButtonVisibility::VisibleOnHover) && (
        button.hover_group matches Some(group) ==> group@ == "code_block"@),
        r.tabs is Some <==> copy_button_visibility != CopyButtonVisibility::Hidden && !(
        d2_state.cache@.contains_key(parsed.contents@)
            && d2_state.cache@[parsed.contents@].render_image matches Some(Err(_))),
        r.tabs matches Some(tabs) ==> tabs.0.label@ == "Preview"@ && tabs.1.label@ == "Code"@
            && tabs.0.selected == !showing_code && tabs.1.selected == showing_code
            && tabs.0.source_offset == source_offset && tabs.1.source_offset == source_offset
            && !tabs.0.show_code && tabs.1.show_code && tabs.0.id@ == diagram_id(
            "diagram-tab-preview"@,
            document,
            source_offset,
        ) && tabs.1.id@ == diagram_id("diagram-tab-code"@, document, source_offset),
        r.body is Picture <==> !showing_code && d2_state.cache@.contains_key(parsed.contents@) && (
        match d2_state.cache@[parsed.contents@].render_image {
            Some(Ok(_)) => true,
            Some(Err(_)) => false,
            None => d2_state.cache@[parsed.contents@].fallback_image is Some,
        }),
        r.body matches DiagramBody::Picture { id, image, alternative } ==> Some(image) == (
        match d2_state.cache@[parsed.contents@].render_image {
            Some(Ok(image)) => Some(image),
            _ => d2_state.cache@[parsed.contents@].fallback_image,
        }) && alternative@ == "Failed to load D2 diagram"@ && (id matches ElementId::NamedInteger {
            name,
            number,
        } && name@ == "d2-diagram-body"@ && number == source_offset as u64),
        r.body matches DiagramBody::Code { code, loading } ==> code.text@ == parsed.contents@ && (
        loading is Some <==> !showing_code && !(d2_state.cache@.contains_key(parsed.contents@)
            && d2_state.cache@[parsed.contents@].render_image matches Some(Err(_)))) && (
        loading matches Some(label) ==> label.text@ == "Rendering..."@ && label.animation@
            == "d2-loading-pulse"@ && label.period_seconds == 2),
{
    let cached = d2_state.cache.get(parsed.contents.as_str());
    let (image, show_tabs) = d2_presentation(showing_code, cached);
    let loading = image.is_none() && !showing_code && show_tabs;
    let show_interactive = copy_button_visibility != CopyButtonVisibility::Hidden;

    let body = match image {
        Some(image) => DiagramBody::Picture {
            id: ElementId::NamedInteger {
                name: "d2-diagram-body".to_owned(),
                number: source_offset as u64,
            },
            image,
            alternative: "Failed to load D2 diagram".to_owned(),
        },
        None => DiagramBody::Code {
            code: render_diagram_code_view(parsed.contents.as_str()),
            loading: if loading {
                Some(
                    LoadingLabel {
                        text: "Rendering...".to_owned(),
                        animation: "d2-loading-pulse".to_owned(),
                        period_seconds: 2,
                    },
                )
            } else {
                None
            },
        },
    };

    let tabs = if show_interactive && show_tabs {
        Some(render_diagram_tab_header(document, source_offset, showing_code))
    } else {
        None
    };
    let copy_button = if show_interactive {
        Some(
            render_diagram_copy_button(
                "copy-d2-code",
                document,
                source_offset,
                parsed.contents.as_str(),
                copy_button_visibility,
            ),
        )
    } else {
        None
    };
    DiagramElement { tabs, body, copy_button }
}

} // verus!
