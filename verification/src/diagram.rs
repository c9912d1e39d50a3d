//! What the Mermaid and D2 previews have in common: the tabs above a diagram, the button that
//! copies its source, and the identities of these.

use crate::text::{decimal, law_decimal_injective, same_text, to_decimal};
use vstd::prelude::*;

verus! {

/// The identity of an element on the screen.
#[derive(Debug, PartialEq)]
pub enum ElementId {
    /// An element of a document: what it is, the document that it belongs to, and which one of its
    /// kind it is there.
    NamedChild { prefix: String, document: u64, child: String },
    /// An element with a name and a number.
    NamedInteger { name: String, number: u64 },
}

/// The identity of an element on the screen, over texts.
pub enum ElementIdView {
    NamedChild { prefix: Seq<char>, document: u64, child: Seq<char> },
    NamedInteger { name: Seq<char>, number: u64 },
}

impl View for ElementId {
    type V = ElementIdView;

    open spec fn view(&self) -> ElementIdView {
        match *self {
            ElementId::NamedChild { prefix, document, child } => ElementIdView::NamedChild {
                prefix: prefix@,
                document,
                child: child@,
            },
            ElementId::NamedInteger { name, number } => ElementIdView::NamedInteger {
                name: name@,
                number,
            },
        }
    }
}

/// The identity of the element `prefix` of the diagram at `offset`.
pub open spec fn diagram_id(prefix: Seq<char>, document: u64, offset: usize) -> ElementIdView {
    ElementIdView::NamedChild { prefix, document, child: decimal(offset as nat) }
}

/// An identity is made of what the element is, the document and the offset in decimal.
pub proof fn law_diagram_id(prefix: Seq<char>, document: u64, offset: usize)
    ensures
        diagram_id(prefix, document, offset) is NamedChild,
        diagram_id(prefix, document, offset)->prefix == prefix,
        diagram_id(prefix, document, offset)->document == document,
        diagram_id(prefix, document, offset)->child == decimal(offset as nat),
{
}

/// Identities are seen as they are: none is taken for one with another text, document or number.
pub proof fn law_identities_are_seen(a: ElementId, b: ElementId)
    ensures
        a@ == b@ ==> (a is NamedChild <==> b is NamedChild),
        a@ == b@ && a is NamedChild ==> a->prefix@ == b->prefix@ && a->document == b->document
            && a->child@ == b->child@,
        a@ == b@ && a is NamedInteger ==> a->name@ == b->name@ && a->number == b->number,
        a is NamedChild && b is NamedChild && a->prefix@ == b->prefix@ && a->document
            == b->document && a->child@ == b->child@ ==> a@ == b@,
        a is NamedInteger && b is NamedInteger && a->name@ == b->name@ && a->number == b->number
            ==> a@ == b@,
{
}

/// Elements have the same identity only if they are the same element of the diagram at the same
/// offset of the same document.
pub proof fn law_element_ids_are_unique(
    prefix_a: Seq<char>,
    document_a: u64,
    offset_a: usize,
    prefix_b: Seq<char>,
    document_b: u64,
    offset_b: usize,
)
    requires
        diagram_id(prefix_a, document_a, offset_a) == diagram_id(prefix_b, document_b, offset_b),
    ensures
        prefix_a == prefix_b,
        document_a == document_b,
        offset_a == offset_b,
{
    law_decimal_injective(offset_a as nat, offset_b as nat);
}

impl Clone for ElementId {
    fn clone(&self) -> (r: Self)
        ensures
            r@ == self@,
    {
        match self {
            ElementId::NamedChild { prefix, document, child } => ElementId::NamedChild {
                prefix: prefix.clone(),
                document: *document,
                child: child.clone(),
            },
            ElementId::NamedInteger { name, number } => ElementId::NamedInteger {
                name: name.clone(),
                number: *number,
            },
        }
    }
}

impl ElementId {
    /// Whether `other` is the same identity.
    pub fn same(&self, other: &ElementId) -> (r: bool)
        ensures
            r == (self@ == other@),
    {
        match (self, other) {
            (
                ElementId::NamedChild { prefix: p, document: d, child: c },
                ElementId::NamedChild { prefix, document, child },
            ) => same_text(p.as_str(), prefix.as_str()) && *d == *document && same_text(
                c.as_str(),
                child.as_str(),
            ),
            (
                ElementId::NamedInteger { name: n, number: i },
                ElementId::NamedInteger { name, number },
            ) => same_text(n.as_str(), name.as_str()) && *i == *number,
            _ => false,
        }
    }
}

/// The identity of the element `prefix` of the diagram at `offset` in a document.
pub fn diagram_element_id(prefix: &str, document: u64, offset: usize) -> (r: ElementId)
    ensures
        r@ == diagram_id(prefix@, document, offset),
        r matches ElementId::NamedChild { prefix: p, document: d, child } && p@ == prefix@ && d
            == document && child@ == decimal(offset as nat),
{
    ElementId::NamedChild { prefix: prefix.to_owned(), document, child: to_decimal(offset as u64) }
}

/// The source of a diagram as it is shown.
#[derive(Debug)]
pub struct CodeView {
    pub text: String,
}

/// The source of a diagram, shown by the Code tab and whenever there is no picture.
pub fn render_diagram_code_view(contents: &str) -> (r: CodeView)
    ensures
        r.text@ == contents@,
{
    CodeView { text: contents.to_owned() }
}

/// One of the two tabs above a diagram.
#[derive(Debug)]
pub struct DiagramTab {
    pub id: ElementId,
    pub label: String,
    /// The offset of the diagram in the document.
    pub source_offset: usize,
    /// Whether the tab shows the source of the diagram, and not its picture.
    pub show_code: bool,
    /// Whether the tab is the one that is shown.
    pub selected: bool,
}

/// One of the two tabs above a diagram, over texts.
pub struct DiagramTabView {
    pub id: ElementIdView,
    pub label: Seq<char>,
    pub source_offset: usize,
    pub show_code: bool,
    pub selected: bool,
}

impl View for DiagramTab {
    type V = DiagramTabView;

    open spec fn view(&self) -> DiagramTabView {
        DiagramTabView {
            id: self.id@,
            label: self.label@,
            source_offset: self.source_offset,
            show_code: self.show_code,
            selected: self.selected,
        }
    }
}

/// What a click on a tab asks of the document.
#[derive(Clone, Copy, Debug, PartialEq, Eq, Structural)]
pub struct TabClick {
    pub source_offset: usize,
    pub show_code: bool,
}

/// The tab that shows the picture of a diagram, or the one that shows its source.
pub open spec fn tab_of(
    document: u64,
    source_offset: usize,
    showing_code: bool,
    show_code: bool,
) -> DiagramTabView {
    DiagramTabView {
        id: diagram_id(
            if show_code {
                "diagram-tab-code"@
            } else {
                "diagram-tab-preview"@
            },
            document,
            source_offset,
        ),
        label: if show_code {
            "Code"@
        } else {
            "Preview"@
        },
        source_offset,
        show_code,
        selected: showing_code == show_code,
    }
}

/// The tabs above a diagram: the picture first, then the source.
pub open spec fn tabs_of(document: u64, source_offset: usize, showing_code: bool) -> (
    DiagramTabView,
    DiagramTabView,
) {
    (
        tab_of(document, source_offset, showing_code, false),
        tab_of(document, source_offset, showing_code, true),
    )
}

/// What a click on a tab asks for: nothing where the tab is already the one that is shown.
pub open spec fn click_on(tab: DiagramTabView) -> Option<TabClick> {
    if tab.selected {
        None
    } else {
        Some(TabClick { source_offset: tab.source_offset, show_code: tab.show_code })
    }
}

/// Of the two tabs exactly one is selected, and a click on the other one selects that: the tabs
/// that are shown then are those that the click asked for.
pub proof fn law_click_switches_tabs(document: u64, source_offset: usize, showing_code: bool)
    ensures
        ({
            let (preview, code) = tabs_of(document, source_offset, showing_code);
            &&& preview.selected != code.selected
            &&& (click_on(preview) is None) != (click_on(code) is None)
            &&& forall|tab: DiagramTabView|
                (tab == preview || tab == code) && (#[trigger] click_on(tab)) is Some ==> {
                    let click = click_on(tab)->0;
                    &&& click.source_offset == source_offset
                    &&& click.show_code == !showing_code
                    &&& tab_of(document, source_offset, click.show_code, tab.show_code).selected
                }
        }),
{
}

/// One of the two tabs above a diagram.
fn diagram_tab(
    label: &str,
    id_prefix: &str,
    document: u64,
    source_offset: usize,
    showing_code: bool,
    show_code: bool,
) -> (r: DiagramTab)
    ensures
        r@ == (DiagramTabView {
            id: diagram_id(id_prefix@, document, source_offset),
            label: label@,
            source_offset,
            show_code,
            selected: showing_code == show_code,
        }),
{
    DiagramTab {
        id: diagram_element_id(id_prefix, document, source_offset),
        label: label.to_owned(),
        source_offset,
        show_code,
        selected: showing_code == show_code,
    }
}

/// The Preview and Code tabs above a diagram. Diagrams are told apart by their offset in the
/// source, which no two code blocks of a document share.
pub fn render_diagram_tab_header(document: u64, source_offset: usize, showing_code: bool) -> (r: (
    DiagramTab,
    DiagramTab,
))
    ensures
        (r.0@, r.1@) == tabs_of(document, source_offset, showing_code),
        r.0.label@ == "Preview"@ && r.1.label@ == "Code"@,
        !r.0.show_code && r.1.show_code,
        r.0.selected == !showing_code && r.1.selected == showing_code,
        r.0.source_offset == source_offset && r.1.source_offset == source_offset,
        r.0.id@ == diagram_id("diagram-tab-preview"@, document, source_offset),
        r.1.id@ == diagram_id("diagram-tab-code"@, document, source_offset),
{
    (
        diagram_tab(
            "Preview",
            "diagram-tab-preview",
            document,
            source_offset,
            showing_code,
            false,
        ),
        diagram_tab("Code", "diagram-tab-code", document, source_offset, showing_code, true),
    )
}

impl DiagramTab {
    /// What a click on the tab asks for. A click on the tab that is already selected does nothing.
    pub fn click(&self) -> (r: Option<TabClick>)
        ensures
            r == click_on(self@),
            self.selected ==> r is None,
            !self.selected ==> (r matches Some(click) && click.source_offset == self.source_offset
                && click.show_code == self.show_code),
    {
        if self.selected {
            return None;
        }
        Some(TabClick { source_offset: self.source_offset, show_code: self.show_code })
    }
}

/// When the button that copies the source of a code block is to be seen.
#[derive(Clone, Copy, Debug, PartialEq, Eq, Structural)]
pub enum CopyButtonVisibility {
    Hidden,
    AlwaysVisible,
    VisibleOnHover,
}

/// The button that copies the source of a diagram.
#[derive(Debug)]
pub struct CopyButton {
    pub id: ElementId,
    /// What the button copies.
    pub code: String,
    /// The group of elements over which the pointer has to be for the button to be seen, if it
    /// is not to be seen always.
    pub hover_group: Option<String>,
}

/// The button that copies the source of a diagram, over texts.
pub struct CopyButtonView {
    pub id: ElementIdView,
    pub code: Seq<char>,
    pub hover_group: Option<Seq<char>>,
}

impl View for CopyButton {
    type V = CopyButtonView;

    open spec fn view(&self) -> CopyButtonView {
        CopyButtonView {
            id: self.id@,
            code: self.code@,
            hover_group: match self.hover_group {
                Some(group) => Some(group@),
                None => None,
            },
        }
    }
}

/// The button that copies `code`.
pub open spec fn copy_button_of(
    id_prefix: Seq<char>,
    document: u64,
    source_offset: usize,
    code: Seq<char>,
    visibility: CopyButtonVisibility,
) -> CopyButtonView {
    CopyButtonView {
        id: diagram_id(id_prefix, document, source_offset),
        code,
        hover_group: if visibility == CopyButtonVisibility::VisibleOnHover {
            Some("code_block"@)
        } else {
            None
        },
    }
}

/// The button that copies the source of the diagram at `source_offset`.
pub fn render_diagram_copy_button(
    id_prefix: &str,
    document: u64,
    source_offset: usize,
    code: &str,
    visibility: CopyButtonVisibility,
) -> (r: CopyButton)
    ensures
        r@ == copy_button_of(id_prefix@, document, source_offset, code@, visibility),
        r.id@ == diagram_id(id_prefix@, document, source_offset),
        r.code@ == code@,
        visibility == CopyButtonVisibility::VisibleOnHover ==> (r.hover_group matches Some(group)
            && group@ == "code_block"@),
        visibility != CopyButtonVisibility::VisibleOnHover ==> r.hover_group is None,
{
    let hover_group = match visibility {
        CopyButtonVisibility::VisibleOnHover => Some("code_block".to_owned()),
        CopyButtonVisibility::AlwaysVisible => None,
        CopyButtonVisibility::Hidden => None,
    };
    CopyButton {
        id: diagram_element_id(id_prefix, document, source_offset),
        code: code.to_owned(),
        hover_group,
    }
}

/// How long a button tells that it has copied, in seconds.
pub const COPIED_SECONDS: u64 = 2;

/// What is to be done after a click on a button that copies.
#[derive(Debug)]
pub struct CopyRequest {
    /// The text for the clipboard.
    pub clipboard: String,
    /// The button that tells meanwhile that it has copied.
    pub button: ElementId,
    /// After how many seconds it stops telling so.
    pub reset_after_seconds: u64,
}

/// The buttons that tell that they have copied.
#[derive(Debug)]
pub struct CopiedCodeBlocks {
    buttons: Vec<ElementId>,
}

impl View for CopiedCodeBlocks {
    type V = Set<ElementIdView>;

    closed spec fn view(&self) -> Set<ElementIdView> {
        Set::new(
            |id: ElementIdView|
                exists|i: int| 0 <= i < self.buttons.len() && #[trigger] self.buttons@[i]@ == id,
        )
    }
}

impl CopiedCodeBlocks {
    /// No button has copied.
    pub fn new() -> (r: Self)
        ensures
            r@ == Set::<ElementIdView>::empty(),
    {
        let r = CopiedCodeBlocks { buttons: Vec::new() };
        assert(r@ =~= Set::empty());
        r
    }

    /// Whether the button tells that it has copied.
    pub fn contains(&self, id: &ElementId) -> (r: bool)
        ensures
            r == self@.contains(id@),
    {
        let mut i: usize = 0;
        while i < self.buttons.len()
            invariant
                i <= self.buttons.len(),
                forall|j: int| 0 <= j < i ==> #[trigger] self.buttons@[j]@ != id@,
            decreases self.buttons.len() - i,
        {
            if self.buttons[i].same(id) {
                return true;
            }
            i += 1;
        }
        false
    }

    /// Takes in a click on a button.
    pub fn click(&mut self, button: &CopyButton) -> (r: CopyRequest)
        ensures
            final(self)@ == old(self)@.insert(button@.id),
            final(self)@ == old(self)@.insert(button.id@),
            r.clipboard@ == button@.code,
            r.clipboard@ == button.code@,
            r.button@ == button@.id,
            r.button@ == button.id@,
            r.reset_after_seconds == 2,
    {
        if !self.contains(&button.id) {
            let ghost before = self.buttons@;
            self.buttons.push(button.id.clone());
            proof {
                let after = self.buttons@;
                assert(after[before.len() as int]@ == button.id@);
                assert forall|id: ElementIdView| #[trigger] self@.contains(
                    id,
                ) <==> old(self)@.insert(button.id@).contains(id) by {
                    if self@.contains(id) {
                        let i = choose|i: int| 0 <= i < after.len() && #[trigger] after[i]@ == id;
                        assert(i < before.len() ==> before[i]@ == id);
                    }
                    if old(self)@.contains(id) {
                        let i = choose|i: int|
                            0 <= i < before.len() && #[trigger] before[i]@ == id;
                        assert(after[i]@ == id);
                    }
                }
            }
        }
        assert(self@ =~= old(self)@.insert(button.id@));
        CopyRequest {
            clipboard: button.code.clone(),
            button: button.id.clone(),
            reset_after_seconds: COPIED_SECONDS,
        }
    }

    /// Takes in that the time after a click is over.
    pub fn reset(&mut self, id: &ElementId)
        ensures
            final(self)@ == old(self)@.remove(id@),
    {
        let mut kept: Vec<ElementId> = Vec::new();
        let mut i: usize = 0;
        while i < self.buttons.len()
            invariant
                i <= self.buttons.len(),
                self == old(self),
                forall|j: int|
                    #![trigger kept@[j]]
                    0 <= j < kept.len() ==> kept@[j]@ != id@ && self@.contains(kept@[j]@),
                forall|j: int|
                    0 <= j < i && #[trigger] self.buttons@[j]@ != id@ ==> exists|k: int|
                        0 <= k < kept.len() && #[trigger] kept@[k]@ == self.buttons@[j]@,
            decreases self.buttons.len() - i,
        {
            let ghost before = kept@;
            if !self.buttons[i].same(id) {
                kept.push(self.buttons[i].clone());
                proof {
                    assert(kept@[before.len() as int]@ == self.buttons@[i as int]@);
                    assert forall|j: int|
                        0 <= j < i && #[trigger] self.buttons@[j]@ != id@ implies exists|k: int|
                        0 <= k < kept.len() && #[trigger] kept@[k]@ == self.buttons@[j]@ by {
                        let k = choose|k: int|
                            0 <= k < before.len() && #[trigger] before[k]@ == self.buttons@[j]@;
                        assert(kept@[k]@ == self.buttons@[j]@);
                    }
                }
            }
            i += 1;
        }
        self.buttons = kept;
        assert(self@ =~= old(self)@.remove(id@));
    }
}

/// Once the time after a click is over, the buttons that tell that they have copied are those
/// that told so before, but for the one that was clicked.
pub proof fn law_copied_wears_off(buttons: Set<ElementIdView>, id: ElementIdView)
    ensures
        buttons.insert(id).contains(id),
        !buttons.insert(id).remove(id).contains(id),
        buttons.insert(id).remove(id) == buttons.remove(id),
{
    assert(buttons.insert(id).remove(id) =~= buttons.remove(id));
}

} // verus!
