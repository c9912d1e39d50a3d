//! How the text of a Mermaid diagram is to be measured.

use crate::text::{
    eq_ignore_ascii_case, lowered, same_text, starts_with, strip_suffix, to_ascii_lowercase, trim,
    trimmed, without_suffix,
};
use vstd::prelude::*;

verus! {

/// The slant of a font.
#[derive(Clone, Copy, Debug, PartialEq, Eq, Structural)]
pub enum FontStyle {
    Normal,
    Italic,
    Oblique,
}

/// The weight that a style asks for.
#[derive(Debug, PartialEq)]
pub enum FontWeight {
    Normal,
    Bold,
    Light,
    /// None of the names for a weight, so a number if it is anything.
    Number(String),
}

/// The weight that a style asks for, over texts.
pub enum FontWeightView {
    Normal,
    Bold,
    Light,
    Number(Seq<char>),
}

impl View for FontWeight {
    type V = FontWeightView;

    open spec fn view(&self) -> FontWeightView {
        match *self {
            FontWeight::Normal => FontWeightView::Normal,
            FontWeight::Bold => FontWeightView::Bold,
            FontWeight::Light => FontWeightView::Light,
            FontWeight::Number(text) => FontWeightView::Number(text@),
        }
    }
}

/// What a weight means: white space around it and the case of its letters don't count.
pub open spec fn weight_of(weight: Seq<char>) -> FontWeightView {
    let name = lowered(trimmed(weight));
    if name == "normal"@ {
        FontWeightView::Normal
    } else if name == "bold"@ || name == "bolder"@ {
        FontWeightView::Bold
    } else if name == "lighter"@ {
        FontWeightView::Light
    } else {
        FontWeightView::Number(name)
    }
}

/// What a slant means: white space around it and the case of its letters don't count, and an
/// oblique slant may be followed by an angle.
pub open spec fn style_of(style: Option<Seq<char>>) -> FontStyle {
    match style {
        Some(style) => {
            let name = lowered(trimmed(style));
            if name == lowered("italic"@) {
                FontStyle::Italic
            } else if "oblique"@.is_prefix_of(name) {
                FontStyle::Oblique
            } else {
                FontStyle::Normal
            }
        },
        None => FontStyle::Normal,
    }
}

/// A line of text to measure, and in which font.
#[derive(Debug)]
pub struct Measurement {
    pub text: String,
    /// The weight to measure in, if it is not that of the font.
    pub weight: Option<FontWeight>,
    pub style: FontStyle,
}

/// A line of text to measure, and in which font, over texts.
pub struct MeasurementView {
    pub text: Seq<char>,
    pub weight: Option<FontWeightView>,
    pub style: FontStyle,
}

impl View for Measurement {
    type V = MeasurementView;

    open spec fn view(&self) -> MeasurementView {
        MeasurementView {
            text: self.text@,
            weight: match self.weight {
                Some(weight) => Some(weight@),
                None => None,
            },
            style: self.style,
        }
    }
}

/// The text behind an optional reference.
pub open spec fn optional_text(text: Option<&str>) -> Option<Seq<char>> {
    match text {
        Some(text) => Some(text@),
        None => None,
    }
}

/// There is a text exactly if there is a reference to one, and it is that one.
pub proof fn law_optional_text(text: &str)
    ensures
        optional_text(Some(text)) == Some(text@),
        optional_text(None) == None::<Seq<char>>,
{
}

/// How a line is to be measured: without a carriage return at its end, and not at all if nothing
/// is left.
pub open spec fn measurement_of(
    text: Seq<char>,
    weight: Option<Seq<char>>,
    style: Option<Seq<char>>,
) -> Option<MeasurementView> {
    let line = without_suffix(text, '\r');
    if line.len() == 0 {
        None
    } else {
        Some(
            MeasurementView {
                text: line,
                weight: match weight {
                    Some(weight) => Some(weight_of(weight)),
                    None => None,
                },
                style: style_of(style),
            },
        )
    }
}

/// The names of weights differ.
proof fn lemma_weight_names()
    ensures
        "normal"@ != "bold"@,
        "normal"@ != "bolder"@,
        "normal"@ != "lighter"@,
        "bold"@ != "lighter"@,
        "bolder"@ != "lighter"@,
{
    reveal_strlit("normal");
    reveal_strlit("bold");
    reveal_strlit("bolder");
    reveal_strlit("lighter");
    assert("normal"@[0] != "bolder"@[0]);
    assert("bold"@.len() == 4 && "bolder"@.len() == 6 && "lighter"@.len() == 7);
}

/// A weight is one of four names, whatever white space stands around it and in whatever case it is
/// written, or else the text of a number.
pub proof fn law_weight_of(weight: Seq<char>)
    ensures
        weight_of(weight) is Normal <==> lowered(trimmed(weight)) == "normal"@,
        weight_of(weight) is Bold <==> lowered(trimmed(weight)) == "bold"@ || lowered(
            trimmed(weight),
        ) == "bolder"@,
        weight_of(weight) is Light <==> lowered(trimmed(weight)) == "lighter"@,
        weight_of(weight) is Number ==> weight_of(weight)->Number_0 == lowered(trimmed(weight)),
{
    lemma_weight_names();
}

/// A slant is italic by its name, oblique by the beginning of it, and normal otherwise, or where
/// nothing is said.
pub proof fn law_style_of(style: Seq<char>)
    ensures
        style_of(None) == FontStyle::Normal,
        style_of(Some(style)) == FontStyle::Italic <==> lowered(trimmed(style)) == "italic"@,
        style_of(Some(style)) == FontStyle::Oblique <==> "oblique"@.is_prefix_of(
            lowered(trimmed(style)),
        ),
{
    reveal_strlit("italic");
    reveal_strlit("oblique");
    assert(lowered("italic"@) =~= "italic"@);
}

/// A line has nothing to measure exactly if it is empty or one carriage return. Otherwise it is
/// measured without a carriage return at its end, in the weight that is asked for, if one is, and
/// in the slant that is asked for.
pub proof fn law_measurement(text: Seq<char>, weight: Option<Seq<char>>, style: Option<Seq<char>>)
    ensures
        measurement_of(text, weight, style) is None <==> text.len() == 0 || (text.len() == 1
            && text[0] == '\r'),
        measurement_of(text, weight, style) matches Some(line) ==> (text.last() == '\r'
            ==> line.text.push('\r') == text) && (text.last() != '\r' ==> line.text == text)
            && line.weight is Some == weight is Some && (weight is Some ==> line.weight->0
            == weight_of(weight->0)) && line.style == style_of(style),
{
    if text.len() > 0 && text.last() == '\r' {
        assert(text.drop_last().push('\r') =~= text);
    }
}

/// The weight that a style asks for by name, or the text in which it gives a number.
pub fn parse_font_weight(weight: &str) -> (r: FontWeight)
    ensures
        r@ == weight_of(weight@),
        r is Normal <==> lowered(trimmed(weight@)) == "normal"@,
        r is Bold <==> lowered(trimmed(weight@)) == "bold"@ || lowered(trimmed(weight@))
            == "bolder"@,
        r is Light <==> lowered(trimmed(weight@)) == "lighter"@,
        r matches FontWeight::Number(text) ==> text@ == lowered(trimmed(weight@)),
{
    proof {
        lemma_weight_names();
    }
    let name = to_ascii_lowercase(trim(weight));
    if same_text(name.as_str(), "normal") {
        FontWeight::Normal
    } else if same_text(name.as_str(), "bold") || same_text(name.as_str(), "bolder") {
        FontWeight::Bold
    } else if same_text(name.as_str(), "lighter") {
        FontWeight::Light
    } else {
        FontWeight::Number(name)
    }
}

/// The slant that a style asks for.
pub fn parse_font_style(style: Option<&str>) -> (r: FontStyle)
    ensures
        r == style_of(optional_text(style)),
{
    match style {
        Some(style) => {
            let name = trim(style);
            if eq_ignore_ascii_case(name, "italic") {
                FontStyle::Italic
            } else if starts_with(to_ascii_lowercase(name).as_str(), "oblique") {
                FontStyle::Oblique
            } else {
                FontStyle::Normal
            }
        },
        None => FontStyle::Normal,
    }
}

/// How a line is to be measured. `None` is for a line that has no width.
pub fn measurement(text: &str, font_weight: Option<&str>, font_style: Option<&str>) -> (r: Option<
    Measurement,
>)
    ensures
        r is Some <==> measurement_of(
            text@,
            optional_text(font_weight),
            optional_text(font_style),
        ) is Some,
        r matches Some(measurement) ==> measurement_of(
            text@,
            optional_text(font_weight),
            optional_text(font_style),
        ) == Some(measurement@),
        r is None <==> text@.len() == 0 || (text@.len() == 1 && text@[0] == '\r'),
        r matches Some(line) ==> (text@.last() == '\r' ==> line.text@.push('\r') == text@) && (
        text@.last() != '\r' ==> line.text@ == text@) && line.weight is Some == font_weight is Some
            && (font_weight is Some ==> line.weight->0@ == weight_of(font_weight->0@)) && line.style
            == style_of(optional_text(font_style)),
{
    proof {
        law_measurement(text@, optional_text(font_weight), optional_text(font_style));
    }
    let line = strip_suffix(text, '\r');
    if line.is_empty() {
        return None;
    }
    let weight = match font_weight {
        Some(weight) => Some(parse_font_weight(weight)),
        None => None,
    };
    Some(Measurement { text: line.to_owned(), weight, style: parse_font_style(font_style) })
}

} // verus!
