use diagram_preview::font::{
    measurement, parse_font_style, parse_font_weight, FontStyle, FontWeight,
};

#[test]
fn weights_by_name_and_number() {
    assert_eq!(parse_font_weight("normal"), FontWeight::Normal);
    assert_eq!(parse_font_weight(" Bold\t"), FontWeight::Bold);
    assert_eq!(parse_font_weight("BOLDER"), FontWeight::Bold);
    assert_eq!(parse_font_weight("lighter"), FontWeight::Light);
    assert_eq!(parse_font_weight(" 650 "), FontWeight::Number("650".to_string()));
    assert_eq!(parse_font_weight("1E2"), FontWeight::Number("1e2".to_string()));
    assert_eq!(parse_font_weight("bold 1"), FontWeight::Number("bold 1".to_string()));
    assert_eq!(parse_font_weight(""), FontWeight::Number(String::new()));
}

#[test]
fn styles_by_name() {
    assert_eq!(parse_font_style(None), FontStyle::Normal);
    assert_eq!(parse_font_style(Some("normal")), FontStyle::Normal);
    assert_eq!(parse_font_style(Some(" ITALIC ")), FontStyle::Italic);
    assert_eq!(parse_font_style(Some("italic 10deg")), FontStyle::Normal);
    assert_eq!(parse_font_style(Some("oblique")), FontStyle::Oblique);
    assert_eq!(parse_font_style(Some("Oblique 10deg")), FontStyle::Oblique);
    assert_eq!(parse_font_style(Some("x oblique")), FontStyle::Normal);
}

#[test]
fn empty_lines_are_not_measured() {
    assert!(measurement("", None, None).is_none());
    assert!(measurement("\r", Some("bold"), None).is_none());
    let line = measurement("a\r\r", Some("bold"), Some("italic")).expect("there is text");
    assert_eq!(line.text, "a\r");
    assert_eq!(line.weight, Some(FontWeight::Bold));
    assert_eq!(line.style, FontStyle::Italic);
    let line = measurement(" ", None, None).expect("there is text");
    assert_eq!(line.text, " ");
    assert_eq!(line.weight, None);
    assert_eq!(line.style, FontStyle::Normal);
}
