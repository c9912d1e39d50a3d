use diagram_preview::font::{measurement, FontWeight};
use diagram_preview::mermaid::{
    diagram_id, render_mermaid_with_text_policy, svg_document, to_merman_config, DiagramSerials,
    MermaidError, MermaidTheme,
};
use merman::svg::{
    DeterministicTextMeasurer, MeasurementProfileId, TextMeasurementPolicy, TextMeasurementProfile,
    TextMeasurementProfileIdentity,
};

fn color(number: u32) -> String {
    format!("#0000{number:02x}")
}

fn theme() -> MermaidTheme {
    MermaidTheme {
        dark_mode: true,
        svg_font_family: "Lilex, sans-serif".to_string(),
        primary_color: color(1),
        primary_text_color: color(2),
        primary_border_color: color(3),
        line_color: color(4),
        secondary_color: color(5),
        tertiary_color: color(6),
        background: color(7),
        cluster_background: color(8),
        cluster_border: color(9),
        edge_label_background: color(10),
        text_color: color(11),
        note_background: color(12),
        note_border: color(13),
        actor_background: color(14),
        actor_border: color(15),
        activation_background: color(16),
        activation_border: color(17),
        er_attr_bg_odd: color(18),
        er_attr_bg_even: color(19),
        git_branch_colors: std::array::from_fn(|i| color(100 + i as u32)),
        git_branch_label_colors: std::array::from_fn(|i| color(200 + i as u32)),
    }
}

fn render_first(source: &str, policy: TextMeasurementPolicy) -> Result<String, MermaidError> {
    render_mermaid_with_text_policy(source, &theme(), policy, DiagramSerials::new().next())
}

fn render(source: &str, policy: TextMeasurementPolicy) -> String {
    match render_first(source, policy) {
        Ok(svg) => svg,
        Err(error) => panic!("render failed: {}", error.message()),
    }
}

/// Options under which text in any family is drawn with a font of this machine.
fn svg_options() -> usvg::Options<'static> {
    let mut options = usvg::Options::default();
    let fonts = options.fontdb_mut();
    fonts.load_system_fonts();
    let family = fonts.faces().next().map(|face| face.families[0].0.clone());
    if let Some(family) = family {
        fonts.set_sans_serif_family(family);
    }
    options
}

fn text_font_size(group: &usvg::Group, expected_text: &str) -> Option<f32> {
    for node in group.children() {
        match node {
            usvg::Node::Group(group) => {
                if let Some(font_size) = text_font_size(group, expected_text) {
                    return Some(font_size);
                }
            }
            usvg::Node::Text(text) => {
                for chunk in text.chunks() {
                    if chunk.text() == expected_text {
                        return chunk.spans().first().map(|span| span.font_size().get());
                    }
                }
            }
            usvg::Node::Path(_) | usvg::Node::Image(_) => {}
        }
    }

    None
}

#[test]
fn render_stage_applies_resvg_safe_pipeline() {
    let html_label_source =
        "classDiagram\n    class Shelter {\n        -List~Animal~ animals\n    }";
    let html_label_svg = render(html_label_source, TextMeasurementPolicy::deterministic());

    assert!(
        !html_label_svg.contains("<foreignObject"),
        "got: {html_label_svg}"
    );
    assert!(
        !html_label_svg.contains("&amp;lt;"),
        "got: {html_label_svg}"
    );

    let css_source = "sequenceDiagram\n    Alice->>Bob: Hello\n    Bob-->>Alice: Hi";
    let css_svg = render(css_source, TextMeasurementPolicy::deterministic());

    assert!(!css_svg.contains("@keyframes"), "got: {css_svg}");
    assert!(!css_svg.contains("@-webkit-keyframes"), "got: {css_svg}");
    assert!(!css_svg.contains(":root"), "got: {css_svg}");
    assert!(!css_svg.contains("animation:"), "got: {css_svg}");
    assert!(!css_svg.contains("animation-name:"), "got: {css_svg}");
    assert!(!css_svg.contains("!important"), "got: {css_svg}");
}

#[test]
fn long_flowchart_labels_render_as_wrapped_svg_text() {
    let source = "flowchart TD\n    \
        A[\"Pass 2: search transcript with annotation blocks excised, \
        map offsets back to buffer space\"] --> \
        |ambiguous or zero| B[\"Error describing where matches were found\"]";
    let svg = render(source, TextMeasurementPolicy::deterministic());

    assert!(!svg.contains("<foreignObject"), "got: {svg}");
    assert!(!svg.contains(
        "Pass 2: search transcript with annotation blocks excised, map offsets back to buffer space</text>"
    ));
    let wrapped_line_count = svg.matches("merman-foreignobject-fallback-text").count();
    assert!(
        wrapped_line_count > 3,
        "expected long labels to wrap onto multiple SVG text lines, got {wrapped_line_count}: {svg}"
    );
}

/// Widths as a host measures them whose glyphs all take six tenths of their height.
fn host_widths() -> TextMeasurementPolicy {
    let identity = TextMeasurementProfileIdentity::new(
        MeasurementProfileId::new("test.host").expect("the name is not empty"),
        "1",
    )
    .expect("the version is not empty");
    let measurer = DeterministicTextMeasurer::default().with_width_callback(|text, style| {
        let weight = style.font_weight.as_deref();
        match measurement(text, weight, style.font_style.as_deref()) {
            Some(line) => {
                let bold = line.weight == Some(FontWeight::Bold);
                let advance = if bold { 0.7 } else { 0.6 };
                line.text.chars().count() as f64 * style.font_size * advance
            }
            None => 0.0,
        }
    });
    TextMeasurementPolicy::uniform(TextMeasurementProfile::new(identity, measurer))
}

#[test]
fn host_widths_are_used_for_flowchart_wrapping() {
    let source = r#"%%{init: {"flowchart": {"wrappingWidth": 220}}}%%
flowchart TD
    A["Receive a new deployment request from the automated release pipeline"] --> B["Prepare release notes<br/>Notify release team"]
"#;
    let default_svg = render(source, TextMeasurementPolicy::deterministic());
    let svg = render(source, host_widths());

    let default_line_count = default_svg
        .matches("merman-foreignobject-fallback-text")
        .count();
    let host_line_count = svg.matches("merman-foreignobject-fallback-text").count();
    assert!(
        host_line_count > default_line_count,
        "host widths did not change flowchart wrapping: default={default_line_count}, host={host_line_count}"
    );
    assert!(svg.contains("Prepare release notes"));
    assert!(svg.contains("Notify release team"));
    assert!(svg.contains("font-family:Lilex,sans-serif"));
}

#[test]
fn class_diagram_labels_keep_sixteen_pixel_font_size() {
    let source = r#"classDiagram
            class User {
                +String id
                +String name
                +signIn()
            }
        "#;
    let svg = render(source, TextMeasurementPolicy::deterministic());
    let tree = usvg::Tree::from_str(&svg, &svg_options()).expect("SVG parsing failed");

    assert_eq!(text_font_size(tree.root(), "User"), Some(16.0));
    assert_eq!(text_font_size(tree.root(), "+String name"), Some(16.0));
}

#[test]
fn mindmap_renders_drawable_svg() {
    let source = r#"mindmap
            root((Application))
                Frontend
                    Components
                    State
                    Routing
                Backend
                    API
                    Authentication
                    Jobs
                Data
                    Database
                    Cache
                    Backups
                Operations
                    Monitoring
                    Deployment
        "#;
    let svg = render(source, TextMeasurementPolicy::deterministic());
    let tree = usvg::Tree::from_str(&svg, &svg_options()).expect("SVG parsing failed");

    assert!(tree.root().has_children(), "got: {svg}");
    assert!(
        text_font_size(tree.root(), "Application").is_some(),
        "got: {svg}"
    );
}

#[test]
fn diagram_ids_count_up() {
    let mut serials = DiagramSerials::new();
    assert_eq!(diagram_id(&serials.next()), "merman-0");
    assert_eq!(diagram_id(&serials.next()), "merman-1");
    let source = "flowchart TD\nA-->B";
    let mut ids = Vec::new();
    for _ in 0..2 {
        let serial = serials.next();
        let id = diagram_id(&serial);
        let policy = TextMeasurementPolicy::deterministic();
        let result = render_mermaid_with_text_policy(source, &theme(), policy, serial);
        let svg = result.ok().expect("render failed");
        assert!(svg.contains(&id), "{svg}");
        ids.push(id);
    }
    assert_eq!(ids, ["merman-2", "merman-3"]);
}

#[test]
fn source_without_a_diagram_is_refused() {
    for source in ["", "no diagram at all"] {
        let policy = TextMeasurementPolicy::deterministic();
        let result = render_first(source, policy);
        assert!(matches!(result, Err(MermaidError::Render(_))));
    }
}

#[test]
fn source_with_a_mistake_is_refused() {
    let policy = TextMeasurementPolicy::deterministic();
    let result = render_first("sequenceDiagram\n  A->>", policy);
    match result {
        Err(error) => {
            assert!(matches!(error, MermaidError::Render(_)));
            assert_eq!(error.message(), "merman render failed");
        }
        Ok(svg) => panic!("{svg}"),
    }
}

#[test]
fn outcomes_become_documents() {
    assert_eq!(svg_document(Ok(Some("<svg/>".to_string()))).ok().as_deref(), Some("<svg/>"));
    match svg_document(Ok(None)) {
        Err(error) => {
            assert!(matches!(error, MermaidError::NoSvg));
            assert_eq!(error.message(), "merman returned no SVG for the given input");
        }
        Ok(_) => panic!("there was no document"),
    }
    match svg_document(Err(merman::RenderError::NoDiagram)) {
        Err(MermaidError::Render(error)) => {
            assert!(matches!(error, merman::RenderError::NoDiagram));
        }
        _ => panic!("there was an error"),
    }
}

#[test]
fn configuration_holds_the_theme() {
    let config = to_merman_config(&theme());
    let value = config.as_value();
    assert_eq!(value["theme"], "base");
    assert_eq!(value["darkMode"], true);
    assert_eq!(value["fontFamily"], "Lilex, sans-serif");
    assert_eq!(value["htmlLabels"], true);
    assert_eq!(value["flowchart"]["htmlLabels"], true);
    assert_eq!(value["flowchart"]["padding"], 16);
    assert_eq!(value["flowchart"].as_object().map(|object| object.len()), Some(2));
    assert_eq!(value.as_object().map(|object| object.len()), Some(6));

    let expected: [(&str, u32); 53] = [
        ("primaryColor", 1),
        ("primaryTextColor", 2),
        ("primaryBorderColor", 3),
        ("lineColor", 4),
        ("secondaryColor", 5),
        ("secondaryTextColor", 11),
        ("tertiaryColor", 6),
        ("tertiaryTextColor", 11),
        ("background", 7),
        ("mainBkg", 1),
        ("nodeBorder", 3),
        ("nodeTextColor", 2),
        ("clusterBkg", 8),
        ("clusterBorder", 9),
        ("titleColor", 11),
        ("edgeLabelBackground", 10),
        ("textColor", 11),
        ("noteBkgColor", 12),
        ("noteBorderColor", 13),
        ("noteTextColor", 11),
        ("actorBkg", 14),
        ("actorBorder", 15),
        ("actorTextColor", 2),
        ("labelTextColor", 11),
        ("loopTextColor", 11),
        ("signalColor", 11),
        ("signalTextColor", 11),
        ("activationBkgColor", 16),
        ("activationBorderColor", 17),
        ("classText", 11),
        ("labelColor", 2),
        ("attributeBackgroundColorOdd", 18),
        ("attributeBackgroundColorEven", 19),
        ("pieTitleTextColor", 11),
        ("pieSectionTextColor", 11),
        ("pieLegendTextColor", 11),
        ("pieStrokeColor", 3),
        ("pieOuterStrokeColor", 3),
        ("quadrant1Fill", 1),
        ("quadrant2Fill", 1),
        ("quadrant3Fill", 1),
        ("quadrant4Fill", 1),
        ("quadrant1TextFill", 11),
        ("quadrant2TextFill", 11),
        ("quadrant3TextFill", 11),
        ("quadrant4TextFill", 11),
        ("quadrantPointFill", 4),
        ("quadrantPointTextFill", 11),
        ("quadrantTitleFill", 11),
        ("quadrantXAxisTextFill", 11),
        ("quadrantYAxisTextFill", 11),
        ("quadrantExternalBorderStrokeFill", 3),
        ("quadrantInternalBorderStrokeFill", 3),
    ];
    let variables = value["themeVariables"].as_object().expect("variables are an object");
    for (name, number) in expected {
        assert_eq!(variables[name], color(number), "for {name}");
    }
    assert_eq!(variables["fontFamily"], "Lilex, sans-serif");
    for i in 0..8u32 {
        assert_eq!(variables[&format!("cScale{i}")], color(100 + i));
        assert_eq!(variables[&format!("cScaleLabel{i}")], color(200 + i));
        assert_eq!(variables[&format!("pie{}", i + 1)], color(100 + i));
    }
    assert_eq!(variables.len(), expected.len() + 1 + 3 * 8);
}
