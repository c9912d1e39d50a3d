use diagram_preview::cache::{CachedD2Diagram, RenderImage};
use diagram_preview::d2::D2State;
use diagram_preview::d2_view::{render_d2_diagram, DiagramBody, DiagramElement};
use diagram_preview::diagram::CopyButtonVisibility;
use diagram_preview::markdown::{
    extract_d2_diagrams, slice_text, CodeBlockKind, CodeBlockMetadata, MarkdownEvent, MarkdownTag,
    ParsedMarkdown, ParsedMarkdownD2Diagram,
};
use std::collections::BTreeMap;
use std::ops::Range;
use std::path::PathBuf;

fn block_kind(info: &str) -> CodeBlockKind {
    if info.is_empty() {
        CodeBlockKind::Fenced
    } else if info.contains('/') {
        CodeBlockKind::FencedSrc(info.to_string())
    } else {
        CodeBlockKind::FencedLang(info.to_string())
    }
}

fn metadata_of(markdown: &str, range: &Range<usize>) -> CodeBlockMetadata {
    let text = &markdown[range.clone()];
    let start = text.find('\n').map_or(text.len(), |newline| newline + 1);
    let is_fenced_closed = start < text.len() && text.ends_with("```");
    let end = if is_fenced_closed { text.len() - 3 } else { text.len() };
    CodeBlockMetadata {
        content_range: range.start + start..range.start + end,
        is_fenced_closed,
    }
}

fn events_of(markdown: &str) -> Vec<(Range<usize>, MarkdownEvent)> {
    pulldown_cmark::Parser::new(markdown)
        .into_offset_iter()
        .map(|(event, range)| {
            let event = match event {
                pulldown_cmark::Event::Start(pulldown_cmark::Tag::CodeBlock(kind)) => {
                    let metadata = metadata_of(markdown, &range);
                    let kind = match kind {
                        pulldown_cmark::CodeBlockKind::Indented => CodeBlockKind::Indented,
                        pulldown_cmark::CodeBlockKind::Fenced(info) => block_kind(&info),
                    };
                    MarkdownEvent::Start(MarkdownTag::CodeBlock { kind, metadata })
                }
                pulldown_cmark::Event::Start(_) => MarkdownEvent::Start(MarkdownTag::Other),
                _ => MarkdownEvent::Other,
            };
            (range, event)
        })
        .collect()
}

fn extract(markdown: &str) -> BTreeMap<usize, ParsedMarkdownD2Diagram> {
    extract_d2_diagrams(markdown, &events_of(markdown))
}

fn block(
    start: usize,
    info: &str,
    content_range: Range<usize>,
    is_fenced_closed: bool,
) -> (Range<usize>, MarkdownEvent) {
    let metadata = CodeBlockMetadata { content_range, is_fenced_closed };
    let kind = CodeBlockKind::FencedLang(info.to_string());
    (start..start + 1, MarkdownEvent::Start(MarkdownTag::CodeBlock { kind, metadata }))
}

fn rendered_text(element: &DiagramElement) -> String {
    let mut lines: Vec<&str> = Vec::new();
    if let Some((preview, code)) = &element.tabs {
        lines.push(&preview.label);
        lines.push(&code.label);
    }
    if let DiagramBody::Code { code, loading } = &element.body {
        lines.push(&code.text);
        lines.extend(loading.as_ref().map(|label| label.text.as_str()));
    }
    lines.join("\n")
}

fn render_markdown_with_cached_d2(source: &str, cached: CachedD2Diagram) -> String {
    let diagrams = extract(source);
    let (source_offset, diagram) = diagrams
        .iter()
        .next()
        .expect("D2 diagram should be extracted");
    let mut state = D2State::default();
    state.cache.insert(diagram.contents.clone(), cached);
    state.order = vec![diagram.contents.clone()];
    state.binary = Some(PathBuf::from("d2"));
    let hidden = CopyButtonVisibility::Hidden;
    rendered_text(&render_d2_diagram(diagram, &state, 1, *source_offset, false, hidden))
}

#[test]
fn cached_d2_image_replaces_code_block_text() {
    let image = RenderImage { id: 7 };
    let cached = CachedD2Diagram { render_image: Some(Ok(image)), fallback_image: None };
    let rendered = render_markdown_with_cached_d2("```d2\nclient -> server\n```", cached);

    assert!(!rendered.contains("client -> server"));
}

#[test]
fn pending_d2_image_leaves_code_block_text() {
    let cached = CachedD2Diagram::new(None);
    let rendered = render_markdown_with_cached_d2("```d2\nclient -> server\n```", cached);

    assert_eq!(rendered, "client -> server\nRendering...");
}

#[test]
fn extracts_closed_d2_fenced_block() {
    let markdown = "```d2\nx -> y\n```";
    let diagrams = extract(markdown);

    let diagram = diagrams
        .values()
        .next()
        .expect("D2 block should be extracted");
    assert_eq!(diagram.contents, "x -> y");
    let content_start = markdown.find("x -> y").expect("content should be present");
    assert_eq!(
        diagram.content_range,
        content_start..content_start + "x -> y\n".len()
    );
    assert_eq!(&markdown[diagram.content_range.clone()], "x -> y\n");
}

#[test]
fn ignores_non_d2_fenced_blocks() {
    let diagrams = extract("```rust\nlet d2 = true;\n```");

    assert!(diagrams.is_empty());
}

#[test]
fn ignores_unclosed_d2_fenced_blocks() {
    let diagrams = extract("```d2\nx -> y\n");

    assert!(diagrams.is_empty());
}

#[test]
fn ignores_fenced_source_paths_with_d2_extension() {
    let diagrams = extract("```diagrams/example.d2\nx -> y\n```");

    assert!(diagrams.is_empty());
}

#[test]
fn preserves_unicode_content_and_byte_range() {
    let markdown = "before\n\n```d2\n東京 -> café: 🦀\n```";
    let diagrams = extract(markdown);

    let diagram = diagrams
        .values()
        .next()
        .expect("D2 block should be extracted");
    assert_eq!(diagram.contents, "東京 -> café: 🦀");
    assert_eq!(
        &markdown[diagram.content_range.clone()],
        "東京 -> café: 🦀\n"
    );
}

#[test]
fn extracts_multiple_blocks_at_their_source_offsets() {
    let markdown = "intro\n\n```d2\na -> b\n```\n\nmiddle\n\n```D2 layout=elk\nc -> d\n```";
    let diagrams = extract(markdown);
    let expected_offsets = vec![
        markdown
            .find("```d2")
            .expect("first fence should be present"),
        markdown
            .rfind("```D2")
            .expect("second fence should be present"),
    ];

    assert_eq!(
        diagrams.keys().copied().collect::<Vec<_>>(),
        expected_offsets
    );
    assert_eq!(
        diagrams
            .values()
            .map(|diagram| diagram.contents.as_str())
            .collect::<Vec<_>>(),
        vec!["a -> b", "c -> d"]
    );
}

#[test]
fn source_path_in_the_info_string_is_no_language() {
    let source = "x -> y\n";
    let events = [block(0, "diagrams/example.d2", 0..source.len(), true)];
    assert!(extract_d2_diagrams(source, &events).is_empty());
}

#[test]
fn info_string_is_read_up_to_white_space() {
    let source = "x\n";
    for (info, is_d2) in [
        ("d2", true),
        (" \u{a0}D2\u{3000}x", true),
        ("d2\tlayout=elk", true),
        ("d22", false),
        ("d", false),
        ("x d2", false),
        ("", false),
        ("  ", false),
        ("d2,x", false),
    ] {
        let diagrams = extract_d2_diagrams(source, &[block(0, info, 0..2, true)]);
        assert_eq!(diagrams.len(), if is_d2 { 1 } else { 0 }, "for {info:?}");
    }
}

#[test]
fn only_one_line_break_is_taken_off() {
    let source = "a\n\nb";
    let events = [
        block(0, "d2", 0..3, true),
        block(5, "d2", 3..4, true),
        block(9, "d2", 4..4, true),
        block(7, "d2", 0..4, false),
    ];
    let diagrams = extract_d2_diagrams(source, &events);
    let contents: Vec<(usize, &str)> =
        diagrams.iter().map(|(offset, diagram)| (*offset, diagram.contents.as_str())).collect();
    assert_eq!(contents, [(0, "a\n"), (5, "b"), (9, "")]);
}

#[test]
fn blocks_of_other_kinds_are_ignored() {
    let source = "x\n";
    let kinds = [
        CodeBlockKind::Indented,
        CodeBlockKind::Fenced,
        CodeBlockKind::FencedSrc("d2".to_string()),
    ];
    for kind in kinds {
        let metadata = CodeBlockMetadata { content_range: 0..2, is_fenced_closed: true };
        let event = MarkdownEvent::Start(MarkdownTag::CodeBlock { kind, metadata });
        assert!(extract_d2_diagrams(source, &[(0..2, event)]).is_empty());
    }
    let others = [
        (0..2, MarkdownEvent::Start(MarkdownTag::Other)),
        (0..2, MarkdownEvent::Other),
    ];
    assert!(extract_d2_diagrams(source, &others).is_empty());
}

#[test]
fn later_block_at_the_same_place_counts() {
    let source = "ab";
    let events = [block(3, "d2", 0..1, true), block(3, "d2", 1..2, true)];
    let diagrams = extract_d2_diagrams(source, &events);
    assert_eq!(diagrams.len(), 1);
    assert_eq!(diagrams[&3].contents, "b");
    assert_eq!(diagrams[&3].clone(), diagrams[&3]);
}

#[test]
fn contents_come_in_the_order_of_the_document() {
    let source = "abc";
    let events = [
        block(30, "d2", 2..3, true),
        block(10, "d2", 0..1, true),
        block(20, "d2", 1..2, true),
    ];
    let parsed = ParsedMarkdown { d2_diagrams: extract_d2_diagrams(source, &events) };
    assert_eq!(parsed.diagram_contents(), ["a", "b", "c"]);
}

#[test]
fn text_is_cut_at_bytes() {
    let source = "é🦀x";
    assert_eq!(slice_text(source, 0, 2), "é");
    assert_eq!(slice_text(source, 2, 6), "🦀");
    assert_eq!(slice_text(source, 6, 7), "x");
    assert_eq!(slice_text(source, 2, 2), "");
    assert_eq!(slice_text(source, 0, 7), source);
}
