//! D2 diagrams in a parsed Markdown document.

use crate::text::{
    eq_ignore_ascii_case, first_word, law_leading_word, law_lowered, leading_word,
    lemma_leading_word_is, lowered, push_text, strip_suffix, texts, white_space, without_suffix,
};
use std::collections::BTreeMap;
use std::ops::Range;
use vstd::prelude::*;
use vstd::utf8::{decode_utf8, encode_utf8, is_char_boundary, valid_utf8};

verus! {

/// What introduces a code block.
#[derive(Debug, PartialEq)]
pub enum CodeBlockKind {
    /// Indentation.
    Indented,
    /// A fence that says nothing of the language.
    Fenced,
    /// A fence with an info string that begins with a language.
    FencedLang(String),
    /// A fence with the path of a source file.
    FencedSrc(String),
}

/// Where the content of a code block is, and whether its fence is closed.
#[derive(Debug, PartialEq)]
pub struct CodeBlockMetadata {
    /// The bytes of the document between the fences.
    pub content_range: Range<usize>,
    pub is_fenced_closed: bool,
}

/// An element of a Markdown document. Of elements other than code blocks nothing is read.
#[derive(Debug, PartialEq)]
pub enum MarkdownTag {
    CodeBlock { kind: CodeBlockKind, metadata: CodeBlockMetadata },
    Other,
}

/// A step through a Markdown document. Of steps other than the start of an element nothing is
/// read.
#[derive(Debug, PartialEq)]
pub enum MarkdownEvent {
    Start(MarkdownTag),
    Other,
}

/// A D2 diagram in a Markdown document.
#[derive(Debug, PartialEq)]
pub struct ParsedMarkdownD2Diagram {
    pub content_range: Range<usize>,
    pub contents: String,
}

/// A D2 diagram in a Markdown document, over its text.
#[verifier::ext_equal]
pub struct D2DiagramView {
    pub content_range: Range<usize>,
    pub contents: Seq<char>,
}

impl View for ParsedMarkdownD2Diagram {
    type V = D2DiagramView;

    open spec fn view(&self) -> D2DiagramView {
        D2DiagramView { content_range: self.content_range, contents: self.contents@ }
    }
}

impl Clone for ParsedMarkdownD2Diagram {
    fn clone(&self) -> (r: Self)
        ensures
            r@ == self@,
    {
        ParsedMarkdownD2Diagram {
            content_range: Range { start: self.content_range.start, end: self.content_range.end },
            contents: self.contents.clone(),
        }
    }
}

/// The text of the bytes of `source` in `range`.
pub open spec fn text_in(source: Seq<char>, range: Range<usize>) -> Seq<char> {
    decode_utf8(encode_utf8(source).subrange(range.start as int, range.end as int))
}

/// Whether `range` is a range of whole characters of `source`.
pub open spec fn is_text_range(source: Seq<char>, range: Range<usize>) -> bool {
    &&& range.start <= range.end
    &&& is_char_boundary(encode_utf8(source), range.start as int)
    &&& is_char_boundary(encode_utf8(source), range.end as int)
}

/// Whether an info string begins with the language D2, in any case.
pub open spec fn names_d2(info: Seq<char>) -> bool {
    leading_word(info) matches Some(language) && lowered(language) == lowered("d2"@)
}

/// Whether an event starts a D2 diagram: a closed fenced code block in the language D2.
pub open spec fn starts_d2_diagram(event: MarkdownEvent) -> bool {
    event matches MarkdownEvent::Start(MarkdownTag::CodeBlock { kind, metadata })
        && metadata.is_fenced_closed && (kind matches CodeBlockKind::FencedLang(info) && names_d2(
        info@,
    ))
}

/// The content of the code block that an event starts.
pub open spec fn block_range(event: MarkdownEvent) -> Range<usize> {
    event->Start_0->metadata.content_range
}

/// The diagram that an event starts: the content of its block, without the line break at the end.
pub open spec fn diagram_of(source: Seq<char>, event: MarkdownEvent) -> D2DiagramView {
    D2DiagramView {
        content_range: block_range(event),
        contents: without_suffix(text_in(source, block_range(event)), '\n'),
    }
}

/// The diagrams of a document by where their blocks begin. Of two blocks that begin at the same
/// place the later one counts.
pub open spec fn diagrams_in(
    source: Seq<char>,
    events: Seq<(Range<usize>, MarkdownEvent)>,
) -> Map<usize, D2DiagramView>
    decreases events.len(),
{
    if events.len() == 0 {
        Map::empty()
    } else {
        let (source_range, event) = events.last();
        let before = diagrams_in(source, events.drop_last());
        if starts_d2_diagram(event) {
            before.insert(source_range.start, diagram_of(source, event))
        } else {
            before
        }
    }
}

/// The content ranges of the diagrams fit the document.
pub open spec fn diagrams_fit(
    source: Seq<char>,
    events: Seq<(Range<usize>, MarkdownEvent)>,
) -> bool {
    forall|i: int|
        #![trigger events[i]]
        0 <= i < events.len() && starts_d2_diagram(events[i].1) ==> is_text_range(
            source,
            block_range(events[i].1),
        )
}

/// The diagrams of a document, over their texts.
pub open spec fn diagram_views(
    diagrams: Map<usize, ParsedMarkdownD2Diagram>,
) -> Map<usize, D2DiagramView> {
    diagrams.map_values(|diagram: ParsedMarkdownD2Diagram| diagram@)
}

/// A character boundary inside the first `end` bytes is one in those bytes alone.
proof fn lemma_boundary_in_prefix(bytes: Seq<u8>, start: int, end: int)
    requires
        valid_utf8(bytes),
        is_char_boundary(bytes, start),
        is_char_boundary(bytes, end),
        0 <= start <= end,
    ensures
        end <= bytes.len(),
        valid_utf8(bytes.subrange(0, end)),
        is_char_boundary(bytes.subrange(0, end), start),
{
    reveal_with_fuel(is_char_boundary, 2);
    vstd::utf8::valid_utf8_split(bytes, end);
    let prefix = bytes.subrange(0, end);
    if start < end {
        vstd::utf8::is_char_boundary_iff_not_is_continuation_byte(bytes, start);
        vstd::utf8::is_char_boundary_iff_not_is_continuation_byte(prefix, start);
        assert(prefix[start] == bytes[start]);
    } else {
        vstd::utf8::is_char_boundary_start_end_of_seq(prefix);
    }
}

/// A range of whole characters holds valid UTF-8.
proof fn lemma_text_range_valid(source: Seq<char>, range: Range<usize>)
    requires
        is_text_range(source, range),
    ensures
        range.end <= encode_utf8(source).len(),
        valid_utf8(encode_utf8(source).subrange(range.start as int, range.end as int)),
{
    let bytes = encode_utf8(source);
    let start = range.start as int;
    let end = range.end as int;
    vstd::utf8::encode_utf8_valid_utf8(source);
    lemma_boundary_in_prefix(bytes, start, end);
    let prefix = bytes.subrange(0, end);
    vstd::utf8::valid_utf8_split(prefix, start);
    assert(prefix.subrange(start, end) =~= bytes.subrange(start, end));
}

/// The content range of a diagram holds its contents byte for byte, but for one line break that
/// may stand behind them.
pub proof fn law_contents_are_in_the_source(source: Seq<char>, event: MarkdownEvent)
    requires
        starts_d2_diagram(event),
        is_text_range(source, block_range(event)),
    ensures
        ({
            let diagram = diagram_of(source, event);
            let bytes = encode_utf8(source).subrange(
                diagram.content_range.start as int,
                diagram.content_range.end as int,
            );
            encode_utf8(diagram.contents) == bytes || encode_utf8(diagram.contents.push('\n'))
                == bytes
        }),
{
    let range = block_range(event);
    let text = text_in(source, range);
    lemma_text_range_valid(source, range);
    vstd::utf8::decode_utf8_encode_utf8(
        encode_utf8(source).subrange(range.start as int, range.end as int),
    );
    if text.len() > 0 && text.last() == '\n' {
        assert(text.drop_last().push('\n') =~= text);
    }
}

/// There is a diagram exactly where a D2 block begins: blocks in other languages, blocks without
/// a language, source files and blocks that are not closed give none.
pub proof fn law_diagrams_are_the_d2_blocks(
    source: Seq<char>,
    events: Seq<(Range<usize>, MarkdownEvent)>,
    offset: usize,
)
    ensures
        diagrams_in(source, events).contains_key(offset) <==> exists|i: int|
            #![trigger events[i]]
            0 <= i < events.len() && starts_d2_diagram(events[i].1) && events[i].0.start == offset,
    decreases events.len(),
{
    if events.len() > 0 {
        let before = events.drop_last();
        law_diagrams_are_the_d2_blocks(source, before, offset);
        let last = events.len() - 1;
        assert(events[last] == events.last());
        if diagrams_in(source, before).contains_key(offset) {
            let i = choose|i: int|
                #![trigger before[i]]
                0 <= i < before.len() && starts_d2_diagram(before[i].1) && before[i].0.start
                    == offset;
            assert(events[i] == before[i]);
        }
        if exists|i: int|
            #![trigger events[i]]
            0 <= i < events.len() && starts_d2_diagram(events[i].1) && events[i].0.start
                == offset {
            let i = choose|i: int|
                #![trigger events[i]]
                0 <= i < events.len() && starts_d2_diagram(events[i].1) && events[i].0.start
                    == offset;
            if i < last {
                assert(before[i] == events[i]);
            }
        }
    }
}

/// A block after which no other D2 block begins at the same place gives its own diagram.
pub proof fn law_diagram_at_its_offset(
    source: Seq<char>,
    events: Seq<(Range<usize>, MarkdownEvent)>,
    i: int,
)
    requires
        0 <= i < events.len(),
        starts_d2_diagram(events[i].1),
        forall|j: int|
            #![trigger events[j]]
            i < j < events.len() && starts_d2_diagram(events[j].1) ==> events[j].0.start
                != events[i].0.start,
    ensures
        diagrams_in(source, events).contains_key(events[i].0.start),
        diagrams_in(source, events)[events[i].0.start] == diagram_of(source, events[i].1),
    decreases events.len(),
{
    let last = events.len() - 1;
    let before = events.drop_last();
    assert(events[last] == events.last());
    if i < last {
        assert(before[i] == events[i]);
        assert forall|j: int|
            #![trigger before[j]]
            i < j < before.len() && starts_d2_diagram(before[j].1) implies before[j].0.start
            != before[i].0.start by {
            assert(before[j] == events[j]);
        }
        law_diagram_at_its_offset(source, before, i);
        assert(starts_d2_diagram(events[last].1) ==> events[last].0.start != events[i].0.start);
    }
}

/// An info string names D2 exactly if its first word, between white space, is a `d` in either case
/// and a `2`.
pub proof fn law_info_names_d2(info: Seq<char>)
    ensures
        names_d2(info) <==> exists|start: int|
            0 <= start <= info.len() - 2 && (#[trigger] info[start] == 'd' || info[start] == 'D')
                && info[start + 1] == '2' && (forall|i: int|
                0 <= i < start ==> white_space(#[trigger] info[i])) && (start + 2 < info.len()
                ==> white_space(info[start + 2])),
{
    reveal_strlit("d2");
    let d2 = "d2"@;
    law_lowered(d2);
    assert(lowered(d2)[0] == 'd' && lowered(d2)[1] == '2');
    law_leading_word(info);
    if names_d2(info) {
        let word = leading_word(info)->0;
        law_lowered(word);
        let (start, end) = choose|start: int, end: int|
            0 <= start < end <= info.len() && #[trigger] info.subrange(start, end) == word && (
            forall|i: int| 0 <= i < start ==> white_space(#[trigger] info[i])) && (forall|i: int|
                start <= i < end ==> !white_space(#[trigger] info[i])) && (end < info.len()
                ==> white_space(info[end]));
        assert(lowered(word).len() == 2);
        assert(lowered(word)[0] == 'd' && lowered(word)[1] == '2');
        assert(word[0] == info[start] && word[1] == info[start + 1]);
    }
    if exists|start: int|
        0 <= start <= info.len() - 2 && (#[trigger] info[start] == 'd' || info[start] == 'D')
            && info[start + 1] == '2' && (forall|i: int|
            0 <= i < start ==> white_space(#[trigger] info[i])) && (start + 2 < info.len()
            ==> white_space(info[start + 2])) {
        let start = choose|start: int|
            0 <= start <= info.len() - 2 && (#[trigger] info[start] == 'd' || info[start] == 'D')
                && info[start + 1] == '2' && (forall|i: int|
                0 <= i < start ==> white_space(#[trigger] info[i])) && (start + 2 < info.len()
                ==> white_space(info[start + 2]));
        lemma_leading_word_is(info, start, start + 2);
        let word = info.subrange(start, start + 2);
        law_lowered(word);
        assert(word[0] == info[start] && word[1] == info[start + 1]);
        assert(lowered(word)[0] == 'd' && lowered(word)[1] == '2');
        assert(lowered(word) =~= lowered(d2));
    }
}

/// A D2 diagram starts exactly where a code block starts that is fenced and closed, and whose info
/// string has as its first word a `d` in either case and a `2`. So a block in any other language is
/// none, and neither is an indented block, a source file or a block that is left open.
pub proof fn law_d2_blocks(event: MarkdownEvent)
    ensures
        starts_d2_diagram(event) <==> (event matches MarkdownEvent::Start(
            MarkdownTag::CodeBlock { kind, metadata },
        ) && metadata.is_fenced_closed && (kind matches CodeBlockKind::FencedLang(info) && exists|
            start: int,
        |
            0 <= start <= info@.len() - 2 && (#[trigger] info@[start] == 'd' || info@[start] == 'D')
                && info@[start + 1] == '2' && (forall|i: int|
                0 <= i < start ==> white_space(#[trigger] info@[i])) && (start + 2 < info@.len()
                ==> white_space(info@[start + 2])))),
{
    if let MarkdownEvent::Start(MarkdownTag::CodeBlock { kind, metadata }) = event {
        if let CodeBlockKind::FencedLang(info) = kind {
            law_info_names_d2(info@);
        }
    }
}

/// The text of a range is the one whose encoding the bytes in the range are.
pub proof fn law_text_in(source: Seq<char>, range: Range<usize>, text: Seq<char>)
    requires
        encode_utf8(text) == encode_utf8(source).subrange(range.start as int, range.end as int),
    ensures
        text_in(source, range) == text,
{
    vstd::utf8::encode_utf8_decode_utf8(text);
}

/// A diagram is the text between the fences of its block, without the line break in front of the
/// closing fence if there is one, and it tells where that text is.
pub proof fn law_diagram_is_the_text_of_its_block(
    source: Seq<char>,
    kind: CodeBlockKind,
    metadata: CodeBlockMetadata,
    text: Seq<char>,
)
    requires
        encode_utf8(text) == encode_utf8(source).subrange(
            metadata.content_range.start as int,
            metadata.content_range.end as int,
        ),
    ensures
        ({
            let diagram = diagram_of(
                source,
                MarkdownEvent::Start(MarkdownTag::CodeBlock { kind, metadata }),
            );
            &&& diagram.content_range == metadata.content_range
            &&& text.len() > 0 && text.last() == '\n' ==> diagram.contents.push('\n') == text
            &&& text.len() == 0 || text.last() != '\n' ==> diagram.contents == text
        }),
{
    law_text_in(source, metadata.content_range, text);
    if text.len() > 0 && text.last() == '\n' {
        assert(text.drop_last().push('\n') =~= text);
    }
}

/// Diagrams are asked to fit where they are cut out of the document, and only there: the range of a
/// D2 block begins and ends between characters of the document, in this order.
pub proof fn law_diagrams_fit(source: Seq<char>, events: Seq<(Range<usize>, MarkdownEvent)>)
    requires
        forall|i: int|
            #![trigger events[i]]
            0 <= i < events.len() && starts_d2_diagram(events[i].1) ==> {
                let range = events[i].1->Start_0->metadata.content_range;
                range.start <= range.end && is_char_boundary(
                    encode_utf8(source),
                    range.start as int,
                ) && is_char_boundary(encode_utf8(source), range.end as int)
            },
    ensures
        diagrams_fit(source, events),
{
}

/// Diagrams are seen at the offsets where they are, each with its range and its text.
pub proof fn law_diagram_views(diagrams: Map<usize, ParsedMarkdownD2Diagram>, offset: usize)
    ensures
        diagram_views(diagrams).contains_key(offset) <==> diagrams.contains_key(offset),
        diagrams.contains_key(offset) ==> diagram_views(diagrams)[offset].contents
            == diagrams[offset].contents@ && diagram_views(diagrams)[offset].content_range
            == diagrams[offset].content_range,
{
}

/// The text of the bytes of `source` from `start` to `end`.
pub fn slice_text(source: &str, start: usize, end: usize) -> (r: &str)
    requires
        is_text_range(source@, Range { start, end }),
    ensures
        r@ == text_in(source@, Range { start, end }),
{
    proof {
        vstd::utf8::encode_utf8_valid_utf8(source@);
        lemma_boundary_in_prefix(encode_utf8(source@), start as int, end as int);
    }
    let (prefix, _) = source.split_at(end);
    let (_, text) = prefix.split_at(start);
    proof {
        let bytes = encode_utf8(source@);
        assert(encode_utf8(prefix@).subrange(start as int, end as int) =~= bytes.subrange(
            start as int,
            end as int,
        ));
        vstd::utf8::encode_utf8_decode_utf8(text@);
    }
    text
}

/// Whether an event starts a D2 diagram.
pub fn is_d2_diagram(event: &MarkdownEvent) -> (r: bool)
    ensures
        r == starts_d2_diagram(*event),
{
    match event {
        MarkdownEvent::Start(MarkdownTag::CodeBlock { kind, metadata }) => {
            if !metadata.is_fenced_closed {
                return false;
            }
            match kind {
                CodeBlockKind::FencedLang(info) => match first_word(info.as_str()) {
                    Some(language) => eq_ignore_ascii_case(language, "d2"),
                    None => false,
                },
                _ => false,
            }
        },
        _ => false,
    }
}

/// The D2 diagrams of a document, by where their blocks begin.
pub fn extract_d2_diagrams(
    source: &str,
    events: &[(Range<usize>, MarkdownEvent)],
) -> (diagrams: BTreeMap<usize, ParsedMarkdownD2Diagram>)
    requires
        diagrams_fit(source@, events@),
    ensures
        diagram_views(diagrams@) == diagrams_in(source@, events@),
{
    broadcast use vstd::std_specs::btree::group_btree_axioms;

    let mut diagrams: BTreeMap<usize, ParsedMarkdownD2Diagram> = BTreeMap::new();
    let mut i: usize = 0;
    assert(diagram_views(diagrams@) =~= diagrams_in(source@, events@.take(0)));
    while i < events.len()
        invariant
            i <= events.len(),
            diagrams_fit(source@, events@),
            diagram_views(diagrams@) == diagrams_in(source@, events@.take(i as int)),
        decreases events.len() - i,
    {
        broadcast use vstd::std_specs::btree::group_btree_axioms;

        let ghost before = diagrams@;
        let (source_range, event) = &events[i];
        assert(events@.take(i + 1).drop_last() =~= events@.take(i as int));
        assert(events@.take(i + 1).last() == events@[i as int]);
        if is_d2_diagram(event) {
            if let MarkdownEvent::Start(MarkdownTag::CodeBlock { kind: _, metadata }) = event {
                let start = metadata.content_range.start;
                let end = metadata.content_range.end;
                let text = slice_text(source, start, end);
                let diagram = ParsedMarkdownD2Diagram {
                    content_range: Range { start, end },
                    contents: strip_suffix(text, '\n').to_owned(),
                };
                let ghost view = diagram@;
                diagrams.insert(source_range.start, diagram);
                assert(diagram_views(diagrams@) =~= diagram_views(before).insert(
                    source_range.start,
                    view,
                ));
            }
        }
        i += 1;
    }
    assert(events@.take(i as int) =~= events@);
    diagrams
}

/// What is kept of a parsed document: its D2 diagrams by where their blocks begin.
#[derive(Debug)]
pub struct ParsedMarkdown {
    pub d2_diagrams: BTreeMap<usize, ParsedMarkdownD2Diagram>,
}

/// The members of `offsets` that are less than `bound`, from the least to the greatest.
pub open spec fn offsets_below(offsets: Set<usize>, bound: nat) -> Seq<usize>
    decreases bound,
{
    if bound == 0 {
        Seq::empty()
    } else {
        let before = offsets_below(offsets, (bound - 1) as nat);
        if offsets.contains((bound - 1) as usize) {
            before.push((bound - 1) as usize)
        } else {
            before
        }
    }
}

/// The texts of the diagrams in the order in which they stand in the document.
pub open spec fn document_order(diagrams: Map<usize, D2DiagramView>) -> Seq<Seq<char>> {
    offsets_below(diagrams.dom(), (usize::MAX + 1) as nat).map_values(
        |offset: usize| diagrams[offset].contents,
    )
}

/// The first `n` of increasing offsets are those below `bound`, if the others are not below it.
proof fn lemma_offsets_below(sorted: Seq<usize>, offsets: Set<usize>, bound: nat, n: int)
    requires
        0 <= n <= sorted.len(),
        bound <= usize::MAX + 1,
        forall|i: int, j: int| 0 <= i < j < sorted.len() ==> sorted[i] < sorted[j],
        forall|offset: usize| #[trigger] offsets.contains(offset) <==> sorted.contains(offset),
        forall|i: int| 0 <= i < n ==> #[trigger] sorted[i] < bound,
        forall|i: int| n <= i < sorted.len() ==> #[trigger] sorted[i] >= bound,
    ensures
        offsets_below(offsets, bound) == sorted.take(n),
    decreases bound,
{
    if bound == 0 {
        assert(n == 0) by {
            if n > 0 {
                assert(sorted[0] < bound);
            }
        }
        assert(sorted.take(n) =~= Seq::empty());
    } else {
        let last = (bound - 1) as usize;
        if n > 0 && sorted[n - 1] == last {
            lemma_offsets_below(sorted, offsets, (bound - 1) as nat, n - 1);
            assert(offsets.contains(last));
            assert(sorted.take(n) =~= sorted.take(n - 1).push(last));
        } else {
            assert forall|i: int| 0 <= i < n implies #[trigger] sorted[i] < bound - 1 by {
                if i < n - 1 {
                    assert(sorted[i] < sorted[n - 1]);
                }
            }
            assert(!offsets.contains(last)) by {
                if sorted.contains(last) {
                    let i = choose|i: int| 0 <= i < sorted.len() && sorted[i] == last;
                    assert(i < n);
                }
            }
            lemma_offsets_below(sorted, offsets, (bound - 1) as nat, n);
        }
    }
}

/// The offsets below a bound are there once each, in increasing order.
proof fn lemma_offsets_increase(offsets: Set<usize>, bound: nat)
    requires
        bound <= usize::MAX + 1,
    ensures
        forall|i: int, j: int|
            0 <= i < j < offsets_below(offsets, bound).len() ==> offsets_below(offsets, bound)[i]
                < offsets_below(offsets, bound)[j],
        forall|offset: usize| #[trigger]
            offsets_below(offsets, bound).contains(offset) <==> offsets.contains(offset) && offset
                < bound,
    decreases bound,
{
    if bound > 0 {
        let before = offsets_below(offsets, (bound - 1) as nat);
        let all = offsets_below(offsets, bound);
        let last = (bound - 1) as usize;
        lemma_offsets_increase(offsets, (bound - 1) as nat);
        assert forall|i: int| 0 <= i < before.len() implies #[trigger] before[i] < last by {
            assert(before.contains(before[i]));
        }
        assert forall|offset: usize| #[trigger]
            all.contains(offset) <==> offsets.contains(offset) && offset < bound by {
            if all.contains(offset) {
                let i = choose|i: int| 0 <= i < all.len() && all[i] == offset;
                if i < before.len() {
                    assert(before[i] == offset);
                    assert(before.contains(offset));
                }
            }
            if offsets.contains(offset) && offset < bound {
                if offset < last {
                    assert(before.contains(offset));
                    let i = choose|i: int| 0 <= i < before.len() && before[i] == offset;
                    assert(all[i] == offset);
                } else {
                    assert(all[before.len() as int] == offset);
                }
            }
        }
    }
}

/// The order of a document is that of the offsets of its diagrams: there is a row of all of their
/// offsets, each once and increasing, and the texts are those of the diagrams at these offsets.
pub proof fn law_document_order(diagrams: Map<usize, D2DiagramView>)
    ensures
        exists|offsets: Seq<usize>|
            #![trigger offsets.len()]
            offsets.len() == document_order(diagrams).len() && (forall|i: int, j: int|
                0 <= i < j < offsets.len() ==> offsets[i] < offsets[j]) && (forall|offset: usize|
             #[trigger]
                offsets.contains(offset) <==> diagrams.contains_key(offset)) && (forall|i: int|
                0 <= i < offsets.len() ==> #[trigger] document_order(diagrams)[i]
                    == diagrams[offsets[i]].contents),
{
    let bound = (usize::MAX + 1) as nat;
    lemma_offsets_increase(diagrams.dom(), bound);
    let offsets = offsets_below(diagrams.dom(), bound);
    assert(offsets.len() == document_order(diagrams).len());
}

/// The keys of an ordered map come in increasing order.
proof fn lemma_increasing(keys: Seq<usize>)
    requires
        vstd::std_specs::btree::increasing_seq(keys),
    ensures
        forall|i: int, j: int| 0 <= i < j < keys.len() ==> keys[i] < keys[j],
{
    broadcast use vstd::laws_cmp::group_laws_cmp;

    vstd::std_specs::btree::axiom_increasing_seq_meaning(keys);
    assert forall|i: int, j: int| 0 <= i < j < keys.len() implies keys[i] < keys[j] by {
        assert(vstd::std_specs::cmp::OrdSpec::cmp_spec(&keys[i], &keys[j]) is Less);
    }
}

impl ParsedMarkdown {
    /// The texts of the diagrams in the order in which they stand in the document.
    pub fn diagram_contents(&self) -> (r: Vec<String>)
        ensures
            texts(r@) == document_order(diagram_views(self.d2_diagrams@)),
    {
        broadcast use vstd::std_specs::btree::group_btree_axioms;

        let ghost diagrams = self.d2_diagrams@;
        let values = self.d2_diagrams.values();
        let ghost keys = choose|keys: Seq<usize>|
            {
                &&& vstd::std_specs::btree::increasing_seq(keys)
                &&& keys.to_set() == diagrams.dom()
                &&& keys.no_duplicates()
                &&& vstd::std_specs::iter::IteratorSpec::remaining(&values) == keys.map(
                    |i: int, k: usize| &diagrams[k],
                )
            };
        let mut order: Vec<String> = Vec::new();
        for diagram in it: values
            invariant
                it.seq() == keys.map(|i: int, k: usize| &diagrams[k]),
                texts(order@) =~= keys.take(it.index()).map_values(
                    |offset: usize| diagrams[offset]@.contents,
                ),
        {
            push_text(&mut order, diagram.contents.clone());
        }
        proof {
            let offsets = diagrams.dom();
            assert forall|offset: usize| #[trigger] offsets.contains(
                offset,
            ) <==> keys.contains(offset) by {
                assert(keys.to_set().contains(offset) <==> keys.contains(offset));
            }
            lemma_increasing(keys);
            lemma_offsets_below(keys, offsets, (usize::MAX + 1) as nat, keys.len() as int);
            assert(keys.take(keys.len() as int) =~= keys);
            assert(diagram_views(diagrams).dom() =~= offsets);
            assert(texts(order@) =~= document_order(diagram_views(diagrams)));
        }
        order
    }
}

} // verus!
