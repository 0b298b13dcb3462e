//! Transparent, selectable text overlays in SVG for rendered pages.
//!
//! A page is shown as a raster image. The overlay is an SVG document of the
//! page's size whose text elements sit where the page's text sits: the text
//! is invisible, but it can be selected.
//!
//! Lengths and positions are whole numbers of hundredths of a point, the
//! resolution at which positions are written into the document.

use crate::decimal::{fixed, push_fixed, push_shortest, shortest};
use vstd::prelude::*;

verus! {

/// The position of one character of a span.
#[derive(Debug, Clone, Copy, PartialEq, Eq)]
pub struct CharPosition {
    pub char: char,
    /// The left edge, in hundredths of a point.
    pub x: i32,
}

/// A run of text on a page, with the top left corner of its box. Lengths
/// are in hundredths of a point.
#[derive(Debug, Clone, PartialEq, Eq)]
pub struct TextItem {
    pub text: String,
    pub x: i32,
    pub y: i32,
    pub width: i32,
    pub height: i32,
    pub font_size: i32,
    /// Where each character sits, where that is known.
    pub char_positions: Option<Vec<CharPosition>>,
}

/// The text of one page. Lengths are in hundredths of a point.
#[derive(Debug, Clone, PartialEq, Eq)]
pub struct TextLayer {
    pub page: usize,
    pub width: i32,
    pub height: i32,
    pub items: Vec<TextItem>,
}

/// The mathematical content of a [`TextItem`].
pub struct TextItemView {
    pub text: Seq<char>,
    pub x: int,
    pub y: int,
    pub width: int,
    pub height: int,
    pub font_size: int,
    pub char_positions: Option<Seq<CharPosition>>,
}

/// The mathematical content of a [`TextLayer`].
pub struct TextLayerView {
    pub page: nat,
    pub width: int,
    pub height: int,
    pub items: Seq<TextItemView>,
}

impl View for TextItem {
    type V = TextItemView;

    open spec fn view(&self) -> TextItemView {
        TextItemView {
            text: self.text@,
            x: self.x as int,
            y: self.y as int,
            width: self.width as int,
            height: self.height as int,
            font_size: self.font_size as int,
            char_positions: match self.char_positions {
                Some(positions) => Some(positions@),
                None => None,
            },
        }
    }
}

impl View for TextLayer {
    type V = TextLayerView;

    open spec fn view(&self) -> TextLayerView {
        TextLayerView {
            page: self.page as nat,
            width: self.width as int,
            height: self.height as int,
            items: Seq::new(self.items@.len(), |i: int| self.items@[i]@),
        }
    }
}

/// Whether XML 1.0 allows `c` in character data: tab, line feed, carriage
/// return, and everything from the space upwards.
pub open spec fn is_xml_char(c: char) -> bool {
    c == '\t' || c == '\n' || c == '\r' || c >= ' '
}

/// `text` without the characters that XML 1.0 forbids.
pub open spec fn sanitized(text: Seq<char>) -> Seq<char> {
    text.filter(|c: char| is_xml_char(c))
}

/// What stands for `c` in the text of an element: an entity for each of the
/// three characters that markup reserves, the character itself otherwise.
pub open spec fn escaped_char(c: char) -> Seq<char> {
    if c == '&' {
        "&amp;"@
    } else if c == '<' {
        "&lt;"@
    } else if c == '>' {
        "&gt;"@
    } else {
        seq![c]
    }
}

/// `text` with each character escaped for the text of an element.
pub open spec fn escaped(text: Seq<char>) -> Seq<char>
    decreases text.len(),
{
    if text.len() == 0 {
        Seq::empty()
    } else {
        escaped(text.drop_last()) + escaped_char(text.last())
    }
}

/// Whether `c` has the Unicode property White_Space.
pub open spec fn is_white_space(c: char) -> bool {
    ||| '\u{9}' <= c <= '\u{d}'
    ||| c == ' '
    ||| c == '\u{85}'
    ||| c == '\u{a0}'
    ||| c == '\u{1680}'
    ||| '\u{2000}' <= c <= '\u{200a}'
    ||| c == '\u{2028}'
    ||| c == '\u{2029}'
    ||| c == '\u{202f}'
    ||| c == '\u{205f}'
    ||| c == '\u{3000}'
}

/// Whether `text` holds nothing but white space.
pub open spec fn is_blank(text: Seq<char>) -> bool {
    forall|i: int| 0 <= i < text.len() ==> is_white_space(#[trigger] text[i])
}

/// How far the baseline of text of size `font_size` lies below the top of
/// its box: 85 hundredths of the size, to the nearest unit, halves away from
/// zero.
pub open spec fn baseline_offset(font_size: int) -> int {
    if font_size >= 0 {
        (font_size * 85 + 50) / 100
    } else {
        -((-font_size * 85 + 50) / 100)
    }
}

/// The baseline of a span whose box has its top at `y`.
pub open spec fn baseline(y: int, font_size: int) -> int {
    y + baseline_offset(font_size)
}

/// The opening tag of the document, for a page of the given size.
pub open spec fn svg_open(width: int, height: int) -> Seq<char> {
    "<svg xmlns=\"http://www.w3.org/2000/svg\" viewBox=\"0 0 "@ + shortest(width) + " "@
        + shortest(height) + "\" preserveAspectRatio=\"none\">"@
}

/// The style that makes text invisible and selectable.
pub open spec fn text_style() -> Seq<char> {
    "<style>text { fill: transparent; user-select: text; cursor: text; }</style>"@
}

/// The style of a document with one element for each character.
pub open spec fn char_style() -> Seq<char> {
    "<style>text { fill: transparent; user-select: text; cursor: text; } \
tspan { white-space: pre; }</style>"@
}

/// The closing tag of the document.
pub open spec fn svg_close() -> Seq<char> {
    "</svg>"@
}

/// The element for a span as a whole. A span of nothing but white space has
/// none.
pub open spec fn text_element(item: TextItemView) -> Seq<char> {
    if is_blank(item.text) {
        Seq::empty()
    } else {
        "<text x=\""@ + fixed(item.x) + "\" y=\""@ + fixed(baseline(item.y, item.font_size))
            + "\" font-size=\""@ + fixed(item.font_size) + "\">"@ + escaped(sanitized(item.text))
            + "</text>"@
    }
}

/// The elements for `items`, in their order.
pub open spec fn text_elements(items: Seq<TextItemView>) -> Seq<char>
    decreases items.len(),
{
    if items.len() == 0 {
        Seq::empty()
    } else {
        text_elements(items.drop_last()) + text_element(items.last())
    }
}

/// The overlay for `layer`, with one element for each span.
pub open spec fn svg_document(layer: TextLayerView) -> Seq<char> {
    svg_open(layer.width, layer.height) + text_style() + text_elements(layer.items) + svg_close()
}

/// The element for one character at its position. A character that XML
/// forbids has none.
pub open spec fn tspan(position: CharPosition) -> Seq<char> {
    if is_xml_char(position.char) {
        "<tspan x=\""@ + fixed(position.x as int) + "\">"@ + escaped_char(position.char)
            + "</tspan>"@
    } else {
        Seq::empty()
    }
}

/// The elements for `positions`, in their order.
pub open spec fn tspans(positions: Seq<CharPosition>) -> Seq<char>
    decreases positions.len(),
{
    if positions.len() == 0 {
        Seq::empty()
    } else {
        tspans(positions.drop_last()) + tspan(positions.last())
    }
}

/// The element for a span, with one element inside it for each character
/// where the characters' positions are known, and as for the span as a whole
/// where they are not.
pub open spec fn char_element(item: TextItemView) -> Seq<char> {
    if is_blank(item.text) {
        Seq::empty()
    } else {
        match item.char_positions {
            Some(positions) => "<text y=\""@ + fixed(baseline(item.y, item.font_size))
                + "\" font-size=\""@ + fixed(item.font_size) + "\">"@ + tspans(positions)
                + "</text>"@,
            None => text_element(item),
        }
    }
}

/// The elements for `items`, in their order, by character where possible.
pub open spec fn char_elements(items: Seq<TextItemView>) -> Seq<char>
    decreases items.len(),
{
    if items.len() == 0 {
        Seq::empty()
    } else {
        char_elements(items.drop_last()) + char_element(items.last())
    }
}

/// The overlay for `layer`, with one element for each character where the
/// characters' positions are known.
pub open spec fn svg_document_with_chars(layer: TextLayerView) -> Seq<char> {
    svg_open(layer.width, layer.height) + char_style() + char_elements(layer.items) + svg_close()
}

/// Sanitizing a text extended by one character.
proof fn lemma_sanitized_push(text: Seq<char>, c: char)
    ensures
        sanitized(text.push(c)) == if is_xml_char(c) {
            sanitized(text).push(c)
        } else {
            sanitized(text)
        },
{
    reveal(Seq::filter);
    assert(text.push(c).drop_last() =~= text);
}

/// The text of an element never holds an angle bracket: no character of a
/// span can open or close a tag.
pub proof fn lemma_escaped_has_no_markup(text: Seq<char>)
    ensures
        forall|i: int|
            0 <= i < escaped(text).len() ==> #[trigger] escaped(text)[i] != '<' && escaped(text)[i]
                != '>',
    decreases text.len(),
{
    if text.len() > 0 {
        lemma_escaped_has_no_markup(text.drop_last());
        let front = escaped(text.drop_last());
        let tail = escaped_char(text.last());
        reveal_strlit("&amp;");
        reveal_strlit("&lt;");
        reveal_strlit("&gt;");
        assert forall|i: int| 0 <= i < escaped(text).len() implies #[trigger] escaped(text)[i]
            != '<' && escaped(text)[i] != '>' by {
            if i >= front.len() {
                assert(escaped(text)[i] == tail[i - front.len()]);
            }
        }
    }
}

/// What is written for a span's text holds only characters that XML allows.
pub proof fn lemma_written_text_is_xml_text(text: Seq<char>)
    ensures
        forall|i: int|
            0 <= i < escaped(sanitized(text)).len() ==> is_xml_char(
                #[trigger] escaped(sanitized(text))[i],
            ),
{
    let clean = sanitized(text);
    assert forall|i: int| 0 <= i < clean.len() implies is_xml_char(#[trigger] clean[i]) by {
        text.lemma_filter_pred(|c: char| is_xml_char(c), i);
    }
    lemma_escaped_keeps_xml_text(clean);
}

/// Escaping a text of characters that XML allows yields such a text.
proof fn lemma_escaped_keeps_xml_text(text: Seq<char>)
    requires
        forall|i: int| 0 <= i < text.len() ==> is_xml_char(#[trigger] text[i]),
    ensures
        forall|i: int| 0 <= i < escaped(text).len() ==> is_xml_char(#[trigger] escaped(text)[i]),
    decreases text.len(),
{
    if text.len() > 0 {
        lemma_escaped_keeps_xml_text(text.drop_last());
        let front = escaped(text.drop_last());
        let tail = escaped_char(text.last());
        reveal_strlit("&amp;");
        reveal_strlit("&lt;");
        reveal_strlit("&gt;");
        assert forall|i: int| 0 <= i < escaped(text).len() implies is_xml_char(
            #[trigger] escaped(text)[i],
        ) by {
            if i >= front.len() {
                assert(escaped(text)[i] == tail[i - front.len()]);
            }
        }
    }
}

/// A text that holds neither a character that XML forbids nor one that
/// markup reserves is written as it is.
pub proof fn lemma_plain_text_is_written_unchanged(text: Seq<char>)
    requires
        forall|i: int|
            0 <= i < text.len() ==> is_xml_char(#[trigger] text[i]) && text[i] != '&' && text[i]
                != '<' && text[i] != '>',
    ensures
        escaped(sanitized(text)) == text,
    decreases text.len(),
{
    reveal(Seq::filter);
    if text.len() > 0 {
        let front = text.drop_last();
        lemma_plain_text_is_written_unchanged(front);
        lemma_sanitized_push(front, text.last());
        assert(sanitized(text).drop_last() =~= sanitized(front));
    }
}

/// Whether XML 1.0 allows `c` in character data.
fn xml_allows(c: char) -> (allowed: bool)
    ensures
        allowed == is_xml_char(c),
{
    c == '\t' || c == '\n' || c == '\r' || c >= ' '
}

/// Removes the control characters that XML 1.0 forbids from `text`.
pub fn sanitize_for_xml(text: &str) -> (clean: String)
    ensures
        clean@ == sanitized(text@),
{
    broadcast use vstd::string::group_string_axioms;

    let mut clean = String::new();
    assert(sanitized(text@.take(0)) =~= Seq::<char>::empty()) by {
        reveal(Seq::filter);
    }
    for c in it: text.chars()
        invariant
            it.seq() == text@,
            clean@ == sanitized(text@.take(it.index())),
    {
        proof {
            lemma_sanitized_push(text@.take(it.index()), c);
            assert(text@.take(it.index()).push(c) =~= text@.take(it.index() + 1));
        }
        if xml_allows(c) {
            clean.push(c);
        }
    }
    assert(text@.take(text@.len() as int) =~= text@);
    clean
}

/// `html_escape::encode_text` replaces each `&`, `<` and `>` of `text` by
/// `&amp;`, `&lt;` and `&gt;`, and copies every other character.
#[verifier::external_body]
fn encode_text(text: &str) -> (encoded: String)
    ensures
        encoded@ == escaped(text@),
{
    html_escape::encode_text(text).into_owned()
}

/// Whether `c` has the Unicode property White_Space.
fn white_space(c: char) -> (white: bool)
    ensures
        white == is_white_space(c),
{
    ('\u{9}' <= c && c <= '\u{d}') || c == ' ' || c == '\u{85}' || c == '\u{a0}' || c
        == '\u{1680}' || ('\u{2000}' <= c && c <= '\u{200a}') || c == '\u{2028}' || c
        == '\u{2029}' || c == '\u{202f}' || c == '\u{205f}' || c == '\u{3000}'
}

/// Whether `text` holds nothing but white space.
fn blank(text: &str) -> (blank: bool)
    ensures
        blank == is_blank(text@),
{
    broadcast use vstd::string::group_string_axioms;

    for c in it: text.chars()
        invariant
            it.seq() == text@,
            forall|i: int| 0 <= i < it.index() ==> is_white_space(#[trigger] text@[i]),
    {
        if !white_space(c) {
            return false;
        }
    }
    true
}

/// The baseline of a span whose box has its top at `y`.
fn baseline_of(y: i32, font_size: i32) -> (line: i64)
    ensures
        line == baseline(y as int, font_size as int),
{
    let size: i64 = font_size as i64;
    let offset: i64 = if size >= 0 {
        (size * 85 + 50) / 100
    } else {
        -((-size * 85 + 50) / 100)
    };
    y as i64 + offset
}

/// Appends the opening tag of the document.
fn push_svg_open(svg: &mut String, width: i32, height: i32)
    ensures
        final(svg)@ == old(svg)@ + svg_open(width as int, height as int),
{
    svg.append("<svg xmlns=\"http://www.w3.org/2000/svg\" viewBox=\"0 0 ");
    push_shortest(svg, width as i64);
    svg.append(" ");
    push_shortest(svg, height as i64);
    svg.append("\" preserveAspectRatio=\"none\">");
}

/// Appends the element for a span as a whole.
fn push_text_element(svg: &mut String, item: &TextItem)
    requires
        !is_blank(item.text@),
    ensures
        final(svg)@ == old(svg)@ + text_element(item@),
{
    let sanitized_text = sanitize_for_xml(item.text.as_str());
    let escaped_text = encode_text(sanitized_text.as_str());
    svg.append("<text x=\"");
    push_fixed(svg, item.x as i64);
    svg.append("\" y=\"");
    push_fixed(svg, baseline_of(item.y, item.font_size));
    svg.append("\" font-size=\"");
    push_fixed(svg, item.font_size as i64);
    svg.append("\">");
    svg.append(escaped_text.as_str());
    svg.append("</text>");
}

/// Generates the overlay for a page's text, with one element for each span.
///
/// The document has the page's size. Each span that holds more than white
/// space becomes a text element at the span's left edge and baseline, with
/// the span's text in it, cleared of what XML forbids and escaped.
pub fn generate_svg(text_layer: &TextLayer) -> (svg: String)
    ensures
        svg@ == svg_document(text_layer@),
{
    let mut svg = String::new();
    push_svg_open(&mut svg, text_layer.width, text_layer.height);
    svg.append("<style>text { fill: transparent; user-select: text; cursor: text; }</style>");
    let ghost head = svg_open(text_layer@.width, text_layer@.height) + text_style();
    let mut i: usize = 0;
    while i < text_layer.items.len()
        invariant
            0 <= i <= text_layer.items.len(),
            svg@ == head + text_elements(text_layer@.items.take(i as int)),
        decreases text_layer.items.len() - i,
    {
        let item = &text_layer.items[i];
        if !blank(item.text.as_str()) {
            push_text_element(&mut svg, item);
        }
        assert(text_layer@.items.take(i + 1).drop_last() =~= text_layer@.items.take(i as int));
        i += 1;
    }
    assert(text_layer@.items.take(i as int) =~= text_layer@.items);
    svg.append("</svg>");
    svg
}

/// Appends the element for one character at its position.
fn push_tspan(svg: &mut String, position: &CharPosition)
    ensures
        final(svg)@ == old(svg)@ + tspan(*position),
{
    if xml_allows(position.char) {
        let mut char_str = String::new();
        char_str.push(position.char);
        let encoded = encode_text(char_str.as_str());
        assert(escaped(char_str@) =~= escaped_char(position.char)) by {
            reveal_with_fuel(escaped, 2);
        }
        svg.append("<tspan x=\"");
        push_fixed(svg, position.x as i64);
        svg.append("\">");
        svg.append(encoded.as_str());
        svg.append("</tspan>");
    }
}

/// Appends the element for a span, with one element inside it for each
/// character.
fn push_char_element(svg: &mut String, item: &TextItem, positions: &Vec<CharPosition>)
    requires
        !is_blank(item.text@),
        item.char_positions == Some(*positions),
    ensures
        final(svg)@ == old(svg)@ + char_element(item@),
{
    svg.append("<text y=\"");
    push_fixed(svg, baseline_of(item.y, item.font_size));
    svg.append("\" font-size=\"");
    push_fixed(svg, item.font_size as i64);
    svg.append("\">");
    let ghost head = svg@;
    let mut i: usize = 0;
    while i < positions.len()
        invariant
            0 <= i <= positions.len(),
            svg@ == head + tspans(positions@.take(i as int)),
        decreases positions.len() - i,
    {
        push_tspan(svg, &positions[i]);
        assert(positions@.take(i + 1).drop_last() =~= positions@.take(i as int));
        i += 1;
    }
    assert(positions@.take(i as int) =~= positions@);
    svg.append("</text>");
}

/// Generates the overlay for a page's text, with one element for each
/// character.
///
/// A span whose characters' positions are known becomes a text element at
/// the span's baseline that holds one positioned element for each character
/// that XML allows; any other span is written as [`generate_svg`] writes it.
pub fn generate_svg_with_chars(text_layer: &TextLayer) -> (svg: String)
    ensures
        svg@ == svg_document_with_chars(text_layer@),
{
    let mut svg = String::new();
    push_svg_open(&mut svg, text_layer.width, text_layer.height);
    svg.append(
        "<style>text { fill: transparent; user-select: text; cursor: text; } \
tspan { white-space: pre; }</style>",
    );
    let ghost head = svg_open(text_layer@.width, text_layer@.height) + char_style();
    let mut i: usize = 0;
    while i < text_layer.items.len()
        invariant
            0 <= i <= text_layer.items.len(),
            svg@ == head + char_elements(text_layer@.items.take(i as int)),
        decreases text_layer.items.len() - i,
    {
        let item = &text_layer.items[i];
        if !blank(item.text.as_str()) {
            match &item.char_positions {
                Some(positions) => {
                    push_char_element(&mut svg, item, positions);
                },
                None => {
                    push_text_element(&mut svg, item);
                },
            }
        }
        assert(text_layer@.items.take(i + 1).drop_last() =~= text_layer@.items.take(i as int));
        i += 1;
    }
    assert(text_layer@.items.take(i as int) =~= text_layer@.items);
    svg.append("</svg>");
    svg
}

} // verus!
