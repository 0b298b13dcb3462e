use pdf_service::svg_text::{
    generate_svg, generate_svg_with_chars, sanitize_for_xml, CharPosition, TextItem, TextLayer,
};

/// A length in points as hundredths of a point.
fn pt(points: f64) -> i32 {
    (points * 100.0).round() as i32
}

fn span(text: &str, x: f64, y: f64, font_size: f64) -> TextItem {
    TextItem {
        text: text.to_string(),
        x: pt(x),
        y: pt(y),
        width: pt(100.0),
        height: pt(12.0),
        font_size: pt(font_size),
        char_positions: None,
    }
}

fn page(items: Vec<TextItem>) -> TextLayer {
    TextLayer { page: 1, width: pt(612.0), height: pt(792.0), items }
}

const OPEN: &str = "<svg xmlns=\"http://www.w3.org/2000/svg\" viewBox=\"0 0 612 792\" preserveAspectRatio=\"none\">";
const STYLE: &str =
    "<style>text { fill: transparent; user-select: text; cursor: text; }</style>";
const CHAR_STYLE: &str = "<style>text { fill: transparent; user-select: text; cursor: text; } tspan { white-space: pre; }</style>";

#[test]
fn test_generate_svg_basic() {
    let text_layer = TextLayer {
        page: 1,
        width: pt(612.0),
        height: pt(792.0),
        items: vec![TextItem {
            text: "Hello World".to_string(),
            x: pt(72.0),
            y: pt(72.0),
            width: pt(100.0),
            height: pt(12.0),
            font_size: pt(12.0),
            char_positions: None,
        }],
    };

    let svg = generate_svg(&text_layer);

    assert!(svg.contains("viewBox=\"0 0 612 792\""));
    assert!(svg.contains("Hello World"));
    assert!(svg.contains("font-size=\"12.00\""));
}

#[test]
fn test_html_escaping() {
    let text_layer = TextLayer {
        page: 1,
        width: pt(612.0),
        height: pt(792.0),
        items: vec![TextItem {
            text: "<script>alert('xss')</script>".to_string(),
            x: pt(72.0),
            y: pt(72.0),
            width: pt(100.0),
            height: pt(12.0),
            font_size: pt(12.0),
            char_positions: None,
        }],
    };

    let svg = generate_svg(&text_layer);

    assert!(!svg.contains("<script>"));
    assert!(svg.contains("&lt;script&gt;"));
}

#[test]
fn one_span_gives_the_whole_document() {
    let svg = generate_svg(&page(vec![span("Hello", 72.0, 72.0, 12.0)]));
    let expected = format!(
        "{}{}<text x=\"72.00\" y=\"82.20\" font-size=\"12.00\">Hello</text></svg>",
        OPEN, STYLE
    );
    assert_eq!(svg, expected);
}

#[test]
fn hello_is_positioned_and_copied() {
    let svg = generate_svg(&page(vec![span("Hello", 72.0, 72.0, 12.0)]));
    assert!(svg.contains("612 792"));
    assert!(svg.contains("<text x=\"72.00\" y=\"82.20\" font-size=\"12.00\">Hello</text>"));
    assert!(svg.chars().all(|c| c == '\t' || c == '\n' || c == '\r' || c >= ' '));
}

#[test]
fn an_empty_page_has_no_text_element() {
    let svg = generate_svg(&page(vec![]));
    assert_eq!(svg, format!("{}{}</svg>", OPEN, STYLE));
    let by_char = generate_svg_with_chars(&page(vec![]));
    assert_eq!(by_char, format!("{}{}</svg>", OPEN, CHAR_STYLE));
}

#[test]
fn spans_come_in_their_order() {
    let svg = generate_svg(&page(vec![span("one", 10.0, 20.0, 10.0), span("two", 30.0, 40.0, 20.0)]));
    let expected = format!(
        "{}{}<text x=\"10.00\" y=\"28.50\" font-size=\"10.00\">one</text><text x=\"30.00\" y=\"57.00\" font-size=\"20.00\">two</text></svg>",
        OPEN, STYLE
    );
    assert_eq!(svg, expected);
}

#[test]
fn white_space_spans_are_skipped() {
    let items = vec![
        span("", 1.0, 1.0, 10.0),
        span("   ", 1.0, 1.0, 10.0),
        span(" \t\r\n", 1.0, 1.0, 10.0),
        span("\u{a0}\u{2003}\u{3000}\u{85}\u{1680}\u{2028}\u{2029}\u{202f}\u{205f}", 1.0, 1.0, 10.0),
    ];
    assert_eq!(generate_svg(&page(items.clone())), format!("{}{}</svg>", OPEN, STYLE));
    assert_eq!(generate_svg_with_chars(&page(items)), format!("{}{}</svg>", OPEN, CHAR_STYLE));
}

#[test]
fn white_space_inside_text_is_kept() {
    let svg = generate_svg(&page(vec![span(" a b ", 0.0, 0.0, 10.0)]));
    assert!(svg.contains("> a b </text>"));
    let zero_width = generate_svg(&page(vec![span("\u{200b}", 0.0, 0.0, 10.0)]));
    assert!(zero_width.contains(">\u{200b}</text>"));
}

#[test]
fn control_characters_are_stripped_before_escaping() {
    let svg = generate_svg(&page(vec![span("a\u{0}b\u{1f}<\u{8}&>\tc", 0.0, 0.0, 10.0)]));
    assert!(svg.contains(">ab&lt;&amp;&gt;\tc</text>"));
}

#[test]
fn ampersands_are_escaped_once() {
    let svg = generate_svg(&page(vec![span("R&D &amp; more", 0.0, 0.0, 10.0)]));
    assert!(svg.contains(">R&amp;D &amp;amp; more</text>"));
}

#[test]
fn quotes_are_not_escaped() {
    let svg = generate_svg(&page(vec![span("say \"hi\" 'yo'", 0.0, 0.0, 10.0)]));
    assert!(svg.contains(">say \"hi\" 'yo'</text>"));
}

#[test]
fn text_beyond_ascii_is_copied() {
    let svg = generate_svg(&page(vec![span("Grüße <日本語>", 0.0, 0.0, 10.0)]));
    assert!(svg.contains(">Grüße &lt;日本語&gt;</text>"));
}

#[test]
fn baseline_is_rounded_to_hundredths() {
    // 10.50 * 0.85 = 8.925, a half: away from zero.
    let svg = generate_svg(&page(vec![span("x", 0.0, 1.0, 10.5)]));
    assert!(svg.contains("y=\"9.93\""));
    // 0.01 * 0.85 = 0.0085, to the nearest hundredth 0.01.
    let tiny = generate_svg(&page(vec![span("x", 0.0, 0.0, 0.01)]));
    assert!(tiny.contains("y=\"0.01\" font-size=\"0.01\""));
    // 0.05 * 0.85 = 0.0425, to the nearest hundredth 0.04.
    let small = generate_svg(&page(vec![span("x", 0.0, 0.0, 0.05)]));
    assert!(small.contains("y=\"0.04\" font-size=\"0.05\""));
}

#[test]
fn negative_positions_are_written_with_a_sign() {
    let svg = generate_svg(&page(vec![span("x", -0.05, -10.0, -10.5)]));
    assert!(svg.contains("<text x=\"-0.05\" y=\"-18.93\" font-size=\"-10.50\">x</text>"));
}

#[test]
fn extreme_positions_do_not_overflow() {
    let item = TextItem {
        text: "x".to_string(),
        x: i32::MIN,
        y: i32::MAX,
        width: 0,
        height: 0,
        font_size: i32::MAX,
        char_positions: None,
    };
    let svg = generate_svg(&TextLayer { page: 0, width: i32::MIN, height: i32::MAX, items: vec![item] });
    assert!(svg.contains("viewBox=\"0 0 -21474836.48 21474836.47\""));
    // 2147483647 + round(2147483647 * 0.85) = 2147483647 + 1825361100
    assert!(svg.contains("<text x=\"-21474836.48\" y=\"39728447.47\" font-size=\"21474836.47\">"));
}

#[test]
fn page_size_is_written_with_the_decimals_it_needs() {
    let layer = TextLayer { page: 3, width: pt(595.5), height: pt(841.89), items: vec![] };
    assert!(generate_svg(&layer).contains("viewBox=\"0 0 595.5 841.89\""));
    let small = TextLayer { page: 3, width: pt(0.0), height: pt(0.07), items: vec![] };
    assert!(generate_svg(&small).contains("viewBox=\"0 0 0 0.07\""));
}

#[test]
fn characters_are_positioned_one_by_one() {
    let mut item = span("a<b", 72.0, 72.0, 12.0);
    item.char_positions = Some(vec![
        CharPosition { char: 'a', x: pt(72.0) },
        CharPosition { char: '<', x: pt(78.5) },
        CharPosition { char: 'b', x: pt(85.25) },
    ]);
    let svg = generate_svg_with_chars(&page(vec![item]));
    let expected = format!(
        "{}{}<text y=\"82.20\" font-size=\"12.00\"><tspan x=\"72.00\">a</tspan><tspan x=\"78.50\">&lt;</tspan><tspan x=\"85.25\">b</tspan></text></svg>",
        OPEN, CHAR_STYLE
    );
    assert_eq!(svg, expected);
}

#[test]
fn control_characters_get_no_element_of_their_own() {
    let mut item = span("a\u{0}b", 0.0, 0.0, 10.0);
    item.char_positions = Some(vec![
        CharPosition { char: 'a', x: pt(1.0) },
        CharPosition { char: '\u{0}', x: pt(2.0) },
        CharPosition { char: '\u{1b}', x: pt(3.0) },
        CharPosition { char: ' ', x: pt(4.0) },
        CharPosition { char: '&', x: pt(5.0) },
    ]);
    let svg = generate_svg_with_chars(&page(vec![item]));
    assert!(svg.contains(
        "<text y=\"8.50\" font-size=\"10.00\"><tspan x=\"1.00\">a</tspan><tspan x=\"4.00\"> </tspan><tspan x=\"5.00\">&amp;</tspan></text>"
    ));
}

#[test]
fn a_span_without_positions_falls_back_to_one_element() {
    let svg = generate_svg_with_chars(&page(vec![span("a>b", 72.0, 72.0, 12.0)]));
    let expected = format!(
        "{}{}<text x=\"72.00\" y=\"82.20\" font-size=\"12.00\">a&gt;b</text></svg>",
        OPEN, CHAR_STYLE
    );
    assert_eq!(svg, expected);
}

#[test]
fn a_span_with_no_positions_at_all_keeps_its_element() {
    let mut item = span("ab", 72.0, 72.0, 12.0);
    item.char_positions = Some(vec![]);
    let svg = generate_svg_with_chars(&page(vec![item]));
    assert!(svg.contains("<text y=\"82.20\" font-size=\"12.00\"></text>"));
}

#[test]
fn a_blank_span_is_skipped_even_with_positions() {
    let mut item = span("  ", 72.0, 72.0, 12.0);
    item.char_positions = Some(vec![CharPosition { char: 'a', x: pt(1.0) }]);
    let svg = generate_svg_with_chars(&page(vec![item]));
    assert_eq!(svg, format!("{}{}</svg>", OPEN, CHAR_STYLE));
}

#[test]
fn sanitize_keeps_tab_newline_and_return() {
    assert_eq!(sanitize_for_xml("a\tb\nc\rd e"), "a\tb\nc\rd e");
}

#[test]
fn sanitize_drops_the_other_control_characters() {
    let mut text = String::new();
    for code in 0u32..32 {
        text.push(char::from_u32(code).unwrap());
        text.push('x');
    }
    let clean = sanitize_for_xml(&text);
    assert_eq!(clean, "xxxxxxxxx\tx\nxxx\rxxxxxxxxxxxxxxxxxxx");
    assert_eq!(sanitize_for_xml(""), "");
    assert_eq!(sanitize_for_xml("\u{0}\u{1}\u{1f}"), "");
}

#[test]
fn sanitize_keeps_everything_from_the_space_upwards() {
    assert_eq!(sanitize_for_xml(" ~\u{7f}\u{80}é日\u{10ffff}"), " ~\u{7f}\u{80}é日\u{10ffff}");
    assert_eq!(sanitize_for_xml("<&>"), "<&>");
}

/// Every character up to U+3100, and a sample of the characters beyond.
fn characters() -> Vec<char> {
    let near = 0u32..=0x3100;
    let far = (0x3101u32..=0x10ffff).step_by(0x101);
    near.chain(far).filter_map(char::from_u32).collect()
}

#[test]
fn a_span_is_skipped_exactly_when_trimming_leaves_nothing() {
    let mut layer = page(vec![span("", 0.0, 0.0, 10.0)]);
    for c in characters() {
        let code = u32::from(c);
        layer.items[0].text.clear();
        layer.items[0].text.push(c);
        let written = generate_svg(&layer).contains("<text");
        assert_eq!(written, !layer.items[0].text.trim().is_empty(), "U+{:04X}", code);
    }
    for text in ["", " ", " \u{a0} ", " a ", "\u{2003}x", "x\u{3000}", "\u{feff}", "\u{200b}"] {
        layer.items[0].text = text.to_string();
        let written = generate_svg_with_chars(&layer).contains("<text");
        assert_eq!(written, !text.trim().is_empty(), "{:?}", text);
    }
}

#[test]
fn escaping_agrees_with_the_escaper_on_every_character() {
    let mut layer = page(vec![span("", 0.0, 0.0, 10.0)]);
    for c in characters() {
        let code = u32::from(c);
        if c < ' ' || c.is_whitespace() {
            continue;
        }
        layer.items[0].text.clear();
        layer.items[0].text.push(c);
        let svg = generate_svg(&layer);
        let expected = match c {
            '&' => "&amp;".to_string(),
            '<' => "&lt;".to_string(),
            '>' => "&gt;".to_string(),
            other => other.to_string(),
        };
        assert!(svg.ends_with(&format!("\">{}</text></svg>", expected)), "U+{:04X}", code);
    }
}
