use bananabit::classify::{
    canonical_language, classify_span, classify_spans, fallback, language_token, palette_lookup,
    rules_for_token, RuleSet, StyledSpan,
};
use bananabit::events::{Alignment, Event, Tag};
use bananabit::highlight::{
    classify_line, choose_theme, code_layout, digit_count, highlight_code, plain_line, SpanClass, SyntaxCatalog,
};
use bananabit::matcher::{end_of_span, flatten_text, match_span};
use bananabit::text::{blank, expand_tabs_of, is_whitespace_char, number_like, split_lines};
use syntect::highlighting::ThemeSet;

fn catalog() -> SyntaxCatalog {
    SyntaxCatalog::load_defaults()
}

fn span(font_style: u8, rgb: (u8, u8, u8), text: &str) -> StyledSpan {
    StyledSpan { font_style, red: rgb.0, green: rgb.1, blue: rgb.2, text: text.to_string() }
}

#[test]
fn long_line_needs_scroll() {
    let code = "x".repeat(90);
    let layout = code_layout(&code);
    assert_eq!(layout.line_count, 1);
    assert_eq!(layout.max_line_len, 90);
    assert!(layout.needs_scroll);
}

#[test]
fn many_lines_need_scroll() {
    let code = "a\n".repeat(16);
    let layout = code_layout(&code);
    assert_eq!(layout.line_count, 16);
    assert_eq!(layout.max_line_len, 1);
    assert!(layout.needs_scroll);
    assert_eq!(layout.gutter_width, 2);
}

#[test]
fn small_block_does_not_scroll() {
    let line = "y".repeat(40);
    let code = vec![line; 10].join("\n");
    let layout = code_layout(&code);
    assert_eq!(layout.line_count, 10);
    assert_eq!(layout.max_line_len, 40);
    assert!(!layout.needs_scroll);
    assert_eq!(layout.gutter_width, 2);
}

#[test]
fn scroll_thresholds_are_strict() {
    assert!(!code_layout(&"z".repeat(80)).needs_scroll);
    assert!(!code_layout(&"a\n".repeat(15)).needs_scroll);
    assert!(!code_layout("").needs_scroll);
    assert_eq!(code_layout("").line_count, 0);
    assert_eq!(code_layout("").gutter_width, 1);
}

#[test]
fn gutter_digits() {
    assert_eq!(digit_count(0), 1);
    assert_eq!(digit_count(9), 1);
    assert_eq!(digit_count(10), 2);
    assert_eq!(digit_count(999), 3);
    assert_eq!(digit_count(1000), 4);
}

#[test]
fn lines_split_like_str_lines() {
    let samples = ["", "a", "a\n", "a\nb", "a\r\nb\r\n", "\n\nx", "a\rb", "tail\r"];
    for s in samples {
        let expected: Vec<String> = s.lines().map(|l| l.to_string()).collect();
        assert_eq!(split_lines(s), expected, "for {:?}", s);
    }
}

#[test]
fn tabs_become_four_spaces() {
    assert_eq!(expand_tabs_of("\ta\tb"), "    a    b");
    assert_eq!(expand_tabs_of("none"), "none");
    assert_eq!(expand_tabs_of(""), "");
}

#[test]
fn blank_and_number_like_text() {
    assert!(blank("  \t\n"));
    assert!(blank(""));
    assert!(!blank(" a "));
    assert!(number_like("3.14_0"));
    assert!(number_like(""));
    assert!(!number_like("3a"));
}

#[test]
fn language_aliases() {
    assert_eq!(language_token("JS"), "js");
    assert_eq!(language_token("JavaScript"), "js");
    assert_eq!(language_token("ts"), "typescript");
    assert_eq!(language_token("Python"), "python");
    assert_eq!(language_token("sh"), "bash");
    assert_eq!(language_token("C#"), "cs");
    assert_eq!(language_token("yml"), "yaml");
    assert_eq!(language_token("Haskell"), "Haskell");
    assert_eq!(canonical_language("rs", "RS"), "rust");
    assert_eq!(canonical_language("zig", "Zig"), "Zig");
}

#[test]
fn rule_sets_by_token() {
    assert_eq!(rules_for_token("js"), RuleSet::Script);
    assert_eq!(rules_for_token("html"), RuleSet::Markup);
    assert_eq!(rules_for_token("css"), RuleSet::Stylesheet);
    assert_eq!(rules_for_token("typescript"), RuleSet::Generic);
    assert_eq!(rules_for_token("rust"), RuleSet::Generic);
}

#[test]
fn palette_colours() {
    assert_eq!(palette_lookup(255, 121, 198), Some(SpanClass::Keyword));
    assert_eq!(palette_lookup(80, 250, 123), Some(SpanClass::Function));
    assert_eq!(palette_lookup(98, 114, 164), Some(SpanClass::Comment));
    assert_eq!(palette_lookup(241, 250, 140), Some(SpanClass::StringLit));
    assert_eq!(palette_lookup(189, 147, 249), Some(SpanClass::Number));
    assert_eq!(palette_lookup(139, 233, 253), Some(SpanClass::Type));
    assert_eq!(palette_lookup(248, 248, 242), Some(SpanClass::Text));
    assert_eq!(palette_lookup(0, 0, 0), None);
}

#[test]
fn italic_wins_over_colour() {
    let s = span(4, (255, 121, 198), "fn");
    assert_eq!(classify_span(&s, RuleSet::Generic), SpanClass::Type);
    let bold_italic = span(5, (1, 2, 3), "x");
    assert_eq!(classify_span(&bold_italic, RuleSet::Script), SpanClass::Type);
}

#[test]
fn colour_then_fallback() {
    let s = span(1, (255, 121, 198), "zzz");
    assert_eq!(classify_span(&s, RuleSet::Generic), SpanClass::Keyword);
    let s = span(0, (1, 2, 3), "Vec");
    assert_eq!(classify_span(&s, RuleSet::Generic), SpanClass::Type);
}

#[test]
fn classification_is_deterministic() {
    let a = span(0, (10, 20, 30), "return");
    let b = span(0, (10, 20, 30), "return");
    for rules in [RuleSet::Script, RuleSet::Markup, RuleSet::Stylesheet, RuleSet::Generic] {
        assert_eq!(classify_span(&a, rules), classify_span(&b, rules));
        assert_eq!(classify_span(&a, rules), classify_span(&a, rules));
    }
}

#[test]
fn script_fallbacks() {
    assert_eq!(fallback(RuleSet::Script, "const"), SpanClass::Keyword);
    assert_eq!(fallback(RuleSet::Script, "false"), SpanClass::Bool);
    assert_eq!(fallback(RuleSet::Script, "'a'"), SpanClass::StringLit);
    assert_eq!(fallback(RuleSet::Script, "<T>"), SpanClass::Type);
    assert_eq!(fallback(RuleSet::Script, "42"), SpanClass::Number);
    assert_eq!(fallback(RuleSet::Script, "// hi"), SpanClass::Comment);
    assert_eq!(fallback(RuleSet::Script, "Map"), SpanClass::Type);
    assert_eq!(fallback(RuleSet::Script, "foo"), SpanClass::Text);
}

#[test]
fn markup_fallbacks() {
    assert_eq!(fallback(RuleSet::Markup, "<div>"), SpanClass::Keyword);
    assert_eq!(fallback(RuleSet::Markup, "\"v\""), SpanClass::StringLit);
    assert_eq!(fallback(RuleSet::Markup, "end -->"), SpanClass::Comment);
    assert_eq!(fallback(RuleSet::Markup, "text"), SpanClass::Text);
}

#[test]
fn stylesheet_fallbacks() {
    assert_eq!(fallback(RuleSet::Stylesheet, "color:"), SpanClass::Keyword);
    assert_eq!(fallback(RuleSet::Stylesheet, ".btn"), SpanClass::Type);
    assert_eq!(fallback(RuleSet::Stylesheet, "#fff"), SpanClass::Type);
    assert_eq!(fallback(RuleSet::Stylesheet, "12px"), SpanClass::Number);
    assert_eq!(fallback(RuleSet::Stylesheet, "2rem"), SpanClass::Number);
    assert_eq!(fallback(RuleSet::Stylesheet, "50%"), SpanClass::Number);
    assert_eq!(fallback(RuleSet::Stylesheet, "/* c */"), SpanClass::Comment);
    assert_eq!(fallback(RuleSet::Stylesheet, "red"), SpanClass::Text);
}

#[test]
fn generic_fallbacks() {
    assert_eq!(fallback(RuleSet::Generic, "#[derive(Debug)]"), SpanClass::Attribute);
    assert_eq!(fallback(RuleSet::Generic, "@inline"), SpanClass::Attribute);
    assert_eq!(fallback(RuleSet::Generic, "true"), SpanClass::Bool);
    assert_eq!(fallback(RuleSet::Generic, "fn main"), SpanClass::Keyword);
    assert_eq!(fallback(RuleSet::Generic, "mut"), SpanClass::Keyword);
    assert_eq!(fallback(RuleSet::Generic, "1_000"), SpanClass::Number);
    assert_eq!(fallback(RuleSet::Generic, "\"s\""), SpanClass::StringLit);
    assert_eq!(fallback(RuleSet::Generic, "// c"), SpanClass::Comment);
    assert_eq!(fallback(RuleSet::Generic, "String"), SpanClass::Type);
    assert_eq!(fallback(RuleSet::Generic, "x"), SpanClass::Text);
}

#[test]
fn classify_spans_keeps_text() {
    let spans = vec![span(0, (255, 121, 198), "let"), span(0, (9, 9, 9), " 7")];
    let out = classify_spans(&spans, RuleSet::Generic);
    assert_eq!(out.len(), 2);
    assert_eq!(out[0].text, "let");
    assert_eq!(out[0].class, SpanClass::Keyword);
    assert_eq!(out[1].text, " 7");
    assert_eq!(out[1].class, SpanClass::Text);
}

#[test]
fn default_themes_fall_back_to_ocean() {
    assert_eq!(choose_theme(&catalog()), Some("base16-ocean.dark".to_string()));
    assert_eq!(choose_theme(&SyntaxCatalog::with_themes(ThemeSet::new())), None);
    let mut some = ThemeSet::new();
    let defaults = ThemeSet::load_defaults();
    some.themes.insert("zeta".to_string(), defaults.themes["InspiredGitHub"].clone());
    some.themes.insert("alpha".to_string(), defaults.themes["InspiredGitHub"].clone());
    assert_eq!(choose_theme(&SyntaxCatalog::with_themes(some)), Some("alpha".to_string()));
}

#[test]
fn highlighted_lines_keep_their_text() {
    let cat = catalog();
    let code = "fn main() {\n\tprintln!(\"hi\");\n}";
    let lines = highlight_code(code, "rust", &cat);
    assert_eq!(lines.len(), 3);
    let joined: Vec<String> =
        lines.iter().map(|l| l.iter().map(|s| s.text.as_str()).collect()).collect();
    assert_eq!(joined, vec!["fn main() {", "    println!(\"hi\");", "}"]);
    assert!(lines[0].len() > 1);
}

#[test]
fn without_themes_lines_stay_plain() {
    let cat = SyntaxCatalog::with_themes(ThemeSet::new());
    let lines = highlight_code("a\tb\nc", "rust", &cat);
    assert_eq!(lines.len(), 2);
    assert_eq!(lines[0].len(), 1);
    assert_eq!(lines[0][0].text, "a    b");
    assert_eq!(lines[0][0].class, SpanClass::Text);
    assert_eq!(lines[1][0].text, "c");
}

#[test]
fn plain_line_is_one_text_piece() {
    let l = plain_line("abc".to_string());
    assert_eq!(l.len(), 1);
    assert_eq!(l[0].text, "abc");
    assert_eq!(l[0].class, SpanClass::Text);
}

#[test]
fn nested_same_kind_spans_match_correctly() {
    let events = vec![
        Event::Start(Tag::BlockQuote),
        Event::Start(Tag::BlockQuote),
        Event::Text("deep".to_string()),
        Event::End(Tag::BlockQuote),
        Event::Text("shallow".to_string()),
        Event::End(Tag::BlockQuote),
        Event::Text("after".to_string()),
    ];
    let (inner, end) = match_span(&events, 0, &Tag::BlockQuote).expect("closed span");
    assert_eq!(end, 6);
    assert_eq!(inner.len(), 4);
    assert!(matches!(inner[0], Event::Start(Tag::BlockQuote)));
    assert!(matches!(&inner[3], Event::Text(t) if t == "shallow"));
    let (inner2, end2) = match_span(&events, 1, &Tag::BlockQuote).expect("closed span");
    assert_eq!(end2, 4);
    assert_eq!(inner2.len(), 1);
    assert_eq!(end_of_span(&events, 0, events.len(), &Tag::BlockQuote), Some(5));
}

#[test]
fn unterminated_span_has_no_match() {
    let events = vec![
        Event::Start(Tag::Emphasis),
        Event::Start(Tag::Emphasis),
        Event::End(Tag::Emphasis),
    ];
    assert!(match_span(&events, 0, &Tag::Emphasis).is_none());
    assert_eq!(end_of_span(&events, 0, 3, &Tag::Emphasis), None);
}

#[test]
fn table_alignments_do_not_matter_for_matching() {
    let events = vec![
        Event::Start(Tag::Table(vec![Alignment::Left, Alignment::Right])),
        Event::End(Tag::Table(vec![])),
    ];
    let (inner, end) = match_span(&events, 0, &Tag::Table(vec![])).expect("closed span");
    assert!(inner.is_empty());
    assert_eq!(end, 2);
}

#[test]
fn other_kinds_do_not_close_a_span() {
    let events = vec![
        Event::Start(Tag::Strong),
        Event::End(Tag::Emphasis),
        Event::End(Tag::Strong),
    ];
    let (inner, end) = match_span(&events, 0, &Tag::Strong).expect("closed span");
    assert_eq!(inner.len(), 1);
    assert_eq!(end, 3);
}

#[test]
fn flattened_text_of_a_span() {
    let events = vec![
        Event::Text("a".to_string()),
        Event::SoftBreak,
        Event::Code("b".to_string()),
        Event::HardBreak,
        Event::Rule,
        Event::Text("c".to_string()),
    ];
    assert_eq!(flatten_text(&events, 0, events.len()), "a\nb\n\nc");
    assert_eq!(flatten_text(&events, 2, 2), "");
}

#[test]
fn whitespace_matches_std() {
    for u in 0u32..=0x10FFFF {
        if let Some(c) = char::from_u32(u) {
            assert_eq!(is_whitespace_char(c), c.is_whitespace(), "for {:#x}", u);
        }
    }
}

#[test]
fn failed_line_becomes_plain_text() {
    let out = classify_line(Err(()), "let x".to_string(), RuleSet::Generic);
    assert_eq!(out.len(), 1);
    assert_eq!(out[0].text, "let x");
    assert_eq!(out[0].class, SpanClass::Text);
}

#[test]
fn covering_pieces_are_classified() {
    let spans = vec![span(0, (9, 9, 9), "let"), span(0, (9, 9, 9), " 42")];
    let out = classify_line(Ok(spans), "let 42".to_string(), RuleSet::Generic);
    assert_eq!(out.len(), 2);
    assert_eq!(out[0].class, SpanClass::Keyword);
    assert_eq!(out[1].text, " 42");
    assert_eq!(out[1].class, SpanClass::Text);
}

#[test]
fn partial_pieces_fall_back_to_plain_text() {
    let spans = vec![span(0, (255, 121, 198), "let")];
    let out = classify_line(Ok(spans), "let x".to_string(), RuleSet::Generic);
    assert_eq!(out.len(), 1);
    assert_eq!(out[0].text, "let x");
    assert_eq!(out[0].class, SpanClass::Text);
}

#[test]
fn highlighted_rust_keyword_is_classified() {
    let lines = highlight_code("let x = 1;", "rs", &catalog());
    assert_eq!(lines.len(), 1);
    let joined: String = lines[0].iter().map(|s| s.text.as_str()).collect();
    assert_eq!(joined, "let x = 1;");
    assert!(lines[0].iter().any(|s| s.text == "1" && s.class == SpanClass::Number));
}
