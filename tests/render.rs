use bananabit::document::{DocNode, Role};
use bananabit::events::{Alignment, CodeBlockKind, Event, HeadingLevel, LinkType, Tag};
use bananabit::highlight::{SpanClass, SyntaxCatalog};
use bananabit::render::{
    is_http_url, render_markdown_events, resolve_image_url, task_marker, RenderError,
};
use syntect::highlighting::ThemeSet;

fn catalog() -> SyntaxCatalog {
    SyntaxCatalog::load_defaults()
}

fn empty_catalog() -> SyntaxCatalog {
    SyntaxCatalog::with_themes(ThemeSet::new())
}

fn text(s: &str) -> Event {
    Event::Text(s.to_string())
}

fn render(events: Vec<Event>, base: Option<&str>) -> Vec<DocNode> {
    let base = base.map(|b| b.to_string());
    render_markdown_events(&events, &base, &empty_catalog()).expect("well-formed events")
}

fn text_of(node: &DocNode) -> &str {
    match &node.role {
        Role::Text(t) => t.as_str(),
        _ => panic!("not a text node"),
    }
}

#[test]
fn paragraph_with_strong_text() {
    let events = vec![
        Event::Start(Tag::Paragraph),
        Event::Start(Tag::Strong),
        text("hi"),
        Event::End(Tag::Strong),
        Event::End(Tag::Paragraph),
    ];
    let nodes = render(events, None);
    assert_eq!(nodes.len(), 1);
    assert!(matches!(nodes[0].role, Role::Paragraph));
    assert_eq!(nodes[0].children.len(), 1);
    let strong = &nodes[0].children[0];
    assert!(matches!(strong.role, Role::Strong));
    assert_eq!(strong.children.len(), 1);
    assert_eq!(text_of(&strong.children[0]), "hi");
}

#[test]
fn task_list_with_checked_item() {
    let events = vec![
        Event::Start(Tag::List(None)),
        Event::Start(Tag::Item),
        text("[x] Done"),
        Event::End(Tag::Item),
        Event::End(Tag::List(None)),
    ];
    let nodes = render(events, None);
    assert_eq!(nodes.len(), 1);
    assert!(matches!(nodes[0].role, Role::List { start: None, task: true }));
    let item = &nodes[0].children[0];
    assert!(matches!(item.role, Role::TaskItem));
    assert_eq!(item.children.len(), 2);
    assert!(matches!(item.children[0].role, Role::Checkbox(true)));
    assert_eq!(text_of(&item.children[1]), "Done");
}

#[test]
fn unchecked_task_item_and_plain_item() {
    let events = vec![
        Event::Start(Tag::List(Some(3))),
        Event::Start(Tag::Item),
        text("[ ] Todo"),
        Event::End(Tag::Item),
        Event::Start(Tag::Item),
        text("[y] no"),
        Event::End(Tag::Item),
        Event::End(Tag::List(Some(3))),
    ];
    let nodes = render(events, None);
    assert!(matches!(nodes[0].role, Role::List { start: Some(3), task: true }));
    let first = &nodes[0].children[0];
    assert!(matches!(first.role, Role::TaskItem));
    assert!(matches!(first.children[0].role, Role::Checkbox(false)));
    assert_eq!(text_of(&first.children[1]), "Todo");
    let second = &nodes[0].children[1];
    assert!(matches!(second.role, Role::ListItem));
    assert_eq!(text_of(&second.children[0]), "[y] no");
}

#[test]
fn ordinary_list_is_not_a_task_list() {
    let events = vec![
        Event::Start(Tag::List(None)),
        Event::Start(Tag::Item),
        text("[x]Done"),
        Event::End(Tag::Item),
        Event::End(Tag::List(None)),
    ];
    let nodes = render(events, None);
    assert!(matches!(nodes[0].role, Role::List { start: None, task: false }));
    assert!(matches!(nodes[0].children[0].role, Role::ListItem));
}

#[test]
fn table_head_cells_are_headers() {
    let events = vec![
        Event::Start(Tag::Table(vec![Alignment::Left])),
        Event::Start(Tag::TableHead),
        Event::Start(Tag::TableRow),
        Event::Start(Tag::TableCell),
        text("Name"),
        Event::End(Tag::TableCell),
        Event::End(Tag::TableRow),
        Event::End(Tag::TableHead),
        Event::Start(Tag::TableRow),
        Event::Start(Tag::TableCell),
        text("Alice"),
        Event::End(Tag::TableCell),
        Event::End(Tag::TableRow),
        Event::End(Tag::Table(vec![Alignment::Unaligned])),
    ];
    let nodes = render(events, None);
    assert_eq!(nodes.len(), 1);
    let table = &nodes[0];
    assert!(matches!(table.role, Role::Table));
    assert_eq!(table.children.len(), 2);
    let head = &table.children[0];
    assert!(matches!(head.role, Role::TableHead));
    let head_cell = &head.children[0].children[0];
    assert!(matches!(head_cell.role, Role::HeaderCell));
    assert_eq!(text_of(&head_cell.children[0]), "Name");
    let body_row = &table.children[1];
    assert!(matches!(body_row.role, Role::TableRow));
    let body_cell = &body_row.children[0];
    assert!(matches!(body_cell.role, Role::DataCell));
    assert_eq!(text_of(&body_cell.children[0]), "Alice");
}

#[test]
fn unterminated_span_is_malformed() {
    let events = vec![Event::Start(Tag::Paragraph), text("open")];
    let r = render_markdown_events(&events, &None, &empty_catalog());
    assert!(matches!(r, Err(RenderError::Malformed)));
}

#[test]
fn stray_end_is_malformed() {
    let events = vec![text("a"), Event::End(Tag::Paragraph)];
    let r = render_markdown_events(&events, &None, &empty_catalog());
    assert!(matches!(r, Err(RenderError::Malformed)));
}

#[test]
fn empty_stream_renders_nothing() {
    let nodes = render(vec![], None);
    assert!(nodes.is_empty());
}

#[test]
fn text_accumulates_until_a_leaf_flushes_it() {
    let events = vec![
        text("a"),
        Event::SoftBreak,
        text("b"),
        text("   "),
        Event::Html("<br>".to_string()),
        Event::Code("x".to_string()),
        text("c"),
        Event::HardBreak,
        Event::Rule,
        Event::FootnoteReference("1".to_string()),
        Event::TaskListMarker(true),
    ];
    let nodes = render(events, None);
    assert_eq!(nodes.len(), 7);
    assert_eq!(text_of(&nodes[0]), "a b<br>");
    assert!(matches!(&nodes[1].role, Role::InlineCode(c) if c == "x"));
    assert_eq!(text_of(&nodes[2]), "c");
    assert!(matches!(nodes[3].role, Role::LineBreak));
    assert!(matches!(nodes[4].role, Role::Rule));
    assert!(matches!(&nodes[5].role, Role::FootnoteRef(f) if f == "1"));
    assert!(matches!(nodes[6].role, Role::Checkbox(true)));
}

#[test]
fn nested_lists_render_nested() {
    let events = vec![
        Event::Start(Tag::List(None)),
        Event::Start(Tag::Item),
        text("outer"),
        Event::Start(Tag::List(None)),
        Event::Start(Tag::Item),
        text("inner"),
        Event::End(Tag::Item),
        Event::End(Tag::List(None)),
        Event::End(Tag::Item),
        Event::End(Tag::List(None)),
        Event::Start(Tag::Paragraph),
        text("after"),
        Event::End(Tag::Paragraph),
    ];
    let nodes = render(events, None);
    assert_eq!(nodes.len(), 2);
    let outer_item = &nodes[0].children[0];
    assert_eq!(outer_item.children.len(), 2);
    assert_eq!(text_of(&outer_item.children[0]), "outer");
    let inner_list = &outer_item.children[1];
    assert!(matches!(inner_list.role, Role::List { .. }));
    assert_eq!(text_of(&inner_list.children[0].children[0]), "inner");
    assert!(matches!(nodes[1].role, Role::Paragraph));
}

#[test]
fn heading_keeps_its_level() {
    let events = vec![
        Event::Start(Tag::Heading(HeadingLevel::H3, None, vec![])),
        text("Title"),
        Event::End(Tag::Heading(HeadingLevel::H3, None, vec![])),
    ];
    let nodes = render(events, None);
    assert!(matches!(nodes[0].role, Role::Heading(HeadingLevel::H3)));
    assert_eq!(text_of(&nodes[0].children[0]), "Title");
}

#[test]
fn footnote_definition_is_skipped() {
    let events = vec![
        Event::Start(Tag::FootnoteDefinition("n".to_string())),
        Event::Start(Tag::Paragraph),
        text("note"),
        Event::End(Tag::Paragraph),
        Event::End(Tag::FootnoteDefinition("n".to_string())),
        text("body"),
    ];
    let nodes = render(events, None);
    assert_eq!(nodes.len(), 1);
    assert_eq!(text_of(&nodes[0]), "body");
}

#[test]
fn links_are_external_or_internal() {
    let url = "https://example.com".to_string();
    let events = vec![
        Event::Start(Tag::Link(LinkType::Inline, url.clone(), "t".to_string())),
        text("site"),
        Event::End(Tag::Link(LinkType::Inline, url.clone(), "t".to_string())),
        Event::Start(Tag::Link(LinkType::Inline, "/about".to_string(), String::new())),
        text("about"),
        Event::End(Tag::Link(LinkType::Inline, "/about".to_string(), String::new())),
    ];
    let nodes = render(events, None);
    assert!(matches!(&nodes[0].role, Role::Link { url, external: true, .. } if url == "https://example.com"));
    assert!(matches!(&nodes[1].role, Role::Link { url, external: false, .. } if url == "/about"));
    assert_eq!(text_of(&nodes[1].children[0]), "about");
}

#[test]
fn image_gets_resolved_src_and_alt_text() {
    let tag = Tag::Image(LinkType::Inline, "cat.png".to_string(), "A cat".to_string());
    let same = Tag::Image(LinkType::Inline, "cat.png".to_string(), "A cat".to_string());
    let events = vec![
        Event::Start(tag),
        text("a "),
        Event::Code("big".to_string()),
        Event::SoftBreak,
        text("cat"),
        Event::End(same),
    ];
    let nodes = render(events, Some("/assets/images"));
    assert_eq!(nodes.len(), 1);
    match &nodes[0].role {
        Role::Image { src, alt, title } => {
            assert_eq!(src, "/assets/images/cat.png");
            assert_eq!(alt, "a big\ncat");
            assert_eq!(title, "A cat");
        },
        _ => panic!("expected an image"),
    }
    assert!(nodes[0].children.is_empty());
}

#[test]
fn image_url_resolution() {
    let base = Some("/assets/images".to_string());
    assert_eq!(resolve_image_url("https://x.org/a.png", &base), "https://x.org/a.png");
    assert_eq!(resolve_image_url("http://x.org/a.png", &base), "http://x.org/a.png");
    assert_eq!(resolve_image_url("img/a.png", &base), "/assets/images/img/a.png");
    assert_eq!(resolve_image_url("/abs/x.png", &base), "/assets/images/abs/x.png");
    assert_eq!(resolve_image_url("img/a.png", &None), "img/a.png");
}

#[test]
fn http_url_detection() {
    assert!(is_http_url("http://a"));
    assert!(is_http_url("https://a"));
    assert!(!is_http_url("ftp://a"));
    assert!(!is_http_url("/local"));
}

#[test]
fn task_markers() {
    assert_eq!(task_marker("[ ] a"), Some(false));
    assert_eq!(task_marker("[x] a"), Some(true));
    assert_eq!(task_marker("[X] a"), Some(true));
    assert_eq!(task_marker("[x]a"), None);
    assert_eq!(task_marker("x] a"), None);
    assert_eq!(task_marker(""), None);
}

#[test]
fn code_block_node_carries_layout_and_lines() {
    let kind = CodeBlockKind::Fenced("rust".to_string());
    let same = CodeBlockKind::Fenced("rust".to_string());
    let events = vec![
        Event::Start(Tag::CodeBlock(kind)),
        text("fn main() {\n\tlet x = 1;\n}\n"),
        Event::End(Tag::CodeBlock(same)),
    ];
    let cat = catalog();
    let nodes = render_markdown_events(&events, &None, &cat).expect("well-formed events");
    match &nodes[0].role {
        Role::CodeBlock(block) => {
            assert_eq!(block.language, "rust");
            assert_eq!(block.code, "fn main() {\n\tlet x = 1;\n}\n");
            assert!(!block.needs_scroll);
            assert_eq!(block.gutter_width, 1);
            assert_eq!(block.lines.len(), 3);
            let second: String = block.lines[1].iter().map(|s| s.text.as_str()).collect();
            assert_eq!(second, "    let x = 1;");
        },
        _ => panic!("expected a code block"),
    }
}

#[test]
fn indented_code_block_is_plain_text_language() {
    let events = vec![
        Event::Start(Tag::CodeBlock(CodeBlockKind::Indented)),
        text("a\n"),
        Event::End(Tag::CodeBlock(CodeBlockKind::Indented)),
        Event::Start(Tag::CodeBlock(CodeBlockKind::Fenced(String::new()))),
        text("b\n"),
        Event::End(Tag::CodeBlock(CodeBlockKind::Fenced(String::new()))),
    ];
    let nodes = render(events, None);
    for node in &nodes {
        match &node.role {
            Role::CodeBlock(block) => {
                assert_eq!(block.language, "text");
                assert_eq!(block.lines.len(), 1);
                assert_eq!(block.lines[0].len(), 1);
                assert_eq!(block.lines[0][0].class, SpanClass::Text);
            },
            _ => panic!("expected a code block"),
        }
    }
}
