use md2html::data::{Block, EmphasisKind, List, PageInfo, Span};
use md2html::parser::{parse_markdown, Parser};

fn parse(doc: &str) -> (String, List, Vec<Block>) {
    parse_markdown(doc, &Vec::new())
}

fn text(t: &str) -> Span {
    Span::Text { text: t.to_string() }
}

fn header_ids(content: &[Block]) -> Vec<String> {
    content
        .iter()
        .filter_map(|b| match b {
            Block::Header { id, .. } => Some(id.clone()),
            _ => None,
        })
        .collect()
}

fn toc_text(item: &md2html::data::ListItem) -> String {
    match &item.spans[0] {
        Span::Link { text, .. } => text.clone(),
        other => panic!("unexpected span {:?}", other),
    }
}

#[test]
fn duplicate_headers_get_numbered_ids() {
    let (_, toc, content) = parse("## Intro\n## Intro\n## Intro\n");
    assert_eq!(header_ids(&content), vec!["Intro", "Intro-1", "Intro-2"]);
    assert_eq!(toc.items.len(), 3);
    match &toc.items[2].spans[0] {
        Span::Link { text, url } => {
            assert_eq!(text, "Intro");
            assert_eq!(url, "#Intro-2");
        },
        other => panic!("unexpected span {:?}", other),
    }
}

#[test]
fn many_duplicates_use_decimal_suffixes() {
    let doc = "## X\n".repeat(12);
    let (_, _, content) = parse(&doc);
    let ids = header_ids(&content);
    assert_eq!(ids[0], "X");
    assert_eq!(ids[9], "X-9");
    assert_eq!(ids[10], "X-10");
    assert_eq!(ids[11], "X-11");
}

#[test]
fn toc_nests_by_level_and_title_comes_from_level_one() {
    let (title, toc, content) = parse("# Title\n## A\n### A1\n## B\n");
    assert_eq!(title, "Title");
    assert!(toc.ordered);
    assert_eq!(toc.items.len(), 2);
    assert_eq!(toc_text(&toc.items[0]), "A");
    assert_eq!(toc.items[0].list.items.len(), 1);
    assert_eq!(toc_text(&toc.items[0].list.items[0]), "A1");
    assert_eq!(toc_text(&toc.items[1]), "B");
    assert!(toc.items[1].list.items.is_empty());
    assert_eq!(content.len(), 4);
}

#[test]
fn header_skipping_levels_is_clamped_to_the_deepest_existing_level() {
    let (_, toc, _) = parse("#### Deep\n## A\n#### Deeper\n");
    assert_eq!(toc.items.len(), 2);
    assert_eq!(toc_text(&toc.items[0]), "Deep");
    assert_eq!(toc_text(&toc.items[1]), "A");
    assert_eq!(toc.items[1].list.items.len(), 1);
    assert_eq!(toc_text(&toc.items[1].list.items[0]), "Deeper");
}

#[test]
fn header_text_joins_span_texts_without_images() {
    let (_, _, content) = parse("## a *b* `c` $d$ ![](img.png)\n");
    assert_eq!(header_ids(&content), vec!["a b c d "]);
}

#[test]
fn emphasis_and_unterminated_emphasis() {
    let (_, _, content) = parse("*a*");
    assert_eq!(
        content,
        vec![Block::Paragraph {
            spans: vec![Span::Emphasis { kind: EmphasisKind::Em, text: "a".to_string() }],
        }]
    );
    let (_, _, content) = parse("*a");
    assert_eq!(content, vec![Block::Paragraph { spans: vec![text("*a")] }]);
}

#[test]
fn strong_code_math_image_and_link_spans() {
    let (_, _, content) = parse("**s** __t__ `c` $m$ ![](i.png) [x](u)\n");
    assert_eq!(
        content,
        vec![Block::Paragraph {
            spans: vec![
                Span::Emphasis { kind: EmphasisKind::Strong, text: "s".to_string() },
                text(" "),
                Span::Emphasis { kind: EmphasisKind::Strong, text: "t".to_string() },
                text(" "),
                Span::Code { code: "c".to_string() },
                text(" "),
                Span::Math { math: "m".to_string() },
                text(" "),
                Span::Image { url: "i.png".to_string() },
                text(" "),
                Span::Link { text: "x".to_string(), url: "u".to_string() },
            ],
        }]
    );
}

#[test]
fn unterminated_markers_keep_the_rest_of_the_line_as_text() {
    let (_, _, content) = parse("a `b\nnext\n");
    assert_eq!(
        content,
        vec![
            Block::Paragraph { spans: vec![text("a "), text("`b")] },
            Block::Paragraph { spans: vec![text("next")] },
        ]
    );
    let (_, _, content) = parse("[x] y\n");
    assert_eq!(content, vec![Block::Paragraph { spans: vec![text("[x] y")] }]);
    let (_, _, content) = parse("**a*\n");
    assert_eq!(content, vec![Block::Paragraph { spans: vec![text("**a*")] }]);
}

#[test]
fn table_head_and_body() {
    let (_, _, content) = parse("|h1|h2|\n|-|-|\n|1|2|\n");
    assert_eq!(
        content,
        vec![Block::Table {
            head: vec![vec!["h1".to_string(), "h2".to_string()]],
            body: vec![vec!["1".to_string(), "2".to_string()]],
        }]
    );
}

#[test]
fn table_without_separator_has_only_a_head() {
    let (_, _, content) = parse("|a||b\ntext\n");
    assert_eq!(
        content,
        vec![
            Block::Table {
                head: vec![vec!["a".to_string(), "".to_string(), "b".to_string()]],
                body: vec![],
            },
            Block::Paragraph { spans: vec![text("text")] },
        ]
    );
}

#[test]
fn nested_list() {
    let (_, _, content) = parse("- a\n  - b\n- c\n");
    assert_eq!(content.len(), 1);
    match &content[0] {
        Block::ListElement(list) => {
            assert!(!list.ordered);
            assert_eq!(list.items.len(), 2);
            assert_eq!(list.items[0].spans, vec![text("a")]);
            assert_eq!(list.items[0].list.items.len(), 1);
            assert_eq!(list.items[0].list.items[0].spans, vec![text("b")]);
            assert!(list.items[0].list.items[0].list.items.is_empty());
            assert_eq!(list.items[1].spans, vec![text("c")]);
            assert!(list.items[1].list.items.is_empty());
        },
        other => panic!("unexpected block {:?}", other),
    }
}

#[test]
fn ordered_list() {
    let (_, _, content) = parse("1. one\n12. two\n");
    match &content[0] {
        Block::ListElement(list) => {
            assert!(list.ordered);
            assert_eq!(list.items.len(), 2);
            assert_eq!(list.items[1].spans, vec![text("two")]);
        },
        other => panic!("unexpected block {:?}", other),
    }
}

#[test]
fn angle_brackets_are_escaped_everywhere() {
    let doc = "<script>\n`<script>`\n$<b>$\n|<td>|\n```\n<x>\n```\n$$<y>$$\n";
    let (_, _, content) = parse(doc);
    assert_eq!(
        content,
        vec![
            Block::Paragraph { spans: vec![text("&lt;script&gt;")] },
            Block::Paragraph { spans: vec![Span::Code { code: "&lt;script&gt;".to_string() }] },
            Block::Paragraph { spans: vec![Span::Math { math: "&lt;b&gt;".to_string() }] },
            Block::Table { head: vec![vec!["&lt;td&gt;".to_string()]], body: vec![] },
            Block::CodeBlock { lang: "".to_string(), code: "&lt;x&gt;\n".to_string() },
            Block::MathBlock { math: "&lt;y&gt;".to_string() },
        ]
    );
}

#[test]
fn code_block_with_language_and_crlf() {
    let (_, _, content) = parse("```rust\r\nfn f() {}\r\n```\r\nafter\r\n");
    assert_eq!(
        content,
        vec![
            Block::CodeBlock { lang: "rust".to_string(), code: "fn f() {}\r\n".to_string() },
            Block::Paragraph { spans: vec![text("after")] },
        ]
    );
}

#[test]
fn blockquote_and_blank_lines() {
    let (_, _, content) = parse("\n\n> quoted *x*\n\n");
    assert_eq!(
        content,
        vec![Block::Blockquote {
            spans: vec![text("quoted "), Span::Emphasis { kind: EmphasisKind::Em, text: "x".to_string() }],
        }]
    );
}

#[test]
fn empty_input_gives_an_empty_document() {
    let (title, toc, content) = parse("");
    assert_eq!(title, "");
    assert!(toc.items.is_empty());
    assert!(content.is_empty());
}

fn page(url: &str) -> PageInfo {
    PageInfo {
        url: url.to_string(),
        title: "Page <1>".to_string(),
        card_title: "Card".to_string(),
        image: Some("img.png".to_string()),
        description: None,
        site_name: Some("Site".to_string()),
    }
}

#[test]
fn links_without_text_take_the_looked_up_title() {
    let pages = vec![page("http://a")];
    let (_, _, content) = parse_markdown("[](http://a) [](http://b)\n", &pages);
    assert_eq!(
        content,
        vec![Block::Paragraph {
            spans: vec![
                Span::Link { text: "Page &lt;1&gt;".to_string(), url: "http://a".to_string() },
                text(" "),
                Span::Link { text: "".to_string(), url: "http://b".to_string() },
            ],
        }]
    );
}

#[test]
fn link_cards_are_filled_from_the_lookup_or_left_empty() {
    let pages = vec![page("http://a")];
    let (_, _, content) = parse_markdown("?[](http://a)\n?[](http://b)\n", &pages);
    assert_eq!(
        content,
        vec![
            Block::LinkCard {
                title: "Card".to_string(),
                image: Some("img.png".to_string()),
                url: "http://a".to_string(),
                description: None,
                site_name: Some("Site".to_string()),
            },
            Block::LinkCard {
                title: "".to_string(),
                image: None,
                url: "http://b".to_string(),
                description: None,
                site_name: None,
            },
        ]
    );
}

#[test]
fn parser_object_gives_the_same_result() {
    let pages = Vec::new();
    let mut parser = Parser::new("# T\n- a\n", &pages);
    parser.parse_markdown();
    let (title, toc, content) = parser.into_parts();
    assert_eq!(title, "T");
    assert!(toc.items.is_empty());
    assert_eq!(content.len(), 2);
}

#[test]
fn lookup_urls_lists_links_without_text_and_cards_in_order() {
    let doc = "# [](t)\n[x](skip) [](a)\n- [](b)\n  - [](c)\n?[](card)\n> [](d)\n";
    let (_, _, content) = parse(doc);
    assert_eq!(md2html::links::lookup_urls(&content), vec!["t", "a", "b", "c", "card", "d"]);
}
