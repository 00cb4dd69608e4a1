use md2html::codegen::gen_html;
use md2html::data::Elem;
use md2html::parser::parse_markdown;
use md2html::template::parse_template;

const LAYOUT: &str = "<html>\n<head>\n  <title>old</title>\n</head>\n<body>\n  <nav id=\"toc\">\n    stale\n  </nav>\n  <div id=\"content\">\n    <p>stale</p>\n  </div>\n</body>\n</html>\n";

#[test]
fn template_slots_and_literal_lines() {
    let t = parse_template(LAYOUT);
    assert_eq!(
        t,
        vec![
            Elem::Str("<html>\n".to_string()),
            Elem::Str("<head>\n".to_string()),
            Elem::Title(2),
            Elem::Str("</head>\n".to_string()),
            Elem::Str("<body>\n".to_string()),
            Elem::Toc(2),
            Elem::Content(2),
            Elem::Str("</body>\n".to_string()),
            Elem::Str("</html>\n".to_string()),
        ]
    );
}

#[test]
fn template_without_final_newline_and_unclosed_slot() {
    let t = parse_template("a\n<div id=\"content\">\nb");
    assert_eq!(t, vec![Elem::Str("a\n".to_string()), Elem::Content(0)]);
    assert_eq!(parse_template(""), vec![]);
}

#[test]
fn page_is_rendered_into_the_slots() {
    let (title, toc, content) = parse_markdown("# T\n## A\npara\n", &Vec::new());
    let t = vec![
        Elem::Str("<html>\n".to_string()),
        Elem::Title(2),
        Elem::Toc(2),
        Elem::Content(2),
        Elem::Str("</html>\n".to_string()),
    ];
    let out = gen_html(&title, &toc, &content, &t);
    let expected = [
        "<html>\n",
        "  <title>T</title>\n",
        "  <nav id=\"toc\">\n",
        "    <ol>\n",
        "      <li>\n",
        "        <a href=\"#A\">A</a>\n",
        "      </li>\n",
        "    </ol>\n",
        "  </nav>\n",
        "  <div id=\"content\">\n",
        "  <h1 id=\"T\">T</h1>\n",
        "  <h2 id=\"A\">A</h2>\n",
        "  <p>para</p>\n",
        "  </div>\n",
        "</html>\n",
    ]
    .concat();
    assert_eq!(out, expected);
}

#[test]
fn empty_toc_omits_its_wrapper() {
    let (title, toc, content) = parse_markdown("text\n", &Vec::new());
    let out = gen_html(&title, &toc, &content, &vec![Elem::Toc(0), Elem::Str("x\n".to_string())]);
    assert_eq!(out, "x\n");
}

#[test]
fn blocks_render_to_their_fragments() {
    let doc = "> q\n- a\n  - b\n|h|\n|-|\n|1|\n```\nc\n```\n$$m$$\n?[](u)\n";
    let (title, toc, content) = parse_markdown(doc, &Vec::new());
    let out = gen_html(&title, &toc, &content, &vec![Elem::Content(0)]);
    let expected = [
        "<div id=\"content\">\n",
        "<blockquote>q</blockquote>\n",
        "<ul>\n",
        "  <li>\n",
        "    a\n",
        "    <ul>\n",
        "      <li>\n",
        "        b\n",
        "      </li>\n",
        "    </ul>\n",
        "  </li>\n",
        "</ul>\n",
        "<table>\n",
        "  <thead>\n",
        "    <tr>\n",
        "      <td>h</td>\n",
        "    </tr>\n",
        "  </thead>\n",
        "  <tbody>\n",
        "    <tr>\n",
        "      <td>1</td>\n",
        "    </tr>\n",
        "  </tbody>\n",
        "</table>\n",
        "<pre><code class=\"language-plaintext\">c\n</code></pre>\n",
        "<p>\\[m\\]</p>\n",
        "<div class=\"linkcard\"><a class=\"linkcard-link\" href=\"u\">\n",
        "  <div class=\"linkcard-text\">\n",
        "    <h3 class=\"linkcard-title\"></h3>\n",
        "    <img class=\"linkcard-favicon\" src=\"http://www.google.com/s2/favicons?domain=u\"><span class=\"linkcard-sitename\">u</span>\n",
        "  </div>\n",
        "</a></div>\n",
        "</div>\n",
    ]
    .concat();
    assert_eq!(out, expected);
}

#[test]
fn spans_render_to_inline_tags() {
    let (title, toc, content) = parse_markdown("[x](u) *e* **s** $m$ `c` ![](i) <t>\n", &Vec::new());
    let out = gen_html(&title, &toc, &content, &vec![Elem::Content(0)]);
    assert_eq!(
        out,
        "<div id=\"content\">\n<p><a href=\"u\">x</a> <em>e</em> <strong>s</strong> \\(m\\) <code>c</code> <img src=\"i\"> &lt;t&gt;</p>\n</div>\n"
    );
}

#[test]
fn literal_lines_are_kept_byte_for_byte() {
    let (title, toc, content) = parse_markdown("# New\n## S\nbody\n", &Vec::new());
    let out = gen_html(&title, &toc, &content, &parse_template(LAYOUT));
    for line in ["<html>\n", "<head>\n", "</head>\n<body>\n", "</body>\n</html>\n"] {
        assert!(out.contains(line), "missing {:?}", line);
    }
    assert!(out.starts_with("<html>\n<head>\n  <title>New</title>\n</head>\n<body>\n"));
    assert!(out.ends_with("  </div>\n</body>\n</html>\n"));
    assert!(!out.contains("stale"));
}

#[test]
fn regenerating_from_own_output_is_idempotent() {
    let doc = "# T\n## A\n### A1\n## B\ntext *e* <x>\n- a\n  - b\n|h|\n|-|\n|1|\n";
    let (title, toc, content) = parse_markdown(doc, &Vec::new());
    let first = gen_html(&title, &toc, &content, &parse_template(LAYOUT));
    let second = gen_html(&title, &toc, &content, &parse_template(&first));
    assert_eq!(first, second);
}

#[test]
fn rendered_page_has_no_unescaped_source_markup() {
    let doc = "# <script>\n## a<b>\n<script>alert(1)</script>\n|<td>|\n|-|\n|<i>|\n";
    let (title, toc, content) = parse_markdown(doc, &Vec::new());
    let out = gen_html(&title, &toc, &content, &vec![Elem::Title(0), Elem::Toc(0), Elem::Content(0)]);
    assert!(!out.contains("<script>"));
    assert!(!out.contains("<b>"));
    assert!(!out.contains("<i>"));
    assert!(out.contains("<title>&lt;script&gt;</title>"));
    assert!(out.contains("<h2 id=\"a&lt;b&gt;\">a&lt;b&gt;</h2>"));
    assert!(out.contains("<p>&lt;script&gt;alert(1)&lt;/script&gt;</p>"));
    assert!(out.contains("<td>&lt;td&gt;</td>"));
    assert!(out.contains("<td>&lt;i&gt;</td>"));
}

#[test]
fn regenerating_a_page_with_a_link_card_is_idempotent() {
    let layout = "<div id=\"content\">\n</div>\n";
    let (title, toc, content) = parse_markdown("?[](u)\n", &Vec::new());
    let first = gen_html(&title, &toc, &content, &parse_template(layout));
    assert_eq!(parse_template(&first), vec![Elem::Content(0)]);
    let second = gen_html(&title, &toc, &content, &parse_template(&first));
    assert_eq!(first, second);
}

#[test]
fn regenerating_a_full_page_twice_gives_the_same_bytes() {
    let doc = "# T\n## A\n?[](http://x)\n- a\n> q\n```\n</div>\n```\n";
    let (title, toc, content) = parse_markdown(doc, &Vec::new());
    let first = gen_html(&title, &toc, &content, &parse_template(LAYOUT));
    let second = gen_html(&title, &toc, &content, &parse_template(&first));
    let third = gen_html(&title, &toc, &content, &parse_template(&second));
    assert_eq!(first, second);
    assert_eq!(second, third);
}

#[test]
fn content_region_ends_where_its_div_closes() {
    let page = "<div id=\"content\">\n  <div class=\"a\">\n    <div>x</div>\n  </div>\n</div>\ntail\n";
    assert_eq!(parse_template(page), vec![Elem::Content(0), Elem::Str("tail\n".to_string())]);
}

#[test]
fn content_blocks_take_the_slot_indentation() {
    let (title, toc, content) = parse_markdown("x\n", &Vec::new());
    let out = gen_html(&title, &toc, &content, &vec![Elem::Content(0)]);
    assert_eq!(out, "<div id=\"content\">\n<p>x</p>\n</div>\n");
    let out = gen_html(&title, &toc, &content, &vec![Elem::Content(4)]);
    assert_eq!(out, "    <div id=\"content\">\n    <p>x</p>\n    </div>\n");
}
