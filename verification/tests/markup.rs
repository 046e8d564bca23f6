use schling_common::event::{Align, CodeKind, HeadingRank, MdEvent, MdTag};
use schling_common::markup::{Markup, MarkupLang};
use schling_common::render::{
    make_tag, markdown_to_events, markdown_to_html, render_events, render_markdown,
    UnsupportedMarkupEvent,
};
use schling_common::tree::{Element, RenderNode};

fn text(s: &str) -> RenderNode {
    RenderNode::Text(s.to_string())
}

fn element(tag: &str, attributes: &[(&str, &str)], children: Vec<RenderNode>) -> RenderNode {
    let mut e = Element::new(tag);
    for (name, value) in attributes {
        e.set_attribute(name, value.to_string());
    }
    for child in children {
        e.add_child(child);
    }
    RenderNode::Element(e)
}

#[test]
fn test_markdown_dom() {
    let _html = Markup::html("Placeholder".to_string()).to_html();
}

#[test]
fn markdown_is_written_out_as_html() {
    assert_eq!(
        Markup::html_str("Placeholder").to_html(),
        RenderNode::Raw("Placeholder".to_string())
    );
    assert_eq!(
        Markup::md_str("**b** ~~s~~").to_html(),
        RenderNode::Raw("<p><strong>b</strong> <del>s</del></p>\n".to_string())
    );
    assert_eq!(markdown_to_html("- [x] done\n"), "<ul>\n<li><input disabled=\"\" type=\"checkbox\" checked=\"\"/>\ndone</li>\n</ul>\n");
    assert_eq!(Markup::md_str("# t").markup(), "# t");
}

#[test]
fn html_is_one_raw_node_with_the_text_untouched() {
    let tree = Markup::html_str("<b>x</b>").to_dom();
    assert_eq!(tree, RenderNode::Raw("<b>x</b>".to_string()));
    let tree = Markup::html_str("a < b && *c*").to_dom();
    assert_eq!(tree, RenderNode::Raw("a < b && *c*".to_string()));
}

#[test]
fn bold_and_italic_become_a_strong_and_an_emphasis_node() {
    let tree = Markup::md_str("**bold** and *italic*").to_dom();
    let strong = element("span", &[("class", "font-weight-bold")], vec![text("bold")]);
    let emphasis = element("span", &[("class", "font-italic")], vec![text("italic")]);
    assert_eq!(tree, element("p", &[], vec![strong, text(" and "), emphasis]));
    let mut expected_strong = make_tag(&MdTag::Strong);
    expected_strong.add_child(text("bold"));
    match tree {
        RenderNode::Element(root) => {
            assert_eq!(root.children.len(), 3);
            assert_eq!(root.children[0], RenderNode::Element(expected_strong));
        }
        other => panic!("not an element: {:?}", other),
    }
}

#[test]
fn table_cells_carry_the_alignment_of_their_column() {
    let tree = render_markdown("| a | b |\n|:--|--:|\n| 1 | 2 |\n");
    let head = element(
        "th",
        &[],
        vec![
            element("td", &[("scope", "col"), ("class", "align-left")], vec![text("a")]),
            element("td", &[("scope", "col"), ("class", "align-right")], vec![text("b")]),
        ],
    );
    let row = element(
        "tr",
        &[],
        vec![
            element("td", &[("class", "align-left")], vec![text("1")]),
            element("td", &[("class", "align-right")], vec![text("2")]),
        ],
    );
    assert_eq!(tree, element("table", &[("class", "table")], vec![head, row]));
}

#[test]
fn centred_and_unaligned_columns() {
    let tree = render_markdown("| a | b |\n|:-:|---|\n| 1 | 2 |\n");
    let head = element(
        "th",
        &[],
        vec![
            element("td", &[("scope", "col"), ("class", "align-center")], vec![text("a")]),
            element("td", &[("scope", "col")], vec![text("b")]),
        ],
    );
    let row = element(
        "tr",
        &[],
        vec![
            element("td", &[("class", "align-center")], vec![text("1")]),
            element("td", &[], vec![text("2")]),
        ],
    );
    assert_eq!(tree, element("table", &[("class", "table")], vec![head, row]));
}

#[test]
fn several_roots_are_wrapped_in_a_fragment() {
    let tree = render_markdown("# Title\n\nbody\n");
    assert_eq!(
        tree,
        RenderNode::Fragment(vec![
            element("h1", &[], vec![text("Title")]),
            element("p", &[], vec![text("body")]),
        ])
    );
}

#[test]
fn empty_text_is_an_empty_fragment() {
    assert_eq!(render_markdown(""), RenderNode::Fragment(vec![]));
    assert_eq!(Markup::default().to_dom(), RenderNode::Fragment(vec![]));
}

#[test]
fn a_rule_at_the_root_is_a_root_node() {
    let tree = render_markdown("above\n\n---\n\nbelow\n");
    assert_eq!(
        tree,
        RenderNode::Fragment(vec![
            element("p", &[], vec![text("above")]),
            element("hr", &[], vec![]),
            element("p", &[], vec![text("below")]),
        ])
    );
    assert_eq!(render_markdown("---\n"), element("hr", &[], vec![]));
}

#[test]
fn a_code_block_is_wrapped_in_pre() {
    let tree = render_markdown("```rust\nlet x = 1;\n```\n");
    let code = element("code", &[("class", "rust-language")], vec![text("let x = 1;\n")]);
    assert_eq!(tree, element("pre", &[], vec![code]));
    let tree = render_markdown("```python\npass\n```\n");
    let code = element("code", &[], vec![text("pass\n")]);
    assert_eq!(tree, element("pre", &[], vec![code]));
}

#[test]
fn headings_of_every_level() {
    for (source, tag) in [
        ("# t", "h1"),
        ("## t", "h2"),
        ("### t", "h3"),
        ("#### t", "h4"),
        ("##### t", "h5"),
        ("###### t", "h6"),
    ] {
        assert_eq!(render_markdown(source), element(tag, &[], vec![text("t")]));
    }
    assert_eq!(
        markdown_to_events("### t"),
        vec![
            MdEvent::Start(MdTag::Heading(HeadingRank::H3)),
            MdEvent::Text("t".to_string()),
            MdEvent::End(MdTag::Heading(HeadingRank::H3)),
        ]
    );
}

#[test]
fn an_indented_code_block_and_a_quote() {
    let tree = render_markdown("    let x;\n");
    assert_eq!(tree, element("pre", &[], vec![element("code", &[], vec![text("let x;\n")])]));
    assert_eq!(
        markdown_to_events("    let x;\n")[0],
        MdEvent::Start(MdTag::CodeBlock(CodeKind::Indented))
    );
    let tree = render_markdown("> said\n");
    assert_eq!(
        tree,
        element(
            "blockquote",
            &[("class", "blockquote")],
            vec![element("p", &[], vec![text("said")])]
        )
    );
}

#[test]
fn the_events_of_a_table_name_its_alignments() {
    let events = markdown_to_events("| a | b | c | d |\n|:--|--:|:-:|---|\n");
    assert_eq!(
        events[0],
        MdEvent::Start(MdTag::Table(vec![Align::Left, Align::Right, Align::Center, Align::Unset]))
    );
    assert_eq!(events[1], MdEvent::Start(MdTag::TableHead));
    assert_eq!(events[2], MdEvent::Start(MdTag::TableCell));
}

#[test]
fn footnotes_and_task_lists_are_off_when_rendering() {
    let events = markdown_to_events("- [x] done\n");
    assert!(!events.contains(&MdEvent::TaskListMarker(true)));
    let rendered = render_events(&events);
    assert_eq!(rendered.unsupported, vec![]);
    let item = element("li", &[], vec![text("["), text("x"), text("]"), text(" done")]);
    assert_eq!(rendered.tree, element("ul", &[], vec![item]));
}

#[test]
fn lists_ordered_and_unordered() {
    let tree = render_markdown("- one\n- two\n");
    assert_eq!(
        tree,
        element(
            "ul",
            &[],
            vec![element("li", &[], vec![text("one")]), element("li", &[], vec![text("two")])]
        )
    );
    let tree = render_markdown("1. one\n");
    assert_eq!(tree, element("ol", &[], vec![element("li", &[], vec![text("one")])]));
    let tree = render_markdown("7. seven\n");
    assert_eq!(
        tree,
        element("ol", &[("start", "7")], vec![element("li", &[], vec![text("seven")])])
    );
}

#[test]
fn links_images_and_breaks() {
    let tree = render_markdown("[t](http://x.y \"T\") ![i](p.png)");
    let link = element("a", &[("href", "http://x.y"), ("title", "T")], vec![text("t")]);
    let image = element("img", &[("src", "p.png")], vec![text("i")]);
    assert_eq!(tree, element("p", &[], vec![link, text(" "), image]));
    let tree = render_markdown("a\nb  \nc");
    assert_eq!(
        tree,
        element(
            "p",
            &[],
            vec![text("a"), text("\n"), text("b"), element("br", &[], vec![]), text("c")]
        )
    );
}

#[test]
fn strikethrough_is_on_and_quotes_are_typographic() {
    let tree = render_markdown("~~gone~~");
    let gone = element("span", &[("class", "text-decoration-strikethrough")], vec![text("gone")]);
    assert_eq!(tree, element("p", &[], vec![gone]));
    let tree = render_markdown("\"q\"");
    assert_eq!(
        tree,
        element("p", &[], vec![text("\u{201c}"), text("q"), text("\u{201d}")])
    );
}

#[test]
fn inline_code_and_html_are_skipped_and_reported() {
    let events = markdown_to_events("a `b` c");
    assert_eq!(
        events,
        vec![
            MdEvent::Start(MdTag::Paragraph),
            MdEvent::Text("a ".to_string()),
            MdEvent::Code("b".to_string()),
            MdEvent::Text(" c".to_string()),
            MdEvent::End(MdTag::Paragraph),
        ]
    );
    let rendered = render_events(&events);
    assert_eq!(rendered.tree, element("p", &[], vec![text("a "), text(" c")]));
    assert_eq!(rendered.unsupported, vec![UnsupportedMarkupEvent { index: 2 }]);
}

#[test]
fn events_out_of_place_do_not_stop_the_reduction() {
    let events = vec![
        MdEvent::End(MdTag::Paragraph),
        MdEvent::Text("loose".to_string()),
        MdEvent::Start(MdTag::Emphasis),
        MdEvent::Text("in".to_string()),
        MdEvent::End(MdTag::Emphasis),
        MdEvent::TaskListMarker(true),
        MdEvent::Start(MdTag::Paragraph),
        MdEvent::Other,
    ];
    let rendered = render_events(&events);
    assert_eq!(
        rendered.tree,
        RenderNode::Fragment(vec![
            text("loose"),
            element("span", &[("class", "font-italic")], vec![text("in")]),
        ])
    );
    let skipped: Vec<usize> = rendered.unsupported.iter().map(|e| e.index).collect();
    assert_eq!(skipped, vec![0, 5, 7]);
}

#[test]
fn cells_beyond_the_declared_columns_stay_as_they_are() {
    let events = vec![
        MdEvent::Start(MdTag::Table(vec![Align::Right])),
        MdEvent::Start(MdTag::TableRow),
        MdEvent::Text("between".to_string()),
        MdEvent::Start(MdTag::TableCell),
        MdEvent::End(MdTag::TableCell),
        MdEvent::End(MdTag::TableRow),
        MdEvent::Text("loose".to_string()),
        MdEvent::End(MdTag::Table(vec![Align::Right, Align::Left])),
    ];
    let row = element("tr", &[], vec![text("between"), element("td", &[("class", "align-left")], vec![])]);
    assert_eq!(
        render_events(&events).tree,
        element("table", &[("class", "table")], vec![row, text("loose")])
    );
}

#[test]
fn the_tag_of_each_construct() {
    let plain = |tag: &str| Element::new(tag);
    assert_eq!(make_tag(&MdTag::Paragraph), plain("p"));
    assert_eq!(make_tag(&MdTag::Heading(HeadingRank::H1)), plain("h1"));
    assert_eq!(make_tag(&MdTag::Heading(HeadingRank::H6)), plain("h6"));
    assert_eq!(make_tag(&MdTag::CodeBlock(CodeKind::Indented)), plain("code"));
    assert_eq!(make_tag(&MdTag::List(None)), plain("ul"));
    assert_eq!(make_tag(&MdTag::List(Some(1))), plain("ol"));
    assert_eq!(make_tag(&MdTag::Item), plain("li"));
    assert_eq!(make_tag(&MdTag::TableHead), plain("th"));
    assert_eq!(make_tag(&MdTag::TableRow), plain("tr"));
    assert_eq!(make_tag(&MdTag::TableCell), plain("td"));
    assert_eq!(make_tag(&MdTag::FootnoteDefinition("n".to_string())), plain("span"));
    let mut quote = Element::new("blockquote");
    quote.set_attribute("class", "blockquote".to_string());
    assert_eq!(make_tag(&MdTag::BlockQuote), quote);
    let mut list = Element::new("ol");
    list.set_attribute("start", "18446744073709551615".to_string());
    assert_eq!(make_tag(&MdTag::List(Some(u64::MAX))), list);
    let mut zero = Element::new("ol");
    zero.set_attribute("start", "0".to_string());
    assert_eq!(make_tag(&MdTag::List(Some(0))), zero);
    let mut image = Element::new("img");
    image.set_attribute("src", "p.png".to_string());
    assert_eq!(
        make_tag(&MdTag::Image { dest: "p.png".to_string(), title: String::new() }),
        image
    );
}

#[test]
fn with_text_keeps_the_language() {
    let html = Markup::html_str("<i>a</i>");
    let next = html.with_text("<i>b</i>".to_string());
    assert_eq!(next.lang, MarkupLang::Html);
    assert_eq!(next.text, "<i>b</i>");
    assert_eq!(html.text, "<i>a</i>");
    let md = MarkupLang::Md.with_text("x".to_string());
    assert_eq!(md, Markup::md("x".to_string()));
    assert_eq!(md.with_text("y".to_string()), Markup::md_str("y"));
    assert_ne!(Markup::md_str("y"), Markup::html_str("y"));
}

#[test]
fn the_default_markup_is_empty_markdown() {
    let markup = Markup::default();
    assert_eq!(markup.text, "");
    assert_eq!(markup.lang, MarkupLang::Md);
    assert_eq!(MarkupLang::default(), MarkupLang::Md);
    assert_eq!(markup.label(), "md[]");
    assert_eq!(Markup::html_str("<p>").label(), "html[<p>]");
    assert_eq!(Markup::html_str("<p>").clone().into_text(), "<p>");
}

#[test]
fn classes_are_appended_and_attributes_replaced_in_place() {
    let mut e = Element::new("td");
    e.set_attribute("scope", "row".to_string());
    e.add_class("a");
    e.add_class("b");
    e.set_attribute("scope", "col".to_string());
    assert_eq!(e.attributes.len(), 2);
    assert_eq!(e.attributes[0].name, "scope");
    assert_eq!(e.attributes[0].value, "col");
    assert_eq!(e.attribute("class"), Some(&"a b".to_string()));
    assert_eq!(e.attribute("id"), None);
}
