use md_translate::ast::{
    AstNode, ListDelimType, ListType, NodeCode, NodeCodeBlock, NodeDescriptionItem, NodeHeading,
    NodeHtmlBlock, NodeLink, NodeList, NodeValue, TableAlignment,
};
use md_translate::project::alignment_string;
use md_translate::reconstruct::alignments_from;
use md_translate::{
    ast_from_xml, cmark_from_xml, xml_from_ast, xml_from_cmark, xmldom_from_cmark, XmlError,
};
use minidom::{Element, Node};

fn node(value: NodeValue, children: Vec<AstNode>) -> AstNode {
    AstNode { value, children }
}

fn text(s: &str) -> AstNode {
    AstNode::leaf(NodeValue::Text(s.to_string()))
}

fn list(list_type: ListType, delimiter: ListDelimType) -> NodeList {
    NodeList {
        list_type,
        marker_offset: 2,
        padding: 3,
        start: 5,
        delimiter,
        bullet_char: b'-',
        tight: true,
    }
}

fn code_block(info: &str, literal: &str) -> NodeValue {
    NodeValue::CodeBlock(NodeCodeBlock {
        fenced: true,
        fence_char: b'`',
        fence_length: 3,
        fence_offset: 0,
        info: info.to_string(),
        literal: literal.to_string(),
    })
}

fn link(url: &str, title: &str) -> NodeLink {
    NodeLink { url: url.to_string(), title: title.to_string() }
}

/// A document with a node of every kind.
fn every_kind() -> AstNode {
    let ordered = list(ListType::Ordered, ListDelimType::Paren);
    let bullet = list(ListType::Bullet, ListDelimType::Period);
    node(
        NodeValue::Document,
        vec![
            AstNode::leaf(NodeValue::FrontMatter("title = \"t\"\n".to_string())),
            node(
                NodeValue::Heading(NodeHeading { level: 2, setext: false }),
                vec![text("Title "), node(NodeValue::Emph, vec![text("here")])],
            ),
            node(
                NodeValue::BlockQuote,
                vec![node(
                    NodeValue::Paragraph,
                    vec![
                        text("quoted"),
                        AstNode::leaf(NodeValue::SoftBreak),
                        node(NodeValue::Strong, vec![text("strong")]),
                        AstNode::leaf(NodeValue::LineBreak),
                        node(NodeValue::Strikethrough, vec![text("gone")]),
                        node(NodeValue::Superscript, vec![text("up")]),
                    ],
                )],
            ),
            node(
                NodeValue::List(ordered),
                vec![node(
                    NodeValue::Item(ordered),
                    vec![node(
                        NodeValue::Paragraph,
                        vec![AstNode::leaf(NodeValue::TaskItem(true)), text("done")],
                    )],
                )],
            ),
            node(
                NodeValue::List(bullet),
                vec![node(
                    NodeValue::Item(bullet),
                    vec![node(
                        NodeValue::Paragraph,
                        vec![AstNode::leaf(NodeValue::TaskItem(false)), text("open")],
                    )],
                )],
            ),
            node(
                NodeValue::DescriptionList,
                vec![node(
                    NodeValue::DescriptionItem(NodeDescriptionItem { marker_offset: 1, padding: 4 }),
                    vec![
                        node(NodeValue::DescriptionTerm, vec![text("term")]),
                        node(NodeValue::DescriptionDetails, vec![text("details")]),
                    ],
                )],
            ),
            AstNode::leaf(code_block("rust", "fn main() {}\n")),
            AstNode::leaf(NodeValue::HtmlBlock(NodeHtmlBlock {
                block_type: 6,
                literal: "<div class=\"x\">\n</div>\n".to_string(),
            })),
            AstNode::leaf(NodeValue::ThematicBreak),
            node(
                NodeValue::Table(vec![
                    TableAlignment::Left,
                    TableAlignment::Center,
                    TableAlignment::Right,
                    TableAlignment::Unspecified,
                ]),
                vec![
                    node(
                        NodeValue::TableRow(true),
                        vec![node(NodeValue::TableCell, vec![text("head")])],
                    ),
                    node(
                        NodeValue::TableRow(false),
                        vec![node(NodeValue::TableCell, vec![text("cell")])],
                    ),
                ],
            ),
            node(
                NodeValue::Paragraph,
                vec![
                    AstNode::leaf(NodeValue::Code(NodeCode {
                        num_backticks: 1,
                        literal: "a < b".to_string(),
                    })),
                    AstNode::leaf(NodeValue::HtmlInline("<br>".to_string())),
                    node(NodeValue::Link(link("https://example.org/?a=1&b=2", "a \"title\"")), vec![text("link")]),
                    node(NodeValue::Image(link("pic.png", "")), vec![text("alt")]),
                    AstNode::leaf(NodeValue::FootnoteReference("note".to_string())),
                ],
            ),
            node(
                NodeValue::FootnoteDefinition("note".to_string()),
                vec![node(NodeValue::Paragraph, vec![text("the note")])],
            ),
        ],
    )
}

fn element_of(node: Node) -> Element {
    node.into_element().expect("an element")
}

#[test]
fn every_kind_round_trips_through_the_dom() {
    let tree = every_kind();
    let xml = xmldom_from_cmark(&tree);
    assert_eq!(ast_from_xml(&xml), tree);
}

#[test]
fn every_kind_round_trips_through_xml_text() {
    let tree = every_kind();
    let xml = xml_from_cmark(&tree).expect("xml text");
    assert_eq!(cmark_from_xml(&xml), Ok(tree));
}

#[test]
fn a_small_document_as_xml_text() {
    let tree = node(
        NodeValue::Document,
        vec![node(
            NodeValue::Heading(NodeHeading { level: 1, setext: false }),
            vec![text("Hello & <bye>")],
        )],
    );
    assert_eq!(
        xml_from_cmark(&tree),
        Ok("<body xmlns='markdown'><h1 level=\"1\">Hello &amp; &lt;bye&gt;</h1></body>".to_string())
    );
}

#[test]
fn tags_and_attributes_of_the_projection() {
    let xml = xmldom_from_cmark(&every_kind());
    assert_eq!(xml.name(), "body");
    assert_eq!(xml.ns(), "markdown");
    let names: Vec<&str> = xml.children().map(|c| c.name()).collect();
    assert_eq!(
        names,
        vec![
            "header", "h2", "blockquote", "ol", "ul", "dl", "pre", "object", "hr", "table", "p",
            "footer"
        ]
    );
    let kids: Vec<&Element> = xml.children().collect();
    assert_eq!(kids[0].text(), "title = \"t\"\n");
    assert_eq!(kids[1].attr("level"), Some("2"));
    let ol = kids[3];
    assert_eq!(ol.attr("type"), Some("o"));
    assert_eq!(ol.attr("offset"), Some("2"));
    assert_eq!(ol.attr("padding"), Some("3"));
    assert_eq!(ol.attr("start"), Some("5"));
    assert_eq!(ol.attr("delimiter"), Some(")"));
    assert_eq!(ol.attr("tight"), Some("1"));
    let li = ol.children().next().unwrap();
    assert_eq!(li.name(), "li");
    assert_eq!(li.attr("type"), Some("o"));
    let ul = kids[4];
    assert_eq!(ul.attr("type"), Some("u"));
    assert_eq!(ul.attr("delimiter"), Some("."));
    let di = kids[5].children().next().unwrap();
    assert_eq!(di.name(), "di");
    assert_eq!(di.attr("offset"), Some("1"));
    assert_eq!(di.attr("padding"), Some("4"));
    let parts: Vec<&str> = di.children().map(|c| c.name()).collect();
    assert_eq!(parts, vec!["dt", "dd"]);
    assert_eq!(kids[6].attr("info"), Some("rust"));
    assert_eq!(kids[6].text(), "fn main() {}\n");
    assert_eq!(kids[7].attr("type"), Some("6"));
    assert_eq!(kids[7].attr("literal"), Some("<div class=\"x\">\n</div>\n"));
    assert_eq!(kids[9].attr("align"), Some("lcr-"));
    let rows: Vec<&str> = kids[9].children().map(|c| c.name()).collect();
    assert_eq!(rows, vec!["th", "tr"]);
    assert_eq!(kids[9].children().next().unwrap().children().next().unwrap().name(), "td");
    let inline: Vec<&Element> = kids[10].children().collect();
    let inline_names: Vec<&str> = inline.iter().map(|c| c.name()).collect();
    assert_eq!(inline_names, vec!["code", "embed", "a", "img", "sub"]);
    assert_eq!(inline[0].attr("literal"), Some("a < b"));
    assert_eq!(inline[1].attr("literal"), Some("<br>"));
    assert_eq!(inline[2].attr("href"), Some("https://example.org/?a=1&b=2"));
    assert_eq!(inline[2].attr("title"), Some("a \"title\""));
    assert_eq!(inline[3].attr("src"), Some("pic.png"));
    assert_eq!(inline[3].attr("title"), Some(""));
    assert_eq!(inline[4].attr("name"), Some("note"));
    assert_eq!(kids[11].attr("name"), Some("note"));
}

#[test]
fn inline_tags_of_the_projection() {
    let paragraph = node(
        NodeValue::Paragraph,
        vec![
            text("a"),
            AstNode::leaf(NodeValue::SoftBreak),
            AstNode::leaf(NodeValue::LineBreak),
            node(NodeValue::Emph, vec![]),
            node(NodeValue::Strong, vec![]),
            node(NodeValue::Strikethrough, vec![]),
            node(NodeValue::Superscript, vec![]),
            AstNode::leaf(NodeValue::TaskItem(true)),
            AstNode::leaf(NodeValue::TaskItem(false)),
            text("b"),
        ],
    );
    let xml = element_of(xml_from_ast(&paragraph));
    let nodes: Vec<&Node> = xml.nodes().collect();
    assert_eq!(nodes.len(), 10);
    assert_eq!(nodes[0].as_text(), Some("a"));
    assert_eq!(nodes[9].as_text(), Some("b"));
    let names: Vec<&str> = xml.children().map(|c| c.name()).collect();
    assert_eq!(names, vec!["wbr", "br", "em", "strong", "del", "sup", "input", "input"]);
    let inputs: Vec<Option<&str>> = xml
        .children()
        .filter(|c| c.name() == "input")
        .map(|c| c.attr("checked"))
        .collect();
    assert_eq!(inputs, vec![Some("1"), Some("0")]);
}

#[test]
fn a_text_node_projects_to_a_text_run() {
    let xml = xml_from_ast(&node(NodeValue::Text("plain <text>".to_string()), vec![text("lost")]));
    assert_eq!(xml.as_text(), Some("plain <text>"));
}

#[test]
fn a_text_root_gives_an_empty_body() {
    let xml = xmldom_from_cmark(&text("only text"));
    assert_eq!(xml.name(), "body");
    assert_eq!(xml.ns(), "markdown");
    assert_eq!(xml.nodes().count(), 0);
    assert_eq!(xml.attrs().count(), 0);
}

#[test]
fn nothing_stands_below_a_literal() {
    let front = node(NodeValue::FrontMatter("a = 1".to_string()), vec![text("lost")]);
    let xml = element_of(xml_from_ast(&front));
    assert_eq!(xml.nodes().count(), 1);
    assert_eq!(xml.text(), "a = 1");
    let block = node(code_block("", "code"), vec![node(NodeValue::Paragraph, vec![])]);
    let xml = element_of(xml_from_ast(&block));
    assert_eq!(xml.nodes().count(), 1);
    assert_eq!(xml.text(), "code");
    assert_eq!(xml.attr("info"), Some(""));
}

#[test]
fn heading_levels_round_trip() {
    for level in 1..=6u32 {
        let heading = node(NodeValue::Heading(NodeHeading { level, setext: false }), vec![text("t")]);
        let xml = element_of(xml_from_ast(&heading));
        assert_eq!(xml.name(), format!("h{}", level));
        assert_eq!(xml.attr("level"), Some(format!("{}", level).as_str()));
        assert_eq!(ast_from_xml(&xml), heading);
    }
}

#[test]
fn setext_headings_come_back_as_atx() {
    let heading = node(NodeValue::Heading(NodeHeading { level: 2, setext: true }), vec![]);
    let back = ast_from_xml(&element_of(xml_from_ast(&heading)));
    assert_eq!(back.value, NodeValue::Heading(NodeHeading { level: 2, setext: false }));
}

#[test]
fn the_level_attribute_decides() {
    let xml = Element::builder("h3", "markdown").attr("level", "5").build();
    assert_eq!(
        ast_from_xml(&xml).value,
        NodeValue::Heading(NodeHeading { level: 5, setext: false })
    );
    let xml = Element::bare("h3", "markdown");
    assert_eq!(
        ast_from_xml(&xml).value,
        NodeValue::Heading(NodeHeading { level: 0, setext: false })
    );
}

#[test]
fn a_heading_of_level_seven_is_not_told_apart() {
    let heading = node(NodeValue::Heading(NodeHeading { level: 7, setext: false }), vec![text("t")]);
    let xml = element_of(xml_from_ast(&heading));
    assert_eq!(xml.name(), "h7");
    assert_eq!(ast_from_xml(&xml), text(""));
}

#[test]
fn list_attributes_round_trip() {
    let attributes = NodeList {
        list_type: ListType::Ordered,
        marker_offset: 2,
        padding: 3,
        start: 5,
        delimiter: ListDelimType::Paren,
        bullet_char: b'-',
        tight: true,
    };
    for value in [NodeValue::List(attributes), NodeValue::Item(attributes)] {
        let tree = AstNode::leaf(value);
        let xml = element_of(xml_from_ast(&tree));
        assert_eq!(ast_from_xml(&xml), tree);
    }
}

#[test]
fn the_bullet_of_a_list_is_not_carried() {
    let mut attributes = list(ListType::Bullet, ListDelimType::Period);
    attributes.bullet_char = b'*';
    let back = ast_from_xml(&element_of(xml_from_ast(&AstNode::leaf(NodeValue::List(attributes)))));
    attributes.bullet_char = b'-';
    assert_eq!(back.value, NodeValue::List(attributes));
}

#[test]
fn large_numbers_round_trip() {
    let attributes = NodeList {
        list_type: ListType::Ordered,
        marker_offset: usize::MAX,
        padding: 0,
        start: 4294967295,
        delimiter: ListDelimType::Period,
        bullet_char: b'-',
        tight: false,
    };
    let tree = AstNode::leaf(NodeValue::Item(attributes));
    assert_eq!(ast_from_xml(&element_of(xml_from_ast(&tree))), tree);
    let html = AstNode::leaf(NodeValue::HtmlBlock(NodeHtmlBlock {
        block_type: 255,
        literal: String::new(),
    }));
    assert_eq!(ast_from_xml(&element_of(xml_from_ast(&html))), html);
}

#[test]
fn the_fence_of_a_code_block_is_not_carried() {
    let block = AstNode::leaf(NodeValue::CodeBlock(NodeCodeBlock {
        fenced: false,
        fence_char: b'~',
        fence_length: 5,
        fence_offset: 2,
        info: "sh".to_string(),
        literal: "ls\n".to_string(),
    }));
    let back = ast_from_xml(&element_of(xml_from_ast(&block)));
    assert_eq!(back, AstNode::leaf(code_block("sh", "ls\n")));
    let code = AstNode::leaf(NodeValue::Code(NodeCode { num_backticks: 3, literal: "x".to_string() }));
    let back = ast_from_xml(&element_of(xml_from_ast(&code)));
    assert_eq!(
        back,
        AstNode::leaf(NodeValue::Code(NodeCode { num_backticks: 1, literal: "x".to_string() }))
    );
}

#[test]
fn unknown_tags_give_an_empty_text() {
    let xml = Element::builder("foobar", "markdown")
        .attr("level", "3")
        .attr("literal", "x")
        .append("some text")
        .append(Element::bare("p", "markdown"))
        .build();
    assert_eq!(ast_from_xml(&xml), text(""));
    let body = Element::builder("body", "markdown")
        .append(Element::builder("blink", "other").append("x").build())
        .append(Element::bare("hr", "markdown"))
        .build();
    assert_eq!(
        ast_from_xml(&body),
        node(NodeValue::Document, vec![text(""), AstNode::leaf(NodeValue::ThematicBreak)])
    );
}

#[test]
fn the_namespace_is_not_read() {
    let xml = Element::builder("p", "elsewhere").append("x").build();
    assert_eq!(ast_from_xml(&xml), node(NodeValue::Paragraph, vec![text("x")]));
}

#[test]
fn missing_attributes_take_their_defaults() {
    let defaults = NodeList {
        list_type: ListType::Bullet,
        marker_offset: 0,
        padding: 0,
        start: 0,
        delimiter: ListDelimType::Period,
        bullet_char: b'-',
        tight: false,
    };
    assert_eq!(ast_from_xml(&Element::bare("ul", "markdown")).value, NodeValue::List(defaults));
    assert_eq!(ast_from_xml(&Element::bare("ol", "markdown")).value, NodeValue::List(defaults));
    assert_eq!(ast_from_xml(&Element::bare("li", "markdown")).value, NodeValue::Item(defaults));
    assert_eq!(
        ast_from_xml(&Element::bare("di", "markdown")).value,
        NodeValue::DescriptionItem(NodeDescriptionItem { marker_offset: 0, padding: 0 })
    );
    assert_eq!(ast_from_xml(&Element::bare("pre", "markdown")).value, code_block("", ""));
    assert_eq!(
        ast_from_xml(&Element::bare("object", "markdown")).value,
        NodeValue::HtmlBlock(NodeHtmlBlock { block_type: 0, literal: String::new() })
    );
    assert_eq!(
        ast_from_xml(&Element::bare("footer", "markdown")).value,
        NodeValue::FootnoteDefinition(String::new())
    );
    assert_eq!(ast_from_xml(&Element::bare("table", "markdown")).value, NodeValue::Table(vec![]));
    assert_eq!(ast_from_xml(&Element::bare("input", "markdown")).value, NodeValue::TaskItem(false));
    assert_eq!(
        ast_from_xml(&Element::bare("code", "markdown")).value,
        NodeValue::Code(NodeCode { num_backticks: 1, literal: String::new() })
    );
    assert_eq!(
        ast_from_xml(&Element::bare("embed", "markdown")).value,
        NodeValue::HtmlInline(String::new())
    );
    assert_eq!(ast_from_xml(&Element::bare("a", "markdown")).value, NodeValue::Link(link("", "")));
    assert_eq!(ast_from_xml(&Element::bare("img", "markdown")).value, NodeValue::Image(link("", "")));
    assert_eq!(
        ast_from_xml(&Element::bare("sub", "markdown")).value,
        NodeValue::FootnoteReference(String::new())
    );
    assert_eq!(
        ast_from_xml(&Element::bare("header", "markdown")).value,
        NodeValue::FrontMatter(String::new())
    );
}

#[test]
fn damaged_attributes_take_their_defaults() {
    let xml = Element::builder("ol", "markdown")
        .attr("type", "O")
        .attr("offset", "two")
        .attr("padding", "-3")
        .attr("start", "99999999999999999999999999")
        .attr("delimiter", "]")
        .attr("tight", "true")
        .build();
    let expected = NodeList {
        list_type: ListType::Bullet,
        marker_offset: 0,
        padding: 0,
        start: 0,
        delimiter: ListDelimType::Period,
        bullet_char: b'-',
        tight: false,
    };
    assert_eq!(ast_from_xml(&xml).value, NodeValue::List(expected));
    let xml = Element::builder("object", "markdown").attr("type", "256").build();
    assert_eq!(
        ast_from_xml(&xml).value,
        NodeValue::HtmlBlock(NodeHtmlBlock { block_type: 0, literal: String::new() })
    );
    let xml = Element::builder("h2", "markdown").attr("level", " 2").build();
    assert_eq!(
        ast_from_xml(&xml).value,
        NodeValue::Heading(NodeHeading { level: 0, setext: false })
    );
    let xml = Element::builder("input", "markdown").attr("checked", "0").build();
    assert_eq!(ast_from_xml(&xml).value, NodeValue::TaskItem(false));
    let xml = Element::builder("input", "markdown").attr("checked", "1").build();
    assert_eq!(ast_from_xml(&xml).value, NodeValue::TaskItem(true));
}

#[test]
fn the_kind_of_a_list_comes_from_its_attribute() {
    let xml = Element::builder("ul", "markdown").attr("type", "o").build();
    match ast_from_xml(&xml).value {
        NodeValue::List(attributes) => assert_eq!(attributes.list_type, ListType::Ordered),
        other => panic!("unexpected {:?}", other),
    }
}

#[test]
fn unknown_alignment_characters_give_no_alignment() {
    let xml = Element::builder("table", "markdown").attr("align", "lxcR-r").build();
    assert_eq!(
        ast_from_xml(&xml).value,
        NodeValue::Table(vec![
            TableAlignment::Left,
            TableAlignment::Unspecified,
            TableAlignment::Center,
            TableAlignment::Unspecified,
            TableAlignment::Unspecified,
            TableAlignment::Right,
        ])
    );
}

#[test]
fn alignments_round_trip() {
    let all = [
        TableAlignment::Unspecified,
        TableAlignment::Left,
        TableAlignment::Center,
        TableAlignment::Right,
    ];
    let mut sequences: Vec<Vec<TableAlignment>> = vec![vec![]];
    for _ in 0..=6 {
        let mut longer = Vec::new();
        for sequence in &sequences {
            assert_eq!(&alignments_from(&alignment_string(sequence)), sequence);
            assert_eq!(alignment_string(sequence).chars().count(), sequence.len());
            for alignment in all {
                let mut next = sequence.clone();
                next.push(alignment);
                longer.push(next);
            }
        }
        sequences = longer;
    }
    assert_eq!(alignment_string(&all.to_vec()), "-lcr");
}

#[test]
fn literals_are_read_as_one_text() {
    let xml = Element::builder("pre", "markdown")
        .attr("info", "c")
        .append("int ")
        .append(Element::builder("em", "markdown").append("ignored").build())
        .append("x;")
        .build();
    assert_eq!(ast_from_xml(&xml), AstNode::leaf(code_block("c", "int x;")));
    let xml = Element::builder("header", "markdown")
        .append("a")
        .append(Element::bare("hr", "markdown"))
        .append("b")
        .build();
    assert_eq!(ast_from_xml(&xml), AstNode::leaf(NodeValue::FrontMatter("ab".to_string())));
}

#[test]
fn text_runs_stay_apart_and_empty_ones_vanish() {
    let mut xml = Element::bare("p", "markdown");
    xml.append_text_node("one");
    xml.append_text_node("");
    xml.append_text_node("two");
    xml.append_child(Element::bare("br", "markdown"));
    xml.append_text_node("");
    assert_eq!(
        ast_from_xml(&xml),
        node(
            NodeValue::Paragraph,
            vec![text("one"), text("two"), AstNode::leaf(NodeValue::LineBreak)]
        )
    );
}

#[test]
fn children_keep_their_order() {
    let xml: Element =
        "<body xmlns='markdown'><p>a<em>b</em>c<strong>d</strong></p><hr/><p>e</p></body>"
            .parse()
            .unwrap();
    assert_eq!(
        ast_from_xml(&xml),
        node(
            NodeValue::Document,
            vec![
                node(
                    NodeValue::Paragraph,
                    vec![
                        text("a"),
                        node(NodeValue::Emph, vec![text("b")]),
                        text("c"),
                        node(NodeValue::Strong, vec![text("d")]),
                    ]
                ),
                AstNode::leaf(NodeValue::ThematicBreak),
                node(NodeValue::Paragraph, vec![text("e")]),
            ]
        )
    );
}

#[test]
fn xml_text_is_read_to_a_document() {
    let r = cmark_from_xml(
        "<body xmlns='markdown'><ol type=\"o\" start=\"3\" delimiter=\")\" tight=\"1\"><li>x</li></ol></body>",
    );
    let attributes = NodeList {
        list_type: ListType::Ordered,
        marker_offset: 0,
        padding: 0,
        start: 3,
        delimiter: ListDelimType::Paren,
        bullet_char: b'-',
        tight: true,
    };
    let item = NodeList {
        list_type: ListType::Bullet,
        marker_offset: 0,
        padding: 0,
        start: 0,
        delimiter: ListDelimType::Period,
        bullet_char: b'-',
        tight: false,
    };
    assert_eq!(
        r,
        Ok(node(
            NodeValue::Document,
            vec![node(NodeValue::List(attributes), vec![node(NodeValue::Item(item), vec![text("x")])])]
        ))
    );
}

#[test]
fn broken_xml_text_is_refused() {
    assert_eq!(cmark_from_xml("<body xmlns='markdown'><p></body>"), Err(XmlError::Syntax));
    assert_eq!(cmark_from_xml("<body xmlns='markdown'"), Err(XmlError::Syntax));
    assert_eq!(cmark_from_xml(""), Err(XmlError::Syntax));
    assert_eq!(cmark_from_xml("not xml"), Err(XmlError::Syntax));
    assert_eq!(cmark_from_xml("<body><p/></body>"), Err(XmlError::MissingNamespace));
}

#[test]
fn text_that_xml_cannot_hold_is_refused() {
    let tree = node(NodeValue::Document, vec![text("bell \u{7}")]);
    assert_eq!(xml_from_cmark(&tree), Err(XmlError::Syntax));
}

#[test]
fn deep_documents_round_trip() {
    let mut tree = node(NodeValue::Paragraph, vec![text("deep")]);
    for _ in 0..2000 {
        tree = node(NodeValue::BlockQuote, vec![tree, AstNode::leaf(NodeValue::ThematicBreak)]);
    }
    let tree = node(NodeValue::Document, vec![tree]);
    let xml = xmldom_from_cmark(&tree);
    assert_eq!(ast_from_xml(&xml), tree);
}
