use comrak::nodes as cm;
use md_translate::ast::{
    AstNode, ListDelimType, ListType, NodeCode, NodeCodeBlock, NodeDescriptionItem, NodeHeading,
    NodeHtmlBlock, NodeLink, NodeList, NodeValue, TableAlignment,
};

fn text(bytes: &[u8]) -> String {
    std::str::from_utf8(bytes).unwrap().to_string()
}

fn list_from_comrak(nl: &cm::NodeList) -> NodeList {
    NodeList {
        list_type: match nl.list_type {
            cm::ListType::Bullet => ListType::Bullet,
            cm::ListType::Ordered => ListType::Ordered,
        },
        marker_offset: nl.marker_offset,
        padding: nl.padding,
        start: nl.start,
        delimiter: match nl.delimiter {
            cm::ListDelimType::Period => ListDelimType::Period,
            cm::ListDelimType::Paren => ListDelimType::Paren,
        },
        bullet_char: nl.bullet_char,
        tight: nl.tight,
    }
}

fn comrak_from_list(nl: &NodeList) -> cm::NodeList {
    cm::NodeList {
        list_type: match nl.list_type {
            ListType::Bullet => cm::ListType::Bullet,
            ListType::Ordered => cm::ListType::Ordered,
        },
        marker_offset: nl.marker_offset,
        padding: nl.padding,
        start: nl.start,
        delimiter: match nl.delimiter {
            ListDelimType::Period => cm::ListDelimType::Period,
            ListDelimType::Paren => cm::ListDelimType::Paren,
        },
        bullet_char: nl.bullet_char,
        tight: nl.tight,
    }
}

fn value_from_comrak(value: &cm::NodeValue) -> NodeValue {
    match value {
        cm::NodeValue::Document => NodeValue::Document,
        cm::NodeValue::FrontMatter(t) => NodeValue::FrontMatter(text(t)),
        cm::NodeValue::BlockQuote => NodeValue::BlockQuote,
        cm::NodeValue::List(nl) => NodeValue::List(list_from_comrak(nl)),
        cm::NodeValue::Item(nl) => NodeValue::Item(list_from_comrak(nl)),
        cm::NodeValue::DescriptionList => NodeValue::DescriptionList,
        cm::NodeValue::DescriptionItem(nd) => NodeValue::DescriptionItem(NodeDescriptionItem {
            marker_offset: nd.marker_offset,
            padding: nd.padding,
        }),
        cm::NodeValue::DescriptionTerm => NodeValue::DescriptionTerm,
        cm::NodeValue::DescriptionDetails => NodeValue::DescriptionDetails,
        cm::NodeValue::CodeBlock(cb) => NodeValue::CodeBlock(NodeCodeBlock {
            fenced: cb.fenced,
            fence_char: cb.fence_char,
            fence_length: cb.fence_length,
            fence_offset: cb.fence_offset,
            info: text(&cb.info),
            literal: text(&cb.literal),
        }),
        cm::NodeValue::HtmlBlock(hb) => NodeValue::HtmlBlock(NodeHtmlBlock {
            block_type: hb.block_type,
            literal: text(&hb.literal),
        }),
        cm::NodeValue::Paragraph => NodeValue::Paragraph,
        cm::NodeValue::Heading(hd) => NodeValue::Heading(NodeHeading {
            level: hd.level,
            setext: hd.setext,
        }),
        cm::NodeValue::ThematicBreak => NodeValue::ThematicBreak,
        cm::NodeValue::FootnoteDefinition(t) => NodeValue::FootnoteDefinition(text(t)),
        cm::NodeValue::Table(align) => NodeValue::Table(
            align
                .iter()
                .map(|v| match v {
                    cm::TableAlignment::None => TableAlignment::Unspecified,
                    cm::TableAlignment::Left => TableAlignment::Left,
                    cm::TableAlignment::Center => TableAlignment::Center,
                    cm::TableAlignment::Right => TableAlignment::Right,
                })
                .collect(),
        ),
        cm::NodeValue::TableRow(hdr) => NodeValue::TableRow(*hdr),
        cm::NodeValue::TableCell => NodeValue::TableCell,
        cm::NodeValue::Text(t) => NodeValue::Text(text(t)),
        cm::NodeValue::TaskItem(checked) => NodeValue::TaskItem(*checked),
        cm::NodeValue::SoftBreak => NodeValue::SoftBreak,
        cm::NodeValue::LineBreak => NodeValue::LineBreak,
        cm::NodeValue::Code(c) => NodeValue::Code(NodeCode {
            num_backticks: c.num_backticks,
            literal: text(&c.literal),
        }),
        cm::NodeValue::HtmlInline(t) => NodeValue::HtmlInline(text(t)),
        cm::NodeValue::Emph => NodeValue::Emph,
        cm::NodeValue::Strong => NodeValue::Strong,
        cm::NodeValue::Strikethrough => NodeValue::Strikethrough,
        cm::NodeValue::Superscript => NodeValue::Superscript,
        cm::NodeValue::Link(url) => NodeValue::Link(NodeLink {
            url: text(&url.url),
            title: text(&url.title),
        }),
        cm::NodeValue::Image(url) => NodeValue::Image(NodeLink {
            url: text(&url.url),
            title: text(&url.title),
        }),
        cm::NodeValue::FootnoteReference(t) => NodeValue::FootnoteReference(text(t)),
    }
}

fn comrak_from_value(value: &NodeValue) -> cm::NodeValue {
    match value {
        NodeValue::Document => cm::NodeValue::Document,
        NodeValue::FrontMatter(t) => cm::NodeValue::FrontMatter(t.clone().into_bytes()),
        NodeValue::BlockQuote => cm::NodeValue::BlockQuote,
        NodeValue::List(nl) => cm::NodeValue::List(comrak_from_list(nl)),
        NodeValue::Item(nl) => cm::NodeValue::Item(comrak_from_list(nl)),
        NodeValue::DescriptionList => cm::NodeValue::DescriptionList,
        NodeValue::DescriptionItem(nd) => cm::NodeValue::DescriptionItem(cm::NodeDescriptionItem {
            marker_offset: nd.marker_offset,
            padding: nd.padding,
        }),
        NodeValue::DescriptionTerm => cm::NodeValue::DescriptionTerm,
        NodeValue::DescriptionDetails => cm::NodeValue::DescriptionDetails,
        NodeValue::CodeBlock(cb) => cm::NodeValue::CodeBlock(cm::NodeCodeBlock {
            fenced: cb.fenced,
            fence_char: cb.fence_char,
            fence_length: cb.fence_length,
            fence_offset: cb.fence_offset,
            info: cb.info.clone().into_bytes(),
            literal: cb.literal.clone().into_bytes(),
        }),
        NodeValue::HtmlBlock(hb) => cm::NodeValue::HtmlBlock(cm::NodeHtmlBlock {
            block_type: hb.block_type,
            literal: hb.literal.clone().into_bytes(),
        }),
        NodeValue::Paragraph => cm::NodeValue::Paragraph,
        NodeValue::Heading(hd) => cm::NodeValue::Heading(cm::NodeHeading {
            level: hd.level,
            setext: hd.setext,
        }),
        NodeValue::ThematicBreak => cm::NodeValue::ThematicBreak,
        NodeValue::FootnoteDefinition(t) => {
            cm::NodeValue::FootnoteDefinition(t.clone().into_bytes())
        }
        NodeValue::Table(align) => cm::NodeValue::Table(
            align
                .iter()
                .map(|v| match v {
                    TableAlignment::Unspecified => cm::TableAlignment::None,
                    TableAlignment::Left => cm::TableAlignment::Left,
                    TableAlignment::Center => cm::TableAlignment::Center,
                    TableAlignment::Right => cm::TableAlignment::Right,
                })
                .collect(),
        ),
        NodeValue::TableRow(hdr) => cm::NodeValue::TableRow(*hdr),
        NodeValue::TableCell => cm::NodeValue::TableCell,
        NodeValue::Text(t) => cm::NodeValue::Text(t.clone().into_bytes()),
        NodeValue::TaskItem(checked) => cm::NodeValue::TaskItem(*checked),
        NodeValue::SoftBreak => cm::NodeValue::SoftBreak,
        NodeValue::LineBreak => cm::NodeValue::LineBreak,
        NodeValue::Code(c) => cm::NodeValue::Code(cm::NodeCode {
            num_backticks: c.num_backticks,
            literal: c.literal.clone().into_bytes(),
        }),
        NodeValue::HtmlInline(t) => cm::NodeValue::HtmlInline(t.clone().into_bytes()),
        NodeValue::Emph => cm::NodeValue::Emph,
        NodeValue::Strong => cm::NodeValue::Strong,
        NodeValue::Strikethrough => cm::NodeValue::Strikethrough,
        NodeValue::Superscript => cm::NodeValue::Superscript,
        NodeValue::Link(url) => cm::NodeValue::Link(cm::NodeLink {
            url: url.url.clone().into_bytes(),
            title: url.title.clone().into_bytes(),
        }),
        NodeValue::Image(url) => cm::NodeValue::Image(cm::NodeLink {
            url: url.url.clone().into_bytes(),
            title: url.title.clone().into_bytes(),
        }),
        NodeValue::FootnoteReference(t) => cm::NodeValue::FootnoteReference(t.clone().into_bytes()),
    }
}

/// The library's tree of a comrak document.
fn tree_from_comrak<'a>(node: &'a cm::AstNode<'a>) -> AstNode {
    AstNode {
        value: value_from_comrak(&node.data.borrow().value),
        children: node.children().map(tree_from_comrak).collect(),
    }
}

/// The comrak document of a library tree.
fn comrak_from_tree<'a>(
    arena: &'a comrak::Arena<cm::AstNode<'a>>,
    node: &AstNode,
) -> &'a cm::AstNode<'a> {
    let ast_node: &'a cm::AstNode<'a> =
        arena.alloc(cm::AstNode::from(comrak_from_value(&node.value)));
    for child in &node.children {
        ast_node.append(comrak_from_tree(arena, child));
    }
    ast_node
}


fn options() -> comrak::ComrakOptions {
    let options = md_translate::comrak_options();
    comrak::ComrakOptions {
        extension: comrak::ComrakExtensionOptions {
            strikethrough: options.extension.strikethrough,
            tagfilter: options.extension.tagfilter,
            table: options.extension.table,
            autolink: options.extension.autolink,
            tasklist: options.extension.tasklist,
            superscript: options.extension.superscript,
            header_ids: options.extension.header_ids,
            footnotes: options.extension.footnotes,
            description_lists: options.extension.description_lists,
            front_matter_delimiter: options.extension.front_matter_delimiter,
        },
        parse: comrak::ComrakParseOptions {
            smart: options.parse.smart,
            default_info_string: options.parse.default_info_string,
        },
        render: comrak::ComrakRenderOptions {
            hardbreaks: options.render.hardbreaks,
            github_pre_lang: options.render.github_pre_lang,
            width: options.render.width,
            unsafe_: options.render.unsafe_,
            escape: options.render.escape,
            ..Default::default()
        },
    }
}

fn parse(cmark_text: &str, escape_shortcode: bool) -> AstNode {
    let arena = comrak::Arena::new();
    let source = md_translate::cmark_to_parse(cmark_text, escape_shortcode);
    tree_from_comrak(comrak::parse_document(&arena, &source, &options()))
}

fn write(ast_root: &AstNode, escape_shortcode: bool) -> String {
    let arena = comrak::Arena::new();
    let root = comrak_from_tree(&arena, ast_root);
    let mut buf = Vec::<u8>::new();
    comrak::format_commonmark(root, &options(), &mut buf).unwrap();
    md_translate::cmark_written(&String::from_utf8(buf).unwrap(), escape_shortcode)
}

/// CommonMark text to XML text and back.
fn there_and_back(cmark_text: &str, escape_shortcode: bool) -> String {
    let xml = md_translate::xml_from_cmark(&parse(cmark_text, escape_shortcode)).unwrap();
    write(&md_translate::cmark_from_xml(&xml).unwrap(), escape_shortcode)
}

#[test]
fn a_parsed_document_as_xml() {
    let xml = md_translate::xml_from_cmark(&parse("# Hello\n\nSome *text* and `code`.\n", false));
    assert_eq!(
        xml,
        Ok("<body xmlns='markdown'><h1 level=\"1\">Hello</h1><p>Some <em>text</em> and <code literal=\"code\"/>.</p></body>".to_string())
    );
}

#[test]
fn parsed_documents_survive_the_way_there_and_back() {
    let documents = [
        "# Title\n\nA paragraph with *emphasis*, **strong**, ~~gone~~ and `code`.\n",
        "## Lists\n\n- one\n- two\n  - nested\n- three\n\n1. first\n2. second\n",
        "3) third\n4) fourth\n",
        "> quoted\n> text\n\n-----\n\nafter\n",
        "``` rust\nfn main() {}\n```\n",
        "| a | b | c | d |\n| :-- | :-: | --: | --- |\n| 1 | 2 | 3 | 4 |\n",
        "A [link](https://example.org \"title\") and an ![image](pic.png).\n",
        "<div>\nraw\n</div>\n\ninline <b>html</b>\n",
        "line one  \nline two\nline three\n",
        "Umlaute äöü, 日本語, and < > & \" ' signs.\n",
    ];
    for document in documents {
        let tree = parse(document, false);
        assert_eq!(there_and_back(document, false), write(&tree, false), "{:?}", document);
    }
}

#[test]
fn parsed_documents_are_representable() {
    let document = "+++\ntitle = \"t\"\n+++\n\n# Title\n\n- [ ] item\n\n| a |\n| - |\n| 1 |\n\n```\ncode\n```\n";
    let tree = parse(document, false);
    let xml = md_translate::xmldom_from_cmark(&tree);
    let back = md_translate::ast_from_xml(&xml);
    assert_eq!(write(&back, false), write(&tree, false));
    assert_eq!(xml.name(), "body");
    assert_eq!(xml.children().next().unwrap().name(), "header");
}

#[test]
fn shortcodes_survive_the_way_there_and_back() {
    let document = "Before {{ shortcode(a=\"*b*\") }} between {% tag _c_ %} after.\n";
    let xml = md_translate::xml_from_cmark(&parse(document, true)).unwrap();
    assert!(xml.contains("<embed literal=\"&lt;!--{{ shortcode("), "{}", xml);
    assert!(xml.contains("<embed literal=\"&lt;!--{% tag _c_ %}--&gt;\"/>"), "{}", xml);
    assert_eq!(there_and_back(document, true), document);
}
