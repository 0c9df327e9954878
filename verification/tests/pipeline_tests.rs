use gosub_style::document::Document;
use gosub_style::generate::generate_render_tree;
use gosub_style::node::{Attributes, Location, NodeId, NodeImpl, QuirksMode};
use gosub_style::property_definitions::get_css_definitions;
use gosub_style::render_tree::RenderTree;
use gosub_style::stylesheet::{CssDeclaration, CssOrigin, CssRule, CssSelector, CssStylesheet, SelectorPart};
use gosub_style::values::CssValue;

fn element(name: &str, id: Option<&str>) -> NodeImpl {
    let mut attributes = Attributes::new();
    if let Some(id) = id {
        attributes.insert("id".to_string(), id.to_string());
    }
    NodeImpl::new_element(Location::default(), name, None, attributes)
}

fn rule(part: SelectorPart, property: &str, value: CssValue, important: bool) -> CssRule {
    CssRule {
        selectors: vec![CssSelector { parts: vec![part] }],
        declarations: vec![CssDeclaration { property: property.to_string(), value, important }],
    }
}

// 0 document
// 1   html
// 2     head
// 3       title
// 4         text "t"
// 5     body
// 6       text "\n  "
// 7       div#x
// 8         text "hi"
// 9       p
fn page() -> Document {
    let mut doc = Document::new();
    let nodes: Vec<(NodeImpl, Option<usize>)> = vec![
        (NodeImpl::new_document(Location::default(), QuirksMode::NoQuirks), None),
        (element("html", None), Some(0)),
        (element("head", None), Some(1)),
        (element("title", None), Some(2)),
        (NodeImpl::new_text(Location::default(), "t"), Some(3)),
        (element("body", None), Some(1)),
        (NodeImpl::new_text(Location::default(), "\n  "), Some(5)),
        (element("div", Some("x")), Some(5)),
        (NodeImpl::new_text(Location::default(), "hi"), Some(7)),
        (element("p", None), Some(5)),
    ];
    for (node, parent) in nodes {
        doc.add_node(node, parent.map(NodeId)).unwrap();
    }
    doc
}

fn sources(tree: &RenderTree) -> Vec<usize> {
    tree.nodes.iter().map(|n| n.source.0).collect()
}

fn actual(tree: &RenderTree, id: usize, name: &str) -> Option<CssValue> {
    tree.get_node(NodeId(id)).unwrap().props().get(name).map(|p| p.actual.clone())
}

#[test]
fn render_tree_of_a_page() {
    let red = CssValue::Color(255, 0, 0, 255);
    let green = CssValue::Color(0, 128, 0, 255);
    let blue = CssValue::Color(0, 0, 255, 255);
    let doc = page();
    let sheets = vec![
        CssStylesheet {
            rules: vec![rule(SelectorPart::Type("body".to_string()), "color", green.clone(), false)],
            origin: CssOrigin::UserAgent,
            url: "ua.css".to_string(),
        },
        CssStylesheet {
            rules: vec![
                rule(SelectorPart::Type("div".to_string()), "color", red.clone(), false),
                rule(SelectorPart::Id("x".to_string()), "color", blue.clone(), true),
                rule(SelectorPart::Type("div".to_string()), "width", CssValue::Percentage(50000), false),
                rule(SelectorPart::Type("title".to_string()), "color", red.clone(), false),
            ],
            origin: CssOrigin::Author,
            url: "page.css".to_string(),
        },
    ];
    let tree = generate_render_tree(&doc, &sheets, &get_css_definitions());

    // head, all below it and the blank text are left out
    assert_eq!(sources(&tree), vec![0, 1, 5, 7, 8, 9]);
    for (i, node) in tree.nodes.iter().enumerate() {
        assert_eq!(node.id, NodeId(i));
    }
    assert_eq!(tree.get_children(NodeId(0)).unwrap(), &vec![NodeId(1)]);
    assert_eq!(tree.get_children(NodeId(1)).unwrap(), &vec![NodeId(2)]);
    assert_eq!(tree.get_children(NodeId(2)).unwrap(), &vec![NodeId(3), NodeId(5)]);
    assert_eq!(tree.get_children(NodeId(3)).unwrap(), &vec![NodeId(4)]);
    let parents: Vec<Option<NodeId>> = tree.nodes.iter().map(|n| n.parent).collect();
    assert_eq!(
        parents,
        vec![None, Some(NodeId(0)), Some(NodeId(1)), Some(NodeId(2)), Some(NodeId(3)), Some(NodeId(2))]
    );

    assert_eq!(actual(&tree, 0, "color"), None);
    assert_eq!(actual(&tree, 1, "color"), None);
    assert_eq!(actual(&tree, 2, "color"), Some(green.clone()));
    assert_eq!(actual(&tree, 3, "color"), Some(blue.clone()));
    assert_eq!(actual(&tree, 4, "color"), Some(blue));
    assert_eq!(actual(&tree, 5, "color"), Some(green));
    assert_eq!(actual(&tree, 3, "width"), Some(CssValue::Percentage(50000)));
    assert_eq!(actual(&tree, 4, "width"), None);
}

#[test]
fn render_tree_of_nothing() {
    let tree = generate_render_tree(&Document::new(), &Vec::new(), &get_css_definitions());
    assert_eq!(tree.len(), 0);
    let mut doc = Document::new();
    doc.add_node(element("script", None), None).unwrap();
    doc.add_node(element("div", None), Some(NodeId(0))).unwrap();
    let tree = generate_render_tree(&doc, &Vec::new(), &get_css_definitions());
    assert_eq!(tree.len(), 0);
}
