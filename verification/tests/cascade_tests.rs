use gosub_style::definitions::{CssDefinitions, PropertyDefinition, ValueKind};
use gosub_style::document::Document;
use gosub_style::inheritance::resolve_inheritance;
use gosub_style::node::{Attributes, Location, NodeId, NodeImpl, QuirksMode};
use gosub_style::property_definitions::get_css_definitions;
use gosub_style::render_tree::RenderTree;
use gosub_style::stylesheet::{
    CssDeclaration, CssOrigin, CssRule, CssSelector, CssStylesheet, SelectorPart, Specificity,
};
use gosub_style::styling::{CssProperties, CssProperty, DeclarationProperty};
use gosub_style::system::{
    add_property_to_map, compute_properties, node_is_unrenderable, prop_is_inherit, Css3System,
};
use gosub_style::values::CssValue;

fn red() -> CssValue {
    CssValue::Color(255, 0, 0, 255)
}

fn green() -> CssValue {
    CssValue::Color(0, 128, 0, 255)
}

fn blue() -> CssValue {
    CssValue::Color(0, 0, 255, 255)
}

fn px(n: i64) -> CssValue {
    CssValue::Unit(n * 1000, "px".to_string())
}

fn keyword(k: &str) -> CssValue {
    CssValue::Keyword(k.to_string())
}

fn declaration(property: &str, value: CssValue, important: bool) -> CssDeclaration {
    CssDeclaration { property: property.to_string(), value, important }
}

fn rule(parts: Vec<SelectorPart>, declarations: Vec<CssDeclaration>) -> CssRule {
    CssRule { selectors: vec![CssSelector { parts }], declarations }
}

fn sheet(rules: Vec<CssRule>) -> CssStylesheet {
    CssStylesheet { rules, origin: CssOrigin::Author, url: "test.css".to_string() }
}

fn element(name: &str, id: Option<&str>) -> NodeImpl {
    let mut attributes = Attributes::new();
    if let Some(id) = id {
        attributes.insert("id".to_string(), id.to_string());
    }
    NodeImpl::new_element(Location::default(), name, None, attributes)
}

fn candidate(value: CssValue, important: bool, specificity: Specificity) -> DeclarationProperty {
    DeclarationProperty {
        value,
        origin: CssOrigin::Author,
        important,
        location: "test.css".to_string(),
        specificity,
    }
}

fn document_with(nodes: Vec<(NodeImpl, Option<usize>)>) -> Document {
    let mut doc = Document::new();
    for (node, parent) in nodes {
        let added = doc.add_node(node, parent.map(NodeId));
        assert!(added.is_some());
    }
    doc
}

fn actual_of(props: &CssProperties, name: &str) -> CssValue {
    props.get(name).unwrap().actual.clone()
}

#[test]
fn unrenderable_elements_have_no_properties() {
    let sheets = vec![sheet(vec![rule(vec![SelectorPart::Universal], vec![declaration("color", red(), false)])])];
    for name in ["head", "script", "style", "svg", "noscript", "title"] {
        let doc = document_with(vec![(element(name, None), None)]);
        let node = doc.node_by_id(NodeId(0)).unwrap();
        assert!(node_is_unrenderable(node));
        assert_eq!(Css3System::properties_from_node(node, &sheets, &doc, NodeId(0)), None);
    }
}

#[test]
fn whitespace_text_has_no_properties() {
    let sheets: Vec<CssStylesheet> = Vec::new();
    for text in ["", " ", "\n\t  \r\n", "\u{a0}\u{2003}\u{3000}"] {
        let doc = document_with(vec![(NodeImpl::new_text(Location::default(), text), None)]);
        let node = doc.node_by_id(NodeId(0)).unwrap();
        assert!(node_is_unrenderable(node));
        assert_eq!(Css3System::properties_from_node(node, &sheets, &doc, NodeId(0)), None);
    }
}

#[test]
fn text_and_other_elements_are_renderable() {
    let sheets: Vec<CssStylesheet> = Vec::new();
    let doc = document_with(vec![
        (element("div", None), None),
        (NodeImpl::new_text(Location::default(), " a "), Some(0)),
        (NodeImpl::new_comment(Location::default(), " "), Some(0)),
        (NodeImpl::new_document(Location::default(), QuirksMode::NoQuirks), None),
        (element("header", None), None),
    ]);
    for id in 0..5 {
        let node = doc.node_by_id(NodeId(id)).unwrap();
        assert!(!node_is_unrenderable(node));
        let props = Css3System::properties_from_node(node, &sheets, &doc, NodeId(id)).unwrap();
        assert_eq!(props.len(), 0);
    }
}

#[test]
fn important_rule_beats_the_other_rule() {
    let doc = document_with(vec![(element("div", Some("x")), None)]);
    let sheets = vec![sheet(vec![
        rule(vec![SelectorPart::Type("div".to_string())], vec![declaration("color", red(), false)]),
        rule(vec![SelectorPart::Id("x".to_string())], vec![declaration("color", blue(), true)]),
    ])];
    let node = doc.node_by_id(NodeId(0)).unwrap();
    let props = Css3System::properties_from_node(node, &sheets, &doc, NodeId(0)).unwrap();
    let color = props.get("color").unwrap();
    assert_eq!(color.declared.len(), 2);
    assert_eq!(color.declared[0].specificity, Specificity::new(0, 0, 1));
    assert_eq!(color.declared[1].specificity, Specificity::new(1, 0, 0));
    assert_eq!(color.declared[0].origin, CssOrigin::Author);
    assert_eq!(color.declared[0].location, "test.css");

    let mut tree = RenderTree::new();
    tree.add_node(None, NodeId(0), props).unwrap();
    Css3System::inheritance(&mut tree);
    assert_eq!(actual_of(tree.get_node(NodeId(0)).unwrap().props(), "color"), blue());
}

#[test]
fn important_beats_a_heavier_normal_rule() {
    let doc = document_with(vec![(element("div", Some("x")), None)]);
    let sheets = vec![sheet(vec![
        rule(vec![SelectorPart::Type("div".to_string())], vec![declaration("color", red(), true)]),
        rule(vec![SelectorPart::Id("x".to_string())], vec![declaration("color", blue(), false)]),
    ])];
    let node = doc.node_by_id(NodeId(0)).unwrap();
    let props = Css3System::properties_from_node(node, &sheets, &doc, NodeId(0)).unwrap();
    let mut tree = RenderTree::new();
    tree.add_node(None, NodeId(0), props).unwrap();
    Css3System::inheritance(&mut tree);
    assert_eq!(actual_of(tree.get_node(NodeId(0)).unwrap().props(), "color"), red());
}

#[test]
fn heavier_selector_wins_in_either_order() {
    for heavy_first in [true, false] {
        let heavy = candidate(blue(), false, Specificity::new(0, 1, 0));
        let light = candidate(red(), false, Specificity::new(0, 0, 5));
        let mut prop = CssProperty::new("color");
        if heavy_first {
            prop.declared.push(heavy);
            prop.declared.push(light);
        } else {
            prop.declared.push(light);
            prop.declared.push(heavy);
        }
        prop.compute_value(true);
        assert_eq!(prop.actual, blue());
    }
}

#[test]
fn later_candidate_wins_between_equal_weights() {
    let mut prop = CssProperty::new("color");
    prop.declared.push(candidate(red(), false, Specificity::new(0, 1, 0)));
    prop.declared.push(candidate(blue(), false, Specificity::new(0, 1, 0)));
    prop.declared.push(candidate(green(), false, Specificity::new(0, 0, 9)));
    assert_eq!(prop.find_cascaded(), Some(1));
    prop.compute_value(false);
    assert_eq!(prop.actual, blue());
}

#[test]
fn weights_compare_ids_first() {
    assert!(Specificity::new(1, 0, 0).is_heavier_than(&Specificity::new(0, 9, 9)));
    assert!(Specificity::new(0, 1, 0).is_heavier_than(&Specificity::new(0, 0, 9)));
    assert!(Specificity::new(0, 0, 2).is_heavier_than(&Specificity::new(0, 0, 1)));
    assert!(!Specificity::new(0, 0, 1).is_heavier_than(&Specificity::new(0, 0, 1)));
    assert!(!Specificity::new(0, 9, 9).is_heavier_than(&Specificity::new(1, 0, 0)));
}

#[test]
fn property_without_candidates() {
    let mut prop = CssProperty::new("color");
    assert_eq!(prop.find_cascaded(), None);
    prop.inherited = green();
    prop.compute_value(true);
    assert_eq!(prop.actual, green());
    prop.compute_value(false);
    assert_eq!(prop.actual, CssValue::Empty);
}

#[test]
fn inherit_keyword_takes_the_inherited_value() {
    let mut prop = CssProperty::new("width");
    prop.inherited = px(10);
    prop.declared.push(candidate(keyword("inherit"), false, Specificity::new(0, 0, 1)));
    prop.compute_value(false);
    assert_eq!(prop.actual, px(10));
}

#[test]
fn child_inherits_from_parent() {
    let doc = document_with(vec![(element("div", None), None), (element("p", None), Some(0))]);
    let sheets = vec![sheet(vec![rule(
        vec![SelectorPart::Type("div".to_string())],
        vec![declaration("color", green(), false)],
    )])];
    let mut tree = RenderTree::new();
    let parent_props =
        Css3System::properties_from_node(doc.node_by_id(NodeId(0)).unwrap(), &sheets, &doc, NodeId(0)).unwrap();
    let child_props =
        Css3System::properties_from_node(doc.node_by_id(NodeId(1)).unwrap(), &sheets, &doc, NodeId(1)).unwrap();
    assert_eq!(child_props.len(), 0);
    let parent = tree.add_node(None, NodeId(0), parent_props).unwrap();
    let child = tree.add_node(Some(parent), NodeId(1), child_props).unwrap();
    Css3System::inheritance(&mut tree);
    assert_eq!(actual_of(tree.get_node(parent).unwrap().props(), "color"), green());
    let color = tree.get_node(child).unwrap().props().get("color").unwrap();
    assert_eq!(color.inherited, green());
    assert_eq!(color.actual, green());
    assert!(color.declared.is_empty());
}

#[test]
fn nearest_ancestor_is_inherited_from() {
    let mut tree = RenderTree::new();
    let mut top = CssProperties::new();
    top.add_candidate(&"color".to_string(), candidate(red(), false, Specificity::new(0, 0, 1)));
    top.add_candidate(&"width".to_string(), candidate(px(5), false, Specificity::new(0, 0, 1)));
    let mut middle = CssProperties::new();
    middle.add_candidate(&"color".to_string(), candidate(blue(), false, Specificity::new(0, 0, 1)));
    let a = tree.add_node(None, NodeId(0), top).unwrap();
    let b = tree.add_node(Some(a), NodeId(1), middle).unwrap();
    let c = tree.add_node(Some(b), NodeId(2), CssProperties::new()).unwrap();
    let d = tree.add_node(Some(a), NodeId(3), CssProperties::new()).unwrap();
    assert_eq!(tree.add_node(Some(NodeId(17)), NodeId(4), CssProperties::new()), None);
    assert_eq!(tree.len(), 4);

    let definitions = get_css_definitions();
    resolve_inheritance(&mut tree, a, &Vec::new(), &definitions);

    assert_eq!(actual_of(tree.get_node(a).unwrap().props(), "color"), red());
    assert_eq!(actual_of(tree.get_node(b).unwrap().props(), "color"), blue());
    assert_eq!(actual_of(tree.get_node(c).unwrap().props(), "color"), blue());
    assert_eq!(actual_of(tree.get_node(d).unwrap().props(), "color"), red());
    // width is not inherited by default: it is not handed down
    assert_eq!(actual_of(tree.get_node(a).unwrap().props(), "width"), px(5));
    assert!(tree.get_node(b).unwrap().props().get("width").is_none());
    assert_eq!(tree.get_children(a).unwrap(), &vec![b, d]);
}

#[test]
fn inheritance_from_a_missing_node_changes_nothing() {
    let mut tree = RenderTree::new();
    let mut props = CssProperties::new();
    props.add_candidate(&"color".to_string(), candidate(red(), false, Specificity::new(0, 0, 1)));
    tree.add_node(None, NodeId(0), props).unwrap();
    let definitions = get_css_definitions();
    resolve_inheritance(&mut tree, NodeId(5), &Vec::new(), &definitions);
    assert_eq!(actual_of(tree.get_node(NodeId(0)).unwrap().props(), "color"), CssValue::Empty);
    let mut empty = RenderTree::new();
    Css3System::inheritance(&mut empty);
    assert_eq!(empty.len(), 0);
}

#[test]
fn handed_values_seed_the_root() {
    let mut tree = RenderTree::new();
    tree.add_node(None, NodeId(0), CssProperties::new()).unwrap();
    let definitions = get_css_definitions();
    let handed = vec![("color".to_string(), green()), ("width".to_string(), px(3))];
    resolve_inheritance(&mut tree, NodeId(0), &handed, &definitions);
    let props = tree.get_node(NodeId(0)).unwrap().props();
    assert_eq!(props.len(), 2);
    assert_eq!(actual_of(props, "color"), green());
    assert_eq!(props.get("width").unwrap().inherited, px(3));
    assert_eq!(actual_of(props, "width"), CssValue::Empty);
}

#[test]
fn unknown_property_is_skipped() {
    let doc = document_with(vec![(element("div", None), None)]);
    let sheets = vec![sheet(vec![rule(
        vec![SelectorPart::Universal],
        vec![
            declaration("-vendor-thing", keyword("x"), false),
            declaration("color", red(), false),
        ],
    )])];
    let node = doc.node_by_id(NodeId(0)).unwrap();
    let props = Css3System::properties_from_node(node, &sheets, &doc, NodeId(0)).unwrap();
    assert_eq!(props.len(), 1);
    assert!(props.get("-vendor-thing").is_none());
    assert_eq!(props.get("color").unwrap().declared[0].value, red());
}

#[test]
fn mismatched_value_is_discarded() {
    let doc = document_with(vec![(element("div", None), None)]);
    let sheets = vec![sheet(vec![rule(
        vec![SelectorPart::Universal],
        vec![
            declaration("color", red(), false),
            declaration("color", px(3), false),
            declaration("color", CssValue::List(vec![red(), blue()]), false),
            declaration("color", CssValue::List(vec![]), false),
        ],
    )])];
    let node = doc.node_by_id(NodeId(0)).unwrap();
    let props = Css3System::properties_from_node(node, &sheets, &doc, NodeId(0)).unwrap();
    let color = props.get("color").unwrap();
    assert_eq!(color.declared.len(), 1);
    assert_eq!(color.declared[0].value, red());
}

#[test]
fn non_matching_rule_has_no_effect() {
    let doc = document_with(vec![(element("div", None), None)]);
    let sheets = vec![sheet(vec![
        rule(vec![SelectorPart::Type("p".to_string())], vec![declaration("color", red(), false)]),
        rule(vec![], vec![declaration("color", red(), false)]),
    ])];
    let node = doc.node_by_id(NodeId(0)).unwrap();
    let props = Css3System::properties_from_node(node, &sheets, &doc, NodeId(0)).unwrap();
    assert_eq!(props.len(), 0);
}

#[test]
fn rule_applies_once_for_each_matching_selector() {
    let doc = document_with(vec![(element("div", Some("x")), None)]);
    let both = CssRule {
        selectors: vec![
            CssSelector { parts: vec![SelectorPart::Type("div".to_string())] },
            CssSelector { parts: vec![SelectorPart::Type("p".to_string())] },
            CssSelector { parts: vec![SelectorPart::Id("x".to_string())] },
        ],
        declarations: vec![declaration("color", red(), false)],
    };
    let sheets = vec![sheet(vec![both])];
    let node = doc.node_by_id(NodeId(0)).unwrap();
    let props = Css3System::properties_from_node(node, &sheets, &doc, NodeId(0)).unwrap();
    let color = props.get("color").unwrap();
    assert_eq!(color.declared.len(), 2);
    assert_eq!(color.declared[0].specificity, Specificity::new(0, 0, 1));
    assert_eq!(color.declared[1].specificity, Specificity::new(1, 0, 0));
}

#[test]
fn longhands_are_written_in_source_order() {
    let doc = document_with(vec![(element("div", None), None)]);
    let sheets = vec![sheet(vec![rule(
        vec![SelectorPart::Type("div".to_string())],
        vec![
            declaration("margin-left", px(8), false),
            declaration("margin", CssValue::List(vec![px(1), px(2)]), false),
            declaration("margin-top", px(9), false),
        ],
    )])];
    let node = doc.node_by_id(NodeId(0)).unwrap();
    let props = Css3System::properties_from_node(node, &sheets, &doc, NodeId(0)).unwrap();
    assert_eq!(props.get("margin").unwrap().declared[0].value, CssValue::List(vec![px(1), px(2)]));
    let top = props.get("margin-top").unwrap();
    assert_eq!(top.declared.len(), 2);
    assert_eq!(top.declared[0].value, px(1));
    assert_eq!(top.declared[1].value, px(9));
    assert_eq!(top.declared[0].specificity, Specificity::new(0, 0, 1));
    let left = props.get("margin-left").unwrap();
    assert_eq!(left.declared.len(), 2);
    assert_eq!(left.declared[0].value, px(8));
    assert_eq!(left.declared[1].value, px(2));
    assert_eq!(props.get("margin-right").unwrap().declared[0].value, px(2));
    assert_eq!(props.get("margin-bottom").unwrap().declared[0].value, px(1));
    assert_eq!(props.len(), 5);

    let mut tree = RenderTree::new();
    tree.add_node(None, NodeId(0), props).unwrap();
    Css3System::inheritance(&mut tree);
    let styled = tree.get_node(NodeId(0)).unwrap().props();
    assert_eq!(actual_of(styled, "margin-top"), px(9));
    assert_eq!(actual_of(styled, "margin-left"), px(2));
}

#[test]
fn several_values_are_kept_as_a_list() {
    let doc = document_with(vec![(element("div", None), None)]);
    let family = CssValue::List(vec![CssValue::Text("Arial".to_string()), keyword("serif")]);
    let sheets = vec![sheet(vec![rule(
        vec![SelectorPart::Universal],
        vec![declaration("font-family", family.clone(), false)],
    )])];
    let node = doc.node_by_id(NodeId(0)).unwrap();
    let props = Css3System::properties_from_node(node, &sheets, &doc, NodeId(0)).unwrap();
    assert_eq!(props.get("font-family").unwrap().declared[0].value, family);
}

#[test]
fn single_value_list_is_unwrapped() {
    let doc = document_with(vec![(element("div", None), None)]);
    let sheets = vec![sheet(vec![rule(
        vec![SelectorPart::Universal],
        vec![declaration("color", CssValue::List(vec![red()]), false)],
    )])];
    let node = doc.node_by_id(NodeId(0)).unwrap();
    let props = Css3System::properties_from_node(node, &sheets, &doc, NodeId(0)).unwrap();
    assert_eq!(props.get("color").unwrap().declared[0].value, red());
}

#[test]
fn custom_table_is_used() {
    let mut definitions = CssDefinitions::new();
    assert!(definitions.add(PropertyDefinition::new("gap", true).accepting(ValueKind::Length)));
    let doc = document_with(vec![(element("div", None), None)]);
    let sheets = vec![sheet(vec![rule(
        vec![SelectorPart::Universal],
        vec![declaration("gap", px(4), false), declaration("color", red(), false)],
    )])];
    let node = doc.node_by_id(NodeId(0)).unwrap();
    let props = compute_properties(&definitions, node, &sheets, &doc, NodeId(0)).unwrap();
    assert_eq!(props.len(), 1);
    assert_eq!(props.get("gap").unwrap().declared[0].value, px(4));
}

#[test]
fn add_property_to_map_appends() {
    let mut props = CssProperties::new();
    let s = CssStylesheet { rules: vec![], origin: CssOrigin::UserAgent, url: "ua.css".to_string() };
    add_property_to_map(&mut props, &s, Specificity::new(0, 1, 0), &declaration("color", red(), false));
    add_property_to_map(&mut props, &s, Specificity::new(0, 0, 1), &declaration("width", px(1), true));
    add_property_to_map(&mut props, &s, Specificity::new(1, 0, 0), &declaration("color", blue(), true));
    assert_eq!(props.len(), 2);
    let color = props.get("color").unwrap();
    assert_eq!(color.name, "color");
    assert_eq!(color.declared.len(), 2);
    assert_eq!(
        color.declared[1],
        DeclarationProperty {
            value: blue(),
            origin: CssOrigin::UserAgent,
            important: true,
            location: "ua.css".to_string(),
            specificity: Specificity::new(1, 0, 0),
        }
    );
    assert_eq!(color.inherited, CssValue::Empty);
    assert_eq!(color.actual, CssValue::Empty);
    assert_eq!(props.properties[1].name, "width");
}

#[test]
fn inherited_by_default() {
    assert!(prop_is_inherit("color"));
    assert!(prop_is_inherit("font-size"));
    assert!(!prop_is_inherit("margin"));
    assert!(!prop_is_inherit("width"));
    assert!(!prop_is_inherit("no-such-property"));
    assert!(!prop_is_inherit(""));
}

#[test]
fn unresolved_calc_is_kept_where_numbers_are_accepted() {
    let doc = document_with(vec![(element("div", None), None)]);
    let calc = CssValue::Function(
        "calc".to_string(),
        vec![CssValue::Percentage(100000), keyword("-"), px(10)],
    );
    let sheets = vec![sheet(vec![rule(
        vec![SelectorPart::Universal],
        vec![
            declaration("width", calc.clone(), false),
            declaration("color", calc.clone(), false),
            declaration("width", CssValue::Function("rotate".to_string(), vec![px(1)]), false),
        ],
    )])];
    let node = doc.node_by_id(NodeId(0)).unwrap();
    let props = Css3System::properties_from_node(node, &sheets, &doc, NodeId(0)).unwrap();
    assert_eq!(props.len(), 1);
    let width = props.get("width").unwrap();
    assert_eq!(width.declared.len(), 1);
    assert_eq!(width.declared[0].value, calc);
}
