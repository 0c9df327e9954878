use gosub_style::document::Document;
use gosub_style::matcher::{match_selector, specificity};
use gosub_style::node::{Attributes, ClassList, ElementData, Location, NodeDataTypeInternal, NodeId, NodeImpl, QuirksMode};
use gosub_style::query::{tree_order, Condition, DocumentQuery, Error, Query, SearchType};
use gosub_style::stylesheet::{CssSelector, SelectorPart, Specificity};

fn element(name: &str, attributes: Vec<(&str, &str)>, classes: Vec<&str>) -> NodeImpl {
    let mut attrs = Attributes::new();
    for (k, v) in attributes {
        attrs.insert(k.to_string(), v.to_string());
    }
    let mut classlist = ClassList::new();
    for c in classes {
        classlist.add(c);
    }
    NodeImpl::new(
        Location::default(),
        NodeDataTypeInternal::Element(ElementData::new(name, None, attrs, classlist)),
    )
}

// 0 document
// 1   html
// 2     body
// 3       div#main.a.b
// 5         p.a
// 6           text
// 4       div[title]
// 7         p
fn sample() -> Document {
    let mut doc = Document::new();
    doc.add_node(NodeImpl::new_document(Location::default(), QuirksMode::NoQuirks), None).unwrap();
    doc.add_node(element("html", vec![], vec![]), Some(NodeId(0))).unwrap();
    doc.add_node(element("body", vec![], vec![]), Some(NodeId(1))).unwrap();
    doc.add_node(element("div", vec![("id", "main")], vec!["a", "b"]), Some(NodeId(2))).unwrap();
    doc.add_node(element("div", vec![("title", "t")], vec![]), Some(NodeId(2))).unwrap();
    doc.add_node(element("p", vec![], vec!["a"]), Some(NodeId(3))).unwrap();
    doc.add_node(NodeImpl::new_text(Location::default(), "hello"), Some(NodeId(5))).unwrap();
    doc.add_node(element("p", vec![], vec![]), Some(NodeId(4))).unwrap();
    doc
}

fn ids(v: Vec<usize>) -> Vec<NodeId> {
    v.into_iter().map(NodeId).collect()
}

fn find(doc: &Document, search_type: SearchType, conditions: Vec<Condition>) -> Vec<NodeId> {
    DocumentQuery::query(doc, &Query { search_type, conditions }).unwrap()
}

#[test]
fn uninitialized_query_is_an_error() {
    let doc = sample();
    let query = Query { search_type: SearchType::Uninitialized, conditions: vec![] };
    let result = DocumentQuery::query(&doc, &query);
    assert_eq!(result, Err(Error::Query("Query predicate is uninitialized".to_string())));
    assert_eq!(result.unwrap_err().message(), "Query predicate is uninitialized");
    let query = Query {
        search_type: SearchType::Uninitialized,
        conditions: vec![Condition::EqualsTag("div".to_string())],
    };
    assert!(DocumentQuery::query(&Document::new(), &query).is_err());
}

#[test]
fn tree_order_is_parent_first() {
    let doc = sample();
    assert_eq!(tree_order(&doc), ids(vec![0, 1, 2, 3, 5, 6, 4, 7]));
    assert_eq!(tree_order(&Document::new()), vec![]);
}

#[test]
fn query_without_conditions_finds_every_node() {
    let doc = sample();
    assert_eq!(find(&doc, SearchType::FindAll, vec![]), ids(vec![0, 1, 2, 3, 5, 6, 4, 7]));
    assert_eq!(find(&doc, SearchType::FindFirst, vec![]), ids(vec![0]));
    assert_eq!(find(&Document::new(), SearchType::FindFirst, vec![]), vec![]);
    assert_eq!(find(&Document::new(), SearchType::FindAll, vec![]), vec![]);
}

#[test]
fn query_by_tag() {
    let doc = sample();
    let tag = || vec![Condition::EqualsTag("p".to_string())];
    assert_eq!(find(&doc, SearchType::FindAll, tag()), ids(vec![5, 7]));
    assert_eq!(find(&doc, SearchType::FindFirst, tag()), ids(vec![5]));
    assert_eq!(find(&doc, SearchType::FindAll, vec![Condition::EqualsTag("span".to_string())]), vec![]);
    assert_eq!(find(&doc, SearchType::FindFirst, vec![Condition::EqualsTag("span".to_string())]), vec![]);
}

#[test]
fn query_by_id_class_and_attribute() {
    let doc = sample();
    assert_eq!(find(&doc, SearchType::FindAll, vec![Condition::EqualsId("main".to_string())]), ids(vec![3]));
    assert_eq!(find(&doc, SearchType::FindAll, vec![Condition::EqualsId("t".to_string())]), vec![]);
    assert_eq!(find(&doc, SearchType::FindAll, vec![Condition::ContainsClass("a".to_string())]), ids(vec![3, 5]));
    assert_eq!(find(&doc, SearchType::FindAll, vec![Condition::ContainsClass("b".to_string())]), ids(vec![3]));
    assert_eq!(
        find(&doc, SearchType::FindAll, vec![Condition::ContainsAttribute("title".to_string())]),
        ids(vec![4])
    );
    assert_eq!(
        find(&doc, SearchType::FindAll, vec![Condition::ContainsAttribute("id".to_string())]),
        ids(vec![3])
    );
}

#[test]
fn query_by_child_and_parent() {
    let doc = sample();
    assert_eq!(
        find(&doc, SearchType::FindAll, vec![Condition::ContainsChildTag("p".to_string())]),
        ids(vec![3, 4])
    );
    assert_eq!(
        find(&doc, SearchType::FindAll, vec![Condition::ContainsChildTag("html".to_string())]),
        ids(vec![0])
    );
    assert_eq!(
        find(&doc, SearchType::FindAll, vec![Condition::HasParentTag("div".to_string())]),
        ids(vec![5, 7])
    );
    assert_eq!(find(&doc, SearchType::FindAll, vec![Condition::HasParentTag("p".to_string())]), ids(vec![6]));
    assert!(DocumentQuery::contains_child_tag(&doc, NodeId(2), "div"));
    assert!(!DocumentQuery::contains_child_tag(&doc, NodeId(2), "p"));
    assert!(!DocumentQuery::contains_child_tag(&doc, NodeId(6), "p"));
    assert!(!DocumentQuery::contains_child_tag(&doc, NodeId(99), "p"));
}

#[test]
fn every_condition_must_hold() {
    let doc = sample();
    let conditions = vec![
        Condition::EqualsTag("p".to_string()),
        Condition::ContainsClass("a".to_string()),
        Condition::HasParentTag("div".to_string()),
    ];
    assert_eq!(find(&doc, SearchType::FindAll, conditions), ids(vec![5]));
    let conditions = vec![Condition::EqualsTag("p".to_string()), Condition::EqualsId("main".to_string())];
    assert_eq!(find(&doc, SearchType::FindAll, conditions), vec![]);
    assert!(!DocumentQuery::matches_query_condition(
        &doc,
        &NodeId(50),
        &Condition::EqualsTag("p".to_string())
    ));
    assert!(!DocumentQuery::matches_query_condition(
        &doc,
        &NodeId(0),
        &Condition::HasParentTag("p".to_string())
    ));
}

#[test]
fn selectors_match_elements() {
    let doc = sample();
    let selector = |parts: Vec<SelectorPart>| CssSelector { parts };
    let div = selector(vec![SelectorPart::Type("div".to_string())]);
    assert_eq!(match_selector(&doc, NodeId(3), &div), (true, Specificity::new(0, 0, 1)));
    assert_eq!(match_selector(&doc, NodeId(5), &div), (false, Specificity::new(0, 0, 1)));
    assert_eq!(match_selector(&doc, NodeId(6), &div), (false, Specificity::new(0, 0, 1)));
    assert_eq!(match_selector(&doc, NodeId(60), &div), (false, Specificity::new(0, 0, 1)));
    let compound = selector(vec![
        SelectorPart::Type("div".to_string()),
        SelectorPart::Id("main".to_string()),
        SelectorPart::Class("a".to_string()),
        SelectorPart::Class("b".to_string()),
        SelectorPart::Attribute("id".to_string()),
        SelectorPart::Universal,
    ]);
    assert_eq!(match_selector(&doc, NodeId(3), &compound), (true, Specificity::new(1, 3, 1)));
    assert_eq!(match_selector(&doc, NodeId(4), &compound), (false, Specificity::new(1, 3, 1)));
    let universal = selector(vec![SelectorPart::Universal]);
    assert_eq!(match_selector(&doc, NodeId(7), &universal), (true, Specificity::new(0, 0, 0)));
    assert_eq!(match_selector(&doc, NodeId(0), &universal), (false, Specificity::new(0, 0, 0)));
    let empty = selector(vec![]);
    assert_eq!(match_selector(&doc, NodeId(3), &empty), (false, Specificity::new(0, 0, 0)));
    assert_eq!(specificity(&compound), Specificity::new(1, 3, 1));
    let wrong_class = selector(vec![SelectorPart::Class("c".to_string())]);
    assert!(!match_selector(&doc, NodeId(3), &wrong_class).0);
    let attribute = selector(vec![SelectorPart::Attribute("title".to_string())]);
    assert!(match_selector(&doc, NodeId(4), &attribute).0);
    assert!(!match_selector(&doc, NodeId(3), &attribute).0);
}

#[test]
fn document_keeps_its_nodes() {
    let mut doc = sample();
    assert_eq!(doc.len(), 8);
    assert_eq!(doc.add_node(element("x", vec![], vec![]), Some(NodeId(8))), None);
    assert_eq!(doc.len(), 8);
    let node = doc.node_by_id(NodeId(3)).unwrap();
    assert_eq!(node.id(), NodeId(3));
    assert_eq!(node.parent_id(), Some(NodeId(2)));
    assert!(node.is_registered());
    assert!(!node.is_root());
    assert_eq!(node.children(), &ids(vec![5]));
    assert_eq!(doc.get_children(NodeId(2)).unwrap(), &ids(vec![3, 4]));
    assert!(doc.get_children(NodeId(8)).is_none());
    assert!(doc.node_by_id(NodeId(8)).is_none());
    assert!(doc.node_by_id(NodeId(0)).unwrap().is_root());
}
