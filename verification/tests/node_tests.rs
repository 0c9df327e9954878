use gosub_style::node::{
    Attributes, CommentData, Location, NodeDataTypeInternal, NodeId, NodeImpl, NodeType, QuirksMode, TextData,
};

const HTML_NAMESPACE: &str = "http://www.w3.org/1999/xhtml";

#[test]
fn new_document() {
    let node = NodeImpl::new_document(Location::default(), QuirksMode::NoQuirks);
    assert_eq!(node.id, NodeId::default());
    assert_eq!(node.parent, None);
    assert!(node.children.is_empty());
    if let NodeDataTypeInternal::Document(_) = &node.data {
    } else {
        panic!()
    }
}

#[test]
fn new_element() {
    let mut attributes = Attributes::new();
    attributes.insert("id".to_string(), "test".to_string());

    let node = NodeImpl::new_element(Location::default(), "div", Some(HTML_NAMESPACE), attributes);
    assert_eq!(node.id, NodeId::default());
    assert_eq!(node.parent, None);
    assert!(node.children.is_empty());

    if let NodeDataTypeInternal::Element(data) = &node.data {
        assert_eq!(data.name(), "div");
        assert!(data.attributes().contains_key("id"));
        assert_eq!(data.attributes().get("id").unwrap(), "test");
    } else {
        panic!()
    }
}

#[test]
fn new_comment() {
    let node = NodeImpl::new_comment(Location::default(), "test");
    assert_eq!(node.id, NodeId::default());
    assert_eq!(node.parent, None);
    assert!(node.children.is_empty());
    let NodeDataTypeInternal::Comment(CommentData { value, .. }) = &node.data else {
        panic!()
    };
    assert_eq!(value, "test");
}

#[test]
fn new_text() {
    let node = NodeImpl::new_text(Location::default(), "test");
    assert_eq!(node.id, NodeId::default());
    assert_eq!(node.parent, None);
    assert!(node.children.is_empty());
    let NodeDataTypeInternal::Text(TextData { value }) = &node.data else {
        panic!()
    };
    assert_eq!(value, "test");
}

#[test]
fn type_of() {
    let node = NodeImpl::new_document(Location::default(), QuirksMode::NoQuirks);
    assert_eq!(node.type_of(), NodeType::DocumentNode);
    let node = NodeImpl::new_text(Location::default(), "test");
    assert_eq!(node.type_of(), NodeType::TextNode);
    let node = NodeImpl::new_comment(Location::default(), "test");
    assert_eq!(node.type_of(), NodeType::CommentNode);
    let mut attributes = Attributes::new();
    attributes.insert("id".to_string(), "test".to_string());
    let node = NodeImpl::new_element(Location::default(), "div", Some(HTML_NAMESPACE), attributes);
    assert_eq!(node.type_of(), NodeType::ElementNode);
}

#[test]
fn type_of_node() {
    let node = NodeImpl::new_document(Location::default(), QuirksMode::NoQuirks);
    assert_eq!(node.type_of(), NodeType::DocumentNode);
    let node = NodeImpl::new_text(Location::default(), "test");
    assert_eq!(node.type_of(), NodeType::TextNode);
    let node = NodeImpl::new_comment(Location::default(), "test");
    assert_eq!(node.type_of(), NodeType::CommentNode);
    let mut attributes = Attributes::new();
    attributes.insert("id".to_string(), "test".to_string());
    let node = NodeImpl::new_element(Location::default(), "div", Some(HTML_NAMESPACE), attributes);
    assert_eq!(node.type_of(), NodeType::ElementNode);
}

#[test]
fn new_doctype() {
    let node = NodeImpl::new_doctype(Location::default(), "html", "pub", "sys");
    assert_eq!(node.type_of(), NodeType::DocTypeNode);
    let data = node.get_doctype_data().unwrap();
    assert_eq!(data.name, "html");
    assert_eq!(data.pub_identifier, "pub");
    assert_eq!(data.sys_identifier, "sys");
    assert!(node.get_element_data().is_none());
    assert!(node.get_text_data().is_none());
    assert!(node.get_comment_data().is_none());
}

#[test]
fn default_location_is_the_first_character() {
    assert_eq!(Location::default(), Location::new(1, 1, 0));
    assert_eq!(NodeImpl::new_text(Location::new(3, 4, 50), "x").location(), Location::new(3, 4, 50));
}

#[test]
fn children_are_kept_in_order() {
    let mut node = NodeImpl::new_comment(Location::default(), "c");
    node.push(NodeId(4));
    node.push(NodeId(5));
    node.insert(NodeId(6), 1);
    node.insert(NodeId(4), 3);
    assert_eq!(node.children(), &vec![NodeId(4), NodeId(6), NodeId(5), NodeId(4)]);
    node.remove(NodeId(4));
    assert_eq!(node.children(), &vec![NodeId(6), NodeId(5)]);
    node.remove(NodeId(9));
    assert_eq!(node.children(), &vec![NodeId(6), NodeId(5)]);
}

#[test]
fn setters_change_one_field() {
    let mut node = NodeImpl::new_text(Location::default(), "t");
    assert!(node.is_root());
    assert!(!node.is_registered());
    node.set_id(NodeId(3));
    node.set_parent(Some(NodeId(1)));
    node.set_registered(true);
    assert_eq!(node.id(), NodeId(3));
    assert_eq!(node.parent_id(), Some(NodeId(1)));
    assert!(node.is_registered());
    assert!(!node.is_root());
    assert!(node.is_text_node());
    assert!(!node.is_element_node());
    assert_eq!(node.get_text_data().unwrap().value(), "t");
}

#[test]
fn nodes_are_equal_by_key() {
    let mut a = NodeImpl::new_text(Location::default(), "a");
    let b = NodeImpl::new_comment(Location::default(), "b");
    assert!(a == b);
    a.set_id(NodeId(1));
    assert!(a != b);
}

#[test]
fn copies_keep_the_data() {
    let mut attributes = Attributes::new();
    attributes.insert("id".to_string(), "test".to_string());
    attributes.insert("id".to_string(), "again".to_string());
    attributes.insert("k".to_string(), "v".to_string());
    assert_eq!(attributes.len(), 2);
    let mut node = NodeImpl::new_element(Location::new(2, 2, 9), "div", Some(HTML_NAMESPACE), attributes);
    node.set_id(NodeId(7));
    node.set_parent(Some(NodeId(1)));
    node.push(NodeId(8));
    node.get_element_data_mut().unwrap().classlist.add("c");
    let copy = node.clone();
    assert_eq!(copy.id, NodeId(7));
    assert_eq!(copy.children, vec![NodeId(8)]);
    assert_eq!(copy.data, node.data);
    let fresh = NodeImpl::new_from_node(&node);
    assert_eq!(fresh.id, NodeId::default());
    assert_eq!(fresh.parent, None);
    assert!(fresh.children.is_empty());
    assert!(!fresh.registered);
    assert_eq!(fresh.location, Location::new(2, 2, 9));
    assert_eq!(fresh.data, node.data);
    let data = fresh.get_element_data().unwrap();
    assert_eq!(data.get_attribute("id").unwrap(), "again");
    assert_eq!(data.namespace.as_deref(), Some(HTML_NAMESPACE));
    assert!(data.classlist().contains("c"));
    assert!(!data.classlist().contains("d"));
    assert!(data.get_attribute("x").is_none());
}

#[test]
fn text_can_be_changed_in_place() {
    let mut node = NodeImpl::new_text(Location::default(), "a");
    node.get_text_data_mut().unwrap().value = "b".to_string();
    assert_eq!(node.get_text_data().unwrap().value(), "b");
    assert!(node.get_element_data_mut().is_none());
    let mut element = NodeImpl::new_element(Location::default(), "p", None, Attributes::new());
    assert!(element.get_text_data_mut().is_none());
    assert!(matches!(element.data(), NodeDataTypeInternal::Element(_)));
}
