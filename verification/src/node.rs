//! The nodes of a document and the data they hold.

use vstd::prelude::*;
use crate::text::{
    clone_optional, clone_strings, first_index, lemma_first_index_absent, lemma_first_index_found,
    optional_view, views,
};

verus! {

/// The key of a node in its document. The root has the key 0.
#[derive(Debug, Clone, Copy, PartialEq, Eq, Structural)]
pub struct NodeId(pub usize);

impl NodeId {
    pub fn root() -> (r: NodeId)
        ensures
            r == NodeId(0),
    {
        NodeId(0)
    }

    pub fn as_usize(&self) -> (r: usize)
        ensures
            r == self.0,
    {
        self.0
    }

    pub fn is_root(&self) -> (r: bool)
        ensures
            r == (self.0 == 0),
    {
        self.0 == 0
    }
}

impl Default for NodeId {
    fn default() -> (r: NodeId)
        ensures
            r == NodeId(0),
    {
        NodeId(0)
    }
}

/// A place in the source text.
#[derive(Debug, Clone, Copy, PartialEq, Eq, Structural)]
pub struct Location {
    pub line: usize,
    pub column: usize,
    pub offset: usize,
}

impl Location {
    pub fn new(line: usize, column: usize, offset: usize) -> (r: Location)
        ensures
            r == (Location { line, column, offset }),
    {
        Location { line, column, offset }
    }
}

impl Default for Location {
    fn default() -> (r: Location)
        ensures
            r == (Location { line: 1, column: 1, offset: 0 }),
    {
        Location { line: 1, column: 1, offset: 0 }
    }
}

/// The quirks mode of a document.
#[derive(Debug, Clone, Copy, PartialEq, Eq, Structural)]
pub enum QuirksMode {
    Quirks,
    LimitedQuirks,
    NoQuirks,
}

/// The kinds of node.
#[derive(Debug, Clone, Copy, PartialEq, Eq, Structural)]
pub enum NodeType {
    DocumentNode,
    DocTypeNode,
    TextNode,
    CommentNode,
    ElementNode,
}

/// What a document node holds.
#[derive(Debug, Clone, Copy, PartialEq, Eq, Structural)]
pub struct DocumentData {
    pub quirks_mode: QuirksMode,
}

impl DocumentData {
    pub fn new(quirks_mode: QuirksMode) -> (r: DocumentData)
        ensures
            r.quirks_mode == quirks_mode,
    {
        DocumentData { quirks_mode }
    }
}

/// What a doctype node holds.
#[derive(Debug, PartialEq, Eq)]
pub struct DocTypeData {
    pub name: String,
    pub pub_identifier: String,
    pub sys_identifier: String,
}

/// The mathematical model of [`DocTypeData`].
pub struct DocTypeView {
    pub name: Seq<char>,
    pub pub_identifier: Seq<char>,
    pub sys_identifier: Seq<char>,
}

impl View for DocTypeData {
    type V = DocTypeView;

    open spec fn view(&self) -> DocTypeView {
        DocTypeView {
            name: self.name@,
            pub_identifier: self.pub_identifier@,
            sys_identifier: self.sys_identifier@,
        }
    }
}

impl DocTypeData {
    pub fn new(name: &str, pub_identifier: &str, sys_identifier: &str) -> (r: DocTypeData)
        ensures
            r@ == (DocTypeView {
                name: name@,
                pub_identifier: pub_identifier@,
                sys_identifier: sys_identifier@,
            }),
    {
        DocTypeData {
            name: name.to_owned(),
            pub_identifier: pub_identifier.to_owned(),
            sys_identifier: sys_identifier.to_owned(),
        }
    }
}

impl Clone for DocTypeData {
    fn clone(&self) -> (r: DocTypeData)
        ensures
            r@ == self@,
    {
        DocTypeData {
            name: self.name.clone(),
            pub_identifier: self.pub_identifier.clone(),
            sys_identifier: self.sys_identifier.clone(),
        }
    }
}

/// What a text node holds.
#[derive(Debug, PartialEq, Eq)]
pub struct TextData {
    pub value: String,
}

impl TextData {
    pub fn with_value(value: &str) -> (r: TextData)
        ensures
            r.value@ == value@,
    {
        TextData { value: value.to_owned() }
    }

    pub fn value(&self) -> (r: &String)
        ensures
            r == &self.value,
    {
        &self.value
    }
}

/// What a comment node holds.
#[derive(Debug, PartialEq, Eq)]
pub struct CommentData {
    pub value: String,
}

impl CommentData {
    pub fn with_value(value: &str) -> (r: CommentData)
        ensures
            r.value@ == value@,
    {
        CommentData { value: value.to_owned() }
    }

    pub fn value(&self) -> (r: &String)
        ensures
            r == &self.value,
    {
        &self.value
    }
}

/// One attribute of an element.
#[derive(Debug, PartialEq, Eq)]
pub struct Attribute {
    pub name: String,
    pub value: String,
}

/// The mathematical model of [`Attribute`].
pub struct AttributeView {
    pub name: Seq<char>,
    pub value: Seq<char>,
}

impl View for Attribute {
    type V = AttributeView;

    open spec fn view(&self) -> AttributeView {
        AttributeView { name: self.name@, value: self.value@ }
    }
}

/// The names of a list of attributes, in its order.
pub open spec fn attribute_names(attrs: Seq<AttributeView>) -> Seq<Seq<char>> {
    attrs.map_values(|a: AttributeView| a.name)
}

/// The value that `attrs` gives to `name`.
pub open spec fn attribute_value(attrs: Seq<AttributeView>, name: Seq<char>) -> Option<Seq<char>> {
    match first_index(attribute_names(attrs), name) {
        Some(i) => Some(attrs[i].value),
        None => None,
    }
}

/// `attrs` after `name` has been given `value`: an attribute of that name
/// keeps its place and gets the value, a new one goes to the end.
pub open spec fn with_attribute(
    attrs: Seq<AttributeView>,
    name: Seq<char>,
    value: Seq<char>,
) -> Seq<AttributeView> {
    match first_index(attribute_names(attrs), name) {
        Some(i) => attrs.update(i, AttributeView { name, value }),
        None => attrs.push(AttributeView { name, value }),
    }
}

/// The attributes of an element, in the order in which their names were
/// first set.
#[derive(Debug, PartialEq, Eq)]
pub struct Attributes {
    pub entries: Vec<Attribute>,
}

impl View for Attributes {
    type V = Seq<AttributeView>;

    open spec fn view(&self) -> Seq<AttributeView> {
        views(self.entries@)
    }
}

impl Attributes {
    pub fn new() -> (r: Attributes)
        ensures
            r@ == Seq::<AttributeView>::empty(),
    {
        let r = Attributes { entries: Vec::new() };
        assert(r@ =~= Seq::<AttributeView>::empty());
        r
    }

    pub fn len(&self) -> (r: usize)
        ensures
            r == self@.len(),
    {
        self.entries.len()
    }

    pub fn is_empty(&self) -> (r: bool)
        ensures
            r == (self@.len() == 0),
    {
        self.entries.len() == 0
    }

    fn position(&self, name: &String) -> (r: Option<usize>)
        ensures
            match r {
                Some(i) => first_index(attribute_names(self@), name@) == Some(i as int) && i < self@.len(),
                None => first_index(attribute_names(self@), name@) is None,
            },
    {
        let ghost names = attribute_names(self@);
        let mut i: usize = 0;
        while i < self.entries.len()
            invariant
                names == attribute_names(self@),
                0 <= i <= self.entries.len(),
                forall|j: int| 0 <= j < i ==> names[j] != name@,
            decreases self.entries.len() - i,
        {
            if self.entries[i].name == *name {
                proof {
                    assert(names[i as int] == self.entries[i as int]@.name);
                    lemma_first_index_found(names, name@, i as int);
                }
                return Some(i);
            }
            i += 1;
        }
        proof {
            lemma_first_index_absent(names, name@);
        }
        None
    }

    /// Gives the attribute `name` the value `value`.
    pub fn insert(&mut self, name: String, value: String)
        ensures
            final(self)@ == with_attribute(old(self)@, name@, value@),
    {
        let ghost before = self@;
        match self.position(&name) {
            Some(i) => {
                self.entries[i] = Attribute { name, value };
                assert(self@ =~= with_attribute(before, name@, value@));
            },
            None => {
                self.entries.push(Attribute { name, value });
                assert(self@ =~= with_attribute(before, name@, value@));
            },
        }
    }

    pub fn contains_key(&self, name: &str) -> (r: bool)
        ensures
            r == (attribute_value(self@, name@) is Some),
    {
        let key = name.to_owned();
        self.position(&key).is_some()
    }

    pub fn get(&self, name: &str) -> (r: Option<&String>)
        ensures
            match r {
                Some(v) => attribute_value(self@, name@) == Some(v@),
                None => attribute_value(self@, name@) is None,
            },
    {
        let key = name.to_owned();
        match self.position(&key) {
            Some(i) => {
                assert(self@[i as int].value == self.entries[i as int].value@);
                Some(&self.entries[i].value)
            },
            None => None,
        }
    }
}

impl Clone for Attributes {
    fn clone(&self) -> (r: Attributes)
        ensures
            r@ == self@,
    {
        let mut out: Vec<Attribute> = Vec::new();
        let mut i: usize = 0;
        while i < self.entries.len()
            invariant
                0 <= i <= self.entries.len(),
                out.len() == i,
                forall|k: int| 0 <= k < i ==> out[k]@ == self.entries[k]@,
            decreases self.entries.len() - i,
        {
            let a = &self.entries[i];
            out.push(Attribute { name: a.name.clone(), value: a.value.clone() });
            i += 1;
        }
        let r = Attributes { entries: out };
        assert(r@ =~= self@);
        r
    }
}

/// The class names of an element.
#[derive(Debug, PartialEq, Eq)]
pub struct ClassList {
    pub classes: Vec<String>,
}

impl View for ClassList {
    type V = Seq<Seq<char>>;

    open spec fn view(&self) -> Seq<Seq<char>> {
        views(self.classes@)
    }
}

impl ClassList {
    pub fn new() -> (r: ClassList)
        ensures
            r@ == Seq::<Seq<char>>::empty(),
    {
        let r = ClassList { classes: Vec::new() };
        assert(r@ =~= Seq::<Seq<char>>::empty());
        r
    }

    pub fn contains(&self, class_name: &str) -> (r: bool)
        ensures
            r == self@.contains(class_name@),
    {
        let key = class_name.to_owned();
        let found = crate::text::find_name(&self.classes, &key);
        proof {
            crate::text::lemma_first_index_sound(self@, class_name@);
        }
        found.is_some()
    }

    /// Adds a class name unless the list holds it already.
    pub fn add(&mut self, class_name: &str)
        ensures
            final(self)@ == if old(self)@.contains(class_name@) {
                old(self)@
            } else {
                old(self)@.push(class_name@)
            },
    {
        if !self.contains(class_name) {
            let ghost before = self@;
            self.classes.push(class_name.to_owned());
            assert(self@ =~= before.push(class_name@));
        }
    }
}

impl Default for ClassList {
    fn default() -> (r: ClassList)
        ensures
            r@ == Seq::<Seq<char>>::empty(),
    {
        ClassList::new()
    }
}

impl Clone for ClassList {
    fn clone(&self) -> (r: ClassList)
        ensures
            r@ == self@,
    {
        ClassList { classes: clone_strings(&self.classes) }
    }
}

/// What an element node holds.
#[derive(Debug, PartialEq, Eq)]
pub struct ElementData {
    pub name: String,
    pub namespace: Option<String>,
    pub attributes: Attributes,
    pub classlist: ClassList,
}

/// The mathematical model of [`ElementData`].
pub struct ElementView {
    pub name: Seq<char>,
    pub namespace: Option<Seq<char>>,
    pub attributes: Seq<AttributeView>,
    pub classes: Seq<Seq<char>>,
}

impl View for ElementData {
    type V = ElementView;

    open spec fn view(&self) -> ElementView {
        ElementView {
            name: self.name@,
            namespace: optional_view(self.namespace),
            attributes: self.attributes@,
            classes: self.classlist@,
        }
    }
}

impl ElementData {
    pub fn new(name: &str, namespace: Option<&str>, attributes: Attributes, classlist: ClassList) -> (r:
        ElementData)
        ensures
            r@ == (ElementView {
                name: name@,
                namespace: match namespace {
                    Some(n) => Some(n@),
                    None => None,
                },
                attributes: attributes@,
                classes: classlist@,
            }),
    {
        let namespace = match namespace {
            Some(n) => Some(n.to_owned()),
            None => None,
        };
        ElementData { name: name.to_owned(), namespace, attributes, classlist }
    }

    pub fn name(&self) -> (r: &String)
        ensures
            r == &self.name,
    {
        &self.name
    }

    pub fn attributes(&self) -> (r: &Attributes)
        ensures
            r == &self.attributes,
    {
        &self.attributes
    }

    pub fn classlist(&self) -> (r: &ClassList)
        ensures
            r == &self.classlist,
    {
        &self.classlist
    }

    pub fn get_attribute(&self, name: &str) -> (r: Option<&String>)
        ensures
            match r {
                Some(v) => attribute_value(self@.attributes, name@) == Some(v@),
                None => attribute_value(self@.attributes, name@) is None,
            },
    {
        self.attributes.get(name)
    }
}

impl Clone for ElementData {
    fn clone(&self) -> (r: ElementData)
        ensures
            r@ == self@,
    {
        ElementData {
            name: self.name.clone(),
            namespace: clone_optional(&self.namespace),
            attributes: self.attributes.clone(),
            classlist: self.classlist.clone(),
        }
    }
}

/// What a node holds, by the kind of node.
#[derive(Debug, PartialEq, Eq)]
pub enum NodeDataTypeInternal {
    Document(DocumentData),
    DocType(DocTypeData),
    Text(TextData),
    Comment(CommentData),
    Element(ElementData),
}

/// The mathematical model of [`NodeDataTypeInternal`].
pub enum NodeDataView {
    Document(QuirksMode),
    DocType(DocTypeView),
    Text(Seq<char>),
    Comment(Seq<char>),
    Element(ElementView),
}

impl View for NodeDataTypeInternal {
    type V = NodeDataView;

    open spec fn view(&self) -> NodeDataView {
        match self {
            NodeDataTypeInternal::Document(d) => NodeDataView::Document(d.quirks_mode),
            NodeDataTypeInternal::DocType(d) => NodeDataView::DocType(d@),
            NodeDataTypeInternal::Text(d) => NodeDataView::Text(d.value@),
            NodeDataTypeInternal::Comment(d) => NodeDataView::Comment(d.value@),
            NodeDataTypeInternal::Element(d) => NodeDataView::Element(d@),
        }
    }
}

impl Clone for NodeDataTypeInternal {
    fn clone(&self) -> (r: NodeDataTypeInternal)
        ensures
            r@ == self@,
    {
        match self {
            NodeDataTypeInternal::Document(d) => NodeDataTypeInternal::Document(
                DocumentData { quirks_mode: d.quirks_mode },
            ),
            NodeDataTypeInternal::DocType(d) => NodeDataTypeInternal::DocType(d.clone()),
            NodeDataTypeInternal::Text(d) => NodeDataTypeInternal::Text(TextData { value: d.value.clone() }),
            NodeDataTypeInternal::Comment(d) => NodeDataTypeInternal::Comment(
                CommentData { value: d.value.clone() },
            ),
            NodeDataTypeInternal::Element(d) => NodeDataTypeInternal::Element(d.clone()),
        }
    }
}

/// The kind of node that `data` belongs to.
pub open spec fn kind_of(data: NodeDataView) -> NodeType {
    match data {
        NodeDataView::Document(_) => NodeType::DocumentNode,
        NodeDataView::DocType(_) => NodeType::DocTypeNode,
        NodeDataView::Text(_) => NodeType::TextNode,
        NodeDataView::Comment(_) => NodeType::CommentNode,
        NodeDataView::Element(_) => NodeType::ElementNode,
    }
}

/// A node of the document tree. Parent and children are keys into the
/// document, not owned nodes.
#[derive(Debug)]
pub struct NodeImpl {
    pub id: NodeId,
    pub parent: Option<NodeId>,
    pub children: Vec<NodeId>,
    pub data: NodeDataTypeInternal,
    pub registered: bool,
    pub location: Location,
}

/// The mathematical model of [`NodeImpl`].
pub struct NodeView {
    pub id: NodeId,
    pub parent: Option<NodeId>,
    pub children: Seq<NodeId>,
    pub data: NodeDataView,
    pub registered: bool,
    pub location: Location,
}

impl View for NodeImpl {
    type V = NodeView;

    open spec fn view(&self) -> NodeView {
        NodeView {
            id: self.id,
            parent: self.parent,
            children: self.children@,
            data: self.data@,
            registered: self.registered,
            location: self.location,
        }
    }
}

/// A node that is attached to nothing: key 0, no parent, no children, not
/// registered.
pub open spec fn detached(location: Location, data: NodeDataView) -> NodeView {
    NodeView {
        id: NodeId(0),
        parent: None,
        children: Seq::empty(),
        data,
        registered: false,
        location,
    }
}

/// `children` without the key `id`, the others in their order.
pub open spec fn without_child(children: Seq<NodeId>, id: NodeId) -> Seq<NodeId> {
    children.filter(|c: NodeId| c != id)
}

impl NodeImpl {
    /// A detached node holding `data`.
    pub fn new(location: Location, data: NodeDataTypeInternal) -> (r: NodeImpl)
        ensures
            r@ == detached(location, data@),
    {
        NodeImpl { id: NodeId(0), parent: None, children: Vec::new(), data, registered: false, location }
    }

    pub fn new_document(location: Location, quirks_mode: QuirksMode) -> (r: NodeImpl)
        ensures
            r@ == detached(location, NodeDataView::Document(quirks_mode)),
    {
        NodeImpl::new(location, NodeDataTypeInternal::Document(DocumentData::new(quirks_mode)))
    }

    pub fn new_doctype(location: Location, name: &str, pub_identifier: &str, sys_identifier: &str) -> (r:
        NodeImpl)
        ensures
            r@ == detached(
                location,
                NodeDataView::DocType(
                    DocTypeView {
                        name: name@,
                        pub_identifier: pub_identifier@,
                        sys_identifier: sys_identifier@,
                    },
                ),
            ),
    {
        NodeImpl::new(
            location,
            NodeDataTypeInternal::DocType(DocTypeData::new(name, pub_identifier, sys_identifier)),
        )
    }

    /// A detached element with the given name, namespace and attributes and
    /// without classes.
    pub fn new_element(location: Location, name: &str, namespace: Option<&str>, attributes: Attributes) -> (r:
        NodeImpl)
        ensures
            r@ == detached(
                location,
                NodeDataView::Element(
                    ElementView {
                        name: name@,
                        namespace: match namespace {
                            Some(n) => Some(n@),
                            None => None,
                        },
                        attributes: attributes@,
                        classes: Seq::empty(),
                    },
                ),
            ),
    {
        NodeImpl::new(
            location,
            NodeDataTypeInternal::Element(ElementData::new(name, namespace, attributes, ClassList::default())),
        )
    }

    pub fn new_comment(location: Location, value: &str) -> (r: NodeImpl)
        ensures
            r@ == detached(location, NodeDataView::Comment(value@)),
    {
        NodeImpl::new(location, NodeDataTypeInternal::Comment(CommentData::with_value(value)))
    }

    pub fn new_text(location: Location, value: &str) -> (r: NodeImpl)
        ensures
            r@ == detached(location, NodeDataView::Text(value@)),
    {
        NodeImpl::new(location, NodeDataTypeInternal::Text(TextData::with_value(value)))
    }

    /// A detached node with the data and the location of `org_node`.
    pub fn new_from_node(org_node: &NodeImpl) -> (r: NodeImpl)
        ensures
            r@ == detached(org_node.location, org_node@.data),
    {
        NodeImpl {
            id: NodeId(0),
            parent: None,
            children: Vec::new(),
            data: org_node.data.clone(),
            registered: false,
            location: org_node.location,
        }
    }

    pub fn id(&self) -> (r: NodeId)
        ensures
            r == self.id,
    {
        self.id
    }

    pub fn set_id(&mut self, id: NodeId)
        ensures
            *final(self) == (NodeImpl { id, ..*old(self) }),
    {
        self.id = id;
    }

    pub fn location(&self) -> (r: Location)
        ensures
            r == self.location,
    {
        self.location
    }

    pub fn parent_id(&self) -> (r: Option<NodeId>)
        ensures
            r == self.parent,
    {
        self.parent
    }

    pub fn set_parent(&mut self, parent_id: Option<NodeId>)
        ensures
            *final(self) == (NodeImpl { parent: parent_id, ..*old(self) }),
    {
        self.parent = parent_id;
    }

    pub fn set_registered(&mut self, registered: bool)
        ensures
            *final(self) == (NodeImpl { registered, ..*old(self) }),
    {
        self.registered = registered;
    }

    pub fn is_registered(&self) -> (r: bool)
        ensures
            r == self.registered,
    {
        self.registered
    }

    pub fn is_root(&self) -> (r: bool)
        ensures
            r == (self.parent is None),
    {
        self.parent.is_none()
    }

    pub fn children(&self) -> (r: &Vec<NodeId>)
        ensures
            r == &self.children,
    {
        &self.children
    }

    pub fn type_of(&self) -> (r: NodeType)
        ensures
            r == kind_of(self@.data),
    {
        match self.data {
            NodeDataTypeInternal::Document(_) => NodeType::DocumentNode,
            NodeDataTypeInternal::DocType(_) => NodeType::DocTypeNode,
            NodeDataTypeInternal::Text(_) => NodeType::TextNode,
            NodeDataTypeInternal::Comment(_) => NodeType::CommentNode,
            NodeDataTypeInternal::Element(_) => NodeType::ElementNode,
        }
    }

    pub fn is_element_node(&self) -> (r: bool)
        ensures
            r == (self@.data is Element),
    {
        self.type_of() == NodeType::ElementNode
    }

    pub fn get_element_data(&self) -> (r: Option<&ElementData>)
        ensures
            match r {
                Some(d) => self.data == NodeDataTypeInternal::Element(*d),
                None => !(self.data is Element),
            },
    {
        if let NodeDataTypeInternal::Element(data) = &self.data {
            return Some(data);
        }
        None
    }

    pub fn get_element_data_mut(&mut self) -> (r: Option<&mut ElementData>)
        ensures
            match r {
                Some(d) => old(self).data == NodeDataTypeInternal::Element(*d) && *final(self) == (NodeImpl {
                    data: NodeDataTypeInternal::Element(*final(d)),
                    ..*old(self)
                }),
                None => !(old(self).data is Element) && *final(self) == *old(self),
            },
    {
        if let NodeDataTypeInternal::Element(data) = &mut self.data {
            return Some(data);
        }
        None
    }

    pub fn get_text_data_mut(&mut self) -> (r: Option<&mut TextData>)
        ensures
            match r {
                Some(d) => old(self).data == NodeDataTypeInternal::Text(*d) && *final(self) == (NodeImpl {
                    data: NodeDataTypeInternal::Text(*final(d)),
                    ..*old(self)
                }),
                None => !(old(self).data is Text) && *final(self) == *old(self),
            },
    {
        if let NodeDataTypeInternal::Text(data) = &mut self.data {
            return Some(data);
        }
        None
    }

    pub fn is_text_node(&self) -> (r: bool)
        ensures
            r == (self@.data is Text),
    {
        matches!(self.data, NodeDataTypeInternal::Text(_))
    }

    pub fn get_text_data(&self) -> (r: Option<&TextData>)
        ensures
            match r {
                Some(d) => self.data == NodeDataTypeInternal::Text(*d),
                None => !(self.data is Text),
            },
    {
        if let NodeDataTypeInternal::Text(data) = &self.data {
            return Some(data);
        }
        None
    }

    pub fn get_comment_data(&self) -> (r: Option<&CommentData>)
        ensures
            match r {
                Some(d) => self.data == NodeDataTypeInternal::Comment(*d),
                None => !(self.data is Comment),
            },
    {
        if let NodeDataTypeInternal::Comment(data) = &self.data {
            return Some(data);
        }
        None
    }

    pub fn get_doctype_data(&self) -> (r: Option<&DocTypeData>)
        ensures
            match r {
                Some(d) => self.data == NodeDataTypeInternal::DocType(*d),
                None => !(self.data is DocType),
            },
    {
        if let NodeDataTypeInternal::DocType(data) = &self.data {
            return Some(data);
        }
        None
    }

    pub fn data(&self) -> (r: &NodeDataTypeInternal)
        ensures
            r == &self.data,
    {
        &self.data
    }

    /// Takes the key `node_id` out of the children, wherever it stands.
    pub fn remove(&mut self, node_id: NodeId)
        ensures
            final(self)@ == (NodeView { children: without_child(old(self)@.children, node_id), ..old(self)@ }),
    {
        let ghost before = self.children@;
        let mut kept: Vec<NodeId> = Vec::new();
        let mut i: usize = 0;
        proof {
            reveal(Seq::filter);
            assert(before.take(0) =~= Seq::<NodeId>::empty());
        }
        while i < self.children.len()
            invariant
                before == self.children@,
                0 <= i <= self.children.len(),
                kept@ == without_child(before.take(i as int), node_id),
            decreases self.children.len() - i,
        {
            let c = self.children[i];
            proof {
                reveal(Seq::filter);
                assert(before.take(i + 1).drop_last() =~= before.take(i as int));
            }
            if c != node_id {
                kept.push(c);
            }
            i += 1;
        }
        proof {
            assert(before.take(i as int) =~= before);
        }
        self.children = kept;
    }

    /// Puts the key `node_id` among the children at place `idx`.
    pub fn insert(&mut self, node_id: NodeId, idx: usize)
        requires
            idx <= old(self).children.len(),
        ensures
            final(self)@ == (NodeView {
                children: old(self)@.children.insert(idx as int, node_id),
                ..old(self)@
            }),
    {
        self.children.insert(idx, node_id);
    }

    /// Appends the key `node_id` to the children.
    pub fn push(&mut self, node_id: NodeId)
        ensures
            final(self)@ == (NodeView { children: old(self)@.children.push(node_id), ..old(self)@ }),
    {
        self.children.push(node_id);
    }
}

impl Clone for NodeImpl {
    fn clone(&self) -> (r: NodeImpl)
        ensures
            r@ == self@,
    {
        let mut children: Vec<NodeId> = Vec::new();
        let mut i: usize = 0;
        while i < self.children.len()
            invariant
                0 <= i <= self.children.len(),
                children@ == self.children@.take(i as int),
            decreases self.children.len() - i,
        {
            children.push(self.children[i]);
            assert(self.children@.take(i + 1) =~= self.children@.take(i as int).push(self.children@[i as int]));
            i += 1;
        }
        assert(self.children@.take(i as int) =~= self.children@);
        NodeImpl {
            id: self.id,
            parent: self.parent,
            children,
            data: self.data.clone(),
            registered: self.registered,
            location: self.location,
        }
    }
}

impl PartialEq for NodeImpl {
    fn eq(&self, other: &NodeImpl) -> (r: bool) {
        self.id == other.id
    }
}

impl vstd::std_specs::cmp::PartialEqSpecImpl for NodeImpl {
    open spec fn obeys_eq_spec() -> bool {
        true
    }

    open spec fn eq_spec(&self, other: &NodeImpl) -> bool {
        self.id == other.id
    }
}

} // verus!
