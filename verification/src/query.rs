//! Queries against a document: nodes in tree order that meet conditions.

use vstd::prelude::*;
use crate::document::{Document, DocumentView};
use crate::node::{attribute_value, NodeDataTypeInternal, NodeDataView, NodeId, NodeView};
use crate::text::views;

verus! {

/// How far a query searches.
#[derive(Debug, Clone, Copy, PartialEq, Eq, Structural)]
pub enum SearchType {
    Uninitialized,
    FindFirst,
    FindAll,
}

/// One condition of a query.
#[derive(Debug, PartialEq, Eq)]
pub enum Condition {
    EqualsTag(String),
    EqualsId(String),
    ContainsClass(String),
    ContainsAttribute(String),
    ContainsChildTag(String),
    HasParentTag(String),
}

/// The mathematical model of [`Condition`].
pub enum ConditionView {
    EqualsTag(Seq<char>),
    EqualsId(Seq<char>),
    ContainsClass(Seq<char>),
    ContainsAttribute(Seq<char>),
    ContainsChildTag(Seq<char>),
    HasParentTag(Seq<char>),
}

impl View for Condition {
    type V = ConditionView;

    open spec fn view(&self) -> ConditionView {
        match self {
            Condition::EqualsTag(s) => ConditionView::EqualsTag(s@),
            Condition::EqualsId(s) => ConditionView::EqualsId(s@),
            Condition::ContainsClass(s) => ConditionView::ContainsClass(s@),
            Condition::ContainsAttribute(s) => ConditionView::ContainsAttribute(s@),
            Condition::ContainsChildTag(s) => ConditionView::ContainsChildTag(s@),
            Condition::HasParentTag(s) => ConditionView::HasParentTag(s@),
        }
    }
}

/// A query: nodes are found that meet every condition.
#[derive(Debug, PartialEq, Eq)]
pub struct Query {
    pub search_type: SearchType,
    pub conditions: Vec<Condition>,
}

/// What a query can fail with.
#[derive(Debug, PartialEq, Eq)]
pub enum Error {
    Query(String),
}

impl Error {
    /// The message of the error.
    pub fn message(&self) -> (r: &String)
        ensures
            *self == Error::Query(*r),
    {
        match self {
            Error::Query(m) => m,
        }
    }
}

/// The node is an element with the tag `tag`.
pub open spec fn is_element_named(data: NodeDataView, tag: Seq<char>) -> bool {
    match data {
        NodeDataView::Element(el) => el.name == tag,
        _ => false,
    }
}

/// The child at place `k` of the node `id` is an element with the tag `tag`.
pub open spec fn child_is_named(doc: DocumentView, id: NodeId, k: int, tag: Seq<char>) -> bool {
    &&& 0 <= k < doc.nodes[id.0 as int].children.len()
    &&& doc.nodes[id.0 as int].children[k].0 < doc.nodes.len()
    &&& is_element_named(doc.nodes[doc.nodes[id.0 as int].children[k].0 as int].data, tag)
}

/// Some child of the node `id` is an element with the tag `tag`.
pub open spec fn has_child_named(doc: DocumentView, id: NodeId, tag: Seq<char>) -> bool {
    id.0 < doc.nodes.len() && exists|k: int| child_is_named(doc, id, k, tag)
}

/// Whether a node of the document meets a condition. A key that is no node
/// of the document meets none; only elements meet a condition on tag, id,
/// class or attribute.
pub open spec fn condition_holds(doc: DocumentView, id: NodeId, condition: ConditionView) -> bool {
    id.0 < doc.nodes.len() && {
        let node = doc.nodes[id.0 as int];
        match condition {
            ConditionView::EqualsTag(tag) => is_element_named(node.data, tag),
            ConditionView::EqualsId(wanted) => match node.data {
                NodeDataView::Element(el) => attribute_value(el.attributes, "id"@) == Some(wanted),
                _ => false,
            },
            ConditionView::ContainsClass(class) => match node.data {
                NodeDataView::Element(el) => el.classes.contains(class),
                _ => false,
            },
            ConditionView::ContainsAttribute(attribute) => match node.data {
                NodeDataView::Element(el) => attribute_value(el.attributes, attribute) is Some,
                _ => false,
            },
            ConditionView::ContainsChildTag(tag) => has_child_named(doc, node.id, tag),
            ConditionView::HasParentTag(tag) => match node.parent {
                Some(p) => p.0 < doc.nodes.len() && is_element_named(doc.nodes[p.0 as int].data, tag),
                None => false,
            },
        }
    }
}

/// Whether a node meets every condition.
pub open spec fn meets_all(doc: DocumentView, id: NodeId, conditions: Seq<ConditionView>) -> bool {
    forall|k: int| 0 <= k < conditions.len() ==> condition_holds(doc, id, #[trigger] conditions[k])
}

/// The node `id` and all below it in tree order: a node before its children,
/// the children in their order. `n` is the number of nodes.
pub open spec fn subtree_order(nodes: Seq<NodeView>, n: nat, id: int) -> Seq<NodeId>
    decreases n - id, 1nat, 0nat,
{
    if 0 <= id < n && id < nodes.len() {
        seq![NodeId(id as usize)] + children_order(nodes, n, nodes[id].children, id, 0)
    } else {
        Seq::empty()
    }
}

/// The subtrees of the children of `parent` from place `k` on, in order. A
/// key that is no node after `parent` is passed over.
pub open spec fn children_order(nodes: Seq<NodeView>, n: nat, children: Seq<NodeId>, parent: int, k: int) -> Seq<
    NodeId,
>
    decreases n - parent, 0nat, children.len() - k,
{
    if 0 <= k < children.len() {
        let c = children[k].0 as int;
        let head = if parent < c < n {
            subtree_order(nodes, n, c)
        } else {
            Seq::empty()
        };
        head + children_order(nodes, n, children, parent, k + 1)
    } else {
        Seq::empty()
    }
}

/// The nodes of the document in tree order, from the root.
pub open spec fn document_order(doc: DocumentView) -> Seq<NodeId> {
    subtree_order(doc.nodes, doc.nodes.len(), 0)
}

/// The keys of `order` whose nodes meet every condition, in order.
pub open spec fn matching(order: Seq<NodeId>, doc: DocumentView, conditions: Seq<ConditionView>) -> Seq<NodeId>
    decreases order.len(),
{
    if order.len() == 0 {
        Seq::empty()
    } else if meets_all(doc, order[0], conditions) {
        seq![order[0]] + matching(order.drop_first(), doc, conditions)
    } else {
        matching(order.drop_first(), doc, conditions)
    }
}

/// What a query finds: every node in tree order that meets the conditions,
/// or only the first of them.
pub open spec fn found_by(doc: DocumentView, search_type: SearchType, conditions: Seq<ConditionView>) -> Seq<
    NodeId,
> {
    let all = matching(document_order(doc), doc, conditions);
    if search_type == SearchType::FindFirst && all.len() > 0 {
        seq![all[0]]
    } else {
        all
    }
}

fn collect_order(doc: &Document, n: usize, id: usize, out: &mut Vec<NodeId>)
    requires
        n == doc@.nodes.len(),
    ensures
        final(out)@ == old(out)@ + subtree_order(doc@.nodes, n as nat, id as int),
    decreases n - id,
{
    let ghost start = out@;
    let node = match doc.node_by_id(NodeId(id)) {
        Some(node) => node,
        None => {
            assert(out@ + Seq::<NodeId>::empty() =~= out@);
            return ;
        },
    };
    out.push(NodeId(id));
    let children = &node.children;
    let ghost goal = start + subtree_order(doc@.nodes, n as nat, id as int);
    let mut k: usize = 0;
    assert(out@ + children_order(doc@.nodes, n as nat, children@, id as int, 0) =~= goal);
    while k < children.len()
        invariant
            0 <= k <= children.len(),
            n == doc@.nodes.len(),
            id < n,
            out@ + children_order(doc@.nodes, n as nat, children@, id as int, k as int) == goal,
        decreases children.len() - k,
    {
        let c = children[k].0;
        let ghost so_far = out@;
        let ghost head = if id < c && c < n {
            subtree_order(doc@.nodes, n as nat, c as int)
        } else {
            Seq::empty()
        };
        if id < c && c < n {
            collect_order(doc, n, c, out);
        }
        proof {
            assert(out@ =~= so_far + head);
            assert((so_far + head) + children_order(doc@.nodes, n as nat, children@, id as int, k + 1) =~= so_far
                + (head + children_order(doc@.nodes, n as nat, children@, id as int, k + 1)));
        }
        k += 1;
    }
    assert(out@ + Seq::<NodeId>::empty() =~= out@);
}

/// The keys of the nodes of a document in tree order, from the root.
pub fn tree_order(doc: &Document) -> (r: Vec<NodeId>)
    ensures
        r@ == document_order(doc@),
{
    let mut out: Vec<NodeId> = Vec::new();
    collect_order(doc, doc.len(), 0, &mut out);
    assert(Seq::<NodeId>::empty() + document_order(doc@) =~= document_order(doc@));
    out
}

/// Queries against a document.
#[derive(Debug)]
pub struct DocumentQuery;

impl DocumentQuery {
    /// Performs a query against the document. A query whose search type is
    /// uninitialized is an error; any other returns the nodes that meet all
    /// its conditions, in tree order, or only the first of them.
    pub fn query(doc: &Document, query: &Query) -> (r: Result<Vec<NodeId>, Error>)
        ensures
            r is Err <==> query.search_type == SearchType::Uninitialized,
            match r {
                Ok(found) => found@ == found_by(doc@, query.search_type, views(query.conditions@)),
                Err(Error::Query(message)) => message@ == "Query predicate is uninitialized"@,
            },
    {
        if query.search_type == SearchType::Uninitialized {
            return Err(Error::Query("Query predicate is uninitialized".to_owned()));
        }
        let order = tree_order(doc);
        let ghost conditions = views(query.conditions@);
        let ghost all = matching(order@, doc@, conditions);
        let mut found_ids: Vec<NodeId> = Vec::new();
        let mut i: usize = 0;
        assert(order@.skip(0) =~= order@);
        assert(found_ids@ + all =~= all);
        while i < order.len()
            invariant
                0 <= i <= order.len(),
                conditions == views(query.conditions@),
                query.search_type != SearchType::Uninitialized,
                order@ == document_order(doc@),
                all == matching(order@, doc@, conditions),
                found_ids@ + matching(order@.skip(i as int), doc@, conditions) == all,
                query.search_type == SearchType::FindFirst ==> found_ids@.len() == 0,
            decreases order.len() - i,
        {
            let current_node_id = order[i];
            let ghost rest = order@.skip(i as int);
            proof {
                assert(rest[0] == current_node_id);
                assert(rest.drop_first() =~= order@.skip(i + 1));
            }
            let mut predicate_result: bool = true;
            let mut k: usize = 0;
            while k < query.conditions.len()
                invariant
                    0 <= k <= query.conditions.len(),
                    conditions == views(query.conditions@),
                    predicate_result ==> forall|j: int|
                        0 <= j < k ==> condition_holds(doc@, current_node_id, #[trigger] conditions[j]),
                    !predicate_result ==> !meets_all(doc@, current_node_id, conditions),
                decreases query.conditions.len() - k,
            {
                if predicate_result {
                    assert(conditions[k as int] == query.conditions[k as int]@);
                    if !DocumentQuery::matches_query_condition(doc, &current_node_id, &query.conditions[k]) {
                        predicate_result = false;
                    }
                }
                k += 1;
            }
            assert(predicate_result == meets_all(doc@, current_node_id, conditions));
            if predicate_result {
                let ghost before = found_ids@;
                found_ids.push(current_node_id);
                proof {
                    assert((before + seq![current_node_id]) + matching(order@.skip(i + 1), doc@, conditions)
                        =~= before + (seq![current_node_id] + matching(
                        order@.skip(i + 1),
                        doc@,
                        conditions,
                    )));
                }
                if query.search_type == SearchType::FindFirst {
                    assert(found_ids@ =~= seq![all[0]]);
                    return Ok(found_ids);
                }
            }
            i += 1;
        }
        proof {
            assert(order@.skip(i as int) =~= Seq::<NodeId>::empty());
            assert(found_ids@ + Seq::<NodeId>::empty() =~= found_ids@);
        }
        Ok(found_ids)
    }

    /// Whether some child of a node is an element with the tag `tag`.
    pub fn contains_child_tag(doc: &Document, node_id: NodeId, tag: &str) -> (r: bool)
        ensures
            r == has_child_named(doc@, node_id, tag@),
    {
        let wanted = tag.to_owned();
        if let Some(node) = doc.node_by_id(node_id) {
            let children = &node.children;
            let mut k: usize = 0;
            while k < children.len()
                invariant
                    0 <= k <= children.len(),
                    wanted@ == tag@,
                    node_id.0 < doc@.nodes.len(),
                    children@ == doc@.nodes[node_id.0 as int].children,
                    forall|j: int| 0 <= j < k ==> !child_is_named(doc@, node_id, j, tag@),
                decreases children.len() - k,
            {
                if let Some(child) = doc.node_by_id(children[k]) {
                    if let NodeDataTypeInternal::Element(data) = &child.data {
                        if data.name == wanted {
                            assert(child_is_named(doc@, node_id, k as int, tag@));
                            return true;
                        }
                    }
                }
                k += 1;
            }
        }
        false
    }

    /// Whether a node of the document meets a condition.
    pub fn matches_query_condition(doc: &Document, current_node_id: &NodeId, condition: &Condition) -> (r: bool)
        ensures
            r == condition_holds(doc@, *current_node_id, condition@),
    {
        let current_node = match doc.node_by_id(*current_node_id) {
            Some(node) => node,
            None => {
                return false;
            },
        };
        match condition {
            Condition::EqualsTag(tag) => {
                match &current_node.data {
                    NodeDataTypeInternal::Element(data) => data.name == *tag,
                    _ => false,
                }
            },
            Condition::EqualsId(id) => {
                match &current_node.data {
                    NodeDataTypeInternal::Element(data) => match data.attributes.get("id") {
                        Some(id_attr) => *id_attr == *id,
                        None => false,
                    },
                    _ => false,
                }
            },
            Condition::ContainsClass(class_name) => {
                match &current_node.data {
                    NodeDataTypeInternal::Element(data) => data.classlist.contains(class_name.as_str()),
                    _ => false,
                }
            },
            Condition::ContainsAttribute(attribute) => {
                match &current_node.data {
                    NodeDataTypeInternal::Element(data) => data.attributes.contains_key(attribute.as_str()),
                    _ => false,
                }
            },
            Condition::ContainsChildTag(child_tag) => DocumentQuery::contains_child_tag(
                doc,
                current_node.id,
                child_tag.as_str(),
            ),
            Condition::HasParentTag(parent_tag) => {
                match current_node.parent {
                    Some(parent_id) => match doc.node_by_id(parent_id) {
                        Some(parent) => match &parent.data {
                            NodeDataTypeInternal::Element(data) => data.name == *parent_tag,
                            _ => false,
                        },
                        None => false,
                    },
                    None => false,
                }
            },
        }
    }
}

} // verus!
