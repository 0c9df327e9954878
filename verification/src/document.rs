//! The document: the table of nodes, and the custom properties set on them.

use vstd::prelude::*;
use crate::node::{NodeId, NodeImpl, NodeView};
use crate::text::views;
use crate::values::{CssValue, CssValueView};

verus! {

/// A custom property set on one node.
#[derive(Debug)]
pub struct CustomProperty {
    pub node: NodeId,
    pub name: String,
    pub value: CssValue,
}

/// The mathematical model of [`CustomProperty`].
pub struct CustomPropertyView {
    pub node: NodeId,
    pub name: Seq<char>,
    pub value: CssValueView,
}

impl View for CustomProperty {
    type V = CustomPropertyView;

    open spec fn view(&self) -> CustomPropertyView {
        CustomPropertyView { node: self.node, name: self.name@, value: self.value@ }
    }
}

/// The mathematical model of [`Document`].
pub struct DocumentView {
    pub nodes: Seq<NodeView>,
    pub variables: Seq<CustomPropertyView>,
}

/// The place in `vars` of the custom property `name` that was set last on
/// `node`.
pub open spec fn own_variable(vars: Seq<CustomPropertyView>, node: NodeId, name: Seq<char>) -> Option<int>
    decreases vars.len(),
{
    if vars.len() == 0 {
        None
    } else if vars.last().node == node && vars.last().name == name {
        Some(vars.len() - 1)
    } else {
        own_variable(vars.drop_last(), node, name)
    }
}

/// The value of the custom property `name` as seen from `node`: the one set
/// on the node itself or else on its nearest ancestor that has one.
pub open spec fn variable_in_scope(doc: DocumentView, node: int, name: Seq<char>) -> Option<CssValueView>
    decreases node,
{
    if 0 <= node < doc.nodes.len() {
        match own_variable(doc.variables, NodeId(node as usize), name) {
            Some(i) => Some(doc.variables[i].value),
            None => match doc.nodes[node].parent {
                Some(p) => if p.0 < node {
                    variable_in_scope(doc, p.0 as int, name)
                } else {
                    None
                },
                None => None,
            },
        }
    } else {
        None
    }
}

/// The tree shape that every document keeps: a node's key is its place, a
/// parent stands before its child, and the children of a node are nodes of
/// the document that stand after it.
pub open spec fn tree_shaped(nodes: Seq<NodeView>) -> bool {
    &&& forall|i: int| 0 <= i < nodes.len() ==> (#[trigger] nodes[i]).id == NodeId(i as usize)
    &&& forall|i: int|
        0 <= i < nodes.len() ==> match (#[trigger] nodes[i]).parent {
            Some(p) => p.0 < i,
            None => true,
        }
    &&& forall|i: int, k: int|
        0 <= i < nodes.len() && 0 <= k < nodes[i].children.len() ==> i < (#[trigger] nodes[i].children[k]).0
            < nodes.len()
}

/// The nodes of `nodes` after `node` has been added as the last child of
/// `parent`, or as a node without parent.
pub open spec fn with_node(nodes: Seq<NodeView>, node: NodeView, parent: Option<NodeId>) -> Seq<NodeView> {
    let id = NodeId(nodes.len() as usize);
    let added = NodeView { id, parent, children: Seq::empty(), registered: true, ..node };
    match parent {
        Some(p) => nodes.update(
            p.0 as int,
            NodeView { children: nodes[p.0 as int].children.push(id), ..nodes[p.0 as int] },
        ).push(added),
        None => nodes.push(added),
    }
}

/// The document: the one table that owns every node. Nodes refer to each
/// other by key.
#[derive(Debug)]
pub struct Document {
    nodes: Vec<NodeImpl>,
    variables: Vec<CustomProperty>,
}

impl View for Document {
    type V = DocumentView;

    closed spec fn view(&self) -> DocumentView {
        DocumentView { nodes: views(self.nodes@), variables: views(self.variables@) }
    }
}

impl Document {
    pub open spec fn wf(&self) -> bool {
        tree_shaped(self@.nodes)
    }

    pub fn new() -> (r: Document)
        ensures
            r.wf(),
            r@.nodes.len() == 0,
            r@.variables.len() == 0,
    {
        Document { nodes: Vec::new(), variables: Vec::new() }
    }

    pub fn len(&self) -> (r: usize)
        ensures
            r == self@.nodes.len(),
    {
        self.nodes.len()
    }

    /// The node with the key `id`, if the document holds one.
    pub fn node_by_id(&self, id: NodeId) -> (r: Option<&NodeImpl>)
        ensures
            match r {
                Some(n) => id.0 < self@.nodes.len() && n@ == self@.nodes[id.0 as int],
                None => id.0 >= self@.nodes.len(),
            },
    {
        if id.0 < self.nodes.len() {
            Some(&self.nodes[id.0])
        } else {
            None
        }
    }

    /// The keys of the children of the node `id`, if the document holds it.
    pub fn get_children(&self, id: NodeId) -> (r: Option<&Vec<NodeId>>)
        ensures
            match r {
                Some(c) => id.0 < self@.nodes.len() && c@ == self@.nodes[id.0 as int].children,
                None => id.0 >= self@.nodes.len(),
            },
    {
        if id.0 < self.nodes.len() {
            Some(&self.nodes[id.0].children)
        } else {
            None
        }
    }

    /// Adds `node` to the document, as the last child of `parent` where one
    /// is given. The node gets the next free key, which is returned. Where
    /// `parent` is not a node of the document, nothing changes.
    pub fn add_node(&mut self, node: NodeImpl, parent: Option<NodeId>) -> (r: Option<NodeId>)
        ensures
            old(self).wf() ==> final(self).wf(),
            final(self)@.variables == old(self)@.variables,
            match parent {
                Some(p) => r is Some <==> p.0 < old(self)@.nodes.len(),
                None => r is Some,
            },
            match r {
                Some(id) => id.0 == old(self)@.nodes.len() && final(self)@.nodes == with_node(
                    old(self)@.nodes,
                    node@,
                    parent,
                ),
                None => final(self)@ == old(self)@,
            },
    {
        let ghost before = self@.nodes;
        let id = NodeId(self.nodes.len());
        if let Some(p) = parent {
            if p.0 >= self.nodes.len() {
                return None;
            }
            let holder = &mut self.nodes[p.0];
            holder.children.push(id);
        }
        let added = NodeImpl {
            id,
            parent,
            children: Vec::new(),
            data: node.data,
            registered: true,
            location: node.location,
        };
        self.nodes.push(added);
        proof {
            assert(self@.nodes =~= with_node(before, node@, parent));
            let after = self@.nodes;
            if tree_shaped(before) {
                assert forall|i: int, k: int|
                    0 <= i < after.len() && 0 <= k < after[i].children.len() implies i < (
                #[trigger] after[i].children[k]).0 < after.len() by {
                    if i < before.len() {
                        if k < before[i].children.len() {
                            assert(after[i].children[k] == before[i].children[k]);
                        }
                    }
                }
            }
        }
        Some(id)
    }

    /// Sets the custom property `name` on the node `node`.
    pub fn set_variable(&mut self, node: NodeId, name: &str, value: CssValue)
        ensures
            final(self)@.nodes == old(self)@.nodes,
            final(self)@.variables == old(self)@.variables.push(
                CustomPropertyView { node, name: name@, value: value@ },
            ),
    {
        let ghost before = self@.variables;
        self.variables.push(CustomProperty { node, name: name.to_owned(), value });
        assert(self@.variables =~= before.push(CustomPropertyView { node, name: name@, value: value@ }));
        assert(self@.nodes =~= old(self)@.nodes);
    }

    fn find_own_variable(&self, node: NodeId, name: &String) -> (r: Option<usize>)
        ensures
            match r {
                Some(i) => own_variable(self@.variables, node, name@) == Some(i as int) && i
                    < self.variables.len(),
                None => own_variable(self@.variables, node, name@) is None,
            },
    {
        let ghost vars = self@.variables;
        let mut found: Option<usize> = None;
        let mut i: usize = 0;
        while i < self.variables.len()
            invariant
                vars == self@.variables,
                0 <= i <= self.variables.len(),
                match found {
                    Some(k) => own_variable(vars.take(i as int), node, name@) == Some(k as int) && k < i,
                    None => own_variable(vars.take(i as int), node, name@) is None,
                },
            decreases self.variables.len() - i,
        {
            proof {
                assert(vars.take(i + 1).drop_last() =~= vars.take(i as int));
                assert(vars.take(i + 1).last() == self.variables[i as int]@);
            }
            if self.variables[i].node == node && self.variables[i].name == *name {
                found = Some(i);
            }
            i += 1;
        }
        proof {
            assert(vars.take(i as int) =~= vars);
        }
        found
    }

    /// The value of the custom property `name` as seen from the node `node`.
    pub fn lookup_variable(&self, node: NodeId, name: &str) -> (r: Option<CssValue>)
        ensures
            match r {
                Some(v) => variable_in_scope(self@, node.0 as int, name@) == Some(v@),
                None => variable_in_scope(self@, node.0 as int, name@) is None,
            },
    {
        let key = name.to_owned();
        let mut current = node.0;
        loop
            invariant
                key@ == name@,
                variable_in_scope(self@, current as int, name@) == variable_in_scope(
                    self@,
                    node.0 as int,
                    name@,
                ),
            decreases current,
        {
            if current >= self.nodes.len() {
                return None;
            }
            match self.find_own_variable(NodeId(current), &key) {
                Some(i) => {
                    assert(self@.variables[i as int] == self.variables[i as int]@);
                    return Some(self.variables[i].value.clone());
                },
                None => {},
            }
            assert(self@.nodes[current as int] == self.nodes[current as int]@);
            match self.nodes[current].parent {
                Some(p) => {
                    if p.0 < current {
                        current = p.0;
                    } else {
                        return None;
                    }
                },
                None => {
                    return None;
                },
            }
        }
    }
}

} // verus!
