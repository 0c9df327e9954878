//! Building the render tree of a document.

use vstd::prelude::*;
use crate::ancestors::styled_by_ancestors;
use crate::definitions::{CssDefinitions, DefinitionView};
use crate::document::{Document, DocumentView};
use crate::inheritance::resolve_inheritance;
use crate::node::NodeId;
use crate::render_tree::{propagated, with_render_node, RenderNodeView, RenderTree};
use crate::stylesheet::{CssStylesheet, CssStylesheetView};
use crate::system::{compute_properties, declared_properties, unrenderable};
use crate::text::views;
use crate::values::{CssValue, CssValueView};

verus! {

/// The render tree after the document node `id` and all below it have been
/// added under the render node `parent`, each with its declared
/// properties. An unrenderable node is left out with all below it. `n` is
/// the number of nodes of the document.
pub open spec fn grown(
    tree: Seq<RenderNodeView>,
    n: nat,
    doc: DocumentView,
    sheets: Seq<CssStylesheetView>,
    defs: Seq<DefinitionView>,
    id: int,
    parent: Option<NodeId>,
) -> Seq<RenderNodeView>
    decreases n - id, 1nat, 0nat,
{
    if 0 <= id < n && id < doc.nodes.len() && !unrenderable(doc.nodes[id].data) {
        let source = NodeId(id as usize);
        let props = declared_properties(defs, sheets, doc.nodes[id], doc, source);
        let here = with_render_node(tree, parent, source, props);
        grown_children(
            here,
            n,
            doc,
            sheets,
            defs,
            doc.nodes[id].children,
            id,
            0,
            NodeId(tree.len() as usize),
        )
    } else {
        tree
    }
}

/// The render tree after the children of the document node `parent` from
/// place `k` on have been added under the render node `under`. A key that
/// is no node after `parent` is passed over.
pub open spec fn grown_children(
    tree: Seq<RenderNodeView>,
    n: nat,
    doc: DocumentView,
    sheets: Seq<CssStylesheetView>,
    defs: Seq<DefinitionView>,
    children: Seq<NodeId>,
    parent: int,
    k: int,
    under: NodeId,
) -> Seq<RenderNodeView>
    decreases n - parent, 0nat, children.len() - k,
{
    if 0 <= k < children.len() {
        let c = children[k].0 as int;
        let next = if parent < c < n {
            grown(tree, n, doc, sheets, defs, c, Some(under))
        } else {
            tree
        };
        grown_children(next, n, doc, sheets, defs, children, parent, k + 1, under)
    } else {
        tree
    }
}

/// The render tree of a document: every renderable node from the root
/// down with its declared properties, then inheritance propagated from the
/// root with nothing handed to it.
pub open spec fn rendered(doc: DocumentView, sheets: Seq<CssStylesheetView>, defs: Seq<DefinitionView>) -> Seq<
    RenderNodeView,
> {
    propagated(
        grown(Seq::empty(), doc.nodes.len(), doc, sheets, defs, 0, None),
        NodeId(0),
        Seq::empty(),
        defs,
    )
}

fn grow(
    tree: &mut RenderTree,
    doc: &Document,
    sheets: &Vec<CssStylesheet>,
    definitions: &CssDefinitions,
    n: usize,
    id: usize,
    parent: Option<NodeId>,
)
    requires
        old(tree).wf(),
        n == doc@.nodes.len(),
        match parent {
            Some(p) => p.0 < old(tree)@.len(),
            None => true,
        },
    ensures
        final(tree).wf(),
        final(tree)@.len() >= old(tree)@.len(),
        final(tree)@ == grown(old(tree)@, n as nat, doc@, views(sheets@), definitions@, id as int, parent),
    decreases n - id,
{
    let node = match doc.node_by_id(NodeId(id)) {
        Some(node) => node,
        None => {
            return ;
        },
    };
    let props = match compute_properties(definitions, node, sheets, doc, NodeId(id)) {
        Some(props) => props,
        None => {
            return ;
        },
    };
    let ghost start = tree@;
    let me = match tree.add_node(parent, NodeId(id), props) {
        Some(me) => me,
        None => {
            return ;
        },
    };
    let children = &node.children;
    let ghost goal = grown(start, n as nat, doc@, views(sheets@), definitions@, id as int, parent);
    let mut k: usize = 0;
    while k < children.len()
        invariant
            0 <= k <= children.len(),
            n == doc@.nodes.len(),
            id < n,
            tree.wf(),
            me.0 < tree@.len(),
            start.len() <= tree@.len(),
            grown_children(
                tree@,
                n as nat,
                doc@,
                views(sheets@),
                definitions@,
                children@,
                id as int,
                k as int,
                me,
            ) == goal,
        decreases children.len() - k,
    {
        let c = children[k].0;
        if id < c && c < n {
            grow(tree, doc, sheets, definitions, n, c, Some(me));
        }
        k += 1;
    }
}

/// Builds the render tree of a document: the declared properties of every
/// renderable node, then the inheritance pass over the whole tree, which
/// gives every node what its declared values and its ancestors give it.
pub fn generate_render_tree(doc: &Document, sheets: &Vec<CssStylesheet>, definitions: &CssDefinitions) -> (r:
    RenderTree)
    ensures
        r.wf(),
        r@ == rendered(doc@, views(sheets@), definitions@),
        r@ == styled_by_ancestors(
            grown(Seq::empty(), doc@.nodes.len(), doc@, views(sheets@), definitions@, 0, None),
            0,
            Seq::empty(),
            definitions@,
        ),
{
    let mut tree = RenderTree::new();
    assert(tree@ =~= Seq::<RenderNodeView>::empty());
    grow(&mut tree, doc, sheets, definitions, doc.len(), 0, None);
    let nothing: Vec<(String, CssValue)> = Vec::new();
    assert(views(nothing@) =~= Seq::<(Seq<char>, CssValueView)>::empty());
    let root = tree.root();
    resolve_inheritance(&mut tree, root, &nothing, definitions);
    tree
}

} // verus!
