//! The inheritance propagator: a walk from the root down that computes the
//! `actual` value of every property and hands inherited values to children.

use vstd::prelude::*;
use crate::ancestors::{lemma_propagated_by_ancestors, styled_by_ancestors};
use crate::definitions::CssDefinitions;
use crate::node::NodeId;
use crate::property_definitions::{builtin_definitions, get_css_definitions};
use crate::render_tree::{
    computed_all, hand_down, handed_down, inherited_names, propagated, render_tree_shaped, same_shape, seeded,
    styled, walk, walk_children, RenderNodeView, RenderTree,
};
use crate::styling::{computed, property_names, CssProperties, CssPropertyView};
use crate::system::Css3System;
use crate::text::{lemma_first_index_absent, lemma_first_index_found, views};
use crate::values::{CssValue, CssValueView};

verus! {

fn seed(props: &mut CssProperties, inherit_props: &Vec<(String, CssValue)>)
    ensures
        old(props).wf() ==> final(props).wf(),
        final(props)@ == seeded(old(props)@, views(inherit_props@)),
{
    let ghost start = props@;
    let ghost all = views(inherit_props@);
    let mut i: usize = 0;
    assert(all.take(0) =~= Seq::<(Seq<char>, CssValueView)>::empty());
    while i < inherit_props.len()
        invariant
            0 <= i <= inherit_props.len(),
            all == views(inherit_props@),
            old(props).wf() ==> props.wf(),
            props@ == seeded(start, all.take(i as int)),
        decreases inherit_props.len() - i,
    {
        proof {
            assert(all.take(i + 1).drop_last() =~= all.take(i as int));
            assert(all.take(i + 1).last() == inherit_props[i as int]@);
        }
        let entry = &inherit_props[i];
        props.insert_inherited(&entry.0, entry.1.clone());
        i += 1;
    }
    assert(all.take(i as int) =~= all);
}

fn set_inherited(inherit_props: &mut Vec<(String, CssValue)>, name: &String, value: CssValue)
    ensures
        views(final(inherit_props)@) == hand_down(views(old(inherit_props)@), name@, value@),
{
    let ghost before = views(inherit_props@);
    let ghost names = inherited_names(before);
    let mut k: usize = 0;
    while k < inherit_props.len()
        invariant
            0 <= k <= inherit_props.len(),
            before == views(inherit_props@),
            before == views(old(inherit_props)@),
            names == inherited_names(before),
            forall|j: int| 0 <= j < k ==> names[j] != name@,
        decreases inherit_props.len() - k,
    {
        if inherit_props[k].0 == *name {
            proof {
                assert(names[k as int] == inherit_props[k as int]@.0);
                lemma_first_index_found(names, name@, k as int);
            }
            inherit_props[k] = (name.clone(), value);
            assert(views(inherit_props@) =~= hand_down(before, name@, value@));
            return ;
        }
        k += 1;
    }
    proof {
        lemma_first_index_absent(names, name@);
    }
    inherit_props.push((name.clone(), value));
    assert(views(inherit_props@) =~= hand_down(before, name@, value@));
}

fn clone_inherited(inherit_props: &Vec<(String, CssValue)>) -> (r: Vec<(String, CssValue)>)
    ensures
        views(r@) == views(inherit_props@),
{
    let mut out: Vec<(String, CssValue)> = Vec::new();
    let mut i: usize = 0;
    while i < inherit_props.len()
        invariant
            0 <= i <= inherit_props.len(),
            out.len() == i,
            forall|k: int| 0 <= k < i ==> out[k]@ == inherit_props[k]@,
        decreases inherit_props.len() - i,
    {
        let entry = &inherit_props[i];
        out.push((entry.0.clone(), entry.1.clone()));
        i += 1;
    }
    assert(views(out@) =~= views(inherit_props@));
    out
}

fn compute_all(
    props: &mut CssProperties,
    definitions: &CssDefinitions,
    inherit_props: &Vec<(String, CssValue)>,
) -> (r: Vec<(String, CssValue)>)
    ensures
        old(props).wf() ==> final(props).wf(),
        final(props)@ == computed_all(old(props)@, definitions@),
        views(r@) == handed_down(views(inherit_props@), final(props)@, definitions@),
{
    let ghost start = props@;
    let ghost goal = computed_all(start, definitions@);
    let mut handed = clone_inherited(inherit_props);
    let mut j: usize = 0;
    assert(goal.take(0) =~= Seq::<CssPropertyView>::empty());
    while j < props.properties.len()
        invariant
            0 <= j <= props.properties.len(),
            props@.len() == start.len(),
            goal == computed_all(start, definitions@),
            forall|m: int| 0 <= m < j ==> props@[m] == goal[m],
            forall|m: int| j <= m < start.len() ==> props@[m] == start[m],
            views(handed@) == handed_down(views(inherit_props@), goal.take(j as int), definitions@),
        decreases props.properties.len() - j,
    {
        let ghost before = props@;
        proof {
            assert(goal.take(j + 1).drop_last() =~= goal.take(j as int));
            assert(before[j as int] == props.properties[j as int]@);
        }
        let inheritable = definitions.is_inherited(props.properties[j].name.as_str());
        let prop = &mut props.properties[j];
        prop.compute_value(inheritable);
        proof {
            assert(props@[j as int] == goal[j as int]);
            assert forall|m: int| 0 <= m < j implies props@[m] == goal[m] by {
                assert(props@[m] == before[m]);
            }
            assert forall|m: int| j + 1 <= m < start.len() implies props@[m] == start[m] by {
                assert(props@[m] == before[m]);
            }
        }
        if inheritable {
            let name = props.properties[j].name.clone();
            let value = props.properties[j].actual.clone();
            set_inherited(&mut handed, &name, value);
        }
        j += 1;
    }
    proof {
        assert(props@ =~= goal);
        assert(goal.take(j as int) =~= goal);
        assert(property_names(goal) =~= property_names(start));
    }
    handed
}

fn clone_children(children: &Vec<NodeId>) -> (r: Vec<NodeId>)
    ensures
        r@ == children@,
{
    let mut out: Vec<NodeId> = Vec::new();
    let mut i: usize = 0;
    while i < children.len()
        invariant
            0 <= i <= children.len(),
            out@ == children@.take(i as int),
        decreases children.len() - i,
    {
        out.push(children[i]);
        assert(children@.take(i + 1) =~= children@.take(i as int).push(children@[i as int]));
        i += 1;
    }
    assert(children@.take(i as int) =~= children@);
    out
}

fn walk_from(
    tree: &mut RenderTree,
    node_id: NodeId,
    inherit_props: &Vec<(String, CssValue)>,
    definitions: &CssDefinitions,
)
    ensures
        old(tree).wf() ==> final(tree).wf(),
        same_shape(old(tree)@, final(tree)@),
        final(tree)@ == propagated(old(tree)@, node_id, views(inherit_props@), definitions@),
    decreases old(tree)@.len() - node_id.0,
{
    let n = tree.nodes.len();
    if node_id.0 >= n {
        return ;
    }
    let ghost start = tree@;
    let ghost inherited = views(inherit_props@);
    assert(start[node_id.0 as int] == tree.nodes[node_id.0 as int]@);
    let node = &mut tree.nodes[node_id.0];
    seed(&mut node.props, inherit_props);
    let handed = compute_all(&mut node.props, definitions, inherit_props);
    let children = clone_children(&tree.nodes[node_id.0].children);
    let ghost here = tree@;
    proof {
        let props = styled(start[node_id.0 as int].props, inherited, definitions@);
        assert(here =~= start.update(
            node_id.0 as int,
            RenderNodeView { props, ..start[node_id.0 as int] },
        ));
        assert(same_shape(start, here));
        if render_tree_shaped(start) {
            assert(render_tree_shaped(here));
        }
    }
    let ghost goal = walk_children(here, n as nat, children@, node_id.0 as int, 0, views(handed@), definitions@);
    let mut k: usize = 0;
    while k < children.len()
        invariant
            0 <= k <= children.len(),
            n == start.len(),
            n == old(tree)@.len(),
            node_id.0 < n,
            old(tree).wf() ==> tree.wf(),
            same_shape(start, tree@),
            walk_children(tree@, n as nat, children@, node_id.0 as int, k as int, views(handed@), definitions@)
                == goal,
        decreases children.len() - k,
    {
        let c = children[k];
        if node_id.0 < c.0 && c.0 < n {
            walk_from(tree, c, &handed, definitions);
        }
        k += 1;
    }
}

/// Propagates inheritance from the node `node_id` down: the node is handed
/// `inherit_props`, its `actual` values are computed, and each child is
/// handed what the node hands down. A key that is no node of the tree ends
/// the walk silently. In a well-formed tree every node at or below
/// `node_id` ends up with what its own declared values and the chain of its
/// ancestors give it.
pub fn resolve_inheritance(
    tree: &mut RenderTree,
    node_id: NodeId,
    inherit_props: &Vec<(String, CssValue)>,
    definitions: &CssDefinitions,
)
    ensures
        old(tree).wf() ==> final(tree).wf(),
        same_shape(old(tree)@, final(tree)@),
        final(tree)@ == propagated(old(tree)@, node_id, views(inherit_props@), definitions@),
        old(tree).wf() ==> final(tree)@ == styled_by_ancestors(
            old(tree)@,
            node_id.0 as int,
            views(inherit_props@),
            definitions@,
        ),
{
    proof {
        if tree.wf() {
            lemma_propagated_by_ancestors(tree@, node_id, views(inherit_props@), definitions@);
        }
    }
    walk_from(tree, node_id, inherit_props, definitions);
}

impl Css3System {
    /// Propagates inheritance through the whole tree, from the root down,
    /// against the built-in table of definitions.
    pub fn inheritance(tree: &mut RenderTree)
        ensures
            old(tree).wf() ==> final(tree).wf(),
            same_shape(old(tree)@, final(tree)@),
            final(tree)@ == propagated(
                old(tree)@,
                NodeId(0),
                Seq::<(Seq<char>, CssValueView)>::empty(),
                builtin_definitions(),
            ),
            old(tree).wf() ==> final(tree)@ == styled_by_ancestors(
                old(tree)@,
                0,
                Seq::<(Seq<char>, CssValueView)>::empty(),
                builtin_definitions(),
            ),
    {
        let definitions = get_css_definitions();
        let nothing: Vec<(String, CssValue)> = Vec::new();
        assert(views(nothing@) =~= Seq::<(Seq<char>, CssValueView)>::empty());
        let root = tree.root();
        resolve_inheritance(tree, root, &nothing, &definitions);
    }
}

} // verus!
