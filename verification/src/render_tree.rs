//! The render tree, and what propagating inheritance through it means.

use vstd::prelude::*;
use crate::definitions::{inherited_by_default, DefinitionView};
use crate::node::NodeId;
use crate::styling::{
    computed, fresh_property, property_names, with_inherited, CssProperties, CssPropertyView,
};
use crate::text::{
    distinct, first_index, lemma_first_index_distinct, lemma_first_index_push, lemma_first_index_sound, views,
};
use crate::values::CssValueView;

verus! {

/// A node of the render tree: its key, the key of the document node that
/// it renders, the keys of its parent and of its children, and its
/// properties.
#[derive(Debug)]
pub struct RenderTreeNode {
    pub id: NodeId,
    pub source: NodeId,
    pub parent: Option<NodeId>,
    pub children: Vec<NodeId>,
    pub props: CssProperties,
}

/// The mathematical model of [`RenderTreeNode`].
pub struct RenderNodeView {
    pub id: NodeId,
    pub source: NodeId,
    pub parent: Option<NodeId>,
    pub children: Seq<NodeId>,
    pub props: Seq<CssPropertyView>,
}

impl View for RenderTreeNode {
    type V = RenderNodeView;

    open spec fn view(&self) -> RenderNodeView {
        RenderNodeView {
            id: self.id,
            source: self.source,
            parent: self.parent,
            children: self.children@,
            props: self.props@,
        }
    }
}

impl RenderTreeNode {
    pub fn props(&self) -> (r: &CssProperties)
        ensures
            r == &self.props,
    {
        &self.props
    }
}

/// The names of the values handed down, in order.
pub open spec fn inherited_names(inherited: Seq<(Seq<char>, CssValueView)>) -> Seq<Seq<char>> {
    inherited.map_values(|e: (Seq<char>, CssValueView)| e.0)
}

/// The properties of a node after each value handed down has filled the
/// `inherited` slot of its property.
pub open spec fn seeded(props: Seq<CssPropertyView>, inherited: Seq<(Seq<char>, CssValueView)>) -> Seq<
    CssPropertyView,
>
    decreases inherited.len(),
{
    if inherited.len() == 0 {
        props
    } else {
        with_inherited(seeded(props, inherited.drop_last()), inherited.last().0, inherited.last().1)
    }
}

/// The properties of a node after `actual` has been computed for each.
pub open spec fn computed_all(props: Seq<CssPropertyView>, defs: Seq<DefinitionView>) -> Seq<CssPropertyView> {
    props.map_values(|p: CssPropertyView| computed(p, inherited_by_default(defs, p.name)))
}

/// The values handed down after `name` has been given `value`: an entry of
/// that name keeps its place and gets the value, a new one goes to the end.
pub open spec fn hand_down(inherited: Seq<(Seq<char>, CssValueView)>, name: Seq<char>, value: CssValueView) -> Seq<
    (Seq<char>, CssValueView),
> {
    match first_index(inherited_names(inherited), name) {
        Some(k) => inherited.update(k, (name, value)),
        None => inherited.push((name, value)),
    }
}

/// What a node hands down to its children: what it was handed, with the
/// `actual` value of each of its properties that is inherited by default.
pub open spec fn handed_down(
    inherited: Seq<(Seq<char>, CssValueView)>,
    props: Seq<CssPropertyView>,
    defs: Seq<DefinitionView>,
) -> Seq<(Seq<char>, CssValueView)>
    decreases props.len(),
{
    if props.len() == 0 {
        inherited
    } else {
        let before = handed_down(inherited, props.drop_last(), defs);
        let p = props.last();
        if inherited_by_default(defs, p.name) {
            hand_down(before, p.name, p.actual)
        } else {
            before
        }
    }
}

/// The properties of a node that was handed `inherited`.
pub open spec fn styled(
    props: Seq<CssPropertyView>,
    inherited: Seq<(Seq<char>, CssValueView)>,
    defs: Seq<DefinitionView>,
) -> Seq<CssPropertyView> {
    computed_all(seeded(props, inherited), defs)
}

/// The tree after the node `id` and all below it have been styled, the node
/// `id` being handed `inherited`. `n` is the number of nodes of the tree.
pub open spec fn walk(
    tree: Seq<RenderNodeView>,
    n: nat,
    id: int,
    inherited: Seq<(Seq<char>, CssValueView)>,
    defs: Seq<DefinitionView>,
) -> Seq<RenderNodeView>
    decreases n - id, 1nat, 0nat,
{
    if 0 <= id < n && id < tree.len() {
        let props = styled(tree[id].props, inherited, defs);
        let here = tree.update(id, RenderNodeView { props, ..tree[id] });
        walk_children(here, n, tree[id].children, id, 0, handed_down(inherited, props, defs), defs)
    } else {
        tree
    }
}

/// The tree after the children of `parent` from place `k` on have been
/// styled, each being handed `inherited`. A key that is no node after
/// `parent` is passed over.
pub open spec fn walk_children(
    tree: Seq<RenderNodeView>,
    n: nat,
    children: Seq<NodeId>,
    parent: int,
    k: int,
    inherited: Seq<(Seq<char>, CssValueView)>,
    defs: Seq<DefinitionView>,
) -> Seq<RenderNodeView>
    decreases n - parent, 0nat, children.len() - k,
{
    if 0 <= k < children.len() {
        let c = children[k].0 as int;
        let next = if parent < c < n {
            walk(tree, n, c, inherited, defs)
        } else {
            tree
        };
        walk_children(next, n, children, parent, k + 1, inherited, defs)
    } else {
        tree
    }
}

/// The tree after inheritance has been propagated from the node `id` down,
/// the node `id` being handed `inherited`.
pub open spec fn propagated(
    tree: Seq<RenderNodeView>,
    id: NodeId,
    inherited: Seq<(Seq<char>, CssValueView)>,
    defs: Seq<DefinitionView>,
) -> Seq<RenderNodeView> {
    walk(tree, tree.len(), id.0 as int, inherited, defs)
}

/// The links that every render tree keeps: a node's key is its place; its
/// children are nodes that stand after it, in rising order, and name it as
/// their parent; and its parent, if it has one, holds it among its
/// children.
pub open spec fn linked(nodes: Seq<RenderNodeView>) -> bool {
    &&& nodes.len() <= usize::MAX
    &&& forall|i: int| 0 <= i < nodes.len() ==> (#[trigger] nodes[i]).id == NodeId(i as usize)
    &&& forall|i: int, k: int|
        0 <= i < nodes.len() && 0 <= k < nodes[i].children.len() ==> i < (#[trigger] nodes[i].children[k]).0
            < nodes.len()
    &&& forall|i: int, k: int|
        0 <= i < nodes.len() && 0 <= k < nodes[i].children.len() ==> nodes[(
        #[trigger] nodes[i].children[k]).0 as int].parent == Some(NodeId(i as usize))
    &&& forall|i: int, j: int, k: int|
        0 <= i < nodes.len() && 0 <= j < k < nodes[i].children.len() ==> (#[trigger] nodes[i].children[j]).0 < (
        #[trigger] nodes[i].children[k]).0
    &&& forall|i: int|
        0 <= i < nodes.len() ==> match (#[trigger] nodes[i]).parent {
            Some(p) => p.0 < i && nodes[p.0 as int].children.contains(NodeId(i as usize)),
            None => true,
        }
}

/// The shape that every render tree keeps: its nodes are linked, and no
/// property of a node has two records.
pub open spec fn render_tree_shaped(nodes: Seq<RenderNodeView>) -> bool {
    &&& linked(nodes)
    &&& forall|i: int| 0 <= i < nodes.len() ==> distinct(property_names((#[trigger] nodes[i]).props))
}

/// Two trees have the same nodes with the same children; only properties
/// may differ.
pub open spec fn same_shape(a: Seq<RenderNodeView>, b: Seq<RenderNodeView>) -> bool {
    &&& a.len() == b.len()
    &&& forall|i: int|
        0 <= i < a.len() ==> (#[trigger] a[i]).id == b[i].id && a[i].source == b[i].source && a[i].parent
            == b[i].parent && a[i].children == b[i].children
}

/// The render tree: the one table that owns every render node.
#[derive(Debug)]
pub struct RenderTree {
    pub nodes: Vec<RenderTreeNode>,
}

impl View for RenderTree {
    type V = Seq<RenderNodeView>;

    open spec fn view(&self) -> Seq<RenderNodeView> {
        views(self.nodes@)
    }
}

/// The nodes after one more has been added for the document node `source`
/// with the given properties, as the last child of `parent` or without a
/// parent.
pub open spec fn with_render_node(
    nodes: Seq<RenderNodeView>,
    parent: Option<NodeId>,
    source: NodeId,
    props: Seq<CssPropertyView>,
) -> Seq<RenderNodeView> {
    let id = NodeId(nodes.len() as usize);
    let added = RenderNodeView { id, source, parent, children: Seq::empty(), props };
    match parent {
        Some(p) => nodes.update(
            p.0 as int,
            RenderNodeView { children: nodes[p.0 as int].children.push(id), ..nodes[p.0 as int] },
        ).push(added),
        None => nodes.push(added),
    }
}

impl RenderTree {
    pub open spec fn wf(&self) -> bool {
        render_tree_shaped(self@)
    }

    pub fn new() -> (r: RenderTree)
        ensures
            r.wf(),
            r@.len() == 0,
    {
        RenderTree { nodes: Vec::new() }
    }

    pub fn len(&self) -> (r: usize)
        ensures
            r == self@.len(),
    {
        self.nodes.len()
    }

    pub fn root(&self) -> (r: NodeId)
        ensures
            r == NodeId(0),
    {
        NodeId(0)
    }

    /// The node with the key `id`, if the tree holds one.
    pub fn get_node(&self, id: NodeId) -> (r: Option<&RenderTreeNode>)
        ensures
            match r {
                Some(n) => id.0 < self@.len() && n@ == self@[id.0 as int],
                None => id.0 >= self@.len(),
            },
    {
        if id.0 < self.nodes.len() {
            Some(&self.nodes[id.0])
        } else {
            None
        }
    }

    /// The keys of the children of the node `id`, if the tree holds it.
    pub fn get_children(&self, id: NodeId) -> (r: Option<&Vec<NodeId>>)
        ensures
            match r {
                Some(c) => id.0 < self@.len() && c@ == self@[id.0 as int].children,
                None => id.0 >= self@.len(),
            },
    {
        if id.0 < self.nodes.len() {
            Some(&self.nodes[id.0].children)
        } else {
            None
        }
    }

    /// Adds a node for the document node `source` with the given
    /// properties, as the last child of `parent` where one is given, and
    /// returns its key. Where `parent` is no node of the tree, nothing
    /// changes.
    pub fn add_node(&mut self, parent: Option<NodeId>, source: NodeId, props: CssProperties) -> (r: Option<
        NodeId,
    >)
        ensures
            old(self).wf() && props.wf() ==> final(self).wf(),
            match parent {
                Some(p) => r is Some <==> p.0 < old(self)@.len(),
                None => r is Some,
            },
            match r {
                Some(id) => id.0 == old(self)@.len() && final(self)@ == with_render_node(
                    old(self)@,
                    parent,
                    source,
                    props@,
                ),
                None => final(self)@ == old(self)@,
            },
    {
        let ghost before = self@;
        let id = NodeId(self.nodes.len());
        if let Some(p) = parent {
            if p.0 >= self.nodes.len() {
                return None;
            }
            let holder = &mut self.nodes[p.0];
            holder.children.push(id);
        }
        self.nodes.push(RenderTreeNode { id, source, parent, children: Vec::new(), props });
        proof {
            let after = self@;
            let n = before.len() as int;
            assert(after =~= with_render_node(before, parent, source, props@));
            assert(after.len() == self.nodes.len());
            if render_tree_shaped(before) && distinct(property_names(props@)) {
                assert forall|i: int| 0 <= i < after.len() implies distinct(
                    property_names((#[trigger] after[i]).props),
                ) by {
                    if i < n {
                        assert(after[i].props == before[i].props);
                    }
                }
                assert forall|i: int| 0 <= i < after.len() implies (#[trigger] after[i]).id == NodeId(
                    i as usize,
                ) by {
                    if i < n {
                        assert(after[i].id == before[i].id);
                    }
                }
                assert forall|i: int, k: int| 0 <= i < after.len() && 0 <= k < after[i].children.len() implies {
                    let c = #[trigger] after[i].children[k];
                    &&& i < c.0 < after.len()
                    &&& after[c.0 as int].parent == Some(NodeId(i as usize))
                } by {
                    if i < n && k < before[i].children.len() {
                        let c = before[i].children[k];
                        assert(after[i].children[k] == c);
                        assert(before[c.0 as int].parent == Some(NodeId(i as usize)));
                        assert(after[c.0 as int].parent == before[c.0 as int].parent);
                    }
                }
                assert forall|i: int, j: int, k: int|
                    0 <= i < after.len() && 0 <= j < k < after[i].children.len() implies (
                #[trigger] after[i].children[j]).0 < (#[trigger] after[i].children[k]).0 by {
                    if i < n {
                        assert(after[i].children[j] == before[i].children[j]);
                        if k < before[i].children.len() {
                            assert(after[i].children[k] == before[i].children[k]);
                        }
                    }
                }
                assert forall|i: int| 0 <= i < after.len() implies match (#[trigger] after[i]).parent {
                    Some(p) => p.0 < i && after[p.0 as int].children.contains(NodeId(i as usize)),
                    None => true,
                } by {
                    if i < n {
                        assert(after[i].parent == before[i].parent);
                        match before[i].parent {
                            Some(p) => {
                                let k = choose|k: int|
                                    0 <= k < before[p.0 as int].children.len() && before[p.0 as int].children[k]
                                        == NodeId(i as usize);
                                assert(after[p.0 as int].children[k] == NodeId(i as usize));
                            },
                            None => {},
                        }
                    } else {
                        match parent {
                            Some(p) => {
                                let last = after[p.0 as int].children.len() - 1;
                                assert(after[p.0 as int].children[last] == NodeId(i as usize));
                            },
                            None => {},
                        }
                    }
                }
            }
        }
        Some(id)
    }
}

/// The record that a property map holds for `name`.
pub open spec fn property_of(props: Seq<CssPropertyView>, name: Seq<char>) -> Option<CssPropertyView> {
    match first_index(property_names(props), name) {
        Some(i) => Some(props[i]),
        None => None,
    }
}

/// The value that is handed down for `name`.
pub open spec fn handed_value(inherited: Seq<(Seq<char>, CssValueView)>, name: Seq<char>) -> Option<
    CssValueView,
> {
    match first_index(inherited_names(inherited), name) {
        Some(k) => Some(inherited[k].1),
        None => None,
    }
}

/// The map holds no candidate for `name`.
pub open spec fn undeclared(props: Seq<CssPropertyView>, name: Seq<char>) -> bool {
    match property_of(props, name) {
        Some(p) => p.declared.len() == 0,
        None => true,
    }
}

proof fn lemma_with_inherited_lookup(
    props: Seq<CssPropertyView>,
    name: Seq<char>,
    value: CssValueView,
    other: Seq<char>,
)
    ensures
        property_of(with_inherited(props, name, value), other) == if other == name {
            Some(
                match property_of(props, name) {
                    Some(p) => CssPropertyView { inherited: value, ..p },
                    None => CssPropertyView { inherited: value, ..fresh_property(name) },
                },
            )
        } else {
            property_of(props, other)
        },
{
    let names = property_names(props);
    let after = with_inherited(props, name, value);
    lemma_first_index_sound(names, name);
    lemma_first_index_sound(names, other);
    match first_index(names, name) {
        Some(i) => {
            assert(property_names(after) =~= names);
        },
        None => {
            assert(property_names(after) =~= names.push(name));
            lemma_first_index_push(names, name, other);
        },
    }
}

proof fn lemma_hand_down_lookup(
    inherited: Seq<(Seq<char>, CssValueView)>,
    name: Seq<char>,
    value: CssValueView,
    other: Seq<char>,
)
    ensures
        handed_value(hand_down(inherited, name, value), other) == if other == name {
            Some(value)
        } else {
            handed_value(inherited, other)
        },
        distinct(inherited_names(inherited)) ==> distinct(inherited_names(hand_down(inherited, name, value))),
{
    let names = inherited_names(inherited);
    let after = hand_down(inherited, name, value);
    lemma_first_index_sound(names, name);
    lemma_first_index_sound(names, other);
    match first_index(names, name) {
        Some(k) => {
            assert(inherited_names(after) =~= names);
        },
        None => {
            assert(inherited_names(after) =~= names.push(name));
            lemma_first_index_push(names, name, other);
        },
    }
}

/// What a node hands down names no property twice, if what it was handed
/// named none twice.
pub proof fn lemma_handed_down_distinct(
    inherited: Seq<(Seq<char>, CssValueView)>,
    props: Seq<CssPropertyView>,
    defs: Seq<DefinitionView>,
)
    requires
        distinct(inherited_names(inherited)),
    ensures
        distinct(inherited_names(handed_down(inherited, props, defs))),
    decreases props.len(),
{
    if props.len() > 0 {
        lemma_handed_down_distinct(inherited, props.drop_last(), defs);
        let before = handed_down(inherited, props.drop_last(), defs);
        let p = props.last();
        lemma_hand_down_lookup(before, p.name, p.actual, p.name);
    }
}

proof fn lemma_handed_down_value(
    inherited: Seq<(Seq<char>, CssValueView)>,
    props: Seq<CssPropertyView>,
    defs: Seq<DefinitionView>,
    i: int,
)
    requires
        distinct(property_names(props)),
        0 <= i < props.len(),
        inherited_by_default(defs, props[i].name),
    ensures
        handed_value(handed_down(inherited, props, defs), props[i].name) == Some(props[i].actual),
    decreases props.len(),
{
    let front = props.drop_last();
    let before = handed_down(inherited, front, defs);
    let p = props.last();
    let name = props[i].name;
    if i == props.len() - 1 {
        lemma_hand_down_lookup(before, p.name, p.actual, name);
    } else {
        assert(front[i] == props[i]);
        assert forall|a: int, b: int| 0 <= a < b < front.len() implies property_names(front)[a]
            != property_names(front)[b] by {
            assert(property_names(props)[a] == property_names(front)[a]);
            assert(property_names(props)[b] == property_names(front)[b]);
        }
        lemma_handed_down_value(inherited, front, defs, i);
        assert(property_names(props)[i] != property_names(props)[props.len() - 1]);
        lemma_hand_down_lookup(before, p.name, p.actual, name);
    }
}

proof fn lemma_seeded_undeclared(
    props: Seq<CssPropertyView>,
    inherited: Seq<(Seq<char>, CssValueView)>,
    name: Seq<char>,
)
    requires
        undeclared(props, name),
    ensures
        undeclared(seeded(props, inherited), name),
    decreases inherited.len(),
{
    if inherited.len() > 0 {
        lemma_seeded_undeclared(props, inherited.drop_last(), name);
        lemma_with_inherited_lookup(
            seeded(props, inherited.drop_last()),
            inherited.last().0,
            inherited.last().1,
            name,
        );
    }
}

proof fn lemma_seeded_property(
    props: Seq<CssPropertyView>,
    inherited: Seq<(Seq<char>, CssValueView)>,
    name: Seq<char>,
    value: CssValueView,
)
    requires
        distinct(inherited_names(inherited)),
        handed_value(inherited, name) == Some(value),
        undeclared(props, name),
    ensures
        property_of(seeded(props, inherited), name) is Some,
        property_of(seeded(props, inherited), name).unwrap().inherited == value,
        property_of(seeded(props, inherited), name).unwrap().declared.len() == 0,
        property_of(seeded(props, inherited), name).unwrap().name == name,
    decreases inherited.len(),
{
    let names = inherited_names(inherited);
    lemma_first_index_sound(names, name);
    let front = inherited.drop_last();
    let e = inherited.last();
    let last = inherited.len() - 1;
    assert(names[last] == e.0);
    assert(inherited_names(front) =~= names.drop_last());
    assert(names =~= inherited_names(front).push(e.0));
    lemma_seeded_undeclared(props, front, name);
    lemma_with_inherited_lookup(seeded(props, front), e.0, e.1, name);
    if e.0 == name {
        lemma_first_index_distinct(names, name, last);
        lemma_first_index_sound(property_names(seeded(props, front)), name);
    } else {
        lemma_first_index_push(inherited_names(front), e.0, name);
        assert(handed_value(front, name) == Some(value));
        lemma_seeded_property(props, front, name, value);
    }
}

/// Styling keeps the records of a node apart: no property gets two.
pub proof fn lemma_styled_distinct(
    props: Seq<CssPropertyView>,
    inherited: Seq<(Seq<char>, CssValueView)>,
    defs: Seq<DefinitionView>,
)
    requires
        distinct(property_names(props)),
    ensures
        distinct(property_names(styled(props, inherited, defs))),
{
    lemma_seeded_distinct(props, inherited);
    assert(property_names(computed_all(seeded(props, inherited), defs)) =~= property_names(
        seeded(props, inherited),
    ));
}

proof fn lemma_seeded_distinct(props: Seq<CssPropertyView>, inherited: Seq<(Seq<char>, CssValueView)>)
    requires
        distinct(property_names(props)),
    ensures
        distinct(property_names(seeded(props, inherited))),
    decreases inherited.len(),
{
    if inherited.len() > 0 {
        let before = seeded(props, inherited.drop_last());
        let name = inherited.last().0;
        let value = inherited.last().1;
        lemma_seeded_distinct(props, inherited.drop_last());
        let names = property_names(before);
        let after = with_inherited(before, name, value);
        lemma_first_index_sound(names, name);
        match first_index(names, name) {
            Some(i) => {
                assert(property_names(after) =~= names);
            },
            None => {
                assert(property_names(after) =~= names.push(name));
            },
        }
    }
}

proof fn lemma_computed_all_lookup(props: Seq<CssPropertyView>, defs: Seq<DefinitionView>, name: Seq<char>)
    ensures
        property_of(computed_all(props, defs), name) == match property_of(props, name) {
            Some(p) => Some(computed(p, inherited_by_default(defs, p.name))),
            None => None,
        },
{
    assert(property_names(computed_all(props, defs)) =~= property_names(props));
    lemma_first_index_sound(property_names(props), name);
}

/// A property that is inherited by default comes to a child that declares
/// nothing for it from the nearest ancestor: where the parent, styled, holds
/// a record of the property, the child's `actual` value is the parent's,
/// whatever the parent itself was handed from farther up.
pub proof fn lemma_nearest_ancestor_is_inherited(
    defs: Seq<DefinitionView>,
    from_above: Seq<(Seq<char>, CssValueView)>,
    parent: Seq<CssPropertyView>,
    child: Seq<CssPropertyView>,
    name: Seq<char>,
)
    requires
        inherited_by_default(defs, name),
        distinct(inherited_names(from_above)),
        distinct(property_names(parent)),
        property_of(parent, name) is Some,
        undeclared(child, name),
    ensures
        property_of(styled(child, handed_down(from_above, parent, defs), defs), name) is Some,
        property_of(styled(child, handed_down(from_above, parent, defs), defs), name).unwrap().actual
            == property_of(parent, name).unwrap().actual,
{
    let names = property_names(parent);
    lemma_first_index_sound(names, name);
    let i = first_index(names, name).unwrap();
    assert(parent[i].name == names[i]);
    let handed = handed_down(from_above, parent, defs);
    lemma_handed_down_value(from_above, parent, defs, i);
    lemma_handed_down_distinct(from_above, parent, defs);
    lemma_seeded_property(child, handed, name, parent[i].actual);
    lemma_computed_all_lookup(seeded(child, handed), defs, name);
    let p = property_of(seeded(child, handed), name).unwrap();
    assert(p.declared =~= Seq::empty());
    assert(crate::styling::winner(p.declared) is None);
}

/// What a node hands down for a property that is inherited by default and
/// that the node itself holds is the node's own `actual` value.
pub proof fn lemma_own_value_is_handed_down(
    defs: Seq<DefinitionView>,
    from_above: Seq<(Seq<char>, CssValueView)>,
    props: Seq<CssPropertyView>,
    name: Seq<char>,
)
    requires
        inherited_by_default(defs, name),
        distinct(property_names(props)),
        property_of(props, name) is Some,
    ensures
        handed_value(handed_down(from_above, props, defs), name) == Some(property_of(props, name).unwrap().actual),
{
    let names = property_names(props);
    lemma_first_index_sound(names, name);
    let i = first_index(names, name).unwrap();
    assert(props[i].name == names[i]);
    lemma_handed_down_value(from_above, props, defs, i);
}

} // verus!
