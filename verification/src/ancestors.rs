//! What propagation comes to, node by node: the properties of a node depend
//! on its own declared values and on the chain of its ancestors, and on
//! nothing else.

use vstd::prelude::*;
use crate::definitions::{inherited_by_default, DefinitionView};
use crate::node::NodeId;
use crate::render_tree::{
    handed_down, inherited_names, lemma_handed_down_distinct, lemma_nearest_ancestor_is_inherited,
    lemma_styled_distinct, linked, propagated, property_of, render_tree_shaped, same_shape, styled, undeclared,
    walk, walk_children, RenderNodeView,
};
use crate::styling::{property_names, CssPropertyView};
use crate::text::distinct;
use crate::values::CssValueView;

verus! {

/// The node `y` is the node `a` or stands below it.
pub open spec fn is_within(tree: Seq<RenderNodeView>, a: int, y: int) -> bool
    decreases y,
{
    y == a || (0 <= y < tree.len() && match tree[y].parent {
        Some(p) => p.0 < y && is_within(tree, a, p.0 as int),
        None => false,
    })
}

/// What the node `y` is handed when propagation starts at the node `x`,
/// which is handed `inherited`: what its parent hands down, the parent
/// having been styled with what it was handed itself.
pub open spec fn handed_to(
    tree: Seq<RenderNodeView>,
    x: int,
    inherited: Seq<(Seq<char>, CssValueView)>,
    defs: Seq<DefinitionView>,
    y: int,
) -> Seq<(Seq<char>, CssValueView)>
    decreases y,
{
    if y != x && 0 <= y < tree.len() {
        match tree[y].parent {
            Some(p) => if p.0 < y {
                let above = handed_to(tree, x, inherited, defs, p.0 as int);
                handed_down(above, styled(tree[p.0 as int].props, above, defs), defs)
            } else {
                inherited
            },
            None => inherited,
        }
    } else {
        inherited
    }
}

/// The properties that the node `y` ends up with when propagation starts at
/// the node `x`, which is handed `inherited`.
pub open spec fn styled_at(
    tree: Seq<RenderNodeView>,
    x: int,
    inherited: Seq<(Seq<char>, CssValueView)>,
    defs: Seq<DefinitionView>,
    y: int,
) -> Seq<CssPropertyView> {
    styled(tree[y].props, handed_to(tree, x, inherited, defs, y), defs)
}

/// The tree in which the node `x` and every node below it has the
/// properties that its ancestors up to `x` give it, and every other node is
/// as it was.
pub open spec fn styled_by_ancestors(
    tree: Seq<RenderNodeView>,
    x: int,
    inherited: Seq<(Seq<char>, CssValueView)>,
    defs: Seq<DefinitionView>,
) -> Seq<RenderNodeView> {
    Seq::new(
        tree.len(),
        |y: int|
            if is_within(tree, x, y) {
                RenderNodeView { props: styled_at(tree, x, inherited, defs, y), ..tree[y] }
            } else {
                tree[y]
            },
    )
}

/// The node `z` stands within one of the first `k` of `children`.
pub open spec fn is_covered(tree: Seq<RenderNodeView>, children: Seq<NodeId>, k: int, z: int) -> bool
    decreases k,
{
    0 < k <= children.len() && (is_within(tree, children[k - 1].0 as int, z) || is_covered(
        tree,
        children,
        k - 1,
        z,
    ))
}

proof fn lemma_within_is_after(tree: Seq<RenderNodeView>, a: int, y: int)
    requires
        is_within(tree, a, y),
    ensures
        a <= y,
    decreases y,
{
    if y != a {
        lemma_within_is_after(tree, a, tree[y].parent.unwrap().0 as int);
    }
}

proof fn lemma_within_same_shape(tree: Seq<RenderNodeView>, t: Seq<RenderNodeView>, a: int, y: int)
    requires
        same_shape(tree, t),
    ensures
        is_within(t, a, y) == is_within(tree, a, y),
    decreases y,
{
    if y != a && 0 <= y < tree.len() {
        assert(tree[y].parent == t[y].parent);
        match tree[y].parent {
            Some(p) => {
                if p.0 < y {
                    lemma_within_same_shape(tree, t, a, p.0 as int);
                }
            },
            None => {},
        }
    }
}

proof fn lemma_within_child(tree: Seq<RenderNodeView>, x: int, c: int, y: int)
    requires
        tree.len() <= usize::MAX,
        0 <= x < c < tree.len(),
        tree[c].parent == Some(NodeId(x as usize)),
        is_within(tree, c, y),
    ensures
        is_within(tree, x, y),
    decreases y,
{
    assert(is_within(tree, x, x));
    if y != c {
        lemma_within_child(tree, x, c, tree[y].parent.unwrap().0 as int);
    }
}

proof fn lemma_siblings_apart(tree: Seq<RenderNodeView>, x: int, c1: int, c2: int, y: int)
    requires
        tree.len() <= usize::MAX,
        0 <= x < c1 < tree.len(),
        0 <= x < c2 < tree.len(),
        c1 != c2,
        tree[c1].parent == Some(NodeId(x as usize)),
        tree[c2].parent == Some(NodeId(x as usize)),
        is_within(tree, c1, y),
    ensures
        !is_within(tree, c2, y),
    decreases y,
{
    if is_within(tree, c2, y) {
        if y == c1 {
            lemma_within_is_after(tree, c2, x);
        } else if y == c2 {
            lemma_within_is_after(tree, c1, x);
        } else {
            lemma_siblings_apart(tree, x, c1, c2, tree[y].parent.unwrap().0 as int);
        }
    }
}

proof fn lemma_covered_is_within_earlier(tree: Seq<RenderNodeView>, children: Seq<NodeId>, k: int, z: int)
    requires
        is_covered(tree, children, k, z),
    ensures
        exists|j: int| 0 <= j < k && j < children.len() && is_within(tree, #[trigger] children[j].0 as int, z),
    decreases k,
{
    if !is_within(tree, children[k - 1].0 as int, z) {
        lemma_covered_is_within_earlier(tree, children, k - 1, z);
    }
}

proof fn lemma_within_is_covered(tree: Seq<RenderNodeView>, children: Seq<NodeId>, k: int, j: int, z: int)
    requires
        0 <= j < k <= children.len(),
        is_within(tree, children[j].0 as int, z),
    ensures
        is_covered(tree, children, k, z),
    decreases k,
{
    if j < k - 1 {
        lemma_within_is_covered(tree, children, k - 1, j, z);
    }
}

proof fn lemma_within_below_is_within_a_child(tree: Seq<RenderNodeView>, x: int, y: int)
    requires
        linked(tree),
        0 <= x < tree.len(),
        is_within(tree, x, y),
        y != x,
    ensures
        is_covered(tree, tree[x].children, tree[x].children.len() as int, y),
    decreases y,
{
    let children = tree[x].children;
    let p = tree[y].parent.unwrap().0 as int;
    if p == x {
        let j = choose|j: int| 0 <= j < children.len() && children[j] == NodeId(y as usize);
        lemma_within_is_covered(tree, children, children.len() as int, j, y);
    } else {
        lemma_within_below_is_within_a_child(tree, x, p);
        lemma_covered_is_within_earlier(tree, children, children.len() as int, p);
        let j = choose|j: int|
            0 <= j < children.len() && is_within(tree, #[trigger] children[j].0 as int, p);
        lemma_within_is_after(tree, children[j].0 as int, p);
        lemma_within_is_covered(tree, children, children.len() as int, j, y);
    }
}

proof fn lemma_handed_to_same_props(
    tree: Seq<RenderNodeView>,
    t: Seq<RenderNodeView>,
    x: int,
    inherited: Seq<(Seq<char>, CssValueView)>,
    defs: Seq<DefinitionView>,
    y: int,
)
    requires
        same_shape(tree, t),
        is_within(tree, x, y),
        forall|z: int| is_within(tree, x, z) && 0 <= z < tree.len() ==> (#[trigger] t[z]).props == tree[z].props,
    ensures
        handed_to(t, x, inherited, defs, y) == handed_to(tree, x, inherited, defs, y),
    decreases y,
{
    if y != x && 0 <= y < tree.len() {
        assert(tree[y].parent == t[y].parent);
        let p = tree[y].parent.unwrap().0 as int;
        lemma_within_is_after(tree, x, p);
        lemma_handed_to_same_props(tree, t, x, inherited, defs, p);
        assert(t[p].props == tree[p].props);
    }
}

proof fn lemma_handed_to_from_child(
    tree: Seq<RenderNodeView>,
    x: int,
    c: int,
    inherited: Seq<(Seq<char>, CssValueView)>,
    defs: Seq<DefinitionView>,
    y: int,
)
    requires
        tree.len() <= usize::MAX,
        0 <= x < c < tree.len(),
        tree[c].parent == Some(NodeId(x as usize)),
        is_within(tree, c, y),
    ensures
        handed_to(tree, x, inherited, defs, y) == handed_to(
            tree,
            c,
            handed_to(tree, x, inherited, defs, c),
            defs,
            y,
        ),
    decreases y,
{
    lemma_within_is_after(tree, c, y);
    if y != c {
        let p = tree[y].parent.unwrap().0 as int;
        lemma_handed_to_from_child(tree, x, c, inherited, defs, p);
    }
}

/// The state of the walk below `x` once the first `k` children of `x` have
/// been walked: `x` and what stands within those children is styled, every
/// other node is as in `base`.
spec fn walked_so_far(
    tree: Seq<RenderNodeView>,
    base: Seq<RenderNodeView>,
    t: Seq<RenderNodeView>,
    x: int,
    k: int,
    inherited: Seq<(Seq<char>, CssValueView)>,
    defs: Seq<DefinitionView>,
) -> bool {
    forall|z: int|
        0 <= z < tree.len() ==> (#[trigger] t[z]).props == if z == x || is_covered(
            tree,
            tree[x].children,
            k,
            z,
        ) {
            styled_at(tree, x, inherited, defs, z)
        } else {
            base[z].props
        }
}

/// What the walk from `x` makes of the state `t`, in which nothing at or
/// below `x` has been touched yet.
spec fn walked(
    tree: Seq<RenderNodeView>,
    t: Seq<RenderNodeView>,
    r: Seq<RenderNodeView>,
    x: int,
    inherited: Seq<(Seq<char>, CssValueView)>,
    defs: Seq<DefinitionView>,
) -> bool {
    &&& same_shape(tree, r)
    &&& forall|z: int|
        0 <= z < tree.len() ==> (#[trigger] r[z]).props == if is_within(tree, x, z) {
            styled_at(tree, x, inherited, defs, z)
        } else {
            t[z].props
        }
}

proof fn lemma_walk(
    tree: Seq<RenderNodeView>,
    t: Seq<RenderNodeView>,
    x: int,
    inherited: Seq<(Seq<char>, CssValueView)>,
    defs: Seq<DefinitionView>,
)
    requires
        linked(tree),
        same_shape(tree, t),
        0 <= x < tree.len(),
        forall|z: int| is_within(tree, x, z) && 0 <= z < tree.len() ==> (#[trigger] t[z]).props == tree[z].props,
    ensures
        walked(tree, t, walk(t, tree.len(), x, inherited, defs), x, inherited, defs),
    decreases tree.len() - x, 1nat, 0nat,
{
    let props = styled(t[x].props, inherited, defs);
    let here = t.update(x, RenderNodeView { props, ..t[x] });
    assert(t[x].props == tree[x].props);
    assert(t[x].children == tree[x].children);
    assert(same_shape(tree, here));
    assert(walked_so_far(tree, t, here, x, 0, inherited, defs));
    lemma_walk_children(tree, t, here, x, 0, inherited, defs);
}

proof fn lemma_walk_children(
    tree: Seq<RenderNodeView>,
    base: Seq<RenderNodeView>,
    t: Seq<RenderNodeView>,
    x: int,
    k: int,
    inherited: Seq<(Seq<char>, CssValueView)>,
    defs: Seq<DefinitionView>,
)
    requires
        linked(tree),
        same_shape(tree, base),
        same_shape(tree, t),
        0 <= x < tree.len(),
        0 <= k <= tree[x].children.len(),
        forall|z: int|
            is_within(tree, x, z) && 0 <= z < tree.len() ==> (#[trigger] base[z]).props == tree[z].props,
        walked_so_far(tree, base, t, x, k, inherited, defs),
    ensures
        walked(
            tree,
            base,
            walk_children(
                t,
                tree.len(),
                tree[x].children,
                x,
                k,
                handed_down(inherited, styled(tree[x].props, inherited, defs), defs),
                defs,
            ),
            x,
            inherited,
            defs,
        ),
    decreases tree.len() - x, 0nat, tree[x].children.len() - k,
{
    let n = tree.len();
    let children = tree[x].children;
    let handed = handed_down(inherited, styled(tree[x].props, inherited, defs), defs);
    if k < children.len() {
        let c = children[k].0 as int;
        assert(x < c < n);
        assert(tree[c].parent == Some(NodeId(x as usize)));
        assert(handed_to(tree, x, inherited, defs, c) == handed);
        assert forall|z: int| is_within(tree, c, z) && 0 <= z < n implies (#[trigger] t[z]).props
            == tree[z].props by {
            lemma_within_is_after(tree, c, z);
            lemma_within_child(tree, x, c, z);
            if is_covered(tree, children, k, z) {
                lemma_covered_is_within_earlier(tree, children, k, z);
                let j = choose|j: int|
                    0 <= j < k && j < children.len() && is_within(tree, #[trigger] children[j].0 as int, z);
                assert(children[j].0 < children[k].0);
                assert(tree[children[j].0 as int].parent == Some(NodeId(x as usize)));
                lemma_siblings_apart(tree, x, children[j].0 as int, c, z);
            }
            assert(t[z].props == base[z].props);
        }
        lemma_walk(tree, t, c, handed, defs);
        let next = walk(t, n, c, handed, defs);
        assert forall|z: int| 0 <= z < n implies (#[trigger] next[z]).props == if z == x || is_covered(
            tree,
            children,
            k + 1,
            z,
        ) {
            styled_at(tree, x, inherited, defs, z)
        } else {
            base[z].props
        } by {
            if is_within(tree, c, z) {
                lemma_within_is_after(tree, c, z);
                lemma_handed_to_from_child(tree, x, c, inherited, defs, z);
            } else {
                assert(next[z].props == t[z].props);
            }
        }
        lemma_walk_children(tree, base, next, x, k + 1, inherited, defs);
    } else {
        assert forall|z: int| 0 <= z < n implies (#[trigger] t[z]).props == if is_within(tree, x, z) {
            styled_at(tree, x, inherited, defs, z)
        } else {
            base[z].props
        } by {
            if is_within(tree, x, z) {
                if z != x {
                    lemma_within_below_is_within_a_child(tree, x, z);
                }
            } else {
                if is_covered(tree, children, k, z) {
                    lemma_covered_is_within_earlier(tree, children, k, z);
                    let j = choose|j: int|
                        0 <= j < k && j < children.len() && is_within(
                            tree,
                            #[trigger] children[j].0 as int,
                            z,
                        );
                    assert(tree[children[j].0 as int].parent == Some(NodeId(x as usize)));
                    lemma_within_child(tree, x, children[j].0 as int, z);
                }
            }
        }
    }
}

/// Propagation gives every node at or below its starting point the
/// properties that its own declared values and the chain of its ancestors
/// give it, and leaves every other node as it was. The order of the
/// children of a node plays no part in it.
pub proof fn lemma_propagated_by_ancestors(
    tree: Seq<RenderNodeView>,
    x: NodeId,
    inherited: Seq<(Seq<char>, CssValueView)>,
    defs: Seq<DefinitionView>,
)
    requires
        linked(tree),
    ensures
        propagated(tree, x, inherited, defs) == styled_by_ancestors(tree, x.0 as int, inherited, defs),
{
    let r = propagated(tree, x, inherited, defs);
    let s = styled_by_ancestors(tree, x.0 as int, inherited, defs);
    if x.0 < tree.len() {
        lemma_walk(tree, tree, x.0 as int, inherited, defs);
        assert forall|z: int| 0 <= z < tree.len() implies r[z] == s[z] by {
            assert(r[z].props == s[z].props);
        }
        assert(r =~= s);
    } else {
        assert forall|z: int| 0 <= z < tree.len() implies !is_within(tree, x.0 as int, z) by {
            if is_within(tree, x.0 as int, z) {
                lemma_within_is_after(tree, x.0 as int, z);
            }
        }
        assert(r =~= s);
    }
}

proof fn lemma_handed_to_distinct(
    tree: Seq<RenderNodeView>,
    x: int,
    inherited: Seq<(Seq<char>, CssValueView)>,
    defs: Seq<DefinitionView>,
    y: int,
)
    requires
        distinct(inherited_names(inherited)),
    ensures
        distinct(inherited_names(handed_to(tree, x, inherited, defs, y))),
    decreases y,
{
    if y != x && 0 <= y < tree.len() {
        match tree[y].parent {
            Some(p) => {
                if p.0 < y {
                    let above = handed_to(tree, x, inherited, defs, p.0 as int);
                    lemma_handed_to_distinct(tree, x, inherited, defs, p.0 as int);
                    lemma_handed_down_distinct(above, styled(tree[p.0 as int].props, above, defs), defs);
                }
            },
            None => {},
        }
    }
}

/// After propagation from the node `x`, a node below `x` that declares
/// nothing for a property that is inherited by default has the `actual`
/// value of its parent for it, where the parent holds the property:
/// values come from the nearest ancestor, whatever stands farther up and
/// whatever stands beside.
pub proof fn lemma_child_takes_the_value_of_its_parent(
    tree: Seq<RenderNodeView>,
    x: NodeId,
    inherited: Seq<(Seq<char>, CssValueView)>,
    defs: Seq<DefinitionView>,
    child: int,
    name: Seq<char>,
)
    requires
        render_tree_shaped(tree),
        distinct(inherited_names(inherited)),
        0 <= child < tree.len(),
        child != x.0,
        is_within(tree, x.0 as int, child),
        inherited_by_default(defs, name),
        undeclared(tree[child].props, name),
        property_of(
            propagated(tree, x, inherited, defs)[tree[child].parent.unwrap().0 as int].props,
            name,
        ) is Some,
    ensures
        ({
            let after = propagated(tree, x, inherited, defs);
            let parent = tree[child].parent.unwrap().0 as int;
            &&& property_of(after[child].props, name) is Some
            &&& property_of(after[child].props, name).unwrap().actual == property_of(
                after[parent].props,
                name,
            ).unwrap().actual
        }),
{
    let after = propagated(tree, x, inherited, defs);
    let parent = tree[child].parent.unwrap().0 as int;
    lemma_propagated_by_ancestors(tree, x, inherited, defs);
    let above = handed_to(tree, x.0 as int, inherited, defs, parent);
    assert(is_within(tree, x.0 as int, parent));
    assert(after[parent].props == styled(tree[parent].props, above, defs));
    assert(after[child].props == styled(tree[child].props, handed_down(above, after[parent].props, defs), defs));
    lemma_handed_to_distinct(tree, x.0 as int, inherited, defs, parent);
    lemma_styled_distinct(tree[parent].props, above, defs);
    lemma_nearest_ancestor_is_inherited(defs, above, after[parent].props, tree[child].props, name);
}

} // verus!
