//! Matching compound selectors against the elements of a document.

use vstd::prelude::*;
use crate::document::{Document, DocumentView};
use crate::node::{attribute_value, ElementData, ElementView, NodeDataTypeInternal, NodeDataView, NodeId};
use crate::stylesheet::{CssSelector, SelectorPart, SelectorPartView, Specificity};

verus! {

/// Whether one simple selector holds of an element.
pub open spec fn part_matches(part: SelectorPartView, el: ElementView) -> bool {
    match part {
        SelectorPartView::Universal => true,
        SelectorPartView::Type(t) => el.name == t,
        SelectorPartView::Id(id) => attribute_value(el.attributes, "id"@) == Some(id),
        SelectorPartView::Class(c) => el.classes.contains(c),
        SelectorPartView::Attribute(a) => attribute_value(el.attributes, a) is Some,
    }
}

/// Whether a compound selector holds of an element: it has a part, and
/// every part holds.
pub open spec fn compound_matches(selector: Seq<SelectorPartView>, el: ElementView) -> bool {
    selector.len() > 0 && forall|k: int| 0 <= k < selector.len() ==> part_matches(#[trigger] selector[k], el)
}

/// Whether a selector holds of the node `id` of a document. It holds of
/// elements only.
pub open spec fn selector_matches(doc: DocumentView, id: NodeId, selector: Seq<SelectorPartView>) -> bool {
    id.0 < doc.nodes.len() && match doc.nodes[id.0 as int].data {
        NodeDataView::Element(el) => compound_matches(selector, el),
        _ => false,
    }
}

/// How many parts of a selector count for the first, second and third
/// place of its weight.
pub open spec fn weight_counts(selector: Seq<SelectorPartView>) -> (nat, nat, nat)
    decreases selector.len(),
{
    if selector.len() == 0 {
        (0, 0, 0)
    } else {
        let (ids, classes, types) = weight_counts(selector.drop_last());
        match selector.last() {
            SelectorPartView::Universal => (ids, classes, types),
            SelectorPartView::Type(_) => (ids, classes, types + 1),
            SelectorPartView::Id(_) => (ids + 1, classes, types),
            SelectorPartView::Class(_) => (ids, classes + 1, types),
            SelectorPartView::Attribute(_) => (ids, classes + 1, types),
        }
    }
}

/// A count, held at the largest count that fits.
pub open spec fn capped(n: nat) -> u32 {
    if n > u32::MAX {
        u32::MAX
    } else {
        n as u32
    }
}

/// The weight of a selector; a count that does not fit is held at the
/// largest count.
pub open spec fn specificity_of(selector: Seq<SelectorPartView>) -> Specificity {
    let (ids, classes, types) = weight_counts(selector);
    Specificity { ids: capped(ids), classes: capped(classes), types: capped(types) }
}

fn bump(n: u32) -> (r: u32)
    ensures
        forall|m: nat| n == #[trigger] capped(m) ==> r == capped(m + 1),
{
    if n < u32::MAX {
        n + 1
    } else {
        n
    }
}

/// The weight of a selector.
pub fn specificity(selector: &CssSelector) -> (r: Specificity)
    ensures
        r == specificity_of(selector@),
{
    let ghost parts = selector@;
    let mut ids: u32 = 0;
    let mut classes: u32 = 0;
    let mut types: u32 = 0;
    let mut i: usize = 0;
    assert(parts.take(0) =~= Seq::<SelectorPartView>::empty());
    while i < selector.parts.len()
        invariant
            parts == selector@,
            0 <= i <= selector.parts.len(),
            ids == capped(weight_counts(parts.take(i as int)).0),
            classes == capped(weight_counts(parts.take(i as int)).1),
            types == capped(weight_counts(parts.take(i as int)).2),
        decreases selector.parts.len() - i,
    {
        proof {
            assert(parts.take(i + 1).drop_last() =~= parts.take(i as int));
            assert(parts.take(i + 1).last() == selector.parts[i as int]@);
        }
        match &selector.parts[i] {
            SelectorPart::Universal => {},
            SelectorPart::Type(_) => {
                types = bump(types);
            },
            SelectorPart::Id(_) => {
                ids = bump(ids);
            },
            SelectorPart::Class(_) => {
                classes = bump(classes);
            },
            SelectorPart::Attribute(_) => {
                classes = bump(classes);
            },
        }
        i += 1;
    }
    assert(parts.take(i as int) =~= parts);
    Specificity { ids, classes, types }
}

fn part_holds(part: &SelectorPart, el: &ElementData) -> (r: bool)
    ensures
        r == part_matches(part@, el@),
{
    match part {
        SelectorPart::Universal => true,
        SelectorPart::Type(t) => el.name == *t,
        SelectorPart::Id(id) => match el.attributes.get("id") {
            Some(v) => *v == *id,
            None => false,
        },
        SelectorPart::Class(c) => el.classlist.contains(c.as_str()),
        SelectorPart::Attribute(a) => el.attributes.contains_key(a.as_str()),
    }
}

/// Matches a selector against a node of a document. Returns whether it
/// holds of the node, and the selector's weight.
pub fn match_selector(doc: &Document, node_id: NodeId, selector: &CssSelector) -> (r: (bool, Specificity))
    ensures
        r.0 == selector_matches(doc@, node_id, selector@),
        r.1 == specificity_of(selector@),
{
    let weight = specificity(selector);
    let node = match doc.node_by_id(node_id) {
        Some(n) => n,
        None => {
            return (false, weight);
        },
    };
    let el = match &node.data {
        NodeDataTypeInternal::Element(el) => el,
        _ => {
            return (false, weight);
        },
    };
    if selector.parts.len() == 0 {
        return (false, weight);
    }
    let mut k: usize = 0;
    while k < selector.parts.len()
        invariant
            0 <= k <= selector.parts.len(),
            weight == specificity_of(selector@),
            node_id.0 < doc@.nodes.len(),
            doc@.nodes[node_id.0 as int].data == NodeDataView::Element(el@),
            forall|j: int| 0 <= j < k ==> part_matches(#[trigger] selector@[j], el@),
        decreases selector.parts.len() - k,
    {
        assert(selector@[k as int] == selector.parts[k as int]@);
        if !part_holds(&selector.parts[k], el) {
            return (false, weight);
        }
        k += 1;
    }
    (true, weight)
}

} // verus!
