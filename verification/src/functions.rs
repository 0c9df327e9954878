//! The value resolver: `calc()`, `attr()` and `var()` are replaced by what
//! they resolve to.

use vstd::prelude::*;
use crate::calc::{evaluate, evaluate_expression, is_expression};
use crate::document::{variable_in_scope, Document, DocumentView};
use crate::node::{attribute_value, NodeDataTypeInternal, NodeDataView, NodeImpl, NodeView};
use crate::text::{text_is, views};
use crate::values::{lemma_view_of_function, lemma_view_of_list, CssValue, CssValueView};

verus! {

/// A list of exactly one value stands for that value; any other value
/// stands for itself.
pub open spec fn unwrapped(v: CssValueView) -> CssValueView {
    match v {
        CssValueView::List(items) => if items.len() == 1 {
            items[0]
        } else {
            v
        },
        _ => v,
    }
}

/// The name that the first argument of `attr()` or `var()` gives.
pub open spec fn argument_name(args: Seq<CssValueView>) -> Option<Seq<char>> {
    if args.len() == 0 {
        None
    } else {
        match args[0] {
            CssValueView::Keyword(k) => Some(k),
            CssValueView::Text(k) => Some(k),
            _ => None,
        }
    }
}

/// What `attr()` resolves to: the named attribute of the element as a text
/// value, or nothing where the node has no such attribute.
pub open spec fn attr_result(args: Seq<CssValueView>, node: NodeView) -> Seq<CssValueView> {
    match (argument_name(args), node.data) {
        (Some(name), NodeDataView::Element(el)) => match attribute_value(el.attributes, name) {
            Some(v) => seq![CssValueView::Text(v)],
            None => Seq::empty(),
        },
        _ => Seq::empty(),
    }
}

/// What `var()` resolves to: the custom property as seen from the node, else
/// the second argument, else nothing.
pub open spec fn var_result(args: Seq<CssValueView>, node: NodeView, doc: DocumentView) -> Seq<CssValueView> {
    let found = match argument_name(args) {
        Some(name) => variable_in_scope(doc, node.id.0 as int, name),
        None => None,
    };
    match found {
        Some(v) => seq![v],
        None => if args.len() > 1 {
            seq![args[1]]
        } else {
            Seq::empty()
        },
    }
}

/// The value `v` with its function resolved. A function always becomes a
/// list: `calc`, `attr` and `var` each what they resolve to, a function
/// that is not known a list of itself. Any other value is left alone.
pub open spec fn resolved(v: CssValueView, node: NodeView, doc: DocumentView) -> CssValueView
    decreases v, 0nat,
{
    match v {
        CssValueView::Function(name, args) => CssValueView::List(
            if name == "calc"@ {
                calc_result(args, node, doc)
            } else if name == "attr"@ {
                attr_result(args, node)
            } else if name == "var"@ {
                var_result(args, node, doc)
            } else {
                seq![v]
            },
        ),
        _ => v,
    }
}

/// What `calc()` resolves to: the number that its operands evaluate to, or
/// the function as it stands where they are no expression over numbers.
pub open spec fn calc_result(args: Seq<CssValueView>, node: NodeView, doc: DocumentView) -> Seq<CssValueView>
    decreases args, 2nat,
{
    match evaluate(resolved_operands(args, node, doc)) {
        Some(n) => seq![CssValueView::Number(n)],
        None => seq![CssValueView::Function("calc"@, args)],
    }
}

/// The operands of `calc`: each argument resolved, and taken out of its
/// list where it resolved to a list of one value.
pub open spec fn resolved_operands(
    args: Seq<CssValueView>,
    node: NodeView,
    doc: DocumentView,
) -> Seq<CssValueView>
    decreases args, 1nat,
{
    Seq::new(
        args.len(),
        |i: int|
            if 0 <= i < args.len() {
                unwrapped(resolved(args[i], node, doc))
            } else {
                CssValueView::Empty
            },
    )
}

/// The value of a declaration with its functions resolved: each element of
/// a list by itself, any other value as a whole.
pub open spec fn resolved_value(v: CssValueView, node: NodeView, doc: DocumentView) -> CssValueView {
    match v {
        CssValueView::List(items) => CssValueView::List(
            items.map_values(|x: CssValueView| resolved(x, node, doc)),
        ),
        _ => resolved(v, node, doc),
    }
}

/// A list of one value, taken apart; any other value, as it is.
pub fn unwrap_single(v: CssValue) -> (r: CssValue)
    ensures
        r@ == unwrapped(v@),
{
    match v {
        CssValue::List(mut items) => {
            if items.len() == 1 {
                proof {
                    lemma_view_of_list(items);
                    assert(views(items@)[0] == items[0]@);
                }
                let only = items.pop();
                match only {
                    Some(x) => x,
                    None => CssValue::Empty,
                }
            } else {
                proof {
                    lemma_view_of_list(items);
                }
                CssValue::List(items)
            }
        },
        other => other,
    }
}

fn first_name(args: &Vec<CssValue>) -> (r: Option<&String>)
    ensures
        match r {
            Some(s) => argument_name(views(args@)) == Some(s@),
            None => argument_name(views(args@)) is None,
        },
{
    if args.len() == 0 {
        return None;
    }
    assert(views(args@)[0] == args[0]@);
    match &args[0] {
        CssValue::Keyword(k) => Some(k),
        CssValue::Text(k) => Some(k),
        _ => None,
    }
}

/// Resolves `attr()` on a node.
pub fn resolve_attr(values: &Vec<CssValue>, node: &NodeImpl) -> (r: Vec<CssValue>)
    ensures
        views(r@) == attr_result(views(values@), node@),
{
    let mut out: Vec<CssValue> = Vec::new();
    if let Some(name) = first_name(values) {
        if let NodeDataTypeInternal::Element(el) = &node.data {
            if let Some(v) = el.attributes.get(name.as_str()) {
                out.push(CssValue::Text(v.clone()));
            }
        }
    }
    assert(views(out@) =~= attr_result(views(values@), node@));
    out
}

/// Resolves `var()` as seen from a node of a document.
pub fn resolve_var(values: &Vec<CssValue>, doc: &Document, node: &NodeImpl) -> (r: Vec<CssValue>)
    ensures
        views(r@) == var_result(views(values@), node@, doc@),
{
    let mut out: Vec<CssValue> = Vec::new();
    let found = match first_name(values) {
        Some(name) => doc.lookup_variable(node.id, name.as_str()),
        None => None,
    };
    match found {
        Some(v) => {
            out.push(v);
        },
        None => {
            if values.len() > 1 {
                assert(views(values@)[1] == values[1]@);
                out.push(values[1].clone());
            }
        },
    }
    assert(views(out@) =~= var_result(views(values@), node@, doc@));
    out
}

/// Resolves `calc()`: its arguments are resolved first and then evaluated
/// as an expression over numbers.
pub fn resolve_calc(values: &Vec<CssValue>, node: &NodeImpl, doc: &Document) -> (r: Vec<CssValue>)
    ensures
        views(r@) == calc_result(views(values@), node@, doc@),
    decreases values,
{
    let ghost args = views(values@);
    let mut operands: Vec<CssValue> = Vec::new();
    let mut i: usize = 0;
    while i < values.len()
        invariant
            args == views(values@),
            0 <= i <= values.len(),
            operands.len() == i,
            forall|k: int| 0 <= k < i ==> operands[k]@ == unwrapped(resolved(args[k], node@, doc@)),
        decreases values.len() - i,
    {
        proof {
            vstd::std_specs::vec::axiom_vec_index_decreases(*values, i as int);
        }
        let operand = unwrap_single(resolve(&values[i], node, doc));
        operands.push(operand);
        i += 1;
    }
    assert(views(operands@) =~= resolved_operands(args, node@, doc@));
    let mut out: Vec<CssValue> = Vec::new();
    match evaluate_expression(&operands) {
        Some(n) => {
            out.push(CssValue::Number(n));
            assert(views(out@) =~= seq![CssValueView::Number(n as int)]);
        },
        None => {
            let mut kept: Vec<CssValue> = Vec::new();
            let mut k: usize = 0;
            while k < values.len()
                invariant
                    0 <= k <= values.len(),
                    kept.len() == k,
                    forall|m: int| 0 <= m < k ==> kept[m]@ == values[m]@,
                decreases values.len() - k,
            {
                kept.push(values[k].clone());
                k += 1;
            }
            let name = "calc".to_owned();
            proof {
                assert(views(kept@) =~= args);
                lemma_view_of_function(name, kept);
            }
            out.push(CssValue::Function(name, kept));
            assert(views(out@) =~= seq![CssValueView::Function("calc"@, args)]);
        },
    }
    out
}

/// Resolves the function that a value is, if it is one.
pub fn resolve(val: &CssValue, node: &NodeImpl, doc: &Document) -> (r: CssValue)
    ensures
        r@ == resolved(val@, node@, doc@),
    decreases val,
{
    match val {
        CssValue::Function(func, values) => {
            proof {
                lemma_view_of_function(*func, *values);
                assert(decreases_to!(*val => val->Function_1));
            }
            let out = if text_is(func, "calc") {
                resolve_calc(values, node, doc)
            } else if text_is(func, "attr") {
                resolve_attr(values, node)
            } else if text_is(func, "var") {
                resolve_var(values, doc, node)
            } else {
                let mut out: Vec<CssValue> = Vec::new();
                out.push(val.clone());
                assert(views(out@) =~= seq![val@]);
                out
            };
            proof {
                lemma_view_of_list(out);
            }
            CssValue::List(out)
        },
        _ => val.clone(),
    }
}

/// Resolves the functions in the value of a declaration.
pub fn resolve_functions(value: &CssValue, node: &NodeImpl, doc: &Document) -> (r: CssValue)
    ensures
        r@ == resolved_value(value@, node@, doc@),
{
    if let CssValue::List(list) = value {
        let ghost items = views(list@);
        proof {
            lemma_view_of_list(*list);
        }
        let mut out: Vec<CssValue> = Vec::new();
        let mut i: usize = 0;
        while i < list.len()
            invariant
                0 <= i <= list.len(),
                out.len() == i,
                items == views(list@),
                forall|k: int| 0 <= k < i ==> out[k]@ == resolved(items[k], node@, doc@),
            decreases list.len() - i,
        {
            out.push(resolve(&list[i], node, doc));
            i += 1;
        }
        proof {
            lemma_view_of_list(out);
            assert(views(out@) =~= items.map_values(|x: CssValueView| resolved(x, node@, doc@)));
        }
        CssValue::List(out)
    } else {
        resolve(value, node, doc)
    }
}

/// A `calc()` over numbers and operators alone resolves to one number and
/// leaves no function behind.
pub proof fn lemma_calc_of_numbers_is_a_number(args: Seq<CssValueView>, node: NodeView, doc: DocumentView)
    requires
        is_expression(args),
    ensures
        evaluate(args) is Some,
        unwrapped(resolved_value(CssValueView::Function("calc"@, args), node, doc)) == CssValueView::Number(
            evaluate(args).unwrap(),
        ),
{
    let operands = resolved_operands(args, node, doc);
    assert forall|i: int| 0 <= i < args.len() implies operands[i] == args[i] by {
        if i % 2 == 0 {
            assert(args[i] is Number);
        } else {
            assert(crate::calc::operator_of(args[i]) is Some);
        }
    }
    assert(operands =~= args);
}

} // verus!
