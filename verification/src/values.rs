//! CSS values and their mathematical model.

use vstd::prelude::*;
use crate::text::views;

verus! {

/// A CSS value as it stands in a declaration. Numeric payloads are fixed-point
/// integers counted in thousandths, so `1.5` is held as `1500`.
#[derive(Debug, PartialEq, Eq)]
pub enum CssValue {
    Empty,
    Keyword(String),
    Number(i64),
    Percentage(i64),
    Unit(i64, String),
    Text(String),
    Color(u8, u8, u8, u8),
    Function(String, Vec<CssValue>),
    List(Vec<CssValue>),
}

/// The mathematical model of a [`CssValue`].
pub enum CssValueView {
    Empty,
    Keyword(Seq<char>),
    Number(int),
    Percentage(int),
    Unit(int, Seq<char>),
    Text(Seq<char>),
    Color(u8, u8, u8, u8),
    Function(Seq<char>, Seq<CssValueView>),
    List(Seq<CssValueView>),
}

/// The model of a value: strings by their characters, numbers as integers,
/// arguments and elements by their own models.
pub open spec fn value_view(v: CssValue) -> CssValueView
    decreases v,
{
    match v {
        CssValue::Empty => CssValueView::Empty,
        CssValue::Keyword(s) => CssValueView::Keyword(s@),
        CssValue::Number(n) => CssValueView::Number(n as int),
        CssValue::Percentage(n) => CssValueView::Percentage(n as int),
        CssValue::Unit(n, u) => CssValueView::Unit(n as int, u@),
        CssValue::Text(s) => CssValueView::Text(s@),
        CssValue::Color(r, g, b, a) => CssValueView::Color(r, g, b, a),
        CssValue::Function(name, args) => CssValueView::Function(
            name@,
            Seq::new(
                args.len() as nat,
                |i: int|
                    if 0 <= i < args.len() {
                        value_view(args[i])
                    } else {
                        CssValueView::Empty
                    },
            ),
        ),
        CssValue::List(items) => CssValueView::List(
            Seq::new(
                items.len() as nat,
                |i: int|
                    if 0 <= i < items.len() {
                        value_view(items[i])
                    } else {
                        CssValueView::Empty
                    },
            ),
        ),
    }
}

impl View for CssValue {
    type V = CssValueView;

    open spec fn view(&self) -> CssValueView {
        value_view(*self)
    }
}

impl Clone for CssValue {
    fn clone(&self) -> (r: CssValue)
        ensures
            r@ == self@,
        decreases self,
    {
    match self {
        CssValue::Empty => CssValue::Empty,
        CssValue::Keyword(s) => CssValue::Keyword(s.clone()),
        CssValue::Number(n) => CssValue::Number(*n),
        CssValue::Percentage(n) => CssValue::Percentage(*n),
        CssValue::Unit(n, u) => CssValue::Unit(*n, u.clone()),
        CssValue::Text(s) => CssValue::Text(s.clone()),
        CssValue::Color(r, g, b, a) => CssValue::Color(*r, *g, *b, *a),
        CssValue::Function(name, args) => {
            let mut out: Vec<CssValue> = Vec::new();
            let mut i: usize = 0;
            while i < args.len()
                invariant
                    *self == CssValue::Function(*name, *args),
                    0 <= i <= args.len(),
                    out.len() == i,
                    forall|k: int| 0 <= k < i ==> out[k]@ == args[k]@,
                decreases args.len() - i,
            {
                proof {
                    vstd::std_specs::vec::axiom_vec_index_decreases(*args, i as int);
                    assert(decreases_to!(*self => self->Function_1));
                }
                out.push(args[i].clone());
                i += 1;
            }
            let r = CssValue::Function(name.clone(), out);
            assert(r@->Function_1 =~= self@->Function_1);
            assert(r@ == self@);
            r
        },
        CssValue::List(items) => {
            let mut out: Vec<CssValue> = Vec::new();
            let mut i: usize = 0;
            while i < items.len()
                invariant
                    *self == CssValue::List(*items),
                    0 <= i <= items.len(),
                    out.len() == i,
                    forall|k: int| 0 <= k < i ==> out[k]@ == items[k]@,
                decreases items.len() - i,
            {
                proof {
                    vstd::std_specs::vec::axiom_vec_index_decreases(*items, i as int);
                    assert(decreases_to!(*self => self->List_0));
                }
                out.push(items[i].clone());
                i += 1;
            }
            let r = CssValue::List(out);
            assert(r@->List_0 =~= self@->List_0);
            assert(r@ == self@);
            r
        },
    }
    }
}

/// The view of a list is the list of the views of its elements.
pub proof fn lemma_view_of_list(items: Vec<CssValue>)
    ensures
        CssValue::List(items)@ == CssValueView::List(views(items@)),
{
    assert(value_view(CssValue::List(items))->List_0 =~= views(items@));
}

/// The view of a function is the name with the views of its arguments.
pub proof fn lemma_view_of_function(name: String, args: Vec<CssValue>)
    ensures
        CssValue::Function(name, args)@ == CssValueView::Function(name@, views(args@)),
{
    assert(value_view(CssValue::Function(name, args))->Function_1 =~= views(args@));
}

} // verus!
