use gosub_style::calc::{apply, evaluate_expression, read_operator, CalcOperator};
use gosub_style::document::Document;
use gosub_style::functions::{resolve, resolve_attr, resolve_calc, resolve_functions, resolve_var, unwrap_single};
use gosub_style::node::{Attributes, Location, NodeId, NodeImpl};
use gosub_style::values::CssValue;

fn number(n: i64) -> CssValue {
    CssValue::Number(n * 1000)
}

fn keyword(k: &str) -> CssValue {
    CssValue::Keyword(k.to_string())
}

fn function(name: &str, args: Vec<CssValue>) -> CssValue {
    CssValue::Function(name.to_string(), args)
}

fn titled_document() -> Document {
    let mut doc = Document::new();
    let mut attributes = Attributes::new();
    attributes.insert("title".to_string(), "hello".to_string());
    doc.add_node(NodeImpl::new_element(Location::default(), "html", None, Attributes::new()), None).unwrap();
    doc.add_node(NodeImpl::new_element(Location::default(), "div", None, attributes), Some(NodeId(0))).unwrap();
    doc.add_node(NodeImpl::new_text(Location::default(), "text"), Some(NodeId(1))).unwrap();
    doc
}

#[test]
fn calc_over_numbers_is_one_number() {
    let doc = titled_document();
    let node = doc.node_by_id(NodeId(1)).unwrap();
    let value = function("calc", vec![number(1), keyword("+"), number(2), keyword("*"), number(3)]);
    let resolved = resolve_functions(&value, node, &doc);
    assert_eq!(resolved, CssValue::List(vec![number(7)]));
    assert_eq!(unwrap_single(resolved), CssValue::Number(7000));
}

#[test]
fn calc_goes_from_left_to_right() {
    let cases: Vec<(Vec<CssValue>, i64)> = vec![
        (vec![number(5)], 5000),
        (vec![number(10), keyword("-"), number(4), keyword("-"), number(3)], 3000),
        (vec![number(7), keyword("/"), number(2)], 3500),
        (vec![number(-7), keyword("/"), number(2)], -3500),
        (vec![number(1), keyword("/"), number(3)], 333),
        (vec![number(-1), keyword("/"), number(3)], -333),
        (vec![number(2), keyword("*"), number(3), keyword("+"), number(4), keyword("*"), number(5)], 26000),
        (vec![number(2), keyword("+"), number(12), keyword("/"), number(4), keyword("/"), number(3)], 3000),
        (vec![CssValue::Number(1500), keyword("*"), CssValue::Number(1500)], 2250),
        (vec![CssValue::Number(1), keyword("*"), CssValue::Number(999)], 0),
        (vec![CssValue::Number(-1), keyword("*"), CssValue::Number(999)], 0),
    ];
    for (tokens, expected) in cases {
        assert_eq!(evaluate_expression(&tokens), Some(expected));
    }
}

#[test]
fn calc_holds_results_in_range() {
    assert_eq!(apply(CalcOperator::Add, i64::MAX, 1), i64::MAX);
    assert_eq!(apply(CalcOperator::Subtract, i64::MIN, 1), i64::MIN);
    assert_eq!(apply(CalcOperator::Multiply, i64::MAX, i64::MAX), i64::MAX);
    assert_eq!(apply(CalcOperator::Multiply, i64::MIN, i64::MAX), i64::MIN);
    assert_eq!(apply(CalcOperator::Multiply, i64::MIN, i64::MIN), i64::MAX);
    assert_eq!(apply(CalcOperator::Divide, i64::MAX, 1), i64::MAX);
    assert_eq!(apply(CalcOperator::Divide, i64::MIN, 1), i64::MIN);
    assert_eq!(apply(CalcOperator::Divide, 5, 0), i64::MAX);
    assert_eq!(apply(CalcOperator::Divide, -5, 0), i64::MIN);
    assert_eq!(apply(CalcOperator::Divide, 0, 0), 0);
    assert_eq!(apply(CalcOperator::Divide, 1000, i64::MIN), 0);
    assert_eq!(apply(CalcOperator::Add, 2000, 3000), 5000);
    assert_eq!(apply(CalcOperator::Subtract, 2000, 3000), -1000);
}

#[test]
fn what_is_no_expression_is_not_evaluated() {
    let cases: Vec<Vec<CssValue>> = vec![
        vec![],
        vec![keyword("+")],
        vec![number(1), keyword("+")],
        vec![number(1), number(2)],
        vec![number(1), keyword("%"), number(2)],
        vec![number(1), keyword("+"), CssValue::Percentage(2000)],
        vec![CssValue::Unit(1000, "px".to_string()), keyword("+"), CssValue::Unit(1000, "px".to_string())],
        vec![number(1), CssValue::Text("+".to_string()), number(2)],
    ];
    for tokens in cases {
        assert_eq!(evaluate_expression(&tokens), None);
    }
    assert_eq!(read_operator(&keyword("*")), Some(CalcOperator::Multiply));
    assert_eq!(read_operator(&keyword("**")), None);
}

#[test]
fn calc_that_is_no_expression_stays() {
    let doc = titled_document();
    let node = doc.node_by_id(NodeId(1)).unwrap();
    let value = function("calc", vec![CssValue::Unit(1000, "px".to_string()), keyword("+"), number(1)]);
    assert_eq!(resolve(&value, node, &doc), CssValue::List(vec![value.clone()]));
}

#[test]
fn calc_resolves_its_arguments_first() {
    let mut doc = titled_document();
    doc.set_variable(NodeId(0), "--n", number(4));
    let node = doc.node_by_id(NodeId(1)).unwrap();
    let inner = function("calc", vec![number(1), keyword("+"), number(1)]);
    let value = function("calc", vec![inner, keyword("*"), function("var", vec![keyword("--n")])]);
    assert_eq!(resolve(&value, node, &doc), CssValue::List(vec![number(8)]));
}

#[test]
fn attr_reads_the_attribute() {
    let doc = titled_document();
    let node = doc.node_by_id(NodeId(1)).unwrap();
    assert_eq!(resolve_attr(&vec![keyword("title")], node), vec![CssValue::Text("hello".to_string())]);
    assert_eq!(
        resolve(&function("attr", vec![CssValue::Text("title".to_string())]), node, &doc),
        CssValue::List(vec![CssValue::Text("hello".to_string())])
    );
}

#[test]
fn attr_of_a_missing_attribute_is_empty() {
    let doc = titled_document();
    let node = doc.node_by_id(NodeId(1)).unwrap();
    assert_eq!(resolve_attr(&vec![keyword("href")], node), vec![]);
    assert_eq!(resolve_attr(&vec![keyword("href"), keyword("fallback")], node), vec![]);
    assert_eq!(resolve_attr(&vec![], node), vec![]);
    assert_eq!(resolve_attr(&vec![number(1)], node), vec![]);
    let text = doc.node_by_id(NodeId(2)).unwrap();
    assert_eq!(resolve_attr(&vec![keyword("title")], text), vec![]);
    assert_eq!(resolve(&function("attr", vec![keyword("href")]), node, &doc), CssValue::List(vec![]));
}

#[test]
fn var_looks_up_the_ancestors() {
    let mut doc = titled_document();
    doc.set_variable(NodeId(0), "--main", number(1));
    doc.set_variable(NodeId(0), "--other", number(2));
    doc.set_variable(NodeId(1), "--other", number(3));
    doc.set_variable(NodeId(1), "--other", number(4));
    let div = doc.node_by_id(NodeId(1)).unwrap();
    let text = doc.node_by_id(NodeId(2)).unwrap();
    let root = doc.node_by_id(NodeId(0)).unwrap();
    assert_eq!(resolve_var(&vec![keyword("--main")], &doc, text), vec![number(1)]);
    assert_eq!(resolve_var(&vec![keyword("--other")], &doc, text), vec![number(4)]);
    assert_eq!(resolve_var(&vec![keyword("--other")], &doc, div), vec![number(4)]);
    assert_eq!(resolve_var(&vec![keyword("--other")], &doc, root), vec![number(2)]);
    assert_eq!(doc.lookup_variable(NodeId(2), "--main"), Some(number(1)));
    assert_eq!(doc.lookup_variable(NodeId(9), "--main"), None);
}

#[test]
fn var_falls_back() {
    let mut doc = titled_document();
    doc.set_variable(NodeId(1), "--local", number(1));
    let root = doc.node_by_id(NodeId(0)).unwrap();
    assert_eq!(resolve_var(&vec![keyword("--local"), number(9)], &doc, root), vec![number(9)]);
    assert_eq!(resolve_var(&vec![keyword("--local")], &doc, root), vec![]);
    assert_eq!(resolve_var(&vec![], &doc, root), vec![]);
    assert_eq!(resolve_var(&vec![number(1), number(2)], &doc, root), vec![number(2)]);
}

#[test]
fn unknown_function_stays() {
    let doc = titled_document();
    let node = doc.node_by_id(NodeId(1)).unwrap();
    let value = function("rotate", vec![number(1)]);
    assert_eq!(resolve(&value, node, &doc), CssValue::List(vec![value.clone()]));
    assert_eq!(unwrap_single(resolve_functions(&value, node, &doc)), value);
}

#[test]
fn values_that_are_no_function_are_left_alone() {
    let doc = titled_document();
    let node = doc.node_by_id(NodeId(1)).unwrap();
    for value in [
        CssValue::Empty,
        keyword("auto"),
        number(3),
        CssValue::Percentage(50000),
        CssValue::Unit(1500, "em".to_string()),
        CssValue::Text("x".to_string()),
        CssValue::Color(1, 2, 3, 4),
    ] {
        assert_eq!(resolve_functions(&value, node, &doc), value);
    }
}

#[test]
fn list_elements_are_resolved_each_by_itself() {
    let doc = titled_document();
    let node = doc.node_by_id(NodeId(1)).unwrap();
    let nested = CssValue::List(vec![function("attr", vec![keyword("title")])]);
    let value = CssValue::List(vec![
        number(1),
        function("calc", vec![number(2), keyword("+"), number(2)]),
        function("attr", vec![keyword("none")]),
        nested.clone(),
    ]);
    assert_eq!(
        resolve_functions(&value, node, &doc),
        CssValue::List(vec![number(1), CssValue::List(vec![number(4)]), CssValue::List(vec![]), nested])
    );
}

#[test]
fn unwrap_single_takes_lists_of_one_apart() {
    assert_eq!(unwrap_single(CssValue::List(vec![number(1)])), number(1));
    assert_eq!(unwrap_single(CssValue::List(vec![])), CssValue::List(vec![]));
    assert_eq!(unwrap_single(CssValue::List(vec![number(1), number(2)])), CssValue::List(vec![number(1), number(2)]));
    assert_eq!(unwrap_single(number(1)), number(1));
    assert_eq!(
        unwrap_single(CssValue::List(vec![CssValue::List(vec![number(1)])])),
        CssValue::List(vec![number(1)])
    );
}

#[test]
fn clone_keeps_the_value() {
    let value = CssValue::List(vec![
        function("f", vec![number(1), CssValue::List(vec![keyword("a")])]),
        CssValue::Unit(-5, "px".to_string()),
    ]);
    assert_eq!(value.clone(), value);
}

#[test]
fn resolve_calc_gives_a_number_or_the_function() {
    let doc = titled_document();
    let node = doc.node_by_id(NodeId(1)).unwrap();
    let args = vec![number(6), keyword("/"), number(4)];
    assert_eq!(resolve_calc(&args, node, &doc), vec![CssValue::Number(1500)]);
    let args = vec![CssValue::Percentage(100000), keyword("-"), CssValue::Unit(10000, "px".to_string())];
    assert_eq!(resolve_calc(&args, node, &doc), vec![function("calc", args.clone())]);
    assert_eq!(resolve_calc(&vec![], node, &doc), vec![function("calc", vec![])]);
}
