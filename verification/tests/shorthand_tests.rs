use gosub_style::definitions::{CssDefinitions, PropertyDefinition, ValueKind};
use gosub_style::property_definitions::get_css_definitions;
use gosub_style::shorthands::{side_of, Expansion, FixList};
use gosub_style::stylesheet::{CssOrigin, Specificity};
use gosub_style::styling::CssProperties;
use gosub_style::values::CssValue;

fn px(n: i64) -> CssValue {
    CssValue::Unit(n * 1000, "px".to_string())
}

fn keyword(k: &str) -> CssValue {
    CssValue::Keyword(k.to_string())
}

fn expansion(name: &str, values: Vec<CssValue>) -> Expansion {
    Expansion {
        name: name.to_string(),
        values,
        origin: CssOrigin::Author,
        important: false,
        location: "a.css".to_string(),
        specificity: Specificity::new(0, 1, 0),
    }
}

fn names(list: &FixList) -> Vec<String> {
    list.entries.iter().map(|e| e.name.clone()).collect()
}

#[test]
fn sides_repeat_as_in_the_box_shorthands() {
    let expected = [[0, 0, 0, 0], [0, 1, 0, 1], [0, 1, 2, 1], [0, 1, 2, 3]];
    for k in 1..=4 {
        for i in 0..4 {
            assert_eq!(side_of(i, k), expected[k - 1][i]);
        }
    }
    assert_eq!(side_of(6, 2), 0);
    assert_eq!(side_of(7, 2), 1);
    assert_eq!(side_of(0, 0), 0);
    assert_eq!(side_of(5, 0), 0);
}

#[test]
fn valid_shorthand_stages_its_longhands() {
    let definitions = get_css_definitions();
    let mut list = FixList::new();
    let declared = expansion("margin", vec![px(1), px(2), px(3)]);
    assert!(definitions.matches_and_shorthands(&declared, &mut list));
    assert_eq!(names(&list), vec!["margin-top", "margin-right", "margin-bottom", "margin-left"]);
    assert_eq!(list.entries[0].values, vec![px(1)]);
    assert_eq!(list.entries[1].values, vec![px(2)]);
    assert_eq!(list.entries[2].values, vec![px(3)]);
    assert_eq!(list.entries[3].values, vec![px(2)]);
    assert_eq!(list.entries[3].specificity, Specificity::new(0, 1, 0));
    assert_eq!(list.entries[3].location, "a.css");
}

#[test]
fn longhand_stages_nothing() {
    let definitions = get_css_definitions();
    let mut list = FixList::new();
    assert!(definitions.matches_and_shorthands(&expansion("margin-top", vec![px(1)]), &mut list));
    assert!(definitions.matches_and_shorthands(&expansion("margin-top", vec![keyword("auto")]), &mut list));
    assert!(definitions.matches_and_shorthands(&expansion("margin-top", vec![keyword("inherit")]), &mut list));
    assert!(definitions.matches_and_shorthands(&expansion("margin-top", vec![CssValue::Number(0)]), &mut list));
    assert!(definitions.matches_and_shorthands(
        &expansion("font-family", vec![CssValue::Text("Arial".to_string()), keyword("serif")]),
        &mut list
    ));
    assert_eq!(list.len(), 0);
}

#[test]
fn invalid_declarations_are_refused() {
    let definitions = get_css_definitions();
    let mut list = FixList::new();
    assert!(!definitions.matches_and_shorthands(&expansion("margin", vec![]), &mut list));
    assert!(!definitions.matches_and_shorthands(
        &expansion("margin", vec![px(1), px(2), px(3), px(4), px(5)]),
        &mut list
    ));
    assert!(!definitions.matches_and_shorthands(&expansion("margin", vec![keyword("solid")]), &mut list));
    assert!(!definitions.matches_and_shorthands(&expansion("margin-top", vec![px(1), px(2)]), &mut list));
    assert!(!definitions.matches_and_shorthands(&expansion("margin-top", vec![CssValue::Number(1000)]), &mut list));
    assert!(!definitions.matches_and_shorthands(&expansion("margin-top", vec![CssValue::Empty]), &mut list));
    assert!(!definitions.matches_and_shorthands(&expansion("unknown", vec![px(1)]), &mut list));
    assert_eq!(list.len(), 0);
}

#[test]
fn nested_shorthands_resolve_to_longhands() {
    let definitions = get_css_definitions();
    let mut list = FixList::new();
    let declared = expansion("border", vec![px(1), keyword("solid"), CssValue::Color(1, 2, 3, 255)]);
    assert!(definitions.matches_and_shorthands(&declared, &mut list));
    assert_eq!(names(&list), vec!["border-width", "border-style", "border-color"]);
    list.resolve_nested(&definitions);
    assert_eq!(
        names(&list),
        vec![
            "border-top-width",
            "border-right-width",
            "border-bottom-width",
            "border-left-width",
            "border-top-style",
            "border-right-style",
            "border-bottom-style",
            "border-left-style",
            "border-top-color",
            "border-right-color",
            "border-bottom-color",
            "border-left-color",
        ]
    );
    for i in 0..4 {
        assert_eq!(list.entries[i].values, vec![px(1)]);
        assert_eq!(list.entries[4 + i].values, vec![keyword("solid")]);
        assert_eq!(list.entries[8 + i].values, vec![CssValue::Color(1, 2, 3, 255)]);
    }
}

#[test]
fn resolving_twice_is_resolving_once() {
    let definitions = get_css_definitions();
    let mut list = FixList::new();
    list.record(expansion("border", vec![px(1), keyword("solid"), CssValue::Color(1, 2, 3, 255)]));
    list.record(expansion("color", vec![CssValue::Color(0, 0, 0, 255)]));
    list.record(expansion("margin", vec![px(4)]));
    list.record(expansion("unknown", vec![]));
    list.resolve_nested(&definitions);
    assert_eq!(list.len(), 18);
    let once = list.entries.clone();
    list.resolve_nested(&definitions);
    assert_eq!(list.entries, once);
}

#[test]
fn apply_writes_in_order() {
    let mut list = FixList::new();
    list.record(expansion("margin-top", vec![px(1), px(7)]));
    list.record(expansion("margin-left", vec![]));
    list.record(expansion("margin-top", vec![px(2)]));
    let mut props = CssProperties::new();
    list.apply(&mut props);
    assert_eq!(props.len(), 1);
    let top = props.get("margin-top").unwrap();
    assert_eq!(top.declared.len(), 2);
    assert_eq!(top.declared[0].value, CssValue::List(vec![px(1), px(7)]));
    assert_eq!(top.declared[1].value, px(2));
    assert_eq!(top.declared[1].origin, CssOrigin::Author);
    assert!(!top.declared[1].important);
    assert_eq!(list.len(), 3);
}

#[test]
fn table_refuses_what_would_break_it() {
    let mut definitions = CssDefinitions::new();
    assert!(definitions.add(PropertyDefinition::new("a", false).accepting(ValueKind::Length)));
    assert!(!definitions.add(PropertyDefinition::new("a", true)));
    assert!(!definitions.add(PropertyDefinition::new("b", false).expanding_to("a").expanding_to("c")));
    assert!(!definitions.add(PropertyDefinition::new("b", false).expanding_to("b")));
    assert!(definitions.add(PropertyDefinition::new("b", false).expanding_to("a")));
    assert_eq!(definitions.len(), 2);
    assert!(!definitions.is_inherited("a"));
    assert!(definitions.find_property("b").unwrap().is_shorthand());
    assert!(!definitions.find_property("a").unwrap().is_shorthand());
    assert!(definitions.find_property("c").is_none());
    assert_eq!(definitions.position(&"b".to_string()), Some(1));
}

#[test]
fn built_in_table() {
    let definitions = get_css_definitions();
    assert_eq!(definitions.len(), 44);
    let color = definitions.find_property("color").unwrap();
    assert!(color.inherited);
    assert_eq!(color.kinds, vec![ValueKind::Color]);
    assert_eq!(color.keywords, vec!["currentcolor", "transparent"]);
    let border = definitions.find_property("border").unwrap();
    assert_eq!(border.longhands, vec!["border-width", "border-style", "border-color"]);
    assert!(definitions.find_property("font-family").unwrap().multiple);
    assert!(color.accepts_value(&CssValue::Color(0, 0, 0, 0)));
    assert!(color.accepts_value(&keyword("unset")));
    assert!(color.accepts_value(&keyword("initial")));
    assert!(!color.accepts_value(&keyword("red")));
    assert!(!color.accepts_values(&vec![]));
}
