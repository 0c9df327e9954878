//! The cascade collector: the declared properties of a node from the
//! stylesheets that apply to it.

use vstd::prelude::*;
use crate::definitions::{inherited_by_default, CssDefinitions, DefinitionView};
use crate::document::{Document, DocumentView};
use crate::functions::{resolve_functions, resolved_value, unwrap_single, unwrapped};
use crate::matcher::{match_selector, selector_matches, specificity_of};
use crate::node::{NodeDataTypeInternal, NodeDataView, NodeId, NodeImpl, NodeView};
use crate::property_definitions::{builtin_definitions, get_css_definitions};
use crate::shorthands::{
    applied, names_shorthand, resolve_all, staged, validates, Expansion, ExpansionView, FixList,
};
use crate::stylesheet::{
    CssDeclaration, CssDeclarationView, CssRule, CssRuleView, CssStylesheet, CssStylesheetView,
    SelectorPartView, Specificity,
};
use crate::styling::{with_candidate, CssProperties, CssPropertyView, DeclarationProperty, DeclarationView};
use crate::text::{all_whitespace, is_blank, text_is, views};
use crate::values::{lemma_view_of_list, CssValue, CssValueView};

verus! {

/// The elements that are never rendered.
pub open spec fn is_removable_element(name: Seq<char>) -> bool {
    name == "head"@ || name == "script"@ || name == "style"@ || name == "svg"@ || name == "noscript"@ || name
        == "title"@
}

/// A node that produces no visual output: an element that is never
/// rendered, or a text that holds nothing but white space.
pub open spec fn unrenderable(data: NodeDataView) -> bool {
    match data {
        NodeDataView::Element(el) => is_removable_element(el.name),
        NodeDataView::Text(text) => all_whitespace(text),
        _ => false,
    }
}

/// Whether a node produces no visual output.
pub fn node_is_unrenderable(node: &NodeImpl) -> (r: bool)
    ensures
        r == unrenderable(node@.data),
{
    match &node.data {
        NodeDataTypeInternal::Element(el) => {
            let name = &el.name;
            text_is(name, "head") || text_is(name, "script") || text_is(name, "style") || text_is(name, "svg")
                || text_is(name, "noscript") || text_is(name, "title")
        },
        NodeDataTypeInternal::Text(text) => is_blank(text.value.as_str()),
        _ => false,
    }
}

/// Whether the built-in table defines the property `name` as inherited by
/// default.
pub fn prop_is_inherit(name: &str) -> (r: bool)
    ensures
        r == inherited_by_default(builtin_definitions(), name@),
{
    get_css_definitions().is_inherited(name)
}

/// The candidate that a declaration of a sheet contributes under a selector
/// of the given weight.
pub open spec fn candidate_from(
    sheet: CssStylesheetView,
    specificity: Specificity,
    declaration: CssDeclarationView,
) -> DeclarationView {
    DeclarationView {
        value: declaration.value,
        origin: sheet.origin,
        important: declaration.important,
        location: sheet.url,
        specificity,
    }
}

/// Adds the candidate that `declaration` contributes to the properties of a
/// node.
pub fn add_property_to_map(
    css_map_entry: &mut CssProperties,
    sheet: &CssStylesheet,
    specificity: Specificity,
    declaration: &CssDeclaration,
)
    ensures
        old(css_map_entry).wf() ==> final(css_map_entry).wf(),
        final(css_map_entry)@ == with_candidate(
            old(css_map_entry)@,
            declaration@.property,
            candidate_from(sheet@, specificity, declaration@),
        ),
{
    let candidate = DeclarationProperty {
        value: declaration.value.clone(),
        origin: sheet.origin,
        important: declaration.important,
        location: sheet.url.clone(),
        specificity,
    };
    css_map_entry.add_candidate(&declaration.property, candidate);
}

/// What a node's cascade pass has gathered: the candidates written so far,
/// and the shorthand obligations staged so far.
pub struct Cascade {
    pub props: Seq<CssPropertyView>,
    pub fixes: Seq<ExpansionView>,
}

/// The values that a resolved value is validated as: the elements of a list,
/// or the one value.
pub open spec fn values_of(value: CssValueView) -> Seq<CssValueView> {
    match value {
        CssValueView::List(items) => items,
        _ => seq![value],
    }
}

/// What a declaration is validated as, once its value is resolved.
pub open spec fn declared_as(
    sheet: CssStylesheetView,
    specificity: Specificity,
    declaration: CssDeclarationView,
    node: NodeView,
    doc: DocumentView,
) -> ExpansionView {
    ExpansionView {
        name: declaration.property,
        values: values_of(resolved_value(declaration.value, node, doc)),
        origin: sheet.origin,
        important: declaration.important,
        location: sheet.url,
        specificity,
    }
}

/// The cascade after one declaration of a matching rule. A declaration whose
/// property is not defined, or whose resolved value its definition does not
/// accept, changes nothing. A shorthand contributes its resolved value as a
/// candidate for the shorthand itself and stages the obligations of its
/// longhands. A longhand is staged as an obligation of its own, so that
/// every longhand is written in source order once all have been gathered.
pub open spec fn after_declaration(
    defs: Seq<DefinitionView>,
    c: Cascade,
    sheet: CssStylesheetView,
    specificity: Specificity,
    declaration: CssDeclarationView,
    node: NodeView,
    doc: DocumentView,
) -> Cascade {
    let e = declared_as(sheet, specificity, declaration, node, doc);
    if !validates(defs, e) {
        c
    } else if names_shorthand(defs, e) {
        Cascade {
            props: with_candidate(
                c.props,
                declaration.property,
                candidate_from(
                    sheet,
                    specificity,
                    CssDeclarationView {
                        value: unwrapped(resolved_value(declaration.value, node, doc)),
                        ..declaration
                    },
                ),
            ),
            fixes: c.fixes + staged(defs, e),
        }
    } else {
        Cascade { props: c.props, fixes: c.fixes.push(e) }
    }
}

/// The cascade after the declarations of a matching rule, in source order.
pub open spec fn after_declarations(
    defs: Seq<DefinitionView>,
    c: Cascade,
    sheet: CssStylesheetView,
    specificity: Specificity,
    declarations: Seq<CssDeclarationView>,
    node: NodeView,
    doc: DocumentView,
) -> Cascade
    decreases declarations.len(),
{
    if declarations.len() == 0 {
        c
    } else {
        after_declaration(
            defs,
            after_declarations(defs, c, sheet, specificity, declarations.drop_last(), node, doc),
            sheet,
            specificity,
            declarations.last(),
            node,
            doc,
        )
    }
}

/// The cascade after the selectors of a rule, in source order: the rule's
/// declarations apply once for each selector that matches.
pub open spec fn after_selectors(
    defs: Seq<DefinitionView>,
    c: Cascade,
    sheet: CssStylesheetView,
    rule: CssRuleView,
    selectors: Seq<Seq<SelectorPartView>>,
    node: NodeView,
    doc: DocumentView,
    id: NodeId,
) -> Cascade
    decreases selectors.len(),
{
    if selectors.len() == 0 {
        c
    } else {
        let before = after_selectors(defs, c, sheet, rule, selectors.drop_last(), node, doc, id);
        if selector_matches(doc, id, selectors.last()) {
            after_declarations(
                defs,
                before,
                sheet,
                specificity_of(selectors.last()),
                rule.declarations,
                node,
                doc,
            )
        } else {
            before
        }
    }
}

/// The cascade after the rules of a sheet, in source order.
pub open spec fn after_rules(
    defs: Seq<DefinitionView>,
    c: Cascade,
    sheet: CssStylesheetView,
    rules: Seq<CssRuleView>,
    node: NodeView,
    doc: DocumentView,
    id: NodeId,
) -> Cascade
    decreases rules.len(),
{
    if rules.len() == 0 {
        c
    } else {
        after_selectors(
            defs,
            after_rules(defs, c, sheet, rules.drop_last(), node, doc, id),
            sheet,
            rules.last(),
            rules.last().selectors,
            node,
            doc,
            id,
        )
    }
}

/// The cascade after the sheets, in the order given.
pub open spec fn after_sheets(
    defs: Seq<DefinitionView>,
    c: Cascade,
    sheets: Seq<CssStylesheetView>,
    node: NodeView,
    doc: DocumentView,
    id: NodeId,
) -> Cascade
    decreases sheets.len(),
{
    if sheets.len() == 0 {
        c
    } else {
        after_rules(
            defs,
            after_sheets(defs, c, sheets.drop_last(), node, doc, id),
            sheets.last(),
            sheets.last().rules,
            node,
            doc,
            id,
        )
    }
}

/// The declared properties of a renderable node: the shorthand candidates
/// of every matching rule, and the longhands that were declared or that the
/// shorthands resolve to, written in source order.
pub open spec fn declared_properties(
    defs: Seq<DefinitionView>,
    sheets: Seq<CssStylesheetView>,
    node: NodeView,
    doc: DocumentView,
    id: NodeId,
) -> Seq<CssPropertyView> {
    let c = after_sheets(defs, Cascade { props: Seq::empty(), fixes: Seq::empty() }, sheets, node, doc, id);
    applied(resolve_all(defs, c.fixes), c.props)
}

fn values_for_matching(value: &CssValue) -> (r: Vec<CssValue>)
    ensures
        views(r@) == values_of(value@),
{
    let mut out: Vec<CssValue> = Vec::new();
    match value {
        CssValue::List(items) => {
            proof {
                lemma_view_of_list(*items);
            }
            let mut i: usize = 0;
            while i < items.len()
                invariant
                    0 <= i <= items.len(),
                    out.len() == i,
                    forall|k: int| 0 <= k < i ==> out[k]@ == items[k]@,
                decreases items.len() - i,
            {
                out.push(items[i].clone());
                i += 1;
            }
            assert(views(out@) =~= views(items@));
        },
        _ => {
            out.push(value.clone());
            assert(views(out@) =~= seq![value@]);
        },
    }
    out
}

fn collect_declaration(
    definitions: &CssDefinitions,
    props: &mut CssProperties,
    fix_list: &mut FixList,
    sheet: &CssStylesheet,
    specificity: Specificity,
    declaration: &CssDeclaration,
    node: &NodeImpl,
    doc: &Document,
)
    requires
        old(props).wf(),
    ensures
        final(props).wf(),
        (Cascade { props: final(props)@, fixes: final(fix_list)@ }) == after_declaration(
            definitions@,
            Cascade { props: old(props)@, fixes: old(fix_list)@ },
            sheet@,
            specificity,
            declaration@,
            node@,
            doc@,
        ),
{
    let value = resolve_functions(&declaration.value, node, doc);
    let declared = Expansion {
        name: declaration.property.clone(),
        values: values_for_matching(&value),
        origin: sheet.origin,
        important: declaration.important,
        location: sheet.url.clone(),
        specificity,
    };
    assert(declared@ == declared_as(sheet@, specificity, declaration@, node@, doc@));
    let ghost staged_before = fix_list@;
    if !definitions.matches_and_shorthands(&declared, fix_list) {
        assert(fix_list@ =~= staged_before);
        return ;
    }
    let shorthand = match definitions.find_property(declaration.property.as_str()) {
        Some(definition) => definition.is_shorthand(),
        None => false,
    };
    if shorthand {
        let decl = CssDeclaration {
            property: declaration.property.clone(),
            value: unwrap_single(value),
            important: declaration.important,
        };
        add_property_to_map(props, sheet, specificity, &decl);
    } else {
        assert(fix_list@ =~= staged_before);
        fix_list.record(declared);
    }
}

fn collect_declarations(
    definitions: &CssDefinitions,
    props: &mut CssProperties,
    fix_list: &mut FixList,
    sheet: &CssStylesheet,
    specificity: Specificity,
    rule: &CssRule,
    node: &NodeImpl,
    doc: &Document,
)
    requires
        old(props).wf(),
    ensures
        final(props).wf(),
        (Cascade { props: final(props)@, fixes: final(fix_list)@ }) == after_declarations(
            definitions@,
            Cascade { props: old(props)@, fixes: old(fix_list)@ },
            sheet@,
            specificity,
            rule@.declarations,
            node@,
            doc@,
        ),
{
    let ghost start = Cascade { props: props@, fixes: fix_list@ };
    let ghost all = rule@.declarations;
    let mut i: usize = 0;
    assert(all.take(0) =~= Seq::<CssDeclarationView>::empty());
    while i < rule.declarations.len()
        invariant
            0 <= i <= rule.declarations.len(),
            all == rule@.declarations,
            props.wf(),
            (Cascade { props: props@, fixes: fix_list@ }) == after_declarations(
                definitions@,
                start,
                sheet@,
                specificity,
                all.take(i as int),
                node@,
                doc@,
            ),
        decreases rule.declarations.len() - i,
    {
        proof {
            assert(all.take(i + 1).drop_last() =~= all.take(i as int));
            assert(all.take(i + 1).last() == rule.declarations[i as int]@);
        }
        collect_declaration(
            definitions,
            props,
            fix_list,
            sheet,
            specificity,
            &rule.declarations[i],
            node,
            doc,
        );
        i += 1;
    }
    assert(all.take(i as int) =~= all);
}

fn collect_rule(
    definitions: &CssDefinitions,
    props: &mut CssProperties,
    fix_list: &mut FixList,
    sheet: &CssStylesheet,
    rule: &CssRule,
    node: &NodeImpl,
    doc: &Document,
    id: NodeId,
)
    requires
        old(props).wf(),
    ensures
        final(props).wf(),
        (Cascade { props: final(props)@, fixes: final(fix_list)@ }) == after_selectors(
            definitions@,
            Cascade { props: old(props)@, fixes: old(fix_list)@ },
            sheet@,
            rule@,
            rule@.selectors,
            node@,
            doc@,
            id,
        ),
{
    let ghost start = Cascade { props: props@, fixes: fix_list@ };
    let ghost all = rule@.selectors;
    let mut i: usize = 0;
    assert(all.take(0) =~= Seq::<Seq<SelectorPartView>>::empty());
    while i < rule.selectors.len()
        invariant
            0 <= i <= rule.selectors.len(),
            all == rule@.selectors,
            props.wf(),
            (Cascade { props: props@, fixes: fix_list@ }) == after_selectors(
                definitions@,
                start,
                sheet@,
                rule@,
                all.take(i as int),
                node@,
                doc@,
                id,
            ),
        decreases rule.selectors.len() - i,
    {
        proof {
            assert(all.take(i + 1).drop_last() =~= all.take(i as int));
            assert(all.take(i + 1).last() == rule.selectors[i as int]@);
        }
        let (matched, specificity) = match_selector(doc, id, &rule.selectors[i]);
        if matched {
            collect_declarations(definitions, props, fix_list, sheet, specificity, rule, node, doc);
        }
        i += 1;
    }
    assert(all.take(i as int) =~= all);
}

fn collect_sheet(
    definitions: &CssDefinitions,
    props: &mut CssProperties,
    fix_list: &mut FixList,
    sheet: &CssStylesheet,
    node: &NodeImpl,
    doc: &Document,
    id: NodeId,
)
    requires
        old(props).wf(),
    ensures
        final(props).wf(),
        (Cascade { props: final(props)@, fixes: final(fix_list)@ }) == after_rules(
            definitions@,
            Cascade { props: old(props)@, fixes: old(fix_list)@ },
            sheet@,
            sheet@.rules,
            node@,
            doc@,
            id,
        ),
{
    let ghost start = Cascade { props: props@, fixes: fix_list@ };
    let ghost all = sheet@.rules;
    let mut i: usize = 0;
    assert(all.take(0) =~= Seq::<CssRuleView>::empty());
    while i < sheet.rules.len()
        invariant
            0 <= i <= sheet.rules.len(),
            all == sheet@.rules,
            props.wf(),
            (Cascade { props: props@, fixes: fix_list@ }) == after_rules(
                definitions@,
                start,
                sheet@,
                all.take(i as int),
                node@,
                doc@,
                id,
            ),
        decreases sheet.rules.len() - i,
    {
        proof {
            assert(all.take(i + 1).drop_last() =~= all.take(i as int));
            assert(all.take(i + 1).last() == sheet.rules[i as int]@);
        }
        collect_rule(definitions, props, fix_list, sheet, &sheet.rules[i], node, doc, id);
        i += 1;
    }
    assert(all.take(i as int) =~= all);
}

/// Computes the declared properties of a node from the sheets, against a
/// table of definitions. An unrenderable node has none, whatever the sheets
/// hold.
pub fn compute_properties(
    definitions: &CssDefinitions,
    node: &NodeImpl,
    sheets: &Vec<CssStylesheet>,
    doc: &Document,
    id: NodeId,
) -> (r: Option<CssProperties>)
    ensures
        r is None <==> unrenderable(node@.data),
        match r {
            Some(props) => props.wf() && props@ == declared_properties(
                definitions@,
                views(sheets@),
                node@,
                doc@,
                id,
            ),
            None => true,
        },
{
    if node_is_unrenderable(node) {
        return None;
    }
    let mut props = CssProperties::new();
    let mut fix_list = FixList::new();
    let ghost start = Cascade { props: props@, fixes: fix_list@ };
    let ghost all = views(sheets@);
    let mut i: usize = 0;
    assert(all.take(0) =~= Seq::<CssStylesheetView>::empty());
    while i < sheets.len()
        invariant
            0 <= i <= sheets.len(),
            all == views(sheets@),
            props.wf(),
            (Cascade { props: props@, fixes: fix_list@ }) == after_sheets(
                definitions@,
                start,
                all.take(i as int),
                node@,
                doc@,
                id,
            ),
        decreases sheets.len() - i,
    {
        proof {
            assert(all.take(i + 1).drop_last() =~= all.take(i as int));
            assert(all.take(i + 1).last() == sheets[i as int]@);
        }
        collect_sheet(definitions, &mut props, &mut fix_list, &sheets[i], node, doc, id);
        i += 1;
    }
    assert(all.take(i as int) =~= all);
    fix_list.resolve_nested(definitions);
    fix_list.apply(&mut props);
    Some(props)
}

/// The style system over the built-in table of property definitions.
#[derive(Debug, Clone, Copy)]
pub struct Css3System;

impl Css3System {
    /// Computes the declared properties of a node from the sheets.
    pub fn properties_from_node(node: &NodeImpl, sheets: &Vec<CssStylesheet>, doc: &Document, id: NodeId) -> (r:
        Option<CssProperties>)
        ensures
            r is None <==> unrenderable(node@.data),
            match r {
                Some(props) => props.wf() && props@ == declared_properties(
                    builtin_definitions(),
                    views(sheets@),
                    node@,
                    doc@,
                    id,
                ),
                None => true,
            },
    {
        if node_is_unrenderable(node) {
            return None;
        }
        let definitions = get_css_definitions();
        compute_properties(&definitions, node, sheets, doc, id)
    }
}

} // verus!
