//! The built-in table of property definitions.

use vstd::prelude::*;
use crate::definitions::{with_definition, CssDefinitions, DefinitionView, PropertyDefinition, ValueKind};

verus! {

/// The properties of text and colour. Each definition is offered to `defs` in turn.
pub open spec fn text_definitions(defs: Seq<DefinitionView>) -> Seq<DefinitionView> {
    let defs = with_definition(
        defs,
        DefinitionView::plain("color"@, true)
            .accepting(ValueKind::Color)
            .allowing("currentcolor"@)
            .allowing("transparent"@),
    );
    let defs = with_definition(
        defs,
        DefinitionView::plain("background-color"@, false)
            .accepting(ValueKind::Color)
            .allowing("currentcolor"@)
            .allowing("transparent"@),
    );
    let defs = with_definition(
        defs,
        DefinitionView::plain("font-family"@, true)
            .accepting(ValueKind::Text)
            .allowing("serif"@)
            .allowing("sans-serif"@)
            .allowing("monospace"@)
            .allowing("cursive"@)
            .allowing("fantasy"@)
            .repeated(),
    );
    let defs = with_definition(
        defs,
        DefinitionView::plain("font-size"@, true)
            .accepting(ValueKind::Length)
            .accepting(ValueKind::Percentage)
            .allowing("xx-small"@)
            .allowing("x-small"@)
            .allowing("small"@)
            .allowing("medium"@)
            .allowing("large"@)
            .allowing("x-large"@)
            .allowing("xx-large"@)
            .allowing("smaller"@)
            .allowing("larger"@),
    );
    let defs = with_definition(
        defs,
        DefinitionView::plain("font-style"@, true)
            .allowing("normal"@)
            .allowing("italic"@)
            .allowing("oblique"@),
    );
    let defs = with_definition(
        defs,
        DefinitionView::plain("font-weight"@, true)
            .accepting(ValueKind::Number)
            .allowing("normal"@)
            .allowing("bold"@)
            .allowing("bolder"@)
            .allowing("lighter"@),
    );
    let defs = with_definition(
        defs,
        DefinitionView::plain("line-height"@, true)
            .accepting(ValueKind::Number)
            .accepting(ValueKind::Length)
            .accepting(ValueKind::Percentage)
            .allowing("normal"@),
    );
    let defs = with_definition(
        defs,
        DefinitionView::plain("text-align"@, true)
            .allowing("left"@)
            .allowing("right"@)
            .allowing("center"@)
            .allowing("justify"@)
            .allowing("start"@)
            .allowing("end"@),
    );
    let defs = with_definition(
        defs,
        DefinitionView::plain("visibility"@, true)
            .allowing("visible"@)
            .allowing("hidden"@)
            .allowing("collapse"@),
    );
    let defs = with_definition(
        defs,
        DefinitionView::plain("white-space"@, true)
            .allowing("normal"@)
            .allowing("nowrap"@)
            .allowing("pre"@)
            .allowing("pre-wrap"@)
            .allowing("pre-line"@),
    );
    let defs = with_definition(
        defs,
        DefinitionView::plain("display"@, false)
            .allowing("none"@)
            .allowing("block"@)
            .allowing("inline"@)
            .allowing("inline-block"@)
            .allowing("flex"@)
            .allowing("grid"@)
            .allowing("table"@),
    );
    let defs = with_definition(
        defs,
        DefinitionView::plain("opacity"@, false)
            .accepting(ValueKind::Number)
            .accepting(ValueKind::Percentage),
    );
    defs
}

fn add_text_definitions(table: &mut CssDefinitions)
    requires
        old(table).wf(),
    ensures
        final(table).wf(),
        final(table)@ == text_definitions(old(table)@),
{
    table.add(
        PropertyDefinition::new("color", true)
            .accepting(ValueKind::Color)
            .allowing("currentcolor")
            .allowing("transparent"),
    );
    table.add(
        PropertyDefinition::new("background-color", false)
            .accepting(ValueKind::Color)
            .allowing("currentcolor")
            .allowing("transparent"),
    );
    table.add(
        PropertyDefinition::new("font-family", true)
            .accepting(ValueKind::Text)
            .allowing("serif")
            .allowing("sans-serif")
            .allowing("monospace")
            .allowing("cursive")
            .allowing("fantasy")
            .repeated(),
    );
    table.add(
        PropertyDefinition::new("font-size", true)
            .accepting(ValueKind::Length)
            .accepting(ValueKind::Percentage)
            .allowing("xx-small")
            .allowing("x-small")
            .allowing("small")
            .allowing("medium")
            .allowing("large")
            .allowing("x-large")
            .allowing("xx-large")
            .allowing("smaller")
            .allowing("larger"),
    );
    table.add(
        PropertyDefinition::new("font-style", true)
            .allowing("normal")
            .allowing("italic")
            .allowing("oblique"),
    );
    table.add(
        PropertyDefinition::new("font-weight", true)
            .accepting(ValueKind::Number)
            .allowing("normal")
            .allowing("bold")
            .allowing("bolder")
            .allowing("lighter"),
    );
    table.add(
        PropertyDefinition::new("line-height", true)
            .accepting(ValueKind::Number)
            .accepting(ValueKind::Length)
            .accepting(ValueKind::Percentage)
            .allowing("normal"),
    );
    table.add(
        PropertyDefinition::new("text-align", true)
            .allowing("left")
            .allowing("right")
            .allowing("center")
            .allowing("justify")
            .allowing("start")
            .allowing("end"),
    );
    table.add(
        PropertyDefinition::new("visibility", true)
            .allowing("visible")
            .allowing("hidden")
            .allowing("collapse"),
    );
    table.add(
        PropertyDefinition::new("white-space", true)
            .allowing("normal")
            .allowing("nowrap")
            .allowing("pre")
            .allowing("pre-wrap")
            .allowing("pre-line"),
    );
    table.add(
        PropertyDefinition::new("display", false)
            .allowing("none")
            .allowing("block")
            .allowing("inline")
            .allowing("inline-block")
            .allowing("flex")
            .allowing("grid")
            .allowing("table"),
    );
    table.add(
        PropertyDefinition::new("opacity", false)
            .accepting(ValueKind::Number)
            .accepting(ValueKind::Percentage),
    );
}

/// The properties of the box: sizes, margins and paddings. Each definition is offered to `defs` in turn.
pub open spec fn box_definitions(defs: Seq<DefinitionView>) -> Seq<DefinitionView> {
    let defs = with_definition(
        defs,
        DefinitionView::plain("width"@, false)
            .accepting(ValueKind::Length)
            .accepting(ValueKind::Percentage)
            .allowing("auto"@),
    );
    let defs = with_definition(
        defs,
        DefinitionView::plain("height"@, false)
            .accepting(ValueKind::Length)
            .accepting(ValueKind::Percentage)
            .allowing("auto"@),
    );
    let defs = with_definition(
        defs,
        DefinitionView::plain("margin-top"@, false)
            .accepting(ValueKind::Length)
            .accepting(ValueKind::Percentage)
            .allowing("auto"@),
    );
    let defs = with_definition(
        defs,
        DefinitionView::plain("margin-right"@, false)
            .accepting(ValueKind::Length)
            .accepting(ValueKind::Percentage)
            .allowing("auto"@),
    );
    let defs = with_definition(
        defs,
        DefinitionView::plain("margin-bottom"@, false)
            .accepting(ValueKind::Length)
            .accepting(ValueKind::Percentage)
            .allowing("auto"@),
    );
    let defs = with_definition(
        defs,
        DefinitionView::plain("margin-left"@, false)
            .accepting(ValueKind::Length)
            .accepting(ValueKind::Percentage)
            .allowing("auto"@),
    );
    let defs = with_definition(
        defs,
        DefinitionView::plain("padding-top"@, false)
            .accepting(ValueKind::Length)
            .accepting(ValueKind::Percentage),
    );
    let defs = with_definition(
        defs,
        DefinitionView::plain("padding-right"@, false)
            .accepting(ValueKind::Length)
            .accepting(ValueKind::Percentage),
    );
    let defs = with_definition(
        defs,
        DefinitionView::plain("padding-bottom"@, false)
            .accepting(ValueKind::Length)
            .accepting(ValueKind::Percentage),
    );
    let defs = with_definition(
        defs,
        DefinitionView::plain("padding-left"@, false)
            .accepting(ValueKind::Length)
            .accepting(ValueKind::Percentage),
    );
    let defs = with_definition(
        defs,
        DefinitionView::plain("margin"@, false)
            .expanding_to("margin-top"@)
            .expanding_to("margin-right"@)
            .expanding_to("margin-bottom"@)
            .expanding_to("margin-left"@),
    );
    let defs = with_definition(
        defs,
        DefinitionView::plain("padding"@, false)
            .expanding_to("padding-top"@)
            .expanding_to("padding-right"@)
            .expanding_to("padding-bottom"@)
            .expanding_to("padding-left"@),
    );
    defs
}

fn add_box_definitions(table: &mut CssDefinitions)
    requires
        old(table).wf(),
    ensures
        final(table).wf(),
        final(table)@ == box_definitions(old(table)@),
{
    table.add(
        PropertyDefinition::new("width", false)
            .accepting(ValueKind::Length)
            .accepting(ValueKind::Percentage)
            .allowing("auto"),
    );
    table.add(
        PropertyDefinition::new("height", false)
            .accepting(ValueKind::Length)
            .accepting(ValueKind::Percentage)
            .allowing("auto"),
    );
    table.add(
        PropertyDefinition::new("margin-top", false)
            .accepting(ValueKind::Length)
            .accepting(ValueKind::Percentage)
            .allowing("auto"),
    );
    table.add(
        PropertyDefinition::new("margin-right", false)
            .accepting(ValueKind::Length)
            .accepting(ValueKind::Percentage)
            .allowing("auto"),
    );
    table.add(
        PropertyDefinition::new("margin-bottom", false)
            .accepting(ValueKind::Length)
            .accepting(ValueKind::Percentage)
            .allowing("auto"),
    );
    table.add(
        PropertyDefinition::new("margin-left", false)
            .accepting(ValueKind::Length)
            .accepting(ValueKind::Percentage)
            .allowing("auto"),
    );
    table.add(
        PropertyDefinition::new("padding-top", false)
            .accepting(ValueKind::Length)
            .accepting(ValueKind::Percentage),
    );
    table.add(
        PropertyDefinition::new("padding-right", false)
            .accepting(ValueKind::Length)
            .accepting(ValueKind::Percentage),
    );
    table.add(
        PropertyDefinition::new("padding-bottom", false)
            .accepting(ValueKind::Length)
            .accepting(ValueKind::Percentage),
    );
    table.add(
        PropertyDefinition::new("padding-left", false)
            .accepting(ValueKind::Length)
            .accepting(ValueKind::Percentage),
    );
    table.add(
        PropertyDefinition::new("margin", false)
            .expanding_to("margin-top")
            .expanding_to("margin-right")
            .expanding_to("margin-bottom")
            .expanding_to("margin-left"),
    );
    table.add(
        PropertyDefinition::new("padding", false)
            .expanding_to("padding-top")
            .expanding_to("padding-right")
            .expanding_to("padding-bottom")
            .expanding_to("padding-left"),
    );
}

/// The properties of borders. Each definition is offered to `defs` in turn.
pub open spec fn border_definitions(defs: Seq<DefinitionView>) -> Seq<DefinitionView> {
    let defs = with_definition(
        defs,
        DefinitionView::plain("border-top-width"@, false)
            .accepting(ValueKind::Length)
            .allowing("thin"@)
            .allowing("medium"@)
            .allowing("thick"@),
    );
    let defs = with_definition(
        defs,
        DefinitionView::plain("border-right-width"@, false)
            .accepting(ValueKind::Length)
            .allowing("thin"@)
            .allowing("medium"@)
            .allowing("thick"@),
    );
    let defs = with_definition(
        defs,
        DefinitionView::plain("border-bottom-width"@, false)
            .accepting(ValueKind::Length)
            .allowing("thin"@)
            .allowing("medium"@)
            .allowing("thick"@),
    );
    let defs = with_definition(
        defs,
        DefinitionView::plain("border-left-width"@, false)
            .accepting(ValueKind::Length)
            .allowing("thin"@)
            .allowing("medium"@)
            .allowing("thick"@),
    );
    let defs = with_definition(
        defs,
        DefinitionView::plain("border-top-style"@, false)
            .allowing("none"@)
            .allowing("hidden"@)
            .allowing("dotted"@)
            .allowing("dashed"@)
            .allowing("solid"@)
            .allowing("double"@)
            .allowing("groove"@)
            .allowing("ridge"@)
            .allowing("inset"@)
            .allowing("outset"@),
    );
    let defs = with_definition(
        defs,
        DefinitionView::plain("border-right-style"@, false)
            .allowing("none"@)
            .allowing("hidden"@)
            .allowing("dotted"@)
            .allowing("dashed"@)
            .allowing("solid"@)
            .allowing("double"@)
            .allowing("groove"@)
            .allowing("ridge"@)
            .allowing("inset"@)
            .allowing("outset"@),
    );
    let defs = with_definition(
        defs,
        DefinitionView::plain("border-bottom-style"@, false)
            .allowing("none"@)
            .allowing("hidden"@)
            .allowing("dotted"@)
            .allowing("dashed"@)
            .allowing("solid"@)
            .allowing("double"@)
            .allowing("groove"@)
            .allowing("ridge"@)
            .allowing("inset"@)
            .allowing("outset"@),
    );
    let defs = with_definition(
        defs,
        DefinitionView::plain("border-left-style"@, false)
            .allowing("none"@)
            .allowing("hidden"@)
            .allowing("dotted"@)
            .allowing("dashed"@)
            .allowing("solid"@)
            .allowing("double"@)
            .allowing("groove"@)
            .allowing("ridge"@)
            .allowing("inset"@)
            .allowing("outset"@),
    );
    let defs = with_definition(
        defs,
        DefinitionView::plain("border-top-color"@, false)
            .accepting(ValueKind::Color)
            .allowing("currentcolor"@)
            .allowing("transparent"@),
    );
    let defs = with_definition(
        defs,
        DefinitionView::plain("border-right-color"@, false)
            .accepting(ValueKind::Color)
            .allowing("currentcolor"@)
            .allowing("transparent"@),
    );
    let defs = with_definition(
        defs,
        DefinitionView::plain("border-bottom-color"@, false)
            .accepting(ValueKind::Color)
            .allowing("currentcolor"@)
            .allowing("transparent"@),
    );
    let defs = with_definition(
        defs,
        DefinitionView::plain("border-left-color"@, false)
            .accepting(ValueKind::Color)
            .allowing("currentcolor"@)
            .allowing("transparent"@),
    );
    let defs = with_definition(
        defs,
        DefinitionView::plain("border-width"@, false)
            .expanding_to("border-top-width"@)
            .expanding_to("border-right-width"@)
            .expanding_to("border-bottom-width"@)
            .expanding_to("border-left-width"@),
    );
    let defs = with_definition(
        defs,
        DefinitionView::plain("border-style"@, false)
            .expanding_to("border-top-style"@)
            .expanding_to("border-right-style"@)
            .expanding_to("border-bottom-style"@)
            .expanding_to("border-left-style"@),
    );
    let defs = with_definition(
        defs,
        DefinitionView::plain("border-color"@, false)
            .expanding_to("border-top-color"@)
            .expanding_to("border-right-color"@)
            .expanding_to("border-bottom-color"@)
            .expanding_to("border-left-color"@),
    );
    let defs = with_definition(
        defs,
        DefinitionView::plain("border-top"@, false)
            .expanding_to("border-top-width"@)
            .expanding_to("border-top-style"@)
            .expanding_to("border-top-color"@),
    );
    let defs = with_definition(
        defs,
        DefinitionView::plain("border-right"@, false)
            .expanding_to("border-right-width"@)
            .expanding_to("border-right-style"@)
            .expanding_to("border-right-color"@),
    );
    let defs = with_definition(
        defs,
        DefinitionView::plain("border-bottom"@, false)
            .expanding_to("border-bottom-width"@)
            .expanding_to("border-bottom-style"@)
            .expanding_to("border-bottom-color"@),
    );
    let defs = with_definition(
        defs,
        DefinitionView::plain("border-left"@, false)
            .expanding_to("border-left-width"@)
            .expanding_to("border-left-style"@)
            .expanding_to("border-left-color"@),
    );
    let defs = with_definition(
        defs,
        DefinitionView::plain("border"@, false)
            .expanding_to("border-width"@)
            .expanding_to("border-style"@)
            .expanding_to("border-color"@),
    );
    defs
}

fn add_border_definitions(table: &mut CssDefinitions)
    requires
        old(table).wf(),
    ensures
        final(table).wf(),
        final(table)@ == border_definitions(old(table)@),
{
    table.add(
        PropertyDefinition::new("border-top-width", false)
            .accepting(ValueKind::Length)
            .allowing("thin")
            .allowing("medium")
            .allowing("thick"),
    );
    table.add(
        PropertyDefinition::new("border-right-width", false)
            .accepting(ValueKind::Length)
            .allowing("thin")
            .allowing("medium")
            .allowing("thick"),
    );
    table.add(
        PropertyDefinition::new("border-bottom-width", false)
            .accepting(ValueKind::Length)
            .allowing("thin")
            .allowing("medium")
            .allowing("thick"),
    );
    table.add(
        PropertyDefinition::new("border-left-width", false)
            .accepting(ValueKind::Length)
            .allowing("thin")
            .allowing("medium")
            .allowing("thick"),
    );
    table.add(
        PropertyDefinition::new("border-top-style", false)
            .allowing("none")
            .allowing("hidden")
            .allowing("dotted")
            .allowing("dashed")
            .allowing("solid")
            .allowing("double")
            .allowing("groove")
            .allowing("ridge")
            .allowing("inset")
            .allowing("outset"),
    );
    table.add(
        PropertyDefinition::new("border-right-style", false)
            .allowing("none")
            .allowing("hidden")
            .allowing("dotted")
            .allowing("dashed")
            .allowing("solid")
            .allowing("double")
            .allowing("groove")
            .allowing("ridge")
            .allowing("inset")
            .allowing("outset"),
    );
    table.add(
        PropertyDefinition::new("border-bottom-style", false)
            .allowing("none")
            .allowing("hidden")
            .allowing("dotted")
            .allowing("dashed")
            .allowing("solid")
            .allowing("double")
            .allowing("groove")
            .allowing("ridge")
            .allowing("inset")
            .allowing("outset"),
    );
    table.add(
        PropertyDefinition::new("border-left-style", false)
            .allowing("none")
            .allowing("hidden")
            .allowing("dotted")
            .allowing("dashed")
            .allowing("solid")
            .allowing("double")
            .allowing("groove")
            .allowing("ridge")
            .allowing("inset")
            .allowing("outset"),
    );
    table.add(
        PropertyDefinition::new("border-top-color", false)
            .accepting(ValueKind::Color)
            .allowing("currentcolor")
            .allowing("transparent"),
    );
    table.add(
        PropertyDefinition::new("border-right-color", false)
            .accepting(ValueKind::Color)
            .allowing("currentcolor")
            .allowing("transparent"),
    );
    table.add(
        PropertyDefinition::new("border-bottom-color", false)
            .accepting(ValueKind::Color)
            .allowing("currentcolor")
            .allowing("transparent"),
    );
    table.add(
        PropertyDefinition::new("border-left-color", false)
            .accepting(ValueKind::Color)
            .allowing("currentcolor")
            .allowing("transparent"),
    );
    table.add(
        PropertyDefinition::new("border-width", false)
            .expanding_to("border-top-width")
            .expanding_to("border-right-width")
            .expanding_to("border-bottom-width")
            .expanding_to("border-left-width"),
    );
    table.add(
        PropertyDefinition::new("border-style", false)
            .expanding_to("border-top-style")
            .expanding_to("border-right-style")
            .expanding_to("border-bottom-style")
            .expanding_to("border-left-style"),
    );
    table.add(
        PropertyDefinition::new("border-color", false)
            .expanding_to("border-top-color")
            .expanding_to("border-right-color")
            .expanding_to("border-bottom-color")
            .expanding_to("border-left-color"),
    );
    table.add(
        PropertyDefinition::new("border-top", false)
            .expanding_to("border-top-width")
            .expanding_to("border-top-style")
            .expanding_to("border-top-color"),
    );
    table.add(
        PropertyDefinition::new("border-right", false)
            .expanding_to("border-right-width")
            .expanding_to("border-right-style")
            .expanding_to("border-right-color"),
    );
    table.add(
        PropertyDefinition::new("border-bottom", false)
            .expanding_to("border-bottom-width")
            .expanding_to("border-bottom-style")
            .expanding_to("border-bottom-color"),
    );
    table.add(
        PropertyDefinition::new("border-left", false)
            .expanding_to("border-left-width")
            .expanding_to("border-left-style")
            .expanding_to("border-left-color"),
    );
    table.add(
        PropertyDefinition::new("border", false)
            .expanding_to("border-width")
            .expanding_to("border-style")
            .expanding_to("border-color"),
    );
}

/// The built-in table of property definitions.
pub open spec fn builtin_definitions() -> Seq<DefinitionView> {
    border_definitions(box_definitions(text_definitions(Seq::empty())))
}

/// Builds the built-in table of property definitions.
pub fn get_css_definitions() -> (r: CssDefinitions)
    ensures
        r.wf(),
        r@ == builtin_definitions(),
{
    let mut table = CssDefinitions::new();
    add_text_definitions(&mut table);
    add_box_definitions(&mut table);
    add_border_definitions(&mut table);
    table
}

} // verus!
