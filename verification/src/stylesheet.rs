//! Parsed stylesheets: origins, selector weights, declarations, selectors and
//! rules.

use vstd::prelude::*;
use crate::text::views;
use crate::values::{CssValue, CssValueView};

verus! {

/// Where a stylesheet comes from.
#[derive(Debug, Clone, Copy, PartialEq, Eq, Structural)]
pub enum CssOrigin {
    UserAgent,
    Author,
    User,
}

/// The weight of a selector: how many id selectors, how many class and
/// attribute selectors, and how many type selectors it holds. Weights are
/// ordered lexicographically, ids first.
#[derive(Debug, Clone, Copy, PartialEq, Eq, Structural)]
pub struct Specificity {
    pub ids: u32,
    pub classes: u32,
    pub types: u32,
}

impl Specificity {
    /// `self` is strictly heavier than `other`.
    pub open spec fn outweighs(self, other: Specificity) -> bool {
        self.ids > other.ids || (self.ids == other.ids && (self.classes > other.classes || (
        self.classes == other.classes && self.types > other.types)))
    }

    pub fn new(ids: u32, classes: u32, types: u32) -> (r: Specificity)
        ensures
            r == (Specificity { ids, classes, types }),
    {
        Specificity { ids, classes, types }
    }

    /// Whether `self` is strictly heavier than `other`.
    pub fn is_heavier_than(&self, other: &Specificity) -> (r: bool)
        ensures
            r == self.outweighs(*other),
    {
        self.ids > other.ids || (self.ids == other.ids && (self.classes > other.classes || (
        self.classes == other.classes && self.types > other.types)))
    }
}

/// Any two weights are equal or one outweighs the other, never both ways, and
/// outweighing is transitive: the weights are totally ordered.
pub proof fn lemma_specificity_total_order(a: Specificity, b: Specificity, c: Specificity)
    ensures
        a == b || a.outweighs(b) || b.outweighs(a),
        !(a.outweighs(b) && b.outweighs(a)),
        !a.outweighs(a),
        a.outweighs(b) && b.outweighs(c) ==> a.outweighs(c),
{
}

/// One declaration as authored: a property, its value and the `!important` flag.
#[derive(Debug, PartialEq, Eq)]
pub struct CssDeclaration {
    pub property: String,
    pub value: CssValue,
    pub important: bool,
}

/// The mathematical model of [`CssDeclaration`].
pub struct CssDeclarationView {
    pub property: Seq<char>,
    pub value: CssValueView,
    pub important: bool,
}

impl View for CssDeclaration {
    type V = CssDeclarationView;

    open spec fn view(&self) -> CssDeclarationView {
        CssDeclarationView { property: self.property@, value: self.value@, important: self.important }
    }
}

/// One simple selector of a compound selector.
#[derive(Debug, PartialEq, Eq)]
pub enum SelectorPart {
    Universal,
    Type(String),
    Id(String),
    Class(String),
    Attribute(String),
}

/// The mathematical model of [`SelectorPart`].
pub enum SelectorPartView {
    Universal,
    Type(Seq<char>),
    Id(Seq<char>),
    Class(Seq<char>),
    Attribute(Seq<char>),
}

impl View for SelectorPart {
    type V = SelectorPartView;

    open spec fn view(&self) -> SelectorPartView {
        match self {
            SelectorPart::Universal => SelectorPartView::Universal,
            SelectorPart::Type(s) => SelectorPartView::Type(s@),
            SelectorPart::Id(s) => SelectorPartView::Id(s@),
            SelectorPart::Class(s) => SelectorPartView::Class(s@),
            SelectorPart::Attribute(s) => SelectorPartView::Attribute(s@),
        }
    }
}

/// A compound selector: every part must hold of the same element.
#[derive(Debug, PartialEq, Eq)]
pub struct CssSelector {
    pub parts: Vec<SelectorPart>,
}

impl View for CssSelector {
    type V = Seq<SelectorPartView>;

    open spec fn view(&self) -> Seq<SelectorPartView> {
        views(self.parts@)
    }
}

/// A rule: selectors in source order and declarations in source order. The
/// rule applies once for each of its selectors that matches.
#[derive(Debug, PartialEq, Eq)]
pub struct CssRule {
    pub selectors: Vec<CssSelector>,
    pub declarations: Vec<CssDeclaration>,
}

/// The mathematical model of [`CssRule`].
pub struct CssRuleView {
    pub selectors: Seq<Seq<SelectorPartView>>,
    pub declarations: Seq<CssDeclarationView>,
}

impl View for CssRule {
    type V = CssRuleView;

    open spec fn view(&self) -> CssRuleView {
        CssRuleView { selectors: views(self.selectors@), declarations: views(self.declarations@) }
    }
}

impl CssRule {
    pub fn selectors(&self) -> (r: &Vec<CssSelector>)
        ensures
            r == &self.selectors,
    {
        &self.selectors
    }

    pub fn declarations(&self) -> (r: &Vec<CssDeclaration>)
        ensures
            r == &self.declarations,
    {
        &self.declarations
    }
}

/// A parsed stylesheet: rules in source order, the origin and the address it
/// was read from.
#[derive(Debug, PartialEq, Eq)]
pub struct CssStylesheet {
    pub rules: Vec<CssRule>,
    pub origin: CssOrigin,
    pub url: String,
}

/// The mathematical model of [`CssStylesheet`].
pub struct CssStylesheetView {
    pub rules: Seq<CssRuleView>,
    pub origin: CssOrigin,
    pub url: Seq<char>,
}

impl View for CssStylesheet {
    type V = CssStylesheetView;

    open spec fn view(&self) -> CssStylesheetView {
        CssStylesheetView { rules: views(self.rules@), origin: self.origin, url: self.url@ }
    }
}

} // verus!
