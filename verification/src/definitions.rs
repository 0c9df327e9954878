//! The table of property definitions: what each property accepts, whether
//! it is inherited by default, and what a shorthand stands for.

use vstd::prelude::*;
use crate::text::{
    distinct, find_name, first_index, lemma_first_index_absent, lemma_first_index_found,
    lemma_first_index_sound, text_is, views,
};
use crate::values::{lemma_view_of_function, CssValue, CssValueView};

verus! {

/// The kinds of value, besides keywords, that a property may accept.
#[derive(Debug, Clone, Copy, PartialEq, Eq, Structural)]
pub enum ValueKind {
    Number,
    Percentage,
    Length,
    Color,
    Text,
}

/// The definition of one property: whether it is inherited by default, what
/// its values may be and, for a shorthand, the properties it stands for.
#[derive(Debug, PartialEq, Eq)]
pub struct PropertyDefinition {
    pub name: String,
    pub inherited: bool,
    pub kinds: Vec<ValueKind>,
    pub keywords: Vec<String>,
    pub multiple: bool,
    pub longhands: Vec<String>,
}

/// The mathematical model of [`PropertyDefinition`].
pub struct DefinitionView {
    pub name: Seq<char>,
    pub inherited: bool,
    pub kinds: Seq<ValueKind>,
    pub keywords: Seq<Seq<char>>,
    pub multiple: bool,
    pub longhands: Seq<Seq<char>>,
}

impl DefinitionView {
    /// A definition that accepts only the keywords every property accepts.
    pub open spec fn plain(name: Seq<char>, inherited: bool) -> DefinitionView {
        DefinitionView {
            name,
            inherited,
            kinds: Seq::empty(),
            keywords: Seq::empty(),
            multiple: false,
            longhands: Seq::empty(),
        }
    }

    pub open spec fn accepting(self, kind: ValueKind) -> DefinitionView {
        DefinitionView { kinds: self.kinds.push(kind), ..self }
    }

    pub open spec fn allowing(self, keyword: Seq<char>) -> DefinitionView {
        DefinitionView { keywords: self.keywords.push(keyword), ..self }
    }

    pub open spec fn repeated(self) -> DefinitionView {
        DefinitionView { multiple: true, ..self }
    }

    pub open spec fn expanding_to(self, longhand: Seq<char>) -> DefinitionView {
        DefinitionView { longhands: self.longhands.push(longhand), ..self }
    }

    pub open spec fn is_shorthand(self) -> bool {
        self.longhands.len() > 0
    }
}

impl View for PropertyDefinition {
    type V = DefinitionView;

    open spec fn view(&self) -> DefinitionView {
        DefinitionView {
            name: self.name@,
            inherited: self.inherited,
            kinds: self.kinds@,
            keywords: views(self.keywords@),
            multiple: self.multiple,
            longhands: views(self.longhands@),
        }
    }
}

/// The keywords that every property accepts.
pub open spec fn is_wide_keyword(k: Seq<char>) -> bool {
    k == "inherit"@ || k == "initial"@ || k == "unset"@
}

/// The definition accepts a number, a percentage or a length.
pub open spec fn accepts_numeric(def: DefinitionView) -> bool {
    def.kinds.contains(ValueKind::Number) || def.kinds.contains(ValueKind::Percentage) || def.kinds.contains(
        ValueKind::Length,
    )
}

/// Whether the definition lets one value stand for the property: a keyword
/// that it allows or that every property allows, a value of a kind that it
/// accepts, a zero where it accepts lengths, or a `calc()` that was left
/// unresolved where it accepts numbers, percentages or lengths.
pub open spec fn accepts_value(def: DefinitionView, v: CssValueView) -> bool {
    match v {
        CssValueView::Keyword(k) => is_wide_keyword(k) || def.keywords.contains(k),
        CssValueView::Number(n) => def.kinds.contains(ValueKind::Number) || (n == 0 && def.kinds.contains(
            ValueKind::Length,
        )),
        CssValueView::Percentage(_) => def.kinds.contains(ValueKind::Percentage),
        CssValueView::Unit(_, _) => def.kinds.contains(ValueKind::Length),
        CssValueView::Color(_, _, _, _) => def.kinds.contains(ValueKind::Color),
        CssValueView::Text(_) => def.kinds.contains(ValueKind::Text),
        CssValueView::Function(name, _) => name == "calc"@ && accepts_numeric(def),
        _ => false,
    }
}

/// Whether the definition of a longhand lets `values` stand for the
/// property: one accepted value, or several where the definition is repeated.
pub open spec fn accepts_values(def: DefinitionView, values: Seq<CssValueView>) -> bool {
    &&& values.len() >= 1
    &&& def.multiple || values.len() == 1
    &&& forall|i: int| 0 <= i < values.len() ==> accepts_value(def, #[trigger] values[i])
}

impl PropertyDefinition {
    pub fn new(name: &str, inherited: bool) -> (r: PropertyDefinition)
        ensures
            r@ == DefinitionView::plain(name@, inherited),
    {
        let r = PropertyDefinition {
            name: name.to_owned(),
            inherited,
            kinds: Vec::new(),
            keywords: Vec::new(),
            multiple: false,
            longhands: Vec::new(),
        };
        assert(r@.keywords =~= Seq::empty());
        assert(r@.longhands =~= Seq::empty());
        r
    }

    pub fn accepting(self, kind: ValueKind) -> (r: PropertyDefinition)
        ensures
            r@ == self@.accepting(kind),
    {
        let mut r = self;
        r.kinds.push(kind);
        r
    }

    pub fn allowing(self, keyword: &str) -> (r: PropertyDefinition)
        ensures
            r@ == self@.allowing(keyword@),
    {
        let mut r = self;
        r.keywords.push(keyword.to_owned());
        assert(r@.keywords =~= self@.keywords.push(keyword@));
        r
    }

    pub fn repeated(self) -> (r: PropertyDefinition)
        ensures
            r@ == self@.repeated(),
    {
        let mut r = self;
        r.multiple = true;
        r
    }

    pub fn expanding_to(self, longhand: &str) -> (r: PropertyDefinition)
        ensures
            r@ == self@.expanding_to(longhand@),
    {
        let mut r = self;
        r.longhands.push(longhand.to_owned());
        assert(r@.longhands =~= self@.longhands.push(longhand@));
        r
    }

    pub fn is_shorthand(&self) -> (r: bool)
        ensures
            r == self@.is_shorthand(),
    {
        self.longhands.len() > 0
    }

    fn has_kind(&self, kind: ValueKind) -> (r: bool)
        ensures
            r == self@.kinds.contains(kind),
    {
        let mut i: usize = 0;
        while i < self.kinds.len()
            invariant
                0 <= i <= self.kinds.len(),
                forall|j: int| 0 <= j < i ==> self.kinds@[j] != kind,
            decreases self.kinds.len() - i,
        {
            if self.kinds[i] == kind {
                return true;
            }
            i += 1;
        }
        false
    }

    /// Whether one value may stand for the property.
    pub fn accepts_value(&self, v: &CssValue) -> (r: bool)
        ensures
            r == accepts_value(self@, v@),
    {
        match v {
            CssValue::Keyword(k) => {
                if text_is(k, "inherit") || text_is(k, "initial") || text_is(k, "unset") {
                    true
                } else {
                    proof {
                        lemma_first_index_sound(self@.keywords, k@);
                    }
                    find_name(&self.keywords, k).is_some()
                }
            },
            CssValue::Number(n) => self.has_kind(ValueKind::Number) || (*n == 0 && self.has_kind(
                ValueKind::Length,
            )),
            CssValue::Percentage(_) => self.has_kind(ValueKind::Percentage),
            CssValue::Unit(_, _) => self.has_kind(ValueKind::Length),
            CssValue::Color(_, _, _, _) => self.has_kind(ValueKind::Color),
            CssValue::Text(_) => self.has_kind(ValueKind::Text),
            CssValue::Function(name, args) => {
                proof {
                    lemma_view_of_function(*name, *args);
                }
                text_is(name, "calc") && (self.has_kind(ValueKind::Number) || self.has_kind(
                    ValueKind::Percentage,
                ) || self.has_kind(ValueKind::Length))
            },
            _ => false,
        }
    }

    /// Whether `values` may stand for the property, taken as a longhand.
    pub fn accepts_values(&self, values: &Vec<CssValue>) -> (r: bool)
        ensures
            r == accepts_values(self@, views(values@)),
    {
        if values.len() == 0 || (!self.multiple && values.len() != 1) {
            return false;
        }
        let mut i: usize = 0;
        while i < values.len()
            invariant
                0 <= i <= values.len(),
                forall|j: int| 0 <= j < i ==> accepts_value(self@, #[trigger] views(values@)[j]),
            decreases values.len() - i,
        {
            if !self.accepts_value(&values[i]) {
                assert(!accepts_value(self@, views(values@)[i as int]));
                return false;
            }
            i += 1;
        }
        true
    }
}

/// The names of the definitions of a table, in the table's order.
pub open spec fn definition_names(defs: Seq<DefinitionView>) -> Seq<Seq<char>> {
    defs.map_values(|d: DefinitionView| d.name)
}

/// Every name in `longhands` is defined in `defs`.
pub open spec fn all_defined(defs: Seq<DefinitionView>, longhands: Seq<Seq<char>>) -> bool {
    forall|k: int| 0 <= k < longhands.len() ==> first_index(definition_names(defs), #[trigger] longhands[k])
        is Some
}

/// Whether `def` may join the table `defs`: its name is new, and what it
/// expands to is defined already.
pub open spec fn admits(defs: Seq<DefinitionView>, def: DefinitionView) -> bool {
    first_index(definition_names(defs), def.name) is None && all_defined(defs, def.longhands)
}

/// The table `defs` after `def` has been offered to it.
pub open spec fn with_definition(defs: Seq<DefinitionView>, def: DefinitionView) -> Seq<DefinitionView> {
    if admits(defs, def) {
        defs.push(def)
    } else {
        defs
    }
}

/// A table is well formed when no name is defined twice and every shorthand
/// expands only to properties defined before it, so that expansion cannot
/// run in a circle.
pub open spec fn table_wf(defs: Seq<DefinitionView>) -> bool {
    &&& distinct(definition_names(defs))
    &&& forall|i: int, k: int|
        0 <= i < defs.len() && 0 <= k < defs[i].longhands.len() ==> match first_index(
            definition_names(defs),
            #[trigger] defs[i].longhands[k],
        ) {
            Some(j) => j < i,
            None => false,
        }
}

/// Whether the definition of `name` in `defs` marks it as inherited by default.
pub open spec fn inherited_by_default(defs: Seq<DefinitionView>, name: Seq<char>) -> bool {
    match first_index(definition_names(defs), name) {
        Some(i) => defs[i].inherited,
        None => false,
    }
}

/// The table of property definitions.
#[derive(Debug, PartialEq, Eq)]
pub struct CssDefinitions {
    pub definitions: Vec<PropertyDefinition>,
}

impl View for CssDefinitions {
    type V = Seq<DefinitionView>;

    open spec fn view(&self) -> Seq<DefinitionView> {
        views(self.definitions@)
    }
}

impl CssDefinitions {
    pub open spec fn wf(&self) -> bool {
        table_wf(self@)
    }

    pub fn new() -> (r: CssDefinitions)
        ensures
            r@ == Seq::<DefinitionView>::empty(),
            r.wf(),
    {
        let r = CssDefinitions { definitions: Vec::new() };
        assert(r@ =~= Seq::<DefinitionView>::empty());
        r
    }

    pub fn len(&self) -> (r: usize)
        ensures
            r == self@.len(),
    {
        self.definitions.len()
    }

    /// The place of the definition of `name`.
    pub fn position(&self, name: &String) -> (r: Option<usize>)
        ensures
            match r {
                Some(i) => first_index(definition_names(self@), name@) == Some(i as int) && i < self@.len(),
                None => first_index(definition_names(self@), name@) is None,
            },
    {
        let ghost names = definition_names(self@);
        let mut i: usize = 0;
        while i < self.definitions.len()
            invariant
                names == definition_names(self@),
                0 <= i <= self.definitions.len(),
                forall|j: int| 0 <= j < i ==> names[j] != name@,
            decreases self.definitions.len() - i,
        {
            if self.definitions[i].name == *name {
                proof {
                    assert(names[i as int] == self.definitions[i as int]@.name);
                    lemma_first_index_found(names, name@, i as int);
                }
                return Some(i);
            }
            i += 1;
        }
        proof {
            lemma_first_index_absent(names, name@);
        }
        None
    }

    /// The definition of the property `name`, if the table has one.
    pub fn find_property(&self, name: &str) -> (r: Option<&PropertyDefinition>)
        ensures
            match first_index(definition_names(self@), name@) {
                Some(i) => r is Some && r.unwrap()@ == self@[i],
                None => r is None,
            },
    {
        let key = name.to_owned();
        match self.position(&key) {
            Some(i) => Some(&self.definitions[i]),
            None => None,
        }
    }

    /// Whether the property `name` is defined as inherited by default.
    pub fn is_inherited(&self, name: &str) -> (r: bool)
        ensures
            r == inherited_by_default(self@, name@),
    {
        match self.find_property(name) {
            Some(def) => def.inherited,
            None => false,
        }
    }

    fn defines_all(&self, longhands: &Vec<String>) -> (r: bool)
        ensures
            r == all_defined(self@, views(longhands@)),
    {
        let mut k: usize = 0;
        while k < longhands.len()
            invariant
                0 <= k <= longhands.len(),
                forall|j: int|
                    0 <= j < k ==> first_index(definition_names(self@), #[trigger] views(longhands@)[j])
                        is Some,
            decreases longhands.len() - k,
        {
            if self.position(&longhands[k]).is_none() {
                assert(first_index(definition_names(self@), views(longhands@)[k as int]) is None);
                return false;
            }
            k += 1;
        }
        true
    }

    /// Offers a definition to the table. It is taken, and `true` returned,
    /// when its name is new and everything it expands to is defined already.
    pub fn add(&mut self, def: PropertyDefinition) -> (r: bool)
        ensures
            old(self).wf() ==> final(self).wf(),
            r == admits(old(self)@, def@),
            final(self)@ == with_definition(old(self)@, def@),
    {
        let ghost before = self@;
        if self.position(&def.name).is_some() || !self.defines_all(&def.longhands) {
            return false;
        }
        self.definitions.push(def);
        assert(self@ =~= before.push(def@));
        proof {
            if table_wf(before) {
                let after = self@;
                let names = definition_names(after);
                assert(names =~= definition_names(before).push(def@.name));
                lemma_first_index_sound(definition_names(before), def@.name);
                assert forall|i: int, k: int|
                    0 <= i < after.len() && 0 <= k < after[i].longhands.len() implies match first_index(
                    names,
                    #[trigger] after[i].longhands[k],
                ) {
                    Some(j) => j < i,
                    None => false,
                } by {
                    let target = after[i].longhands[k];
                    if i < before.len() {
                        assert(after[i] == before[i]);
                        assert(before[i].longhands[k] == target);
                    }
                    let found = first_index(definition_names(before), target);
                    assert(found is Some);
                    lemma_first_index_sound(definition_names(before), target);
                    let j = found.unwrap();
                    assert(names[j] == target);
                    crate::text::lemma_first_index_distinct(names, target, j);
                }
            }
        }
        true
    }
}

} // verus!
