//! Shorthand properties: how their values fall to their longhands, and the
//! list of obligations that is recorded, resolved and applied once per node.

use vstd::prelude::*;
use crate::definitions::{accepts_values, definition_names, table_wf, CssDefinitions, DefinitionView};
use crate::stylesheet::{CssOrigin, Specificity};
use crate::styling::{with_candidate, CssProperties, CssPropertyView, DeclarationProperty, DeclarationView};
use crate::text::{first_index, lemma_first_index_sound, views};
use crate::values::{lemma_view_of_list, CssValue, CssValueView};

verus! {

/// An obligation to write `values` to the property `name`, with the rank of
/// the declaration that it stems from.
#[derive(Debug, PartialEq, Eq)]
pub struct Expansion {
    pub name: String,
    pub values: Vec<CssValue>,
    pub origin: CssOrigin,
    pub important: bool,
    pub location: String,
    pub specificity: Specificity,
}

/// The mathematical model of [`Expansion`].
pub struct ExpansionView {
    pub name: Seq<char>,
    pub values: Seq<CssValueView>,
    pub origin: CssOrigin,
    pub important: bool,
    pub location: Seq<char>,
    pub specificity: Specificity,
}

impl View for Expansion {
    type V = ExpansionView;

    open spec fn view(&self) -> ExpansionView {
        ExpansionView {
            name: self.name@,
            values: views(self.values@),
            origin: self.origin,
            important: self.important,
            location: self.location@,
            specificity: self.specificity,
        }
    }
}

/// Which of `k` given values the longhand at place `i` of a shorthand takes:
/// its own where there is one, else that of the longhand two places before
/// it, else the first. With four longhands in the order top, right, bottom,
/// left this is the rule of the box shorthands.
pub open spec fn side_index(i: int, k: int) -> int
    decreases i,
{
    if i < k {
        i
    } else if i >= 2 {
        side_index(i - 2, k)
    } else {
        0
    }
}

/// Where at least one value is given, every longhand takes one of them.
pub proof fn lemma_side_index_in_range(i: int, k: int)
    requires
        0 <= i,
        1 <= k,
    ensures
        0 <= side_index(i, k) < k,
    decreases i,
{
    if i >= k && i >= 2 {
        lemma_side_index_in_range(i - 2, k);
    }
}

/// The exec counterpart of `side_index`.
pub fn side_of(i: usize, k: usize) -> (r: usize)
    ensures
        r == side_index(i as int, k as int),
{
    let mut j: usize = i;
    while j >= k && j >= 2
        invariant
            side_index(j as int, k as int) == side_index(i as int, k as int),
        decreases j,
    {
        j -= 2;
    }
    if j < k {
        j
    } else {
        0
    }
}

/// The values that the longhand at place `i` takes from those of its shorthand.
pub open spec fn child_values(values: Seq<CssValueView>, i: int) -> Seq<CssValueView> {
    if values.len() == 0 {
        Seq::empty()
    } else {
        seq![values[side_index(i, values.len() as int)]]
    }
}

/// The obligation that `e` passes to the longhand at place `i`.
pub open spec fn child(e: ExpansionView, longhands: Seq<Seq<char>>, i: int) -> ExpansionView {
    ExpansionView { name: longhands[i], values: child_values(e.values, i), ..e }
}

/// The obligations that `e` passes to the longhands, one for each, in order.
pub open spec fn children(e: ExpansionView, longhands: Seq<Seq<char>>) -> Seq<ExpansionView> {
    Seq::new(longhands.len(), |i: int| child(e, longhands, i))
}

/// One more than the place of the definition of `name`; 0 where it has none.
pub open spec fn rank(defs: Seq<DefinitionView>, name: Seq<char>) -> nat {
    match first_index(definition_names(defs), name) {
        Some(i) => (i + 1) as nat,
        None => 0,
    }
}

/// The obligation names a shorthand of the table.
pub open spec fn names_shorthand(defs: Seq<DefinitionView>, e: ExpansionView) -> bool {
    match first_index(definition_names(defs), e.name) {
        Some(idx) => defs[idx].is_shorthand(),
        None => false,
    }
}

/// The longhand obligations that `e` comes to: `e` itself where it names no
/// shorthand, else what its children come to, in the order of the longhands.
pub open spec fn resolve_one(defs: Seq<DefinitionView>, e: ExpansionView) -> Seq<ExpansionView>
    decreases rank(defs, e.name), 1int, 0int,
{
    match first_index(definition_names(defs), e.name) {
        Some(idx) => if defs[idx].is_shorthand() {
            resolve_children(defs, e, idx, 0)
        } else {
            seq![e]
        },
        None => seq![e],
    }
}

/// What the children of `e` from place `i` on come to. A child that the
/// table defines at or after its shorthand is kept as it is.
pub open spec fn resolve_children(defs: Seq<DefinitionView>, e: ExpansionView, idx: int, i: int) -> Seq<
    ExpansionView,
>
    decreases rank(defs, e.name), 0int, defs[idx].longhands.len() - i,
{
    if first_index(definition_names(defs), e.name) == Some(idx) && 0 <= i < defs[idx].longhands.len() {
        let c = child(e, defs[idx].longhands, i);
        let head = if rank(defs, c.name) < rank(defs, e.name) {
            resolve_one(defs, c)
        } else {
            seq![c]
        };
        head + resolve_children(defs, e, idx, i + 1)
    } else {
        Seq::empty()
    }
}

/// What a list of obligations comes to: what each comes to, in order.
pub open spec fn resolve_all(defs: Seq<DefinitionView>, entries: Seq<ExpansionView>) -> Seq<ExpansionView>
    decreases entries.len(),
{
    if entries.len() == 0 {
        Seq::empty()
    } else {
        resolve_all(defs, entries.drop_last()) + resolve_one(defs, entries.last())
    }
}

/// The value that an obligation with at least one value writes: its one
/// value, or the list of its values where it has several.
pub open spec fn written_value(values: Seq<CssValueView>) -> CssValueView {
    if values.len() == 1 {
        values[0]
    } else {
        CssValueView::List(values)
    }
}

/// The candidate that an obligation with at least one value writes.
pub open spec fn candidate_of(e: ExpansionView) -> DeclarationView {
    DeclarationView {
        value: written_value(e.values),
        origin: e.origin,
        important: e.important,
        location: e.location,
        specificity: e.specificity,
    }
}

/// The property map after the obligations have been written to it in order.
/// An obligation without values writes nothing.
pub open spec fn applied(entries: Seq<ExpansionView>, props: Seq<CssPropertyView>) -> Seq<CssPropertyView>
    decreases entries.len(),
{
    if entries.len() == 0 {
        props
    } else {
        let before = applied(entries.drop_last(), props);
        let e = entries.last();
        if e.values.len() == 0 {
            before
        } else {
            with_candidate(before, e.name, candidate_of(e))
        }
    }
}

/// Whether the definition at place `idx` lets `values` stand for its
/// property. A longhand goes by its own grammar. A shorthand takes from one
/// value up to as many as it has longhands, and each longhand, defined before
/// it, must accept the value that falls to it.
pub open spec fn grammar_accepts(defs: Seq<DefinitionView>, idx: int, values: Seq<CssValueView>) -> bool
    decreases idx,
{
    if 0 <= idx < defs.len() {
        let def = defs[idx];
        if def.is_shorthand() {
            &&& 1 <= values.len() <= def.longhands.len()
            &&& forall|i: int|
                0 <= i < def.longhands.len() ==> match first_index(
                    definition_names(defs),
                    #[trigger] def.longhands[i],
                ) {
                    Some(j) => j < idx && grammar_accepts(defs, j, child_values(values, i)),
                    None => false,
                }
        } else {
            accepts_values(def, values)
        }
    } else {
        false
    }
}

/// Whether the table defines the property that `e` names and lets the values
/// of `e` stand for it.
pub open spec fn validates(defs: Seq<DefinitionView>, e: ExpansionView) -> bool {
    match first_index(definition_names(defs), e.name) {
        Some(idx) => grammar_accepts(defs, idx, e.values),
        None => false,
    }
}

/// What validating `e` stages: the children of `e` where it is valid and
/// names a shorthand, else nothing.
pub open spec fn staged(defs: Seq<DefinitionView>, e: ExpansionView) -> Seq<ExpansionView> {
    match first_index(definition_names(defs), e.name) {
        Some(idx) => if grammar_accepts(defs, idx, e.values) && defs[idx].is_shorthand() {
            children(e, defs[idx].longhands)
        } else {
            Seq::empty()
        },
        None => Seq::empty(),
    }
}

impl Clone for Expansion {
    fn clone(&self) -> (r: Expansion)
        ensures
            r@ == self@,
    {
        let mut values: Vec<CssValue> = Vec::new();
        let mut i: usize = 0;
        while i < self.values.len()
            invariant
                0 <= i <= self.values.len(),
                values.len() == i,
                forall|k: int| 0 <= k < i ==> values[k]@ == self.values[k]@,
            decreases self.values.len() - i,
        {
            values.push(self.values[i].clone());
            i += 1;
        }
        assert(views(values@) =~= views(self.values@));
        Expansion {
            name: self.name.clone(),
            values,
            origin: self.origin,
            important: self.important,
            location: self.location.clone(),
            specificity: self.specificity,
        }
    }
}

fn make_child(e: &Expansion, longhands: &Vec<String>, i: usize) -> (r: Expansion)
    requires
        i < longhands.len(),
    ensures
        r@ == child(e@, views(longhands@), i as int),
{
    let mut values: Vec<CssValue> = Vec::new();
    if e.values.len() > 0 {
        let side = side_of(i, e.values.len());
        proof {
            lemma_side_index_in_range(i as int, e.values.len() as int);
        }
        values.push(e.values[side].clone());
    }
    assert(views(values@) =~= child_values(e@.values, i as int));
    Expansion {
        name: longhands[i].clone(),
        values,
        origin: e.origin,
        important: e.important,
        location: e.location.clone(),
        specificity: e.specificity,
    }
}

fn resolve_into(defs: &CssDefinitions, e: &Expansion, out: &mut Vec<Expansion>)
    ensures
        views(final(out)@) == views(old(out)@) + resolve_one(defs@, e@),
    decreases rank(defs@, e@.name),
{
    let ghost start = views(out@);
    let ghost goal = start + resolve_one(defs@, e@);
    match defs.position(&e.name) {
        Some(idx) => {
            let def = &defs.definitions[idx];
            assert(def@ == defs@[idx as int]);
            if def.longhands.len() > 0 {
                let n = def.longhands.len();
                let mut i: usize = 0;
                while i < n
                    invariant
                        0 <= i <= n,
                        n == def.longhands.len(),
                        def@ == defs@[idx as int],
                        first_index(definition_names(defs@), e@.name) == Some(idx as int),
                        idx < defs@.len(),
                        views(out@) + resolve_children(defs@, e@, idx as int, i as int) == goal,
                    decreases n - i,
                {
                    let ghost so_far = views(out@);
                    let c = make_child(e, &def.longhands, i);
                    let expand = match defs.position(&c.name) {
                        Some(j) => j < idx,
                        None => true,
                    };
                    let ghost head = if rank(defs@, c@.name) < rank(defs@, e@.name) {
                        resolve_one(defs@, c@)
                    } else {
                        seq![c@]
                    };
                    if expand {
                        resolve_into(defs, &c, out);
                    } else {
                        out.push(c);
                        assert(views(out@) =~= so_far + seq![c@]);
                    }
                    proof {
                        assert(views(out@) == so_far + head);
                        assert((so_far + head) + resolve_children(defs@, e@, idx as int, i + 1) =~= so_far + (
                        head + resolve_children(defs@, e@, idx as int, i + 1)));
                    }
                    i += 1;
                }
                assert(views(out@) + Seq::<ExpansionView>::empty() =~= views(out@));
            } else {
                out.push(e.clone());
                assert(views(out@) =~= start + seq![e@]);
            }
        },
        None => {
            out.push(e.clone());
            assert(views(out@) =~= start + seq![e@]);
        },
    }
}

/// The shorthand obligations of one node's cascade pass: they are recorded
/// while the declarations are read, resolved down to longhands when all have
/// been read, and only then written to the node's properties.
#[derive(Debug, PartialEq, Eq)]
pub struct FixList {
    pub entries: Vec<Expansion>,
}

impl View for FixList {
    type V = Seq<ExpansionView>;

    open spec fn view(&self) -> Seq<ExpansionView> {
        views(self.entries@)
    }
}

impl FixList {
    pub fn new() -> (r: FixList)
        ensures
            r@ == Seq::<ExpansionView>::empty(),
    {
        let r = FixList { entries: Vec::new() };
        assert(r@ =~= Seq::<ExpansionView>::empty());
        r
    }

    pub fn len(&self) -> (r: usize)
        ensures
            r == self@.len(),
    {
        self.entries.len()
    }

    /// Records one obligation behind those recorded so far.
    pub fn record(&mut self, expansion: Expansion)
        ensures
            final(self)@ == old(self)@.push(expansion@),
    {
        self.entries.push(expansion);
        assert(self@ =~= old(self)@.push(expansion@));
    }

    /// Replaces every obligation that names a shorthand by the obligations
    /// of its longhands, until none names a shorthand.
    pub fn resolve_nested(&mut self, definitions: &CssDefinitions)
        ensures
            final(self)@ == resolve_all(definitions@, old(self)@),
    {
        let ghost before = self@;
        let mut out: Vec<Expansion> = Vec::new();
        let mut i: usize = 0;
        assert(before.take(0) =~= Seq::<ExpansionView>::empty());
        assert(views(out@) =~= Seq::<ExpansionView>::empty());
        while i < self.entries.len()
            invariant
                before == self@,
                0 <= i <= self.entries.len(),
                views(out@) == resolve_all(definitions@, before.take(i as int)),
            decreases self.entries.len() - i,
        {
            proof {
                assert(before.take(i + 1).drop_last() =~= before.take(i as int));
                assert(before.take(i + 1).last() == self.entries[i as int]@);
            }
            resolve_into(definitions, &self.entries[i], &mut out);
            i += 1;
        }
        assert(before.take(i as int) =~= before);
        self.entries = out;
    }

    /// Writes the obligations to the properties of the node, in order. An
    /// obligation without values writes nothing.
    pub fn apply(&self, props: &mut CssProperties)
        ensures
            old(props).wf() ==> final(props).wf(),
            final(props)@ == applied(self@, old(props)@),
    {
        let ghost start = props@;
        let mut i: usize = 0;
        assert(self@.take(0) =~= Seq::<ExpansionView>::empty());
        while i < self.entries.len()
            invariant
                0 <= i <= self.entries.len(),
                old(props).wf() ==> props.wf(),
                props@ == applied(self@.take(i as int), start),
            decreases self.entries.len() - i,
        {
            let e = &self.entries[i];
            proof {
                assert(self@.take(i + 1).drop_last() =~= self@.take(i as int));
                assert(self@.take(i + 1).last() == e@);
            }
            if e.values.len() > 0 {
                let value = if e.values.len() == 1 {
                    e.values[0].clone()
                } else {
                    let copy = e.clone();
                    proof {
                        lemma_view_of_list(copy.values);
                    }
                    CssValue::List(copy.values)
                };
                let candidate = DeclarationProperty {
                    value,
                    origin: e.origin,
                    important: e.important,
                    location: e.location.clone(),
                    specificity: e.specificity,
                };
                assert(candidate@ == candidate_of(e@));
                props.add_candidate(&e.name, candidate);
            }
            i += 1;
        }
        assert(self@.take(i as int) =~= self@);
    }
}

impl CssDefinitions {
    /// Whether the definition at place `idx` lets `values` stand for its property.
    pub fn accepts(&self, idx: usize, values: &Vec<CssValue>) -> (r: bool)
        ensures
            r == grammar_accepts(self@, idx as int, views(values@)),
        decreases idx,
    {
        if idx >= self.definitions.len() {
            return false;
        }
        let def = &self.definitions[idx];
        assert(def@ == self@[idx as int]);
        if def.longhands.len() == 0 {
            return def.accepts_values(values);
        }
        let n = def.longhands.len();
        let k = values.len();
        if k < 1 || k > n {
            return false;
        }
        let mut i: usize = 0;
        while i < n
            invariant
                0 <= i <= n,
                n == def.longhands.len(),
                k == values.len(),
                1 <= k,
                idx < self.definitions.len(),
                def@ == self@[idx as int],
                forall|m: int|
                    0 <= m < i ==> match first_index(definition_names(self@), #[trigger] def@.longhands[m]) {
                        Some(j) => j < idx && grammar_accepts(self@, j, child_values(views(values@), m)),
                        None => false,
                    },
            decreases n - i,
        {
            let ghost target = def@.longhands[i as int];
            assert(target == def.longhands[i as int]@);
            match self.position(&def.longhands[i]) {
                Some(j) => {
                    if j >= idx {
                        return false;
                    }
                    let side = side_of(i, k);
                    proof {
                        lemma_side_index_in_range(i as int, k as int);
                    }
                    let mut single: Vec<CssValue> = Vec::new();
                    single.push(values[side].clone());
                    assert(views(single@) =~= child_values(views(values@), i as int));
                    if !self.accepts(j, &single) {
                        return false;
                    }
                },
                None => {
                    return false;
                },
            }
            i += 1;
        }
        true
    }

    /// Validates a declaration against the definition of its property and,
    /// where it is a valid shorthand, stages the obligations of its
    /// longhands in `fix_list`.
    pub fn matches_and_shorthands(&self, declared: &Expansion, fix_list: &mut FixList) -> (r: bool)
        ensures
            r == validates(self@, declared@),
            final(fix_list)@ == old(fix_list)@ + staged(self@, declared@),
    {
        let ghost before = fix_list@;
        match self.position(&declared.name) {
            Some(idx) => {
                if !self.accepts(idx, &declared.values) {
                    assert(before + Seq::<ExpansionView>::empty() =~= before);
                    return false;
                }
                let def = &self.definitions[idx];
                assert(def@ == self@[idx as int]);
                let n = def.longhands.len();
                let mut i: usize = 0;
                let ghost all = children(declared@, def@.longhands);
                while i < n
                    invariant
                        0 <= i <= n,
                        n == def.longhands.len(),
                        all == children(declared@, def@.longhands),
                        fix_list@ == before + all.take(i as int),
                    decreases n - i,
                {
                    let c = make_child(declared, &def.longhands, i);
                    fix_list.record(c);
                    assert(fix_list@ =~= before + all.take(i + 1)) by {
                        assert(all.take(i + 1) =~= all.take(i as int).push(all[i as int]));
                    }
                    i += 1;
                }
                assert(all.take(n as int) =~= all);
                true
            },
            None => {
                assert(before + Seq::<ExpansionView>::empty() =~= before);
                false
            },
        }
    }
}

/// An obligation that names no shorthand comes to itself.
pub open spec fn settled(defs: Seq<DefinitionView>, entries: Seq<ExpansionView>) -> bool {
    forall|k: int| 0 <= k < entries.len() ==> !names_shorthand(defs, #[trigger] entries[k])
}

proof fn lemma_resolve_one_settled(defs: Seq<DefinitionView>, e: ExpansionView)
    requires
        table_wf(defs),
    ensures
        settled(defs, resolve_one(defs, e)),
    decreases rank(defs, e.name), 1int, 0int,
{
    match first_index(definition_names(defs), e.name) {
        Some(idx) => {
            if defs[idx].is_shorthand() {
                lemma_resolve_children_settled(defs, e, idx, 0);
            }
        },
        None => {},
    }
}

proof fn lemma_resolve_children_settled(defs: Seq<DefinitionView>, e: ExpansionView, idx: int, i: int)
    requires
        table_wf(defs),
        first_index(definition_names(defs), e.name) == Some(idx),
        0 <= i,
    ensures
        settled(defs, resolve_children(defs, e, idx, i)),
    decreases rank(defs, e.name), 0int, defs[idx].longhands.len() - i,
{
    lemma_first_index_sound(definition_names(defs), e.name);
    if i < defs[idx].longhands.len() {
        let c = child(e, defs[idx].longhands, i);
        assert(c.name == defs[idx].longhands[i]);
        assert(rank(defs, c.name) < rank(defs, e.name));
        lemma_resolve_one_settled(defs, c);
        lemma_resolve_children_settled(defs, e, idx, i + 1);
    }
}

proof fn lemma_resolve_all_settled(defs: Seq<DefinitionView>, entries: Seq<ExpansionView>)
    requires
        settled(defs, entries),
    ensures
        resolve_all(defs, entries) == entries,
    decreases entries.len(),
{
    if entries.len() > 0 {
        let front = entries.drop_last();
        assert forall|k: int| 0 <= k < front.len() implies !names_shorthand(defs, #[trigger] front[k]) by {
            assert(front[k] == entries[k]);
        }
        lemma_resolve_all_settled(defs, front);
        assert(!names_shorthand(defs, entries[entries.len() - 1]));
        assert(resolve_one(defs, entries.last()) == seq![entries.last()]);
        assert(front + seq![entries.last()] =~= entries);
    }
}

/// No obligation of a resolved list names a shorthand of a well-formed table.
pub proof fn lemma_resolved_names_no_shorthand(defs: Seq<DefinitionView>, entries: Seq<ExpansionView>)
    requires
        table_wf(defs),
    ensures
        settled(defs, resolve_all(defs, entries)),
    decreases entries.len(),
{
    if entries.len() > 0 {
        lemma_resolved_names_no_shorthand(defs, entries.drop_last());
        lemma_resolve_one_settled(defs, entries.last());
    }
}

/// Resolving is idempotent: on a list that has been resolved against a
/// well-formed table, resolving once more changes nothing.
pub proof fn lemma_resolve_nested_idempotent(defs: Seq<DefinitionView>, entries: Seq<ExpansionView>)
    requires
        table_wf(defs),
    ensures
        resolve_all(defs, resolve_all(defs, entries)) == resolve_all(defs, entries),
{
    lemma_resolved_names_no_shorthand(defs, entries);
    lemma_resolve_all_settled(defs, resolve_all(defs, entries));
}

} // verus!
