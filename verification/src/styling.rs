//! The properties of a node: cascade candidates, the ranking that picks the
//! winner, and the per-node map of property records.

use vstd::prelude::*;
use crate::stylesheet::{CssOrigin, Specificity};
use crate::text::{distinct, first_index, lemma_first_index_absent, lemma_first_index_found, text_is, views};
use crate::values::{CssValue, CssValueView};

verus! {

/// A cascade candidate: the resolved value of one declaration for one
/// property, with the origin, weight, importance and source of the rule
/// that contributed it.
#[derive(Debug, PartialEq, Eq)]
pub struct DeclarationProperty {
    pub value: CssValue,
    pub origin: CssOrigin,
    pub important: bool,
    pub location: String,
    pub specificity: Specificity,
}

/// The mathematical model of [`DeclarationProperty`].
pub struct DeclarationView {
    pub value: CssValueView,
    pub origin: CssOrigin,
    pub important: bool,
    pub location: Seq<char>,
    pub specificity: Specificity,
}

impl View for DeclarationProperty {
    type V = DeclarationView;

    open spec fn view(&self) -> DeclarationView {
        DeclarationView {
            value: self.value@,
            origin: self.origin,
            important: self.important,
            location: self.location@,
            specificity: self.specificity,
        }
    }
}

impl Clone for DeclarationProperty {
    fn clone(&self) -> (r: DeclarationProperty)
        ensures
            r@ == self@,
    {
        DeclarationProperty {
            value: self.value.clone(),
            origin: self.origin,
            important: self.important,
            location: self.location.clone(),
            specificity: self.specificity,
        }
    }
}

/// The candidate `a`, declared at place `ia`, beats the candidate `b`,
/// declared at place `ib`: important beats normal; within a tier the heavier
/// selector wins; between equal weights the one declared later wins.
pub open spec fn outranks(a: DeclarationView, ia: int, b: DeclarationView, ib: int) -> bool {
    if a.important != b.important {
        a.important
    } else if a.specificity != b.specificity {
        a.specificity.outweighs(b.specificity)
    } else {
        ia > ib
    }
}

/// The place of the candidate that wins the cascade among `declared`.
pub open spec fn winner(declared: Seq<DeclarationView>) -> Option<int>
    decreases declared.len(),
{
    if declared.len() == 0 {
        None
    } else {
        let last = declared.len() - 1;
        match winner(declared.drop_last()) {
            None => Some(last),
            Some(w) => if outranks(declared[w], w, declared[last], last) {
                Some(w)
            } else {
                Some(last)
            },
        }
    }
}

/// `w` is a place in `declared` whose candidate beats every other one.
pub open spec fn beats_all(declared: Seq<DeclarationView>, w: int) -> bool {
    &&& 0 <= w < declared.len()
    &&& forall|j: int| 0 <= j < declared.len() && j != w ==> outranks(declared[w], w, #[trigger] declared[j], j)
}

/// Ranking is a strict total order on the places of a list of candidates.
pub proof fn lemma_outranks_total_order(declared: Seq<DeclarationView>, i: int, j: int, k: int)
    requires
        0 <= i < declared.len(),
        0 <= j < declared.len(),
        0 <= k < declared.len(),
    ensures
        i != j ==> (outranks(declared[i], i, declared[j], j) != outranks(declared[j], j, declared[i], i)),
        !outranks(declared[i], i, declared[i], i),
        outranks(declared[i], i, declared[j], j) && outranks(declared[j], j, declared[k], k) ==> outranks(
            declared[i],
            i,
            declared[k],
            k,
        ),
{
}

/// A list without candidates has no winner; in any other list the winner is
/// the one place whose candidate beats all the others.
pub proof fn lemma_winner_beats_all(declared: Seq<DeclarationView>)
    ensures
        declared.len() == 0 <==> winner(declared) is None,
        winner(declared) is Some ==> beats_all(declared, winner(declared).unwrap()),
        forall|w: int| beats_all(declared, w) ==> winner(declared) == Some(w),
    decreases declared.len(),
{
    if declared.len() > 0 {
        let last = declared.len() - 1;
        let front = declared.drop_last();
        lemma_winner_beats_all(front);
        let best = winner(declared).unwrap();
        assert forall|j: int| 0 <= j < declared.len() && j != best implies outranks(
            declared[best],
            best,
            #[trigger] declared[j],
            j,
        ) by {
            if j < last {
                assert(front[j] == declared[j]);
            }
            match winner(front) {
                Some(w) => {
                    assert(front[w] == declared[w]);
                    if j < last && j != w {
                        assert(outranks(front[w], w, front[j], j));
                    }
                },
                None => {},
            }
        }
        assert forall|w: int| beats_all(declared, w) implies winner(declared) == Some(w) by {
            if w != best {
                assert(outranks(declared[w], w, declared[best], best));
                assert(outranks(declared[best], best, declared[w], w));
            }
        }
    }
}

/// The value that a keyword value has when it is the keyword `inherit`.
pub open spec fn is_inherit(v: CssValueView) -> bool {
    v == CssValueView::Keyword("inherit"@)
}

/// The value a property ends up with: the winning candidate's value, or the
/// inherited value where the winner says `inherit` or where nothing is
/// declared and the property is inherited by default.
pub open spec fn used_value(
    declared: Seq<DeclarationView>,
    inherited: CssValueView,
    inheritable: bool,
) -> CssValueView {
    match winner(declared) {
        Some(w) => if is_inherit(declared[w].value) {
            inherited
        } else {
            declared[w].value
        },
        None => if inheritable {
            inherited
        } else {
            CssValueView::Empty
        },
    }
}

/// The record of one property on one node.
#[derive(Debug, PartialEq, Eq)]
pub struct CssProperty {
    pub name: String,
    pub declared: Vec<DeclarationProperty>,
    pub inherited: CssValue,
    pub actual: CssValue,
}

/// The mathematical model of [`CssProperty`].
pub struct CssPropertyView {
    pub name: Seq<char>,
    pub declared: Seq<DeclarationView>,
    pub inherited: CssValueView,
    pub actual: CssValueView,
}

impl View for CssProperty {
    type V = CssPropertyView;

    open spec fn view(&self) -> CssPropertyView {
        CssPropertyView {
            name: self.name@,
            declared: views(self.declared@),
            inherited: self.inherited@,
            actual: self.actual@,
        }
    }
}

/// A record without candidates and with both slots empty.
pub open spec fn fresh_property(name: Seq<char>) -> CssPropertyView {
    CssPropertyView {
        name,
        declared: Seq::empty(),
        inherited: CssValueView::Empty,
        actual: CssValueView::Empty,
    }
}

/// The record `p` after its `actual` slot has been computed.
pub open spec fn computed(p: CssPropertyView, inheritable: bool) -> CssPropertyView {
    CssPropertyView { actual: used_value(p.declared, p.inherited, inheritable), ..p }
}

impl CssProperty {
    pub fn new(name: &str) -> (r: CssProperty)
        ensures
            r@ == fresh_property(name@),
    {
        let r = CssProperty {
            name: name.to_owned(),
            declared: Vec::new(),
            inherited: CssValue::Empty,
            actual: CssValue::Empty,
        };
        assert(r@.declared =~= Seq::empty());
        r
    }

    /// The place of the candidate that wins the cascade, if there is a candidate.
    pub fn find_cascaded(&self) -> (r: Option<usize>)
        ensures
            match r {
                Some(w) => winner(self@.declared) == Some(w as int) && beats_all(self@.declared, w as int),
                None => self.declared.len() == 0 && winner(self@.declared) is None,
            },
    {
        let ghost declared = self@.declared;
        proof {
            lemma_winner_beats_all(declared);
        }
        if self.declared.len() == 0 {
            return None;
        }
        let mut best: usize = 0;
        let mut i: usize = 1;
        proof {
            assert(declared.take(1).drop_last() =~= Seq::<DeclarationView>::empty());
            assert(winner(declared.take(1).drop_last()) is None);
        }
        while i < self.declared.len()
            invariant
                declared == self@.declared,
                declared.len() == self.declared.len(),
                1 <= i <= self.declared.len(),
                0 <= best < i,
                winner(declared.take(i as int)) == Some(best as int),
            decreases self.declared.len() - i,
        {
            let a = &self.declared[best];
            let b = &self.declared[i];
            proof {
                assert(declared.take(i + 1).drop_last() =~= declared.take(i as int));
                assert(declared[best as int] == a@);
                assert(declared[i as int] == b@);
            }
            let keep = if a.important != b.important {
                a.important
            } else if a.specificity != b.specificity {
                a.specificity.is_heavier_than(&b.specificity)
            } else {
                false
            };
            if !keep {
                best = i;
            }
            i += 1;
        }
        proof {
            assert(declared.take(i as int) =~= declared);
        }
        Some(best)
    }

    /// Fills the `actual` slot from the candidates and the inherited value.
    pub fn compute_value(&mut self, inheritable: bool)
        ensures
            final(self)@ == computed(old(self)@, inheritable),
    {
        let value = match self.find_cascaded() {
            Some(w) => {
                let won = &self.declared[w];
                assert(won@ == self@.declared[w as int]);
                if value_is_inherit(&won.value) {
                    self.inherited.clone()
                } else {
                    won.value.clone()
                }
            },
            None => {
                if inheritable {
                    self.inherited.clone()
                } else {
                    CssValue::Empty
                }
            },
        };
        self.actual = value;
    }
}

/// Whether a value is the keyword `inherit`.
pub fn value_is_inherit(v: &CssValue) -> (r: bool)
    ensures
        r == is_inherit(v@),
{
    match v {
        CssValue::Keyword(k) => text_is(k, "inherit"),
        _ => false,
    }
}

/// The names of the records of a property map, in the map's order.
pub open spec fn property_names(props: Seq<CssPropertyView>) -> Seq<Seq<char>> {
    props.map_values(|p: CssPropertyView| p.name)
}

/// The map `props` after one more candidate has been declared for `name`: it
/// is appended to the record of that name, which is created at the end of the
/// map where there is none yet.
pub open spec fn with_candidate(
    props: Seq<CssPropertyView>,
    name: Seq<char>,
    candidate: DeclarationView,
) -> Seq<CssPropertyView> {
    match first_index(property_names(props), name) {
        Some(i) => props.update(i, CssPropertyView { declared: props[i].declared.push(candidate), ..props[i] }),
        None => props.push(CssPropertyView { declared: seq![candidate], ..fresh_property(name) }),
    }
}

/// The map `props` after `value` has been handed down for `name`: it fills the
/// `inherited` slot of the record of that name, which is created at the end of
/// the map where there is none yet.
pub open spec fn with_inherited(
    props: Seq<CssPropertyView>,
    name: Seq<char>,
    value: CssValueView,
) -> Seq<CssPropertyView> {
    match first_index(property_names(props), name) {
        Some(i) => props.update(i, CssPropertyView { inherited: value, ..props[i] }),
        None => props.push(CssPropertyView { inherited: value, ..fresh_property(name) }),
    }
}

/// The properties of one node: at most one record for each name, kept in the
/// order in which the names first came up.
#[derive(Debug, PartialEq, Eq)]
pub struct CssProperties {
    pub properties: Vec<CssProperty>,
}

impl View for CssProperties {
    type V = Seq<CssPropertyView>;

    open spec fn view(&self) -> Seq<CssPropertyView> {
        views(self.properties@)
    }
}

impl CssProperties {
    /// No two records carry the same name.
    pub open spec fn wf(&self) -> bool {
        distinct(property_names(self@))
    }

    pub fn new() -> (r: CssProperties)
        ensures
            r@ == Seq::<CssPropertyView>::empty(),
            r.wf(),
    {
        let r = CssProperties { properties: Vec::new() };
        assert(r@ =~= Seq::<CssPropertyView>::empty());
        r
    }

    pub fn len(&self) -> (r: usize)
        ensures
            r == self@.len(),
    {
        self.properties.len()
    }

    /// The place of the record named `name`.
    pub fn position(&self, name: &String) -> (r: Option<usize>)
        ensures
            match r {
                Some(i) => first_index(property_names(self@), name@) == Some(i as int) && i < self@.len(),
                None => first_index(property_names(self@), name@) is None,
            },
    {
        let ghost names = property_names(self@);
        let mut i: usize = 0;
        while i < self.properties.len()
            invariant
                names == property_names(self@),
                0 <= i <= self.properties.len(),
                forall|j: int| 0 <= j < i ==> names[j] != name@,
            decreases self.properties.len() - i,
        {
            if self.properties[i].name == *name {
                proof {
                    assert(names[i as int] == self.properties[i as int]@.name);
                    lemma_first_index_found(names, name@, i as int);
                }
                return Some(i);
            }
            i += 1;
        }
        proof {
            lemma_first_index_absent(names, name@);
        }
        None
    }

    /// The record named `name`, if the map holds one.
    pub fn get(&self, name: &str) -> (r: Option<&CssProperty>)
        ensures
            match first_index(property_names(self@), name@) {
                Some(i) => r is Some && r.unwrap()@ == self@[i],
                None => r is None,
            },
    {
        let key = name.to_owned();
        match self.position(&key) {
            Some(i) => Some(&self.properties[i]),
            None => None,
        }
    }

    /// Declares one more candidate for the property `name`.
    pub fn add_candidate(&mut self, name: &String, candidate: DeclarationProperty)
        ensures
            old(self).wf() ==> final(self).wf(),
            final(self)@ == with_candidate(old(self)@, name@, candidate@),
    {
        let ghost before = self@;
        match self.position(name) {
            Some(i) => {
                let entry = &mut self.properties[i];
                entry.declared.push(candidate);
                proof {
                    assert(self@[i as int].declared =~= before[i as int].declared.push(candidate@));
                    assert(self@ =~= with_candidate(before, name@, candidate@));
                    assert(property_names(self@) =~= property_names(before));
                }
            },
            None => {
                let mut declared: Vec<DeclarationProperty> = Vec::new();
                declared.push(candidate);
                let entry = CssProperty {
                    name: name.clone(),
                    declared,
                    inherited: CssValue::Empty,
                    actual: CssValue::Empty,
                };
                assert(entry@.declared =~= seq![candidate@]);
                self.properties.push(entry);
                proof {
                    assert(self@ =~= with_candidate(before, name@, candidate@));
                    assert(property_names(self@) =~= property_names(before).push(name@));
                    crate::text::lemma_first_index_sound(property_names(before), name@);
                }
            },
        }
    }

    /// Hands `value` down to the property `name`.
    pub fn insert_inherited(&mut self, name: &String, value: CssValue)
        ensures
            old(self).wf() ==> final(self).wf(),
            final(self)@ == with_inherited(old(self)@, name@, value@),
    {
        let ghost before = self@;
        match self.position(name) {
            Some(i) => {
                let entry = &mut self.properties[i];
                entry.inherited = value;
                proof {
                    assert(self@[i as int].declared =~= before[i as int].declared);
                    assert(self@ =~= with_inherited(before, name@, value@));
                    assert(property_names(self@) =~= property_names(before));
                }
            },
            None => {
                let entry = CssProperty {
                    name: name.clone(),
                    declared: Vec::new(),
                    inherited: value,
                    actual: CssValue::Empty,
                };
                assert(entry@.declared =~= Seq::<DeclarationView>::empty());
                self.properties.push(entry);
                proof {
                    assert(self@ =~= with_inherited(before, name@, value@));
                    assert(property_names(self@) =~= property_names(before).push(name@));
                    crate::text::lemma_first_index_sound(property_names(before), name@);
                }
            },
        }
    }
}

/// The value that a candidate gives once it has won.
pub open spec fn own_value(c: DeclarationView, inherited: CssValueView) -> CssValueView {
    if is_inherit(c.value) {
        inherited
    } else {
        c.value
    }
}

/// The record `name` with exactly the candidates `declared`, in that order.
pub open spec fn declaring(name: Seq<char>, declared: Seq<DeclarationView>, inherited: CssValueView) -> CssPropertyView {
    CssPropertyView { declared, inherited, ..fresh_property(name) }
}

/// Of two candidates of one tier and of different weight, the heavier gives
/// the property its `actual` value, whichever of them was declared first.
pub proof fn lemma_heavier_candidate_wins(
    name: Seq<char>,
    heavy: DeclarationView,
    light: DeclarationView,
    inherited: CssValueView,
    inheritable: bool,
)
    requires
        heavy.important == light.important,
        heavy.specificity.outweighs(light.specificity),
    ensures
        computed(declaring(name, seq![heavy, light], inherited), inheritable).actual == own_value(
            heavy,
            inherited,
        ),
        computed(declaring(name, seq![light, heavy], inherited), inheritable).actual == own_value(
            heavy,
            inherited,
        ),
{
    let first = seq![heavy, light];
    let second = seq![light, heavy];
    assert(beats_all(first, 0));
    assert(beats_all(second, 1));
    lemma_winner_beats_all(first);
    lemma_winner_beats_all(second);
}

/// Of two candidates of one tier and of equal weight, the one declared later
/// gives the property its `actual` value.
pub proof fn lemma_later_candidate_wins(
    name: Seq<char>,
    earlier: DeclarationView,
    later: DeclarationView,
    inherited: CssValueView,
    inheritable: bool,
)
    requires
        earlier.important == later.important,
        earlier.specificity == later.specificity,
    ensures
        computed(declaring(name, seq![earlier, later], inherited), inheritable).actual == own_value(
            later,
            inherited,
        ),
{
    let both = seq![earlier, later];
    assert(beats_all(both, 1));
    lemma_winner_beats_all(both);
}

/// An important candidate gives the property its `actual` value against a
/// normal one, whatever their weights and whichever was declared first.
pub proof fn lemma_important_candidate_wins(
    name: Seq<char>,
    important: DeclarationView,
    normal: DeclarationView,
    inherited: CssValueView,
    inheritable: bool,
)
    requires
        important.important,
        !normal.important,
    ensures
        computed(declaring(name, seq![important, normal], inherited), inheritable).actual == own_value(
            important,
            inherited,
        ),
        computed(declaring(name, seq![normal, important], inherited), inheritable).actual == own_value(
            important,
            inherited,
        ),
{
    let first = seq![important, normal];
    let second = seq![normal, important];
    assert(beats_all(first, 0));
    assert(beats_all(second, 1));
    lemma_winner_beats_all(first);
    lemma_winner_beats_all(second);
}

/// In any list of candidates the winner is important if any candidate is,
/// no candidate of the winner's tier outweighs it, and none of its tier and
/// weight was declared after it.
pub proof fn lemma_winner_is_top(declared: Seq<DeclarationView>, j: int)
    requires
        0 <= j < declared.len(),
    ensures
        winner(declared) is Some,
        ({
            let w = winner(declared).unwrap();
            &&& 0 <= w < declared.len()
            &&& declared[j].important ==> declared[w].important
            &&& declared[j].important == declared[w].important ==> !declared[j].specificity.outweighs(
                declared[w].specificity,
            )
            &&& declared[j].important == declared[w].important && declared[j].specificity
                == declared[w].specificity ==> j <= w
        }),
{
    lemma_winner_beats_all(declared);
    let w = winner(declared).unwrap();
    if j != w {
        assert(outranks(declared[w], w, declared[j], j));
    }
}

} // verus!
