//! Helpers on text: comparing strings, finding a name in a list of names,
//! white space, and the characters of a string.

use vstd::prelude::*;

verus! {

/// Whether an owned string holds exactly the characters of `lit`.
pub fn text_is(s: &String, lit: &str) -> (r: bool)
    ensures
        r == (s@ == lit@),
{
    let t = lit.to_owned();
    *s == t
}

/// The views of the elements of a sequence, in order.
pub open spec fn views<T: View>(s: Seq<T>) -> Seq<T::V> {
    s.map_values(|x: T| x@)
}

/// `i` is the first place at which `name` stands in `names`.
pub open spec fn is_first_at(names: Seq<Seq<char>>, name: Seq<char>, i: int) -> bool {
    &&& 0 <= i < names.len()
    &&& names[i] == name
    &&& forall|j: int| 0 <= j < i ==> names[j] != name
}

/// `name` stands nowhere in `names`.
pub open spec fn is_absent(names: Seq<Seq<char>>, name: Seq<char>) -> bool {
    forall|j: int| 0 <= j < names.len() ==> names[j] != name
}

/// The first place at which `name` stands in `names`, if it stands there at all.
pub open spec fn first_index(names: Seq<Seq<char>>, name: Seq<char>) -> Option<int> {
    if exists|i: int| is_first_at(names, name, i) {
        Some(choose|i: int| is_first_at(names, name, i))
    } else {
        None
    }
}

/// No name stands twice in `names`.
pub open spec fn distinct(names: Seq<Seq<char>>) -> bool {
    forall|i: int, j: int| 0 <= i < j < names.len() ==> names[i] != names[j]
}

/// A name is found at the first place where it stands.
pub proof fn lemma_first_index_found(names: Seq<Seq<char>>, name: Seq<char>, i: int)
    requires
        is_first_at(names, name, i),
    ensures
        first_index(names, name) == Some(i),
{
    let c = choose|c: int| is_first_at(names, name, c);
    assert(is_first_at(names, name, c));
    if c < i {
        assert(names[c] != name);
    }
    if i < c {
        assert(names[i] != name);
    }
}

/// A name that stands nowhere is not found.
pub proof fn lemma_first_index_absent(names: Seq<Seq<char>>, name: Seq<char>)
    requires
        is_absent(names, name),
    ensures
        first_index(names, name) is None,
{
    if exists|i: int| is_first_at(names, name, i) {
        let c = choose|c: int| is_first_at(names, name, c);
        assert(names[c] != name);
    }
}

/// What `first_index` returns is the first place of the name, and `None`
/// only when the name stands nowhere.
pub proof fn lemma_first_index_sound(names: Seq<Seq<char>>, name: Seq<char>)
    ensures
        match first_index(names, name) {
            Some(i) => is_first_at(names, name, i),
            None => is_absent(names, name),
        },
{
    if first_index(names, name) is None {
        if !is_absent(names, name) {
            let j = choose|j: int| 0 <= j < names.len() && names[j] == name;
            lemma_some_first(names, name, j);
        }
    }
}

proof fn lemma_some_first(names: Seq<Seq<char>>, name: Seq<char>, j: int)
    requires
        0 <= j < names.len(),
        names[j] == name,
    ensures
        exists|i: int| is_first_at(names, name, i),
    decreases j,
{
    if forall|k: int| 0 <= k < j ==> names[k] != name {
        assert(is_first_at(names, name, j));
    } else {
        let k = choose|k: int| 0 <= k < j && names[k] == name;
        lemma_some_first(names, name, k);
    }
}

/// Where the names are distinct, a name is found at the one place where it stands.
pub proof fn lemma_first_index_distinct(names: Seq<Seq<char>>, name: Seq<char>, i: int)
    requires
        distinct(names),
        0 <= i < names.len(),
        names[i] == name,
    ensures
        first_index(names, name) == Some(i),
{
    assert(is_first_at(names, name, i));
    lemma_first_index_found(names, name, i);
}

/// Searches `names` for `name`; the exec counterpart of `first_index`.
pub fn find_name(names: &Vec<String>, name: &String) -> (r: Option<usize>)
    ensures
        match r {
            Some(i) => first_index(views(names@), name@) == Some(i as int),
            None => first_index(views(names@), name@) is None,
        },
{
    let mut i: usize = 0;
    while i < names.len()
        invariant
            0 <= i <= names.len(),
            forall|j: int| 0 <= j < i ==> views(names@)[j] != name@,
        decreases names.len() - i,
    {
        if names[i] == *name {
            proof {
                assert(views(names@)[i as int] == name@);
                lemma_first_index_found(views(names@), name@, i as int);
            }
            return Some(i);
        }
        i += 1;
    }
    proof {
        lemma_first_index_absent(views(names@), name@);
    }
    None
}

/// A copy of a list of strings.
pub fn clone_strings(v: &Vec<String>) -> (r: Vec<String>)
    ensures
        views(r@) == views(v@),
{
    let mut out: Vec<String> = Vec::new();
    let mut i: usize = 0;
    while i < v.len()
        invariant
            0 <= i <= v.len(),
            out.len() == i,
            forall|k: int| 0 <= k < i ==> out[k]@ == v[k]@,
        decreases v.len() - i,
    {
        out.push(v[i].clone());
        i += 1;
    }
    assert(views(out@) =~= views(v@));
    out
}

/// A copy of a string that may be missing.
pub fn clone_optional(v: &Option<String>) -> (r: Option<String>)
    ensures
        optional_view(r) == optional_view(*v),
{
    match v {
        Some(s) => Some(s.clone()),
        None => None,
    }
}

/// The view of a string that may be missing.
pub open spec fn optional_view(v: Option<String>) -> Option<Seq<char>> {
    match v {
        Some(s) => Some(s@),
        None => None,
    }
}

/// The characters of a string, in order.
pub fn to_chars(s: &str) -> (r: Vec<char>)
    ensures
        r@ == s@,
{
    let mut out: Vec<char> = Vec::new();
    for c in iter: s.chars()
        invariant
            iter.seq() == s@,
            out@ == iter.seq().take(iter.index() as int),
    {
        out.push(c);
        assert(iter.seq().take(iter.index() + 1) =~= iter.seq().take(iter.index() as int).push(c));
    }
    assert(out@ =~= s@);
    out
}

/// The characters with the Unicode property White_Space.
pub open spec fn is_whitespace(c: char) -> bool {
    let n = c as u32;
    (9 <= n <= 13) || n == 0x20 || n == 0x85 || n == 0xA0 || n == 0x1680 || (0x2000 <= n <= 0x200A) || n
        == 0x2028 || n == 0x2029 || n == 0x202F || n == 0x205F || n == 0x3000
}

/// Whether a character has the Unicode property White_Space.
pub fn char_is_whitespace(c: char) -> (r: bool)
    ensures
        r == is_whitespace(c),
{
    let n: u32 = c as u32;
    (9 <= n && n <= 13) || n == 0x20 || n == 0x85 || n == 0xA0 || n == 0x1680 || (0x2000 <= n && n <= 0x200A)
        || n == 0x2028 || n == 0x2029 || n == 0x202F || n == 0x205F || n == 0x3000
}

/// Every character of `s` is white space.
pub open spec fn all_whitespace(s: Seq<char>) -> bool {
    forall|i: int| 0 <= i < s.len() ==> is_whitespace(#[trigger] s[i])
}

/// Whether a string holds nothing but white space. The empty string does.
pub fn is_blank(s: &str) -> (r: bool)
    ensures
        r == all_whitespace(s@),
{
    let chars = to_chars(s);
    let mut i: usize = 0;
    while i < chars.len()
        invariant
            chars@ == s@,
            0 <= i <= chars.len(),
            forall|j: int| 0 <= j < i ==> is_whitespace(#[trigger] s@[j]),
        decreases chars.len() - i,
    {
        if !char_is_whitespace(chars[i]) {
            assert(!is_whitespace(s@[i as int]));
            return false;
        }
        i += 1;
    }
    true
}

/// Where a name is first found after one more name has been appended.
pub proof fn lemma_first_index_push(names: Seq<Seq<char>>, extra: Seq<char>, name: Seq<char>)
    ensures
        first_index(names.push(extra), name) == match first_index(names, name) {
            Some(i) => Some(i),
            None => if extra == name {
                Some(names.len() as int)
            } else {
                None
            },
        },
{
    let longer = names.push(extra);
    lemma_first_index_sound(names, name);
    match first_index(names, name) {
        Some(i) => {
            assert(forall|j: int| 0 <= j < i ==> longer[j] == names[j]);
            assert(is_first_at(longer, name, i));
            lemma_first_index_found(longer, name, i);
        },
        None => {
            assert(forall|j: int| 0 <= j < names.len() ==> longer[j] == names[j]);
            if extra == name {
                assert(is_first_at(longer, name, names.len() as int));
                lemma_first_index_found(longer, name, names.len() as int);
            } else {
                assert(is_absent(longer, name));
                lemma_first_index_absent(longer, name);
            }
        },
    }
}

} // verus!
