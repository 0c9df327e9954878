//! Decisions of the document loader: how an address is to be loaded.

use vstd::prelude::*;
use crate::text::to_chars;
use crate::tokenizer::text_between;

verus! {

/// `s` begins with `prefix`.
pub open spec fn starts_with(s: Seq<char>, prefix: Seq<char>) -> bool {
    prefix.len() <= s.len() && s.subrange(0, prefix.len() as int) == prefix
}

/// `s` without every copy of `prefix` that it begins with.
pub open spec fn without_prefixes(s: Seq<char>, prefix: Seq<char>) -> Seq<char>
    decreases s.len(),
{
    if prefix.len() > 0 && starts_with(s, prefix) {
        without_prefixes(s.skip(prefix.len() as int), prefix)
    } else {
        s
    }
}

fn has_prefix_at(chars: &Vec<char>, at: usize, prefix: &Vec<char>) -> (r: bool)
    requires
        at <= chars.len(),
    ensures
        r == starts_with(chars@.skip(at as int), prefix@),
{
    if prefix.len() > chars.len() - at {
        return false;
    }
    let ghost rest = chars@.skip(at as int);
    let mut k: usize = 0;
    while k < prefix.len()
        invariant
            0 <= k <= prefix.len(),
            at <= chars.len(),
            prefix.len() <= chars.len() - at,
            rest == chars@.skip(at as int),
            forall|m: int| 0 <= m < k ==> rest[m] == prefix@[m],
        decreases prefix.len() - k,
    {
        if chars[at + k] != prefix[k] {
            assert(rest.subrange(0, prefix.len() as int)[k as int] != prefix@[k as int]);
            return false;
        }
        k += 1;
    }
    assert(rest.subrange(0, prefix.len() as int) =~= prefix@);
    true
}

/// Whether a text begins with a prefix.
pub fn has_prefix(s: &str, prefix: &str) -> (r: bool)
    ensures
        r == starts_with(s@, prefix@),
{
    let chars = to_chars(s);
    let wanted = to_chars(prefix);
    assert(chars@.skip(0) =~= chars@);
    has_prefix_at(&chars, 0, &wanted)
}

/// Whether a location names a document on the web: it begins with
/// `http://` or with `https://`.
pub fn is_remote(location: &str) -> (r: bool)
    ensures
        r == (starts_with(location@, "http://"@) || starts_with(location@, "https://"@)),
{
    has_prefix(location, "http://") || has_prefix(location, "https://")
}

/// A text without every copy of a prefix that it begins with.
pub fn strip_prefixes(s: &str, prefix: &str) -> (r: String)
    ensures
        r@ == without_prefixes(s@, prefix@),
{
    let chars = to_chars(s);
    let wanted = to_chars(prefix);
    let mut at: usize = 0;
    assert(chars@.skip(0) =~= chars@);
    if wanted.len() > 0 {
        while has_prefix_at(&chars, at, &wanted)
            invariant
                at <= chars.len(),
                wanted.len() > 0,
                wanted@ == prefix@,
                chars@ == s@,
                without_prefixes(chars@.skip(at as int), prefix@) == without_prefixes(s@, prefix@),
            decreases chars.len() - at,
        {
            assert(chars@.skip(at as int).skip(wanted.len() as int) =~= chars@.skip(at + wanted.len()));
            at += wanted.len();
        }
    }
    assert(chars@.skip(at as int) =~= chars@.subrange(at as int, chars.len() as int));
    text_between(&chars, at, chars.len())
}

/// How a document is to be had from its address.
#[derive(Debug, PartialEq, Eq)]
pub enum LoadPlan {
    /// Fetch it over the network.
    Fetch,
    /// Read the file at this path.
    ReadFile(String),
    /// The scheme of the address is not supported.
    Unsupported,
}

/// The mathematical model of [`LoadPlan`].
pub enum LoadPlanView {
    Fetch,
    ReadFile(Seq<char>),
    Unsupported,
}

impl View for LoadPlan {
    type V = LoadPlanView;

    open spec fn view(&self) -> LoadPlanView {
        match self {
            LoadPlan::Fetch => LoadPlanView::Fetch,
            LoadPlan::ReadFile(p) => LoadPlanView::ReadFile(p@),
            LoadPlan::Unsupported => LoadPlanView::Unsupported,
        }
    }
}

/// The plan for an address with the given scheme.
pub open spec fn planned(scheme: Seq<char>, url: Seq<char>) -> LoadPlanView {
    if scheme == "http"@ || scheme == "https"@ {
        LoadPlanView::Fetch
    } else if scheme == "file"@ {
        LoadPlanView::ReadFile(without_prefixes(url, "file://"@))
    } else {
        LoadPlanView::Unsupported
    }
}

/// Decides how the document at `url`, an address with the scheme `scheme`,
/// is to be had.
pub fn plan_load(scheme: &str, url: &str) -> (r: LoadPlan)
    ensures
        r@ == planned(scheme@, url@),
{
    let s = scheme.to_owned();
    if crate::text::text_is(&s, "http") || crate::text::text_is(&s, "https") {
        LoadPlan::Fetch
    } else if crate::text::text_is(&s, "file") {
        LoadPlan::ReadFile(strip_prefixes(url, "file://"))
    } else {
        LoadPlan::Unsupported
    }
}

/// Whether a response with this status carries the document.
pub fn status_is_ok(status: u16) -> (r: bool)
    ensures
        r == (status == 200),
{
    status == 200
}

} // verus!
