//! Facts about `Seq::filter` that the lookups share: how the elements kept
//! from a prefix relate to the elements kept from the whole.
use vstd::prelude::*;

verus! {

/// Taking one more element of `s` adds it to what `keep` keeps of the
/// prefix, if `keep` holds of it.
pub proof fn lemma_filter_take_next<A>(s: Seq<A>, keep: spec_fn(A) -> bool, i: int)
    requires
        0 <= i < s.len(),
    ensures
        s.take(i + 1).filter(keep) == if keep(s[i]) {
            s.take(i).filter(keep).push(s[i])
        } else {
            s.take(i).filter(keep)
        },
{
    assert(s.take(i + 1) =~= s.take(i).push(s[i]));
    s.take(i).lemma_filter_push(s[i], keep);
}

/// An element of `s` that `keep` holds of stands in `s.filter(keep)` behind
/// exactly those kept from before it.
pub proof fn lemma_filter_position<A>(s: Seq<A>, keep: spec_fn(A) -> bool, i: int)
    requires
        0 <= i < s.len(),
        keep(s[i]),
    ensures
        s.take(i).filter(keep).len() < s.filter(keep).len(),
        s.filter(keep)[s.take(i).filter(keep).len() as int] == s[i],
{
    let before = s.take(i);
    let after = s.skip(i + 1);
    assert(s =~= before + (seq![s[i]] + after));
    Seq::filter_distributes_over_add(before, seq![s[i]] + after, keep);
    after.lemma_filter_prepend(s[i], keep);
}

/// What `keep` keeps of the whole of `s` is what it keeps of the prefix
/// that has every element.
pub proof fn lemma_filter_take_all<A>(s: Seq<A>, keep: spec_fn(A) -> bool)
    ensures
        s.take(s.len() as int).filter(keep) == s.filter(keep),
{
    assert(s.take(s.len() as int) =~= s);
}

/// Where `keep` holds of no element, it keeps nothing.
pub proof fn lemma_filter_none<A>(s: Seq<A>, keep: spec_fn(A) -> bool)
    requires
        forall|j: int| 0 <= j < s.len() ==> !keep(#[trigger] s[j]),
    ensures
        s.filter(keep).len() == 0,
    decreases s.len(),
{
    reveal(Seq::filter);
    if s.len() > 0 {
        lemma_filter_none(s.drop_last(), keep);
    }
}

/// The first element of `s` that `keep` holds of is the first that it
/// keeps.
pub proof fn lemma_filter_first<A>(s: Seq<A>, keep: spec_fn(A) -> bool, i: int)
    requires
        0 <= i < s.len(),
        keep(s[i]),
        forall|j: int| 0 <= j < i ==> !keep(#[trigger] s[j]),
    ensures
        s.filter(keep).len() > 0,
        s.filter(keep)[0] == s[i],
{
    lemma_filter_none(s.take(i), keep);
    lemma_filter_position(s, keep, i);
}

} // verus!
