//! Sums and collections that do not depend on the order of a sequence.

use vstd::multiset::Multiset;
use vstd::prelude::*;
use vstd::seq_lib::group_to_multiset_ensures;

verus! {

/// The sum of `weight` over the elements of `s`.
pub open spec fn tally<A>(s: Seq<A>, weight: spec_fn(A) -> nat) -> nat
    decreases s.len(),
{
    if s.len() == 0 {
        0
    } else {
        tally(s.drop_last(), weight) + weight(s.last())
    }
}

/// What `part` gives for the elements of `s`, all taken together.
pub open spec fn gather<A, B>(s: Seq<A>, part: spec_fn(A) -> Multiset<B>) -> Multiset<B>
    decreases s.len(),
{
    if s.len() == 0 {
        Multiset::empty()
    } else {
        gather(s.drop_last(), part).add(part(s.last()))
    }
}

/// Taking one element out lowers the sum by that element's weight.
pub proof fn lemma_tally_remove<A>(s: Seq<A>, weight: spec_fn(A) -> nat, i: int)
    requires
        0 <= i < s.len(),
    ensures
        tally(s, weight) == tally(s.remove(i), weight) + weight(s[i]),
    decreases s.len(),
{
    if i == s.len() - 1 {
        assert(s.remove(i) == s.drop_last());
    } else {
        lemma_tally_remove(s.drop_last(), weight, i);
        assert(s.remove(i).drop_last() == s.drop_last().remove(i));
        assert(s.remove(i).last() == s.last());
    }
}

/// Taking one element out takes its part out of what is gathered.
pub proof fn lemma_gather_remove<A, B>(s: Seq<A>, part: spec_fn(A) -> Multiset<B>, i: int)
    requires
        0 <= i < s.len(),
    ensures
        gather(s, part) == gather(s.remove(i), part).add(part(s[i])),
    decreases s.len(),
{
    if i == s.len() - 1 {
        assert(s.remove(i) == s.drop_last());
    } else {
        lemma_gather_remove(s.drop_last(), part, i);
        assert(s.remove(i).drop_last() == s.drop_last().remove(i));
        assert(s.remove(i).last() == s.last());
        assert(gather(s, part) =~= gather(s.remove(i), part).add(part(s[i])));
    }
}

/// Two sequences with the same elements, in whatever order, have the same
/// sum.
pub proof fn lemma_tally_any_order<A>(s: Seq<A>, t: Seq<A>, weight: spec_fn(A) -> nat)
    requires
        s.to_multiset() == t.to_multiset(),
    ensures
        tally(s, weight) == tally(t, weight),
    decreases s.len(),
{
    broadcast use group_to_multiset_ensures;

    s.to_multiset_ensures();
    t.to_multiset_ensures();
    if s.len() == 0 {
        assert(t.to_multiset().len() == s.to_multiset().len());
    } else {
        let x = s.last();
        assert(s.contains(x));
        assert(s.to_multiset().count(x) > 0);
        assert(t.to_multiset().count(x) > 0);
        assert(t.contains(x));
        let i = choose|i: int| 0 <= i < t.len() && t[i] == x;
        assert(s.remove(s.len() - 1) == s.drop_last());
        assert(s.drop_last().to_multiset() == t.remove(i).to_multiset());
        lemma_tally_any_order(s.drop_last(), t.remove(i), weight);
        lemma_tally_remove(t, weight, i);
    }
}

/// Two sequences with the same elements, in whatever order, gather the
/// same.
pub proof fn lemma_gather_any_order<A, B>(s: Seq<A>, t: Seq<A>, part: spec_fn(A) -> Multiset<B>)
    requires
        s.to_multiset() == t.to_multiset(),
    ensures
        gather(s, part) == gather(t, part),
    decreases s.len(),
{
    broadcast use group_to_multiset_ensures;

    s.to_multiset_ensures();
    t.to_multiset_ensures();
    if s.len() == 0 {
        assert(t.to_multiset().len() == s.to_multiset().len());
    } else {
        let x = s.last();
        assert(s.contains(x));
        assert(s.to_multiset().count(x) > 0);
        assert(t.to_multiset().count(x) > 0);
        assert(t.contains(x));
        let i = choose|i: int| 0 <= i < t.len() && t[i] == x;
        assert(s.remove(s.len() - 1) == s.drop_last());
        assert(s.drop_last().to_multiset() == t.remove(i).to_multiset());
        lemma_gather_any_order(s.drop_last(), t.remove(i), part);
        lemma_gather_remove(t, part, i);
    }
}

/// The elements of the image of `s` under `f` are what the single images
/// gather to.
pub proof fn lemma_image_is_gathered<A, B>(s: Seq<A>, f: spec_fn(A) -> B)
    ensures
        Seq::new(s.len(), |i: int| f(s[i])).to_multiset() == gather(
            s,
            |a: A| Multiset::singleton(f(a)),
        ),
    decreases s.len(),
{
    broadcast use group_to_multiset_ensures;

    let image = Seq::new(s.len(), |i: int| f(s[i]));
    let part = |a: A| Multiset::singleton(f(a));
    if s.len() == 0 {
        assert(image.to_multiset() =~= Multiset::<B>::empty());
    } else {
        let shorter = s.drop_last();
        lemma_image_is_gathered(shorter, f);
        let shorter_image = Seq::new(shorter.len(), |i: int| f(shorter[i]));
        assert(image == shorter_image.push(f(s.last())));
        assert(image.to_multiset() =~= gather(shorter, part).add(part(s.last())));
    }
}

/// Two sequences with the same elements, in whatever order, have images
/// with the same elements.
pub proof fn lemma_image_any_order<A, B>(s: Seq<A>, t: Seq<A>, f: spec_fn(A) -> B)
    requires
        s.to_multiset() == t.to_multiset(),
    ensures
        Seq::new(s.len(), |i: int| f(s[i])).to_multiset() == Seq::new(
            t.len(),
            |i: int| f(t[i]),
        ).to_multiset(),
{
    lemma_image_is_gathered(s, f);
    lemma_image_is_gathered(t, f);
    lemma_gather_any_order(s, t, |a: A| Multiset::singleton(f(a)));
}

} // verus!
