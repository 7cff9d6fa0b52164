use vstd::prelude::*;

verus! {

/// The first index in `from..to` whose element of `s` satisfies `p`, if there is one.
pub open spec fn first_index<A>(s: Seq<A>, p: spec_fn(A) -> bool, from: int, to: int) -> Option<
    int,
>
    decreases to - from,
{
    if from >= to {
        None
    } else if p(s[from]) {
        Some(from)
    } else {
        first_index(s, p, from + 1, to)
    }
}

/// `first_index` finds the least index in range that satisfies the predicate, and
/// finds none exactly when no index in range does.
pub proof fn lemma_first_index<A>(s: Seq<A>, p: spec_fn(A) -> bool, from: int, to: int)
    ensures
        match first_index(s, p, from, to) {
            Some(i) => from <= i < to && p(s[i]) && forall|j: int| from <= j < i ==> !p(#[trigger] s[j]),
            None => forall|j: int| from <= j < to ==> !p(#[trigger] s[j]),
        },
    decreases to - from,
{
    if from < to {
        lemma_first_index(s, p, from + 1, to);
    }
}

/// Two sequences that agree on `from..to` have the same first index there.
pub proof fn lemma_first_index_agree<A>(s: Seq<A>, t: Seq<A>, p: spec_fn(A) -> bool, from: int, to: int)
    requires
        forall|j: int| from <= j < to ==> p(#[trigger] s[j]) == p(t[j]),
    ensures
        first_index(s, p, from, to) == first_index(t, p, from, to),
    decreases to - from,
{
    if from < to {
        lemma_first_index_agree(s, t, p, from + 1, to);
    }
}

/// The last index in `from..to` whose element of `s` satisfies `p`, if there is one.
pub open spec fn last_index<A>(s: Seq<A>, p: spec_fn(A) -> bool, from: int, to: int) -> Option<
    int,
>
    decreases to - from,
{
    if from >= to {
        None
    } else if p(s[to - 1]) {
        Some(to - 1)
    } else {
        last_index(s, p, from, to - 1)
    }
}

/// `last_index` finds the greatest index in range that satisfies the predicate, and
/// finds none exactly when no index in range does.
pub proof fn lemma_last_index<A>(s: Seq<A>, p: spec_fn(A) -> bool, from: int, to: int)
    ensures
        match last_index(s, p, from, to) {
            Some(i) => from <= i < to && p(s[i]) && forall|j: int| i < j < to ==> !p(#[trigger] s[j]),
            None => forall|j: int| from <= j < to ==> !p(#[trigger] s[j]),
        },
    decreases to - from,
{
    if from < to {
        lemma_last_index(s, p, from, to - 1);
    }
}

/// Two sequences that agree on `from..to` have the same last index there.
pub proof fn lemma_last_index_agree<A>(s: Seq<A>, t: Seq<A>, p: spec_fn(A) -> bool, from: int, to: int)
    requires
        forall|j: int| from <= j < to ==> p(#[trigger] s[j]) == p(t[j]),
    ensures
        last_index(s, p, from, to) == last_index(t, p, from, to),
    decreases to - from,
{
    if from < to {
        lemma_last_index_agree(s, t, p, from, to - 1);
    }
}

/// An index in range that satisfies the predicate, after none that does, is the first.
pub proof fn lemma_first_index_unique<A>(s: Seq<A>, p: spec_fn(A) -> bool, from: int, to: int, i: int)
    requires
        from <= i < to,
        p(s[i]),
        forall|j: int| from <= j < i ==> !p(#[trigger] s[j]),
    ensures
        first_index(s, p, from, to) == Some(i),
{
    lemma_first_index(s, p, from, to);
}

/// An index in range that satisfies the predicate, before none that does, is the last.
pub proof fn lemma_last_index_unique<A>(s: Seq<A>, p: spec_fn(A) -> bool, from: int, to: int, i: int)
    requires
        from <= i < to,
        p(s[i]),
        forall|j: int| i < j < to ==> !p(#[trigger] s[j]),
    ensures
        last_index(s, p, from, to) == Some(i),
{
    lemma_last_index(s, p, from, to);
}

} // verus!
