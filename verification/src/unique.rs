//! Sequences without repetition, in order of first occurrence.

use vstd::prelude::*;

verus! {

/// The elements of `s`, each once, in the order in which they first occur.
pub open spec fn distinct<T>(s: Seq<T>) -> Seq<T>
    decreases s.len(),
{
    if s.len() == 0 {
        Seq::empty()
    } else {
        let before = distinct(s.drop_last());
        if before.contains(s.last()) {
            before
        } else {
            before.push(s.last())
        }
    }
}

/// `distinct` holds exactly the elements of the sequence it was made from.
pub proof fn lemma_distinct_contains<T>(s: Seq<T>, x: T)
    ensures
        distinct(s).contains(x) <==> s.contains(x),
    decreases s.len(),
{
    if s.len() > 0 {
        let rest = s.drop_last();
        let last = s.last();
        lemma_distinct_contains(rest, x);
        lemma_distinct_contains(rest, last);
        let before = distinct(rest);
        assert(s =~= rest.push(last));
        assert(s.contains(x) <==> rest.contains(x) || last == x) by {
            if rest.contains(x) {
                let i = rest.index_of(x);
                assert(s[i] == x);
            }
            if last == x {
                assert(s[s.len() - 1] == x);
            }
            if s.contains(x) && last != x {
                let i = s.index_of(x);
                assert(rest[i] == x);
            }
        }
        if !before.contains(last) {
            let after = before.push(last);
            assert(after.contains(x) <==> before.contains(x) || last == x) by {
                if before.contains(x) {
                    let i = before.index_of(x);
                    assert(after[i] == x);
                }
                if last == x {
                    assert(after[after.len() - 1] == x);
                }
                if after.contains(x) && last != x {
                    let i = after.index_of(x);
                    assert(before[i] == x);
                }
            }
        }
    }
}

/// No element occurs twice in `distinct`.
pub proof fn lemma_distinct_no_duplicates<T>(s: Seq<T>)
    ensures
        distinct(s).no_duplicates(),
    decreases s.len(),
{
    if s.len() > 0 {
        lemma_distinct_no_duplicates(s.drop_last());
    }
}

/// `distinct` of a sequence with one more element: the element is added at
/// the end unless it was there already.
pub proof fn lemma_distinct_push<T>(s: Seq<T>, x: T)
    ensures
        distinct(s.push(x)) == if distinct(s).contains(x) {
            distinct(s)
        } else {
            distinct(s).push(x)
        },
{
    assert(s.push(x).drop_last() =~= s);
}

/// A sequence without repetition stays so when an element that it does not
/// hold is added at its end.
pub proof fn lemma_push_new<T>(s: Seq<T>, x: T)
    requires
        s.no_duplicates(),
        !s.contains(x),
    ensures
        s.push(x).no_duplicates(),
{
    let after = s.push(x);
    assert forall|i: int, j: int|
        0 <= i < after.len() && 0 <= j < after.len() && i != j implies after[i] != after[j] by {
        if i < s.len() && j < s.len() {
            assert(s[i] != s[j]);
        } else if i < s.len() {
            assert(s.contains(s[i]));
        } else {
            assert(s.contains(s[j]));
        }
    }
}

} // verus!
