//! Texts without repetition, in the order in which they first appear.
use crate::json::string_views;
use vstd::prelude::*;

verus! {

/// The distinct elements of `s`, each where it first appears.
pub open spec fn distinct(s: Seq<Seq<char>>) -> Seq<Seq<char>>
    decreases s.len(),
{
    if s.len() == 0 {
        Seq::empty()
    } else {
        let before = distinct(s.drop_last());
        if before.contains(s.last()) {
            before
        } else {
            before.push(s.last())
        }
    }
}

/// `distinct` keeps every element and holds none twice.
pub proof fn law_distinct(s: Seq<Seq<char>>)
    ensures
        forall|x: Seq<char>| distinct(s).contains(x) <==> s.contains(x),
        distinct(s).no_duplicates(),
        distinct(s).len() <= s.len(),
    decreases s.len(),
{
    if s.len() > 0 {
        let shorter = s.drop_last();
        let before = distinct(shorter);
        law_distinct(shorter);
        assert forall|x: Seq<char>| distinct(s).contains(x) <==> s.contains(x) by {
            if shorter.contains(x) {
                let i = choose|i: int| 0 <= i < shorter.len() && shorter[i] == x;
                assert(s[i] == x);
                let k = choose|k: int| 0 <= k < before.len() && before[k] == x;
                assert(distinct(s)[k] == x);
            } else if x == s.last() {
                assert(s[s.len() - 1] == x);
                assert(distinct(s)[before.len() as int] == x);
            } else {
                if s.contains(x) {
                    let i = choose|i: int| 0 <= i < s.len() && s[i] == x;
                    assert(shorter[i] == x);
                }
                if distinct(s).contains(x) {
                    let k = choose|k: int| 0 <= k < distinct(s).len() && distinct(s)[k] == x;
                    assert(before[k] == x);
                }
            }
        }
    }
}

/// `distinct` keeps the order of first appearance: what follows adds elements only behind those
/// that are there already.
pub proof fn law_distinct_keeps_order(s: Seq<Seq<char>>, k: int)
    requires
        0 <= k <= s.len(),
    ensures
        distinct(s.take(k)).len() <= distinct(s).len(),
        distinct(s).take(distinct(s.take(k)).len() as int) == distinct(s.take(k)),
    decreases s.len(),
{
    let first = distinct(s.take(k));
    if k < s.len() {
        let before = distinct(s.drop_last());
        assert(s.drop_last().take(k) == s.take(k));
        law_distinct_keeps_order(s.drop_last(), k);
        assert(distinct(s).take(first.len() as int) == before.take(first.len() as int));
    } else {
        assert(s.take(k) == s);
        assert(distinct(s).take(first.len() as int) == first);
    }
}

/// Whether one of the texts is `x`.
pub fn any_is(texts: &Vec<String>, x: &String) -> (r: bool)
    ensures
        r == string_views(texts@).contains(x@),
{
    let mut i: usize = 0;
    while i < texts.len()
        invariant
            i <= texts@.len(),
            forall|k: int| 0 <= k < i ==> #[trigger] texts@[k]@ != x@,
        decreases texts@.len() - i,
    {
        if texts[i] == *x {
            assert(string_views(texts@)[i as int] == x@);
            return true;
        }
        i += 1;
    }
    false
}

} // verus!
