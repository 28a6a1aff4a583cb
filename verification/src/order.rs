//! The order in which a JSON object lists its members: ascending by name, as
//! `String` orders them.

use vstd::prelude::*;

verus! {

/// `a` comes before `b` in the order of `String`: at the first place where
/// they differ `a` has the smaller scalar value, or `a` is a proper prefix.
pub open spec fn text_lt(a: Seq<char>, b: Seq<char>) -> bool
    decreases a.len(),
{
    if b.len() == 0 {
        false
    } else if a.len() == 0 {
        true
    } else if a[0] != b[0] {
        (a[0] as u32) < (b[0] as u32)
    } else {
        text_lt(a.skip(1), b.skip(1))
    }
}

/// Each text comes before every later one.
pub open spec fn ascending(keys: Seq<Seq<char>>) -> bool {
    forall|i: int, j: int|
        0 <= i < j < keys.len() ==> text_lt(#[trigger] keys[i], #[trigger] keys[j])
}

/// The names of a set in ascending order.
pub open spec fn key_order(names: Set<Seq<char>>) -> Seq<Seq<char>> {
    choose|keys: Seq<Seq<char>>| ascending(keys) && keys.to_set() == names
}

/// No text comes before itself.
pub proof fn lemma_text_lt_irreflexive(a: Seq<char>)
    ensures
        !text_lt(a, a),
    decreases a.len(),
{
    if a.len() > 0 {
        lemma_text_lt_irreflexive(a.skip(1));
    }
}

/// What comes before a text comes before all that the text comes before.
pub proof fn lemma_text_lt_transitive(a: Seq<char>, b: Seq<char>, c: Seq<char>)
    requires
        text_lt(a, b),
        text_lt(b, c),
    ensures
        text_lt(a, c),
    decreases a.len(),
{
    if a.len() > 0 && a[0] == b[0] && b[0] == c[0] {
        lemma_text_lt_transitive(a.skip(1), b.skip(1), c.skip(1));
    }
}

/// An ascending sequence holds no text twice.
pub proof fn lemma_ascending_distinct(keys: Seq<Seq<char>>)
    requires
        ascending(keys),
    ensures
        keys.no_duplicates(),
{
    assert forall|i: int, j: int| 0 <= i < keys.len() && 0 <= j < keys.len() && i != j implies keys[i]
        != keys[j] by {
        lemma_text_lt_irreflexive(keys[i]);
        if i < j {
            assert(text_lt(keys[i], keys[j]));
        } else {
            assert(text_lt(keys[j], keys[i]));
        }
    }
}

/// A set of names has one ascending order.
pub proof fn lemma_ascending_unique(s1: Seq<Seq<char>>, s2: Seq<Seq<char>>)
    requires
        ascending(s1),
        ascending(s2),
        s1.to_set() == s2.to_set(),
    ensures
        s1 == s2,
    decreases s1.len(),
{
    lemma_ascending_distinct(s1);
    lemma_ascending_distinct(s2);
    s1.unique_seq_to_set();
    s2.unique_seq_to_set();
    if s1.len() == 0 {
        assert(s1 =~= s2);
    } else {
        let n = s1.len() as int;
        let top1 = s1[n - 1];
        let top2 = s2[n - 1];
        assert(s1.to_set().contains(top1));
        assert(s2.to_set().contains(top2));
        let k = choose|k: int| 0 <= k < n && s2[k] == top1;
        let j = choose|j: int| 0 <= j < n && s1[j] == top2;
        if k < n - 1 {
            assert(text_lt(s2[k], s2[n - 1]));
            if j < n - 1 {
                assert(text_lt(s1[j], s1[n - 1]));
                lemma_text_lt_transitive(top1, top2, top1);
            }
            lemma_text_lt_irreflexive(top1);
        }
        assert(top1 == top2);
        let r1 = s1.drop_last();
        let r2 = s2.drop_last();
        assert forall|x: Seq<char>| r1.to_set().contains(x) <==> r2.to_set().contains(x) by {
            if r1.to_set().contains(x) {
                let i = choose|i: int| 0 <= i < r1.len() && r1[i] == x;
                assert(s1[i] == x);
                assert(s2.to_set().contains(x));
                let l = choose|l: int| 0 <= l < n && s2[l] == x;
                assert(l != n - 1);
                assert(r2[l] == x);
            }
            if r2.to_set().contains(x) {
                let i = choose|i: int| 0 <= i < r2.len() && r2[i] == x;
                assert(s2[i] == x);
                assert(s1.to_set().contains(x));
                let l = choose|l: int| 0 <= l < n && s1[l] == x;
                assert(l != n - 1);
                assert(r1[l] == x);
            }
        }
        assert(r1.to_set() =~= r2.to_set());
        assert(ascending(r1)) by {
            assert forall|i: int, j: int| 0 <= i < j < r1.len() implies text_lt(
                #[trigger] r1[i],
                #[trigger] r1[j],
            ) by {
                assert(text_lt(s1[i], s1[j]));
            }
        }
        assert(ascending(r2)) by {
            assert forall|i: int, j: int| 0 <= i < j < r2.len() implies text_lt(
                #[trigger] r2[i],
                #[trigger] r2[j],
            ) by {
                assert(text_lt(s2[i], s2[j]));
            }
        }
        lemma_ascending_unique(r1, r2);
        assert(s1 =~= r1.push(top1));
        assert(s2 =~= r2.push(top2));
    }
}

/// An ascending sequence is the order of its own names.
pub proof fn lemma_key_order(keys: Seq<Seq<char>>)
    requires
        ascending(keys),
    ensures
        key_order(keys.to_set()) == keys,
{
    let other = key_order(keys.to_set());
    assert(ascending(other) && other.to_set() == keys.to_set());
    lemma_ascending_unique(other, keys);
}

} // verus!
