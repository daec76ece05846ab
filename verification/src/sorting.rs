//! Sorting that keeps equal items in their order.
use vstd::prelude::*;

verus! {

/// `s` with `t` put before the first item that is not less than `t`.
pub open spec fn insert_by<T>(s: Seq<T>, t: T, less: spec_fn(T, T) -> bool) -> Seq<T>
    decreases s.len(),
{
    if s.len() == 0 || !less(s[0], t) {
        seq![t] + s
    } else {
        seq![s[0]] + insert_by(s.skip(1), t, less)
    }
}

/// The items in the order of `less`, equal items in their old order.
pub open spec fn sorted_by<T>(s: Seq<T>, less: spec_fn(T, T) -> bool) -> Seq<T>
    decreases s.len(),
{
    if s.len() == 0 {
        s
    } else {
        insert_by(sorted_by(s.skip(1), less), s[0], less)
    }
}

/// `less` orders the items by some key.
pub open spec fn orders<T>(less: spec_fn(T, T) -> bool) -> bool {
    &&& forall|a: T, b: T| #[trigger] less(a, b) ==> !less(b, a)
    &&& forall|a: T, b: T, c: T|
        !(#[trigger] less(a, b)) && !(#[trigger] less(b, c)) ==> !less(a, c)
}

/// Inserting at the first place whose item is not less is what `insert_by` says.
pub proof fn lemma_insert_at<T>(s: Seq<T>, t: T, less: spec_fn(T, T) -> bool, k: int)
    requires
        0 <= k <= s.len(),
        forall|j: int| 0 <= j < k ==> less(#[trigger] s[j], t),
        k < s.len() ==> !less(s[k], t),
    ensures
        insert_by(s, t, less) == s.insert(k, t),
    decreases s.len(),
{
    if k == 0 {
        assert(seq![t] + s =~= s.insert(0, t));
    } else {
        assert(less(s[0], t));
        assert forall|j: int| 0 <= j < k - 1 implies less(#[trigger] s.skip(1)[j], t) by {
            assert(s.skip(1)[j] == s[j + 1]);
        }
        lemma_insert_at(s.skip(1), t, less, k - 1);
        assert(seq![s[0]] + s.skip(1).insert(k - 1, t) =~= s.insert(k, t));
    }
}

/// No later item is less than an earlier one.
pub open spec fn in_order<T>(s: Seq<T>, less: spec_fn(T, T) -> bool) -> bool {
    forall|i: int, j: int| 0 <= i < j < s.len() ==> !less(#[trigger] s[j], #[trigger] s[i])
}

proof fn lemma_insert_in_order<T>(s: Seq<T>, t: T, less: spec_fn(T, T) -> bool)
    requires
        orders(less),
        in_order(s, less),
    ensures
        in_order(insert_by(s, t, less), less),
        insert_by(s, t, less).len() == s.len() + 1,
        forall|x: T| #[trigger] insert_by(s, t, less).contains(x) ==> x == t || s.contains(x),
    decreases s.len(),
{
    let r = insert_by(s, t, less);
    if s.len() == 0 || !less(s[0], t) {
        assert forall|i: int, j: int| 0 <= i < j < r.len() implies !less(
            #[trigger] r[j],
            #[trigger] r[i],
        ) by {
            assert(r[j] == s[j - 1]);
            if i == 0 {
                if j > 1 {
                    assert(!less(s[j - 1], s[0]));
                    assert(!less(s[0], t));
                }
            } else {
                assert(r[i] == s[i - 1]);
            }
        }
        assert forall|x: T| #[trigger] r.contains(x) implies x == t || s.contains(x) by {
            let i = choose|i: int| 0 <= i < r.len() && r[i] == x;
            if i > 0 {
                assert(s[i - 1] == x);
            }
        }
    } else {
        let rest = s.skip(1);
        assert forall|i: int, j: int| 0 <= i < j < rest.len() implies !less(
            #[trigger] rest[j],
            #[trigger] rest[i],
        ) by {
            assert(rest[i] == s[i + 1] && rest[j] == s[j + 1]);
        }
        lemma_insert_in_order(rest, t, less);
        let q = insert_by(rest, t, less);
        assert forall|i: int, j: int| 0 <= i < j < r.len() implies !less(
            #[trigger] r[j],
            #[trigger] r[i],
        ) by {
            assert(r[j] == q[j - 1]);
            if i == 0 {
                assert(q.contains(q[j - 1]));
                if q[j - 1] != t {
                    let k = choose|k: int| 0 <= k < rest.len() && rest[k] == q[j - 1];
                    assert(s[k + 1] == q[j - 1]);
                }
            } else {
                assert(r[i] == q[i - 1]);
            }
        }
        assert forall|x: T| #[trigger] r.contains(x) implies x == t || s.contains(x) by {
            let i = choose|i: int| 0 <= i < r.len() && r[i] == x;
            if i == 0 {
                assert(s[0] == x);
            } else {
                assert(q[i - 1] == x);
                assert(q.contains(x));
                if x != t {
                    let k = choose|k: int| 0 <= k < rest.len() && rest[k] == x;
                    assert(s[k + 1] == x);
                }
            }
        }
    }
}

/// Sorting puts the items in order.
pub proof fn law_sorted_in_order<T>(s: Seq<T>, less: spec_fn(T, T) -> bool)
    requires
        orders(less),
    ensures
        in_order(sorted_by(s, less), less),
    decreases s.len(),
{
    if s.len() > 0 {
        law_sorted_in_order(s.skip(1), less);
        lemma_insert_in_order(sorted_by(s.skip(1), less), s[0], less);
    }
}

proof fn lemma_insert_multiset<T>(s: Seq<T>, t: T, less: spec_fn(T, T) -> bool)
    ensures
        insert_by(s, t, less).to_multiset() == s.to_multiset().insert(t),
        insert_by(s, t, less).len() == s.len() + 1,
    decreases s.len(),
{
    broadcast use vstd::seq_lib::group_to_multiset_ensures;

    if s.len() == 0 || !less(s[0], t) {
        assert(seq![t] + s =~= s.insert(0, t));
    } else {
        let rest = s.skip(1);
        lemma_insert_multiset(rest, t, less);
        let q = insert_by(rest, t, less);
        assert(seq![s[0]] + q =~= q.insert(0, s[0]));
        assert(s =~= rest.insert(0, s[0]));
        assert(q.to_multiset().insert(s[0]) =~= rest.to_multiset().insert(s[0]).insert(t));
    }
}

/// Sorting neither loses nor adds an item.
pub proof fn law_sorted_keeps_items<T>(s: Seq<T>, less: spec_fn(T, T) -> bool)
    ensures
        sorted_by(s, less).to_multiset() == s.to_multiset(),
        sorted_by(s, less).len() == s.len(),
    decreases s.len(),
{
    broadcast use vstd::seq_lib::group_to_multiset_ensures;

    if s.len() > 0 {
        law_sorted_keeps_items(s.skip(1), less);
        lemma_insert_multiset(sorted_by(s.skip(1), less), s[0], less);
        assert(s =~= s.skip(1).insert(0, s[0]));
    }
}

/// The items that are equal to `x`, in their order.
pub open spec fn equals_of<T>(s: Seq<T>, x: T, less: spec_fn(T, T) -> bool) -> Seq<T>
    decreases s.len(),
{
    if s.len() == 0 {
        s
    } else if !less(s[0], x) && !less(x, s[0]) {
        seq![s[0]] + equals_of(s.skip(1), x, less)
    } else {
        equals_of(s.skip(1), x, less)
    }
}

proof fn lemma_insert_equals<T>(s: Seq<T>, t: T, x: T, less: spec_fn(T, T) -> bool)
    requires
        orders(less),
    ensures
        equals_of(insert_by(s, t, less), x, less) == equals_of(seq![t] + s, x, less),
    decreases s.len(),
{
    let all = seq![t] + s;
    assert(all.skip(1) =~= s);
    if s.len() > 0 && less(s[0], t) {
        let rest = s.skip(1);
        let r = seq![s[0]] + insert_by(rest, t, less);
        assert(r.skip(1) =~= insert_by(rest, t, less));
        lemma_insert_equals(rest, t, x, less);
        let b = seq![t] + rest;
        assert(b.skip(1) =~= rest);
        // The smaller item and `t` cannot both be equal to `x`.
        if !less(s[0], x) && !less(x, s[0]) && !less(t, x) && !less(x, t) {
            assert(!less(s[0], t));
        }
        let e = equals_of(rest, x, less);
        let es = equals_of(s, x, less);
        assert(equals_of(all, x, less) == if !less(t, x) && !less(x, t) {
            seq![t] + es
        } else {
            es
        });
        assert(equals_of(b, x, less) == if !less(t, x) && !less(x, t) {
            seq![t] + e
        } else {
            e
        });
        assert(r[0] == s[0]);
    }
}

/// Sorting keeps equal items in their order.
pub proof fn law_sorted_is_stable<T>(s: Seq<T>, x: T, less: spec_fn(T, T) -> bool)
    requires
        orders(less),
    ensures
        equals_of(sorted_by(s, less), x, less) == equals_of(s, x, less),
    decreases s.len(),
{
    if s.len() > 0 {
        law_sorted_is_stable(s.skip(1), x, less);
        let rest = sorted_by(s.skip(1), less);
        lemma_insert_equals(rest, s[0], x, less);
        assert((seq![s[0]] + rest).skip(1) =~= rest);
    }
}

} // verus!
