//! The lists of stored templates and generated profiles.
use vstd::prelude::*;
use vstd::seq_lib::to_multiset_contains;

use crate::api::ProfileMetadata;
use crate::order::{
    before, comes_before, lemma_before_asymmetric, lemma_before_total, lemma_before_transitive,
};
use crate::sorting::{
    in_order, law_sorted_in_order, law_sorted_keeps_items, lemma_insert_at, orders, sorted_by,
};
use crate::templates::Template;

verus! {

/// The items that are there.
pub open spec fn present<T>(items: Seq<Option<T>>) -> Seq<T>
    decreases items.len(),
{
    if items.len() == 0 {
        Seq::empty()
    } else {
        match items.last() {
            Some(item) => present(items.drop_last()).push(item),
            None => present(items.drop_last()),
        }
    }
}

/// The items that are there.
fn keep_present<T>(items: Vec<Option<T>>) -> (r: Vec<T>)
    ensures
        r@ == present(items@),
{
    let ghost all = items@;
    let mut out: Vec<T> = Vec::new();
    for item in it: items.into_iter()
        invariant
            it.seq() == all,
            out@ == present(all.take(it.index() as int)),
    {
        proof {
            assert(all.take(it.index() + 1).drop_last() =~= all.take(it.index() as int));
            assert(all.take(it.index() + 1).last() == all[it.index() as int]);
        }
        if let Some(item) = item {
            out.push(item);
        }
    }
    proof {
        assert(all.take(all.len() as int) =~= all);
    }
    out
}

proof fn lemma_present<T>(items: Seq<Option<T>>, x: T)
    requires
        present(items).contains(x),
    ensures
        items.contains(Some(x)),
    decreases items.len(),
{
    if items.len() > 0 {
        let rest = items.drop_last();
        let i = choose|i: int| 0 <= i < present(items).len() && present(items)[i] == x;
        match items.last() {
            Some(item) => {
                if i == present(rest).len() {
                    assert(items[items.len() - 1] == Some(x));
                } else {
                    assert(present(rest)[i] == x);
                    lemma_present(rest, x);
                    let j = choose|j: int| 0 <= j < rest.len() && rest[j] == Some(x);
                    assert(items[j] == Some(x));
                }
            },
            None => {
                lemma_present(rest, x);
                let j = choose|j: int| 0 <= j < rest.len() && rest[j] == Some(x);
                assert(items[j] == Some(x));
            },
        }
    }
}

/// The places at which something was found.
pub open spec fn places<T>(found: Seq<Option<T>>) -> Set<int> {
    Set::new(|i: int| 0 <= i < found.len() && found[i] is Some)
}

/// Whatever was found is there, as often as it was found and in the order of the places; nothing
/// else is.
pub proof fn law_every_found_item_is_present<T>(found: Seq<Option<T>>)
    ensures
        forall|i: int|
            0 <= i < found.len() && (#[trigger] found[i]) is Some ==> present(found).contains(
                found[i]->0,
            ),
        forall|k: int|
            0 <= k < present(found).len() ==> found.contains(Some(#[trigger] present(found)[k])),
        places(found).finite(),
        present(found).len() == places(found).len(),
        present(found) == found.filter_map(|item: Option<T>| item),
    decreases found.len(),
{
    reveal(Seq::filter_map);
    assert forall|k: int| 0 <= k < present(found).len() implies found.contains(
        Some(#[trigger] present(found)[k]),
    ) by {
        assert(present(found).contains(present(found)[k]));
        lemma_present(found, present(found)[k]);
    }
    if found.len() == 0 {
        assert(places(found) =~= Set::empty());
    } else {
        let rest = found.drop_last();
        let last = found.len() - 1;
        law_every_found_item_is_present(rest);
        assert forall|i: int| 0 <= i < found.len() && (
        #[trigger] found[i]) is Some implies present(found).contains(found[i]->0) by {
            if i < last {
                assert(rest[i] == found[i]);
                let x = found[i]->0;
                let k = choose|k: int| 0 <= k < present(rest).len() && present(rest)[k] == x;
                assert(present(found)[k] == x);
            } else {
                assert(present(found)[present(rest).len() as int] == found[last]->0);
            }
        }
        if found[last] is Some {
            assert(places(found) =~= places(rest).insert(last));
            assert(present(found) =~= present(rest) + seq![found[last]->0]);
        } else {
            assert(places(found) =~= places(rest));
        }
    }
}

/// Sorting what was found keeps every item and their number.
proof fn lemma_sorted_holds_every_item<T>(found: Seq<Option<T>>, less: spec_fn(T, T) -> bool)
    ensures
        forall|i: int|
            0 <= i < found.len() && (#[trigger] found[i]) is Some ==> sorted_by(
                present(found),
                less,
            ).contains(found[i]->0),
        sorted_by(present(found), less).len() == places(found).len(),
{
    let all = present(found);
    law_every_found_item_is_present(found);
    law_sorted_keeps_items(all, less);
    assert forall|i: int| 0 <= i < found.len() && (#[trigger] found[i]) is Some implies sorted_by(
        all,
        less,
    ).contains(found[i]->0) by {
        to_multiset_contains(all, found[i]->0);
        to_multiset_contains(sorted_by(all, less), found[i]->0);
    }
}

// ---- templates ----

/// The order of templates: by name.
pub open spec fn by_name() -> spec_fn(Template, Template) -> bool {
    |a: Template, b: Template| before(a.metadata.name@, b.metadata.name@)
}

proof fn lemma_by_name_orders()
    ensures
        orders(by_name()),
{
    let less = by_name();
    assert forall|a: Template, b: Template| #[trigger] less(a, b) implies !less(b, a) by {
        lemma_before_asymmetric(a.metadata.name@, b.metadata.name@);
    }
    assert forall|a: Template, b: Template, c: Template|
        !(#[trigger] less(a, b)) && !(#[trigger] less(b, c)) implies !less(a, c) by {
        let x = a.metadata.name@;
        let y = b.metadata.name@;
        let z = c.metadata.name@;
        lemma_before_total(x, y);
        lemma_before_total(y, z);
        if before(x, z) {
            if before(y, x) {
                lemma_before_transitive(y, x, z);
            }
        }
    }
}

/// The list of the templates that could be loaded, by name; templates of the same name in the
/// order in which they were found.
pub fn load_templates(found: Vec<Option<Template>>) -> (r: Vec<Template>)
    requires
        forall|i: int| 0 <= i < found@.len() ==> (#[trigger] found@[i] matches Some(t) ==> t.wf()),
    ensures
        r@ == sorted_by(present(found@), by_name()),
        forall|i: int| 0 <= i < r@.len() ==> (#[trigger] r@[i]).wf(),
        forall|i: int|
            0 <= i < found@.len() && (#[trigger] found@[i]) is Some ==> r@.contains(found@[i]->0),
        r@.len() == places(found@).len(),
        forall|i: int, j: int|
            0 <= i < j < r@.len() ==> !before(
                (#[trigger] r@[j]).metadata.name@,
                (#[trigger] r@[i]).metadata.name@,
            ),
{
    let ghost entries = found@;
    let mut rest = keep_present(found);
    let ghost all = rest@;
    let ghost less = by_name();
    let mut out: Vec<Template> = Vec::new();
    proof {
        assert(all.take(all.len() as int) =~= all);
        assert(all.skip(all.len() as int) =~= Seq::empty());
    }
    while rest.len() > 0
        invariant
            rest@.len() <= all.len(),
            rest@ == all.take(rest@.len() as int),
            out@ == sorted_by(all.skip(rest@.len() as int), less),
            less == by_name(),
        decreases rest@.len(),
    {
        let ghost n = rest@.len() - 1;
        let t = rest.pop().unwrap();
        let mut k: usize = 0;
        while k < out.len() && comes_before(
            out[k].metadata.name.as_str(),
            t.metadata.name.as_str(),
        )
            invariant
                k <= out@.len(),
                less == by_name(),
                forall|j: int| 0 <= j < k ==> less(#[trigger] out@[j], t),
            decreases out@.len() - k,
        {
            k = k + 1;
        }
        proof {
            assert(t == all[n]);
            assert(rest@ =~= all.take(n));
            assert(all.skip(n)[0] == t);
            assert(all.skip(n).skip(1) =~= all.skip(n + 1));
            lemma_insert_at(out@, t, less, k as int);
        }
        out.insert(k, t);
    }
    proof {
        assert(all.skip(0) =~= all);
        assert forall|i: int| 0 <= i < out@.len() implies (#[trigger] out@[i]).wf() by {
            let t = out@[i];
            assert(out@.contains(t));
            law_sorted_keeps_items(all, less);
            to_multiset_contains(out@, t);
            to_multiset_contains(all, t);
            lemma_present(entries, t);
            let j = choose|j: int| 0 <= j < entries.len() && entries[j] == Some(t);
            assert(entries[j] matches Some(u) ==> u.wf());
        }
        lemma_sorted_holds_every_item(entries, less);
        law_templates_by_name(entries);
    }
    out
}

/// The list of templates is in the order of their names and holds what was found: every template,
/// as many as there are places at which one was found.
pub proof fn law_templates_by_name(found: Seq<Option<Template>>)
    ensures
        forall|i: int|
            0 <= i < found.len() && (#[trigger] found[i]) is Some ==> sorted_by(
                present(found),
                by_name(),
            ).contains(found[i]->0),
        sorted_by(present(found), by_name()).len() == places(found).len(),
        forall|i: int, j: int|
            0 <= i < j < sorted_by(present(found), by_name()).len() ==> !before(
                (#[trigger] sorted_by(present(found), by_name())[j]).metadata.name@,
                (#[trigger] sorted_by(present(found), by_name())[i]).metadata.name@,
            ),
        in_order(sorted_by(present(found), by_name()), by_name()),
        sorted_by(present(found), by_name()).to_multiset() == present(found).to_multiset(),
{
    lemma_by_name_orders();
    lemma_sorted_holds_every_item(found, by_name());
    law_sorted_in_order(present(found), by_name());
    law_sorted_keeps_items(present(found), by_name());
}

// ---- profiles ----

/// The order of profiles: the latest first.
pub open spec fn latest_first() -> spec_fn((String, ProfileMetadata), (String, ProfileMetadata)) -> bool {
    |a: (String, ProfileMetadata), b: (String, ProfileMetadata)|
        a.1.created_at.after(b.1.created_at)
}

/// The list of the profiles whose metadata could be read, the latest first; profiles of the same
/// instant in the order in which they were found.
pub fn load_profiles(found: Vec<Option<(String, ProfileMetadata)>>) -> (r: Vec<
    (String, ProfileMetadata),
>)
    requires
        forall|i: int|
            0 <= i < found@.len() ==> (#[trigger] found@[i] matches Some(p) ==> p.1.variables.wf()),
    ensures
        r@ == sorted_by(present(found@), latest_first()),
        forall|i: int| 0 <= i < r@.len() ==> (#[trigger] r@[i]).1.variables.wf(),
        forall|i: int|
            0 <= i < found@.len() && (#[trigger] found@[i]) is Some ==> r@.contains(found@[i]->0),
        r@.len() == places(found@).len(),
        forall|i: int, j: int|
            0 <= i < j < r@.len() ==> !((#[trigger] r@[j]).1.created_at.after(
                (#[trigger] r@[i]).1.created_at,
            )),
{
    let ghost entries = found@;
    let mut rest = keep_present(found);
    let ghost all = rest@;
    let ghost less = latest_first();
    let mut out: Vec<(String, ProfileMetadata)> = Vec::new();
    proof {
        assert(all.take(all.len() as int) =~= all);
        assert(all.skip(all.len() as int) =~= Seq::empty());
    }
    while rest.len() > 0
        invariant
            rest@.len() <= all.len(),
            rest@ == all.take(rest@.len() as int),
            out@ == sorted_by(all.skip(rest@.len() as int), less),
            less == latest_first(),
        decreases rest@.len(),
    {
        let ghost n = rest@.len() - 1;
        let p = rest.pop().unwrap();
        let mut k: usize = 0;
        while k < out.len() && out[k].1.created_at.is_after(&p.1.created_at)
            invariant
                k <= out@.len(),
                less == latest_first(),
                forall|j: int| 0 <= j < k ==> less(#[trigger] out@[j], p),
            decreases out@.len() - k,
        {
            k = k + 1;
        }
        proof {
            assert(p == all[n]);
            assert(rest@ =~= all.take(n));
            assert(all.skip(n)[0] == p);
            assert(all.skip(n).skip(1) =~= all.skip(n + 1));
            lemma_insert_at(out@, p, less, k as int);
        }
        out.insert(k, p);
    }
    proof {
        assert(all.skip(0) =~= all);
        assert forall|i: int| 0 <= i < out@.len() implies (#[trigger] out@[i]).1.variables.wf() by {
            let p = out@[i];
            assert(out@.contains(p));
            law_sorted_keeps_items(all, less);
            to_multiset_contains(out@, p);
            to_multiset_contains(all, p);
            lemma_present(entries, p);
            let j = choose|j: int| 0 <= j < entries.len() && entries[j] == Some(p);
            assert(entries[j] matches Some(q) ==> q.1.variables.wf());
        }
        lemma_sorted_holds_every_item(entries, less);
        law_profiles_latest_first(entries);
    }
    out
}

/// In the list of profiles none stands before a later one, and the list holds what was found:
/// every profile, as many as there are places at which one was found.
pub proof fn law_profiles_latest_first(found: Seq<Option<(String, ProfileMetadata)>>)
    ensures
        forall|i: int|
            0 <= i < found.len() && (#[trigger] found[i]) is Some ==> sorted_by(
                present(found),
                latest_first(),
            ).contains(found[i]->0),
        sorted_by(present(found), latest_first()).len() == places(found).len(),
        forall|i: int, j: int|
            0 <= i < j < sorted_by(present(found), latest_first()).len() ==> !((
            #[trigger] sorted_by(present(found), latest_first())[j]).1.created_at.after(
                (#[trigger] sorted_by(present(found), latest_first())[i]).1.created_at,
            )),
        in_order(sorted_by(present(found), latest_first()), latest_first()),
        sorted_by(present(found), latest_first()).to_multiset() == present(found).to_multiset(),
{
    let less = latest_first();
    assert(orders(less));
    lemma_sorted_holds_every_item(found, less);
    law_sorted_in_order(present(found), less);
    law_sorted_keeps_items(present(found), less);
}

} // verus!
