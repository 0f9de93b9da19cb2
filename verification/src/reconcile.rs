//! What has to change in the calendar so that it mirrors the timetable.
//!
//! The calendar entries that no fetched lesson matches are deleted, and the
//! fetched lessons that no calendar entry matches are added. What is found on
//! both sides is left alone. Lessons are matched by `Lesson::same`, in both
//! directions.

use crate::lesson::{contains_same, has_match, Lesson};
use vstd::prelude::*;

verus! {

/// The lessons of `list` that have no match in `against`, in their order.
pub open spec fn unmatched(list: Seq<Lesson>, against: Seq<Lesson>) -> Seq<Lesson> {
    list.filter(|lesson: Lesson| !has_match(against, lesson))
}

/// What the calendar holds once a plan is carried out: the existing lessons
/// without those that are the same as one to delete, and then those to add.
pub open spec fn carried_out(
    existing: Seq<Lesson>,
    to_delete: Seq<Lesson>,
    to_add: Seq<Lesson>,
) -> Seq<Lesson> {
    existing.filter(|lesson: Lesson| !has_match(to_delete, lesson)) + to_add
}

/// A match for one lesson is a match for every lesson that is the same.
pub proof fn lemma_match_of_same(list: Seq<Lesson>, a: Lesson, b: Lesson)
    requires
        a.same(&b),
    ensures
        has_match(list, a) == has_match(list, b),
{
    if has_match(list, a) {
        let i = choose|i: int| 0 <= i < list.len() && (#[trigger] list[i]).same(&a);
        assert(list[i].same(&b));
    }
    if has_match(list, b) {
        let i = choose|i: int| 0 <= i < list.len() && (#[trigger] list[i]).same(&b);
        assert(list[i].same(&a));
    }
}

/// A lesson has a match among the unmatched of `list` exactly when it has
/// one in `list` and none in `against`.
pub proof fn lemma_match_in_unmatched(list: Seq<Lesson>, against: Seq<Lesson>, lesson: Lesson)
    ensures
        has_match(unmatched(list, against), lesson) <==> has_match(list, lesson) && !has_match(
            against,
            lesson,
        ),
{
    let keep = |l: Lesson| !has_match(against, l);
    let left = unmatched(list, against);
    if has_match(left, lesson) {
        let i = choose|i: int| 0 <= i < left.len() && (#[trigger] left[i]).same(&lesson);
        list.lemma_filter_pred(keep, i);
        assert(left.contains(left[i]));
        list.lemma_filter_contains_rev(keep, left[i]);
        let j = choose|j: int| 0 <= j < list.len() && list[j] == left[i];
        assert(list[j].same(&lesson));
        lemma_match_of_same(against, left[i], lesson);
    }
    if has_match(list, lesson) && !has_match(against, lesson) {
        let j = choose|j: int| 0 <= j < list.len() && (#[trigger] list[j]).same(&lesson);
        lemma_match_of_same(against, list[j], lesson);
        list.lemma_filter_contains(keep, j);
        let i = choose|i: int| 0 <= i < left.len() && left[i] == list[j];
        assert(left[i].same(&lesson));
    }
}

/// Of the lessons on either side, each is of exactly one kind: to add, to
/// delete, or found on both sides and left alone.
pub proof fn lemma_plan_partitions(fetched: Seq<Lesson>, existing: Seq<Lesson>, lesson: Lesson)
    requires
        has_match(fetched, lesson) || has_match(existing, lesson),
    ensures
        ({
            let to_add = has_match(unmatched(fetched, existing), lesson);
            let to_delete = has_match(unmatched(existing, fetched), lesson);
            let unchanged = has_match(fetched, lesson) && has_match(existing, lesson);
            &&& to_add || to_delete || unchanged
            &&& !(to_add && to_delete)
            &&& !(to_add && unchanged)
            &&& !(to_delete && unchanged)
        }),
{
    lemma_match_in_unmatched(fetched, existing, lesson);
    lemma_match_in_unmatched(existing, fetched, lesson);
}

/// A list in which every lesson has a match in `against` has no unmatched
/// lessons.
pub proof fn lemma_all_matched(list: Seq<Lesson>, against: Seq<Lesson>)
    requires
        forall|i: int| 0 <= i < list.len() ==> has_match(against, #[trigger] list[i]),
    ensures
        unmatched(list, against) =~= Seq::<Lesson>::empty(),
{
    let keep = |l: Lesson| !has_match(against, l);
    let left = unmatched(list, against);
    if left.len() > 0 {
        list.lemma_filter_pred(keep, 0);
        assert(left.contains(left[0]));
        list.lemma_filter_contains_rev(keep, left[0]);
        let j = choose|j: int| 0 <= j < list.len() && list[j] == left[0];
        assert(has_match(against, list[j]));
    }
}

/// Once the calendar holds what a plan leaves in it, whatever the order and
/// however often, the next plan for the same timetable is empty.
pub proof fn lemma_settled(fetched: Seq<Lesson>, existing: Seq<Lesson>, after: Seq<Lesson>)
    requires
        forall|lesson: Lesson| #[trigger]
            has_match(after, lesson) <==> (has_match(existing, lesson) && !has_match(
                unmatched(existing, fetched),
                lesson,
            )) || has_match(unmatched(fetched, existing), lesson),
    ensures
        unmatched(after, fetched) =~= Seq::<Lesson>::empty(),
        unmatched(fetched, after) =~= Seq::<Lesson>::empty(),
{
    assert forall|lesson: Lesson| has_match(after, lesson) == has_match(fetched, lesson) by {
        lemma_match_in_unmatched(fetched, existing, lesson);
        lemma_match_in_unmatched(existing, fetched, lesson);
    }
    assert forall|i: int| 0 <= i < after.len() implies has_match(fetched, #[trigger] after[i]) by {
        assert(after[i].same(&after[i]));
        assert(has_match(after, after[i]));
    }
    assert forall|i: int| 0 <= i < fetched.len() implies has_match(
        after,
        #[trigger] fetched[i],
    ) by {
        assert(fetched[i].same(&fetched[i]));
        assert(has_match(fetched, fetched[i]));
    }
    lemma_all_matched(after, fetched);
    lemma_all_matched(fetched, after);
}

/// Reconciling is idempotent: after the deletions and additions of one run,
/// a second run for the same timetable finds nothing to delete and nothing
/// to add.
pub proof fn lemma_second_run_is_empty(fetched: Seq<Lesson>, existing: Seq<Lesson>)
    ensures
        ({
            let to_delete = unmatched(existing, fetched);
            let to_add = unmatched(fetched, existing);
            let after = carried_out(existing, to_delete, to_add);
            &&& unmatched(after, fetched) =~= Seq::<Lesson>::empty()
            &&& unmatched(fetched, after) =~= Seq::<Lesson>::empty()
        }),
{
    let to_delete = unmatched(existing, fetched);
    let to_add = unmatched(fetched, existing);
    let stay = unmatched(existing, to_delete);
    let after = carried_out(existing, to_delete, to_add);
    assert(after == stay + to_add);
    assert forall|lesson: Lesson| #[trigger]
        has_match(after, lesson) <==> (has_match(existing, lesson) && !has_match(to_delete, lesson))
            || has_match(to_add, lesson) by {
        lemma_match_in_unmatched(existing, to_delete, lesson);
        if has_match(after, lesson) {
            let i = choose|i: int| 0 <= i < after.len() && (#[trigger] after[i]).same(&lesson);
            if i < stay.len() {
                assert(stay[i].same(&lesson));
            } else {
                assert(to_add[i - stay.len()].same(&lesson));
            }
        }
        if has_match(stay, lesson) {
            let i = choose|i: int| 0 <= i < stay.len() && (#[trigger] stay[i]).same(&lesson);
            assert(after[i].same(&lesson));
        }
        if has_match(to_add, lesson) {
            let i = choose|i: int| 0 <= i < to_add.len() && (#[trigger] to_add[i]).same(&lesson);
            assert(after[i + stay.len()].same(&lesson));
        }
    }
    lemma_settled(fetched, existing, after);
}

/// Lists that hold the same lessons equally often have a match for the same
/// lessons.
pub proof fn lemma_match_ignores_order(a: Seq<Lesson>, b: Seq<Lesson>, lesson: Lesson)
    requires
        a.to_multiset() == b.to_multiset(),
    ensures
        has_match(a, lesson) == has_match(b, lesson),
{
    broadcast use vstd::seq_lib::to_multiset_contains;

    if has_match(a, lesson) {
        let i = choose|i: int| 0 <= i < a.len() && (#[trigger] a[i]).same(&lesson);
        assert(a.contains(a[i]));
        assert(b.to_multiset().count(a[i]) > 0);
        assert(b.contains(a[i]));
        let j = choose|j: int| 0 <= j < b.len() && b[j] == a[i];
        assert(b[j].same(&lesson));
    }
    if has_match(b, lesson) {
        let i = choose|i: int| 0 <= i < b.len() && (#[trigger] b[i]).same(&lesson);
        assert(b.contains(b[i]));
        assert(a.to_multiset().count(b[i]) > 0);
        assert(a.contains(b[i]));
        let j = choose|j: int| 0 <= j < a.len() && a[j] == b[i];
        assert(a[j].same(&lesson));
    }
}

/// How often a lesson is among the unmatched of `list`: as often as in
/// `list` where it has no match in `against`, and else not at all.
pub proof fn lemma_unmatched_count(list: Seq<Lesson>, against: Seq<Lesson>, lesson: Lesson)
    ensures
        unmatched(list, against).to_multiset().count(lesson) == if has_match(against, lesson) {
            0
        } else {
            list.to_multiset().count(lesson)
        },
    decreases list.len(),
{
    broadcast use vstd::seq_lib::to_multiset_build, vstd::multiset::group_multiset_axioms;

    let keep = |l: Lesson| !has_match(against, l);
    let left = unmatched(list, against);
    if list.len() == 0 {
        assert(left =~= list) by {
            reveal(Seq::filter);
        }
        vstd::seq_lib::to_multiset_len(list);
        if list.to_multiset().count(lesson) > 0 {
            vstd::seq_lib::to_multiset_contains(list, lesson);
        }
    } else {
        let rest = list.drop_last();
        let last = list.last();
        lemma_unmatched_count(rest, against, lesson);
        assert(list =~= rest.push(last));
        rest.lemma_filter_push(last, keep);
        assert(list.to_multiset() =~= rest.to_multiset().insert(last));
        if keep(last) {
            assert(left.to_multiset() =~= unmatched(rest, against).to_multiset().insert(last));
        }
    }
}

/// The plan does not depend on the order of the lessons: what holds the
/// same lessons equally often gives the same deletions and the same
/// additions, each equally often.
pub proof fn lemma_plan_ignores_order(
    fetched: Seq<Lesson>,
    existing: Seq<Lesson>,
    fetched_again: Seq<Lesson>,
    existing_again: Seq<Lesson>,
)
    requires
        fetched.to_multiset() == fetched_again.to_multiset(),
        existing.to_multiset() == existing_again.to_multiset(),
    ensures
        unmatched(existing, fetched).to_multiset() == unmatched(
            existing_again,
            fetched_again,
        ).to_multiset(),
        unmatched(fetched, existing).to_multiset() == unmatched(
            fetched_again,
            existing_again,
        ).to_multiset(),
{
    assert forall|lesson: Lesson|
        unmatched(existing, fetched).to_multiset().count(lesson) == unmatched(
            existing_again,
            fetched_again,
        ).to_multiset().count(lesson) by {
        lemma_unmatched_count(existing, fetched, lesson);
        lemma_unmatched_count(existing_again, fetched_again, lesson);
        lemma_match_ignores_order(fetched, fetched_again, lesson);
    }
    assert forall|lesson: Lesson|
        unmatched(fetched, existing).to_multiset().count(lesson) == unmatched(
            fetched_again,
            existing_again,
        ).to_multiset().count(lesson) by {
        lemma_unmatched_count(fetched, existing, lesson);
        lemma_unmatched_count(fetched_again, existing_again, lesson);
        lemma_match_ignores_order(existing, existing_again, lesson);
    }
    assert(unmatched(existing, fetched).to_multiset() =~= unmatched(
        existing_again,
        fetched_again,
    ).to_multiset());
    assert(unmatched(fetched, existing).to_multiset() =~= unmatched(
        fetched_again,
        existing_again,
    ).to_multiset());
}

/// Copies the lessons of `list` that have no match in `against`.
fn without_match(list: &Vec<Lesson>, against: &Vec<Lesson>) -> (r: Vec<Lesson>)
    ensures
        r@ == unmatched(list@, against@),
{
    let ghost keep = |lesson: Lesson| !has_match(against@, lesson);
    let mut out: Vec<Lesson> = Vec::new();
    let mut i: usize = 0;
    assert(list@.take(0).filter(keep) =~= Seq::<Lesson>::empty()) by {
        reveal(Seq::filter);
    }
    while i < list.len()
        invariant
            i <= list.len(),
            keep == |lesson: Lesson| !has_match(against@, lesson),
            out@ == list@.take(i as int).filter(keep),
        decreases list.len() - i,
    {
        proof {
            list@.lemma_take_succ_push(i as int);
            list@.take(i as int).lemma_filter_push(list@[i as int], keep);
        }
        if !contains_same(against, &list[i]) {
            out.push(list[i].clone());
        }
        i += 1;
    }
    assert(list@.take(i as int) =~= list@);
    out
}

/// Compares the lessons of the timetable with those of the calendar.
///
/// Gives first the calendar's lessons to delete: those that no fetched
/// lesson matches. Gives second the lessons to add: those fetched that no
/// lesson of the calendar matches. Either list keeps the order of its source.
pub fn reconcile(fetched: &Vec<Lesson>, existing: &Vec<Lesson>) -> (r: (Vec<Lesson>, Vec<Lesson>))
    ensures
        r.0@ == unmatched(existing@, fetched@),
        r.1@ == unmatched(fetched@, existing@),
{
    (without_match(existing, fetched), without_match(fetched, existing))
}

} // verus!
