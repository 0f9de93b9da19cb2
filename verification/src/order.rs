//! Lessons in the order of their starts.

use crate::lesson::Lesson;
use vstd::prelude::*;

verus! {

/// No lesson of `list` starts before one that stands earlier in it.
pub open spec fn sorted_by_start(list: Seq<Lesson>) -> bool {
    forall|i: int, j: int|
        0 <= i < j < list.len() ==> (#[trigger] list[i]).start.not_after((#[trigger] list[j]).start)
}

/// How many lessons `list` begins with that do not start after `lesson`.
pub open spec fn place_for(list: Seq<Lesson>, lesson: Lesson) -> int
    decreases list.len(),
{
    if list.len() > 0 && !lesson.start.earlier_than(list[0].start) {
        1 + place_for(list.skip(1), lesson)
    } else {
        0
    }
}

/// The lessons of `list` by start, earliest first. Lessons that start at the
/// same instant keep the order they have in `list`.
pub open spec fn in_start_order(list: Seq<Lesson>) -> Seq<Lesson>
    decreases list.len(),
{
    if list.len() == 0 {
        list
    } else {
        let rest = in_start_order(list.drop_last());
        rest.insert(place_for(rest, list.last()), list.last())
    }
}

/// `place_for` is the first place at which a later start stands.
pub proof fn lemma_place_for(list: Seq<Lesson>, lesson: Lesson, k: int)
    requires
        0 <= k <= list.len(),
        forall|i: int| 0 <= i < k ==> !lesson.start.earlier_than((#[trigger] list[i]).start),
        k < list.len() ==> lesson.start.earlier_than(list[k].start),
    ensures
        place_for(list, lesson) == k,
    decreases k,
{
    if k > 0 {
        assert(!lesson.start.earlier_than(list[0].start));
        assert forall|i: int| 0 <= i < k - 1 implies !lesson.start.earlier_than(
            (#[trigger] list.skip(1)[i]).start,
        ) by {
            assert(!lesson.start.earlier_than(list[i + 1].start));
        }
        lemma_place_for(list.skip(1), lesson, k - 1);
    }
}

/// What stands before `place_for` does not start after the lesson, and what
/// stands at it does.
pub proof fn lemma_place_for_splits(list: Seq<Lesson>, lesson: Lesson)
    ensures
        0 <= place_for(list, lesson) <= list.len(),
        forall|i: int|
            0 <= i < place_for(list, lesson) ==> (#[trigger] list[i]).start.not_after(lesson.start),
        place_for(list, lesson) < list.len() ==> lesson.start.earlier_than(
            list[place_for(list, lesson)].start,
        ),
    decreases list.len(),
{
    if list.len() > 0 && !lesson.start.earlier_than(list[0].start) {
        let rest = list.skip(1);
        lemma_place_for_splits(rest, lesson);
        assert forall|i: int| 0 <= i < place_for(list, lesson) implies (
        #[trigger] list[i]).start.not_after(lesson.start) by {
            if i > 0 {
                assert(rest[i - 1].start.not_after(lesson.start));
            }
        }
        if place_for(list, lesson) < list.len() {
            assert(rest[place_for(rest, lesson)] == list[place_for(list, lesson)]);
        }
    }
}

/// `in_start_order` gives the same lessons, as often as `list` holds them,
/// and gives them sorted.
pub proof fn lemma_in_start_order(list: Seq<Lesson>)
    ensures
        in_start_order(list).len() == list.len(),
        in_start_order(list).to_multiset() == list.to_multiset(),
        sorted_by_start(in_start_order(list)),
    decreases list.len(),
{
    broadcast use vstd::seq_lib::to_multiset_build, vstd::seq_lib::to_multiset_insert;

    if list.len() > 0 {
        let rest = in_start_order(list.drop_last());
        let last = list.last();
        let at = place_for(rest, last);
        let all = rest.insert(at, last);
        lemma_in_start_order(list.drop_last());
        lemma_place_for_splits(rest, last);
        assert(list =~= list.drop_last().push(last));
        assert(all.to_multiset() =~= list.to_multiset());
        assert forall|i: int, j: int| 0 <= i < j < all.len() implies (
        #[trigger] all[i]).start.not_after((#[trigger] all[j]).start) by {
            if j < at {
                assert(rest[i].start.not_after(rest[j].start));
            } else if j == at {
                assert(rest[i].start.not_after(last.start));
            } else if i < at {
                assert(rest[i].start.not_after(rest[j - 1].start));
            } else if i == at {
                assert(rest[at].start.not_after(rest[j - 1].start) || j - 1 == at);
            } else {
                assert(rest[i - 1].start.not_after(rest[j - 1].start));
            }
        }
    }
}

/// Sorts lessons by their start, earliest first, and keeps the order of
/// those that start together.
pub fn sort_by_start(lessons: &Vec<Lesson>) -> (r: Vec<Lesson>)
    ensures
        r@ == in_start_order(lessons@),
        sorted_by_start(r@),
        r@.to_multiset() == lessons@.to_multiset(),
        r@.len() == lessons@.len(),
{
    let mut out: Vec<Lesson> = Vec::new();
    let mut i: usize = 0;
    assert(lessons@.take(0) =~= Seq::<Lesson>::empty());
    while i < lessons.len()
        invariant
            i <= lessons.len(),
            out@ == in_start_order(lessons@.take(i as int)),
        decreases lessons.len() - i,
    {
        let lesson = lessons[i].clone();
        proof {
            lemma_in_start_order(lessons@.take(i as int));
        }
        let mut at: usize = 0;
        while at < out.len() && !lesson.start.is_earlier_than(&out[at].start)
            invariant
                at <= out.len(),
                forall|k: int| 0 <= k < at ==> !lesson.start.earlier_than((#[trigger] out@[k]).start),
            decreases out.len() - at,
        {
            at += 1;
        }
        proof {
            lemma_place_for(out@, lesson, at as int);
            assert(lessons@.take(i + 1).drop_last() =~= lessons@.take(i as int));
        }
        out.insert(at, lesson);
        i += 1;
    }
    proof {
        assert(lessons@.take(i as int) =~= lessons@);
        lemma_in_start_order(lessons@);
    }
    out
}

} // verus!
