//! One scheduled class, and the rule that says when two of them are the same
//! occurrence.

use crate::timestamp::Timestamp;
use vstd::prelude::*;
use vstd::std_specs::cmp::PartialEqSpecImpl;

verus! {

/// One scheduled occurrence of a class.
///
/// `id` is what the calendar calls the entry; a lesson read from the
/// timetable has none. The calendar does not keep `teacher`, so a lesson read
/// back from it has an empty one.
#[derive(Debug)]
pub struct Lesson {
    pub id: Option<String>,
    pub subject: String,
    pub classroom: String,
    pub teacher: String,
    pub start: Timestamp,
    pub end: Timestamp,
}

impl Lesson {
    /// The lesson has a subject, both ends are well-formed timestamps, and
    /// it starts before it ends.
    pub open spec fn wf(&self) -> bool {
        &&& self.subject@.len() > 0
        &&& self.start.wf()
        &&& self.end.wf()
        &&& self.start.earlier_than(self.end)
    }

    /// What identifies an occurrence: the subject and the two instants.
    pub open spec fn key(&self) -> (Seq<char>, (int, int), (int, int)) {
        (self.subject@, self.start.instant(), self.end.instant())
    }

    /// `self` and `other` are the same occurrence.
    pub open spec fn same(&self, other: &Lesson) -> bool {
        self.key() == other.key()
    }
}

impl Lesson {
    /// Tests `wf`.
    pub fn is_valid(&self) -> (r: bool)
        ensures
            r == self.wf(),
    {
        self.subject.as_str().unicode_len() > 0 && self.start.is_valid() && self.end.is_valid()
            && self.start.is_earlier_than(&self.end)
    }
}

impl Clone for Lesson {
    fn clone(&self) -> (r: Self)
        ensures
            r == *self,
    {
        let id = match &self.id {
            Some(id) => Some(id.clone()),
            None => None,
        };
        Lesson {
            id,
            subject: self.subject.clone(),
            classroom: self.classroom.clone(),
            teacher: self.teacher.clone(),
            start: self.start,
            end: self.end,
        }
    }
}

impl PartialEq for Lesson {
    fn eq(&self, other: &Self) -> (r: bool) {
        self.subject == other.subject && self.start.is_same_instant(&other.start)
            && self.end.is_same_instant(&other.end)
    }
}

impl PartialEqSpecImpl for Lesson {
    open spec fn obeys_eq_spec() -> bool {
        true
    }

    open spec fn eq_spec(&self, other: &Self) -> bool {
        self.same(other)
    }
}

/// Every lesson of the list is well formed.
pub open spec fn all_wf(list: Seq<Lesson>) -> bool {
    forall|i: int| 0 <= i < list.len() ==> (#[trigger] list[i]).wf()
}

/// Tests `all_wf`.
pub fn all_valid(list: &Vec<Lesson>) -> (r: bool)
    ensures
        r == all_wf(list@),
{
    let mut i: usize = 0;
    while i < list.len()
        invariant
            i <= list.len(),
            forall|j: int| 0 <= j < i ==> (#[trigger] list@[j]).wf(),
        decreases list.len() - i,
    {
        if !list[i].is_valid() {
            return false;
        }
        i += 1;
    }
    true
}

/// Whether `list` holds an occurrence that is the same as `lesson`.
pub open spec fn has_match(list: Seq<Lesson>, lesson: Lesson) -> bool {
    exists|i: int| 0 <= i < list.len() && (#[trigger] list[i]).same(&lesson)
}

/// Tests `has_match`.
pub fn contains_same(list: &Vec<Lesson>, lesson: &Lesson) -> (r: bool)
    ensures
        r == has_match(list@, *lesson),
{
    let mut i: usize = 0;
    while i < list.len()
        invariant
            i <= list.len(),
            forall|j: int| 0 <= j < i ==> !(#[trigger] list@[j]).same(lesson),
        decreases list.len() - i,
    {
        if list[i] == *lesson {
            return true;
        }
        i += 1;
    }
    false
}

} // verus!
