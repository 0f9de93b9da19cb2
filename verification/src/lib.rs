//! Keeps a calendar in step with a weekly class timetable.
//!
//! The timetable of one week is read into [`lesson::Lesson`] values, the
//! calendar is asked for what it holds in the days those lessons cover, and
//! the difference between the two is turned into deletions and additions.
//!
//! Two lessons are the same occurrence when they agree in subject, start and
//! end. Room, teacher and the identifier given by the calendar take no part
//! in that comparison.
//!
//! A lesson has a subject and starts before it ends. A class of the timetable
//! or an entry of the calendar of which this does not hold is no lesson: the
//! class is skipped, and the entry is left alone.

pub mod calendar;
pub mod event;
pub mod fragments;
pub mod lesson;
pub mod local_time;
pub mod order;
pub mod queries;
pub mod reconcile;
pub mod sync;
pub mod text;
pub mod timestamp;
pub mod timetable;
pub mod window;
