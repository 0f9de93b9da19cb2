//! The two text fragments that the timetable feed gives for a lesson's time:
//! a day and month such as `15. 3.`, and a clock time such as `08:45`.

use crate::text::{chars_of, fields, number, parse_number, rows, split, trim, trimmed};
use vstd::prelude::*;

verus! {

/// A field that still holds something.
pub open spec fn holds_text(field: Seq<char>) -> bool {
    field.len() > 0
}

/// The fields of a date fragment: what stands between the dots, without the
/// white space around it, and without the fields that this leaves empty.
pub open spec fn date_fields(text: Seq<char>) -> Seq<Seq<char>> {
    fields(text, '.').map_values(|f: Seq<char>| trimmed(f)).filter(|f: Seq<char>| holds_text(f))
}

/// A pair of numbers, where both texts write one.
pub open spec fn number_pair(first: Seq<char>, second: Seq<char>) -> Option<(u32, u32)> {
    match (number(first), number(second)) {
        (Some(a), Some(b)) => Some((a, b)),
        _ => None,
    }
}

/// The day and the month that a date fragment names, in this order: its first
/// two fields, each a number. Further fields are not read.
pub open spec fn day_and_month(text: Seq<char>) -> Option<(u32, u32)> {
    let f = date_fields(text);
    if f.len() >= 2 {
        number_pair(f[0], f[1])
    } else {
        None
    }
}

/// The hour and the minute that a clock time names: the first two fields
/// between colons, each a number. No white space is allowed in them, and
/// further fields are not read.
pub open spec fn hour_and_minute(text: Seq<char>) -> Option<(u32, u32)> {
    let f = fields(text, ':');
    if f.len() >= 2 {
        number_pair(f[0], f[1])
    } else {
        None
    }
}

fn parse_pair(first: &Vec<char>, second: &Vec<char>) -> (r: Option<(u32, u32)>)
    ensures
        r == number_pair(first@, second@),
{
    match parse_number(first) {
        Some(a) => match parse_number(second) {
            Some(b) => Some((a, b)),
            None => None,
        },
        None => None,
    }
}

/// Reads a date fragment.
pub fn parse_day_and_month(text: &str) -> (r: Option<(u32, u32)>)
    ensures
        r == day_and_month(text@),
{
    let pieces = split(&chars_of(text), '.');
    let ghost all = fields(text@, '.');
    let ghost cut = |f: Seq<char>| trimmed(f);
    let ghost keep = |f: Seq<char>| holds_text(f);
    let mut kept: Vec<Vec<char>> = Vec::new();
    let mut i: usize = 0;
    assert(all.take(0) =~= Seq::<Seq<char>>::empty());
    assert(rows(kept@) =~= all.take(0).map_values(cut).filter(keep)) by {
        reveal(Seq::filter);
    }
    while i < pieces.len()
        invariant
            i <= pieces.len(),
            rows(pieces@) == all,
            cut == |f: Seq<char>| trimmed(f),
            keep == |f: Seq<char>| holds_text(f),
            rows(kept@) == all.take(i as int).map_values(cut).filter(keep),
        decreases pieces.len() - i,
    {
        let field = trim(&pieces[i]);
        proof {
            assert(all[i as int] == pieces@[i as int]@);
            all.lemma_take_succ_push(i as int);
            all.take(i as int).lemma_push_map_commute(cut, all[i as int]);
            all.take(i as int).map_values(cut).lemma_filter_push(cut(all[i as int]), keep);
        }
        if field.len() > 0 {
            let ghost before = rows(kept@);
            kept.push(field);
            assert(rows(kept@) =~= before.push(trimmed(all[i as int])));
        }
        i += 1;
    }
    assert(all.take(i as int) =~= all);
    if kept.len() >= 2 {
        assert(rows(kept@)[0] == kept@[0]@ && rows(kept@)[1] == kept@[1]@);
        parse_pair(&kept[0], &kept[1])
    } else {
        None
    }
}

/// Reads a clock time.
pub fn parse_hour_and_minute(text: &str) -> (r: Option<(u32, u32)>)
    ensures
        r == hour_and_minute(text@),
{
    let pieces = split(&chars_of(text), ':');
    if pieces.len() >= 2 {
        assert(rows(pieces@)[0] == pieces@[0]@ && rows(pieces@)[1] == pieces@[1]@);
        parse_pair(&pieces[0], &pieces[1])
    } else {
        None
    }
}

} // verus!
