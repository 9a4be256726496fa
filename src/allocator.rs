//! Choosing the next project number for a year and region, and checking that a
//! number is still free, against the numbers the store already holds.

use vstd::prelude::*;
use crate::calendar::{today, two_digit_year, year_suffix, EARLIEST_YEAR, LATEST_YEAR};
use crate::codec::{
    country_of, increment_sequence, is_number_text, is_valid_sequence, seq_of, valid_sequence,
    year_of, ParseError, ProjectNumber, MAX_SEQUENCE,
};

verus! {

/// Why no number could be allocated.
#[derive(Debug, Clone, Copy, PartialEq, Eq, Structural)]
pub enum AllocationError {
    /// All sequences 1 to 99 of the year and region are used.
    SequenceExhausted,
}

/// `n` is a number of the given year and region with a valid sequence.
pub open spec fn counts_for(n: ProjectNumber, year: int, country: int) -> bool {
    n.year == year && n.country == country && valid_sequence(n.seq as int)
}

/// The largest valid sequence used in the year and region, 0 when none is.
pub open spec fn max_sequence(ns: Seq<ProjectNumber>, year: int, country: int) -> int
    decreases ns.len(),
{
    if ns.len() == 0 {
        0
    } else {
        let rest = max_sequence(ns.drop_last(), year, country);
        let n = ns.last();
        if counts_for(n, year, country) && n.seq > rest {
            n.seq as int
        } else {
            rest
        }
    }
}

/// The sequence to allocate next: one past the largest used, unless that passes 99.
pub open spec fn next_sequence_of(ns: Seq<ProjectNumber>, year: int, country: int) -> Option<int> {
    let m = max_sequence(ns, year, country);
    if m < MAX_SEQUENCE {
        Some(m + 1)
    } else {
        None
    }
}

/// Some number of `ns` has the triple `(year, country, seq)`.
pub open spec fn number_taken(ns: Seq<ProjectNumber>, year: int, country: int, seq: int) -> bool {
    exists|i: int| 0 <= i < ns.len() && #[trigger] ns[i].year == year && ns[i].country == country && ns[i].seq == seq
}

proof fn lemma_max_sequence_bounds(ns: Seq<ProjectNumber>, year: int, country: int)
    ensures
        0 <= max_sequence(ns, year, country) <= MAX_SEQUENCE,
        forall|i: int|
            0 <= i < ns.len() && counts_for(#[trigger] ns[i], year, country) ==> ns[i].seq <= max_sequence(
                ns,
                year,
                country,
            ),
    decreases ns.len(),
{
    if ns.len() > 0 {
        let rest = ns.drop_last();
        lemma_max_sequence_bounds(rest, year, country);
        assert forall|i: int|
            0 <= i < ns.len() && counts_for(#[trigger] ns[i], year, country) implies ns[i].seq
            <= max_sequence(ns, year, country) by {
            if i < ns.len() - 1 {
                assert(ns[i] == rest[i]);
            }
        }
    }
}

/// An allocated sequence is free: no number of the store has the allocated triple.
pub proof fn lemma_allocation_is_fresh(ns: Seq<ProjectNumber>, year: int, country: int)
    requires
        next_sequence_of(ns, year, country).is_some(),
    ensures
        !number_taken(ns, year, country, next_sequence_of(ns, year, country).unwrap()),
        valid_sequence(next_sequence_of(ns, year, country).unwrap()),
{
    lemma_max_sequence_bounds(ns, year, country);
    let s = next_sequence_of(ns, year, country).unwrap();
    assert forall|i: int| 0 <= i < ns.len() implies !(#[trigger] ns[i].year == year && ns[i].country
        == country && ns[i].seq == s) by {
        if ns[i].year == year && ns[i].country == country && ns[i].seq == s {
            assert(counts_for(ns[i], year, country));
        }
    }
}

/// The largest valid sequence that `existing` uses in the year and region.
pub fn max_used_sequence(existing: &Vec<ProjectNumber>, year: u32, country: u32) -> (r: u32)
    ensures
        r == max_sequence(existing@, year as int, country as int),
{
    let mut best: u32 = 0;
    let mut i: usize = 0;
    while i < existing.len()
        invariant
            i <= existing@.len(),
            best == max_sequence(existing@.subrange(0, i as int), year as int, country as int),
        decreases existing.len() - i,
    {
        let n = &existing[i];
        assert(existing@.subrange(0, i + 1).drop_last() =~= existing@.subrange(0, i as int));
        if n.year == year && n.country == country && is_valid_sequence(n.seq) && n.seq > best {
            best = n.seq;
        }
        i = i + 1;
    }
    assert(existing@.subrange(0, existing@.len() as int) =~= existing@);
    best
}

/// The sequence to allocate next in the year and region.
pub fn next_sequence(existing: &Vec<ProjectNumber>, year: u32, country: u32) -> (r: Result<
    u32,
    AllocationError,
>)
    ensures
        match next_sequence_of(existing@, year as int, country as int) {
            Some(s) => r == Ok::<u32, AllocationError>(s as u32),
            None => r == Err::<u32, AllocationError>(AllocationError::SequenceExhausted),
        },
{
    proof {
        lemma_max_sequence_bounds(existing@, year as int, country as int);
    }
    let m = max_used_sequence(existing, year, country);
    match increment_sequence(m) {
        Some(s) => Ok(s),
        None => Err(AllocationError::SequenceExhausted),
    }
}

/// The next number of the year and region: one past the largest sequence the store
/// holds for them, 1 when it holds none, `SequenceExhausted` past 99.
pub fn allocate_in_year(country: u32, year: u32, existing: &Vec<ProjectNumber>) -> (r: Result<
    ProjectNumber,
    AllocationError,
>)
    requires
        country <= 999,
        year <= 99,
    ensures
        match next_sequence_of(existing@, year as int, country as int) {
            Some(s) => r matches Ok(n) && n.wf() && n.year == year && n.country == country && n.seq
                == s && !number_taken(existing@, year as int, country as int, s),
            None => r == Err::<ProjectNumber, AllocationError>(AllocationError::SequenceExhausted),
        },
{
    match next_sequence(existing, year, country) {
        Ok(s) => {
            proof {
                lemma_allocation_is_fresh(existing@, year as int, country as int);
            }
            Ok(ProjectNumber::new(year, country, s))
        },
        Err(e) => Err(e),
    }
}

/// `r` is what allocating in `year` and the region owes: the next number, or
/// `SequenceExhausted` when there is none.
pub open spec fn allocation_outcome(
    r: Result<ProjectNumber, AllocationError>,
    ns: Seq<ProjectNumber>,
    year: int,
    country: int,
) -> bool {
    match next_sequence_of(ns, year, country) {
        Some(s) => r matches Ok(n) && n.wf() && n.year == year && n.country == country && n.seq == s,
        None => r == Err::<ProjectNumber, AllocationError>(AllocationError::SequenceExhausted),
    }
}

/// The next number for the region, in `year` or, when none is given, in the
/// current year (its last two digits, from whatever year the clock gives).
pub fn allocate(country: u32, year: Option<u32>, existing: &Vec<ProjectNumber>) -> (r: Result<
    ProjectNumber,
    AllocationError,
>)
    requires
        country <= 999,
        year matches Some(y) ==> y <= 99,
    ensures
        year matches Some(y) ==> allocation_outcome(r, existing@, y as int, country as int),
        year is None ==> exists|y: int|
            EARLIEST_YEAR <= y <= LATEST_YEAR && allocation_outcome(
                r,
                existing@,
                #[trigger] year_suffix(y),
                country as int,
            ),
{
    match year {
        Some(y) => allocate_in_year(country, y, existing),
        None => {
            let d = today();
            let y = two_digit_year(d.year);
            let r = allocate_in_year(country, y, existing);
            assert(allocation_outcome(r, existing@, year_suffix(d.year as int), country as int));
            r
        },
    }
}

/// Whether the number written in `formatted` is still free in `existing`;
/// `MalformedNumber` when the text is not `YY-CCCNN`.
pub fn validate_unique(formatted: &str, existing: &Vec<ProjectNumber>) -> (r: Result<
    bool,
    ParseError,
>)
    ensures
        match r {
            Ok(free) => is_number_text(formatted@) && free == !number_taken(
                existing@,
                year_of(formatted@),
                country_of(formatted@),
                seq_of(formatted@),
            ),
            Err(e) => !is_number_text(formatted@) && e == ParseError::MalformedNumber,
        },
{
    let parsed = ProjectNumber::parse(formatted);
    let n = match parsed {
        Ok(n) => n,
        Err(e) => {
            return Err(e);
        },
    };
    assert(n.year == year_of(formatted@) && n.country == country_of(formatted@) && n.seq == seq_of(
        formatted@,
    ));
    let mut i: usize = 0;
    while i < existing.len()
        invariant
            i <= existing@.len(),
            n.year == year_of(formatted@),
            n.country == country_of(formatted@),
            n.seq == seq_of(formatted@),
            is_number_text(formatted@),
            forall|k: int|
                0 <= k < i ==> !(#[trigger] existing@[k].year == n.year && existing@[k].country
                    == n.country && existing@[k].seq == n.seq),
        decreases existing.len() - i,
    {
        let e = &existing[i];
        if e.year == n.year && e.country == n.country && e.seq == n.seq {
            assert(existing@[i as int].year == year_of(formatted@));
            return Ok(false);
        }
        i = i + 1;
    }
    Ok(true)
}

} // verus!
