//! The structured project number `YY-CCCNN` and the normalisation of record
//! identifiers that may arrive wrapped in brackets or carrying a table prefix.

use vstd::prelude::*;
use crate::text::{
    digit_char, digit_of, digit_value, is_digit, lemma_digit_round_trip, lemma_value_round_trip,
    matches_at, occurs_at, push_three_digits, push_two_digits, slice_owned, three_digits,
    two_digits,
};

verus! {

/// A project number: two-digit year, three-digit region (dial) code and a
/// two-digit sequence, with its canonical text `YY-CCCNN` kept alongside.
#[derive(Debug, Clone)]
pub struct ProjectNumber {
    pub year: u32,
    pub country: u32,
    pub seq: u32,
    pub id: String,
}

/// Why a project number text was refused.
#[derive(Debug, Clone, Copy, PartialEq, Eq, Structural)]
pub enum ParseError {
    MalformedNumber,
}

/// The canonical text of a number: `YY-CCCNN`.
pub open spec fn number_text(year: int, country: int, seq: int) -> Seq<char> {
    two_digits(year) + seq!['-'] + three_digits(country) + two_digits(seq)
}

/// `t` has the shape `DD-DDDDD`: two digits, one dash, five digits.
pub open spec fn is_number_text(t: Seq<char>) -> bool {
    &&& t.len() == 8
    &&& is_digit(t[0])
    &&& is_digit(t[1])
    &&& t[2] == '-'
    &&& forall|i: int| 3 <= i < 8 ==> #[trigger] is_digit(t[i])
}

pub open spec fn year_of(t: Seq<char>) -> int {
    10 * digit_value(t[0]) + digit_value(t[1])
}

pub open spec fn country_of(t: Seq<char>) -> int {
    100 * digit_value(t[3]) + 10 * digit_value(t[4]) + digit_value(t[5])
}

pub open spec fn seq_of(t: Seq<char>) -> int {
    10 * digit_value(t[6]) + digit_value(t[7])
}

impl ProjectNumber {
    /// The fields are in range and `id` is their canonical text.
    pub open spec fn wf(&self) -> bool {
        &&& self.year <= 99
        &&& self.country <= 999
        &&& self.seq <= 99
        &&& self.id@ == number_text(self.year as int, self.country as int, self.seq as int)
    }

    /// Builds the number and its canonical text.
    pub fn new(year: u32, country: u32, seq: u32) -> (r: ProjectNumber)
        requires
            year <= 99,
            country <= 999,
            seq <= 99,
        ensures
            r.wf(),
            r.year == year,
            r.country == country,
            r.seq == seq,
    {
        let id = format_number(year, country, seq);
        ProjectNumber { year, country, seq, id }
    }

    /// Reads `YY-CCCNN`; anything else is `MalformedNumber`.
    pub fn parse(id: &str) -> (r: Result<ProjectNumber, ParseError>)
        ensures
            match r {
                Ok(n) => {
                    &&& is_number_text(id@)
                    &&& n.wf()
                    &&& n.id@ == id@
                    &&& n.year == year_of(id@)
                    &&& n.country == country_of(id@)
                    &&& n.seq == seq_of(id@)
                },
                Err(e) => !is_number_text(id@) && e == ParseError::MalformedNumber,
            },
    {
        let len = id.unicode_len();
        if len != 8 {
            return Err(ParseError::MalformedNumber);
        }
        let mut digits: Vec<u32> = Vec::new();
        let mut i: usize = 0;
        while i < 8
            invariant
                len == id@.len(),
                len == 8,
                i <= 8,
                digits@.len() == i,
                forall|k: int| 0 <= k < i && k != 2 ==> is_digit(#[trigger] id@[k]),
                forall|k: int| 0 <= k < i && k != 2 ==> #[trigger] digits@[k] == digit_value(id@[k]),
                i > 2 ==> id@[2] == '-',
            decreases 8 - i,
        {
            let c = id.get_char(i);
            let ghost before = digits@;
            if i == 2 {
                if c != '-' {
                    return Err(ParseError::MalformedNumber);
                }
                digits.push(0);
            } else {
                match digit_of(c) {
                    Some(v) => digits.push(v),
                    None => {
                        return Err(ParseError::MalformedNumber);
                    },
                }
            }
            assert(forall|k: int| 0 <= k < i ==> digits@[k] == before[k]);
            i = i + 1;
        }
        let ghost t = id@;
        assert(is_number_text(t)) by {
            assert forall|k: int| 3 <= k < 8 implies #[trigger] is_digit(t[k]) by {
                assert(k != 2);
            }
        }
        proof {
            assert(0 != 2 && 1 != 2 && 3 != 2 && 4 != 2 && 5 != 2 && 6 != 2 && 7 != 2);
            assert(is_digit(t[0]) && digits@[0] == digit_value(t[0]));
            assert(is_digit(t[1]) && digits@[1] == digit_value(t[1]));
            assert(is_digit(t[3]) && digits@[3] == digit_value(t[3]));
            assert(is_digit(t[4]) && digits@[4] == digit_value(t[4]));
            assert(is_digit(t[5]) && digits@[5] == digit_value(t[5]));
            assert(is_digit(t[6]) && digits@[6] == digit_value(t[6]));
            assert(is_digit(t[7]) && digits@[7] == digit_value(t[7]));
            lemma_value_round_trip(t[0]);
            lemma_value_round_trip(t[1]);
            lemma_value_round_trip(t[3]);
            lemma_value_round_trip(t[4]);
            lemma_value_round_trip(t[5]);
            lemma_value_round_trip(t[6]);
            lemma_value_round_trip(t[7]);
        }
        let year = 10 * digits[0] + digits[1];
        let country = 100 * digits[3] + 10 * digits[4] + digits[5];
        let seq = 10 * digits[6] + digits[7];
        let n = ProjectNumber::new(year, country, seq);
        proof {
            lemma_text_of_parts(t);
        }
        Ok(n)
    }
}

/// A well-formed text is the canonical text of the parts read from it.
proof fn lemma_text_of_parts(t: Seq<char>)
    requires
        is_number_text(t),
    ensures
        number_text(year_of(t), country_of(t), seq_of(t)) == t,
        0 <= year_of(t) <= 99,
        0 <= country_of(t) <= 999,
        0 <= seq_of(t) <= 99,
{
    assert(is_digit(t[3]) && is_digit(t[4]) && is_digit(t[5]) && is_digit(t[6]) && is_digit(t[7]));
    lemma_value_round_trip(t[0]);
    lemma_value_round_trip(t[1]);
    lemma_value_round_trip(t[3]);
    lemma_value_round_trip(t[4]);
    lemma_value_round_trip(t[5]);
    lemma_value_round_trip(t[6]);
    lemma_value_round_trip(t[7]);
    let (d0, d1, d3, d4, d5, d6, d7) = (
        digit_value(t[0]),
        digit_value(t[1]),
        digit_value(t[3]),
        digit_value(t[4]),
        digit_value(t[5]),
        digit_value(t[6]),
        digit_value(t[7]),
    );
    let y = year_of(t);
    let c = country_of(t);
    let s = seq_of(t);
    assert(y / 10 == d0 && y % 10 == d1) by (nonlinear_arith)
        requires
            y == 10 * d0 + d1,
            0 <= d0 < 10,
            0 <= d1 < 10,
    ;
    assert(s / 10 == d6 && s % 10 == d7) by (nonlinear_arith)
        requires
            s == 10 * d6 + d7,
            0 <= d6 < 10,
            0 <= d7 < 10,
    ;
    assert(c / 100 == d3 && (c / 10) % 10 == d4 && c % 10 == d5) by (nonlinear_arith)
        requires
            c == 100 * d3 + 10 * d4 + d5,
            0 <= d3 < 10,
            0 <= d4 < 10,
            0 <= d5 < 10,
    ;
    assert(number_text(y, c, s) =~= t);
}

/// Writes `YY-CCCNN`, each part zero-padded to its width.
pub fn format_number(year: u32, country: u32, seq: u32) -> (r: String)
    requires
        year <= 99,
        country <= 999,
        seq <= 99,
    ensures
        r@ == number_text(year as int, country as int, seq as int),
{
    let mut s = String::new();
    push_two_digits(&mut s, year);
    proof { reveal_strlit("-"); }
    s.append("-");
    push_three_digits(&mut s, country);
    push_two_digits(&mut s, seq);
    assert(s@ =~= number_text(year as int, country as int, seq as int));
    s
}

/// Formatting and then parsing gives back the three parts: the canonical text of
/// in-range parts is well formed and reads back as those parts.
pub proof fn lemma_number_round_trip(year: int, country: int, seq: int)
    requires
        0 <= year <= 99,
        0 <= country <= 999,
        0 <= seq <= 99,
    ensures
        is_number_text(number_text(year, country, seq)),
        year_of(number_text(year, country, seq)) == year,
        country_of(number_text(year, country, seq)) == country,
        seq_of(number_text(year, country, seq)) == seq,
{
    let t = number_text(year, country, seq);
    lemma_digit_round_trip(year / 10);
    lemma_digit_round_trip(year % 10);
    lemma_digit_round_trip(country / 100);
    lemma_digit_round_trip((country / 10) % 10);
    lemma_digit_round_trip(country % 10);
    lemma_digit_round_trip(seq / 10);
    lemma_digit_round_trip(seq % 10);
    assert(t[0] == digit_char(year / 10));
    assert(t[1] == digit_char(year % 10));
    assert(t[2] == '-');
    assert(t[3] == digit_char(country / 100));
    assert(t[4] == digit_char((country / 10) % 10));
    assert(t[5] == digit_char(country % 10));
    assert(t[6] == digit_char(seq / 10));
    assert(t[7] == digit_char(seq % 10));
    assert forall|i: int| 3 <= i < 8 implies #[trigger] is_digit(t[i]) by {
        if i == 3 {
        } else if i == 4 {
        } else if i == 5 {
        } else if i == 6 {
        } else {
        }
    }
}

/// Opening delimiter of a wrapped record identifier.
pub const OPEN_BRACKET: char = '\u{27e8}';

/// Closing delimiter of a wrapped record identifier.
pub const CLOSE_BRACKET: char = '\u{27e9}';

/// Length of the table prefix (`fee:`, `projects:`, `company:`, `contacts:`,
/// `country:`) that `t` starts with, or 0 when it starts with none of them.
pub open spec fn prefix_len(t: Seq<char>) -> nat {
    if occurs_at(t, 0, "fee:"@) {
        "fee:"@.len()
    } else if occurs_at(t, 0, "projects:"@) {
        "projects:"@.len()
    } else if occurs_at(t, 0, "company:"@) {
        "company:"@.len()
    } else if occurs_at(t, 0, "contacts:"@) {
        "contacts:"@.len()
    } else if occurs_at(t, 0, "country:"@) {
        "country:"@.len()
    } else {
        0
    }
}

/// `t` is enclosed in one pair of identifier brackets.
pub open spec fn is_bracketed(t: Seq<char>) -> bool {
    t.len() >= 2 && t[0] == OPEN_BRACKET && t[t.len() - 1] == CLOSE_BRACKET
}

/// The local part of an identifier: table prefixes and enclosing bracket pairs are
/// taken off, outermost first, until neither is left.
pub open spec fn normalize(t: Seq<char>) -> Seq<char>
    decreases t.len(),
{
    if prefix_len(t) > 0 {
        normalize(t.subrange(prefix_len(t) as int, t.len() as int))
    } else if is_bracketed(t) {
        normalize(t.subrange(1, t.len() - 1))
    } else {
        t
    }
}

/// Whether the window `s[lo..hi]` starts with `p`.
fn window_starts_with(s: &str, lo: usize, hi: usize, p: &str) -> (r: bool)
    requires
        lo <= hi <= s@.len(),
    ensures
        r == occurs_at(s@.subrange(lo as int, hi as int), 0, p@),
{
    let pl = p.unicode_len();
    if pl > hi - lo {
        return false;
    }
    let r = matches_at(s, lo, p);
    assert(s@.subrange(lo as int, hi as int).subrange(0, pl as int) =~= s@.subrange(
        lo as int,
        lo + pl,
    ));
    r
}

/// Length of the table prefix that the window `s[lo..hi]` starts with.
fn window_prefix_len(s: &str, lo: usize, hi: usize) -> (r: usize)
    requires
        lo <= hi <= s@.len(),
    ensures
        r == prefix_len(s@.subrange(lo as int, hi as int)),
{
    if window_starts_with(s, lo, hi, "fee:") {
        "fee:".unicode_len()
    } else if window_starts_with(s, lo, hi, "projects:") {
        "projects:".unicode_len()
    } else if window_starts_with(s, lo, hi, "company:") {
        "company:".unicode_len()
    } else if window_starts_with(s, lo, hi, "contacts:") {
        "contacts:".unicode_len()
    } else if window_starts_with(s, lo, hi, "country:") {
        "country:".unicode_len()
    } else {
        0
    }
}

/// The local part of a record identifier, in either of its textual shapes:
/// `fee:22_96601_1`, `\u{27e8}22_96601_1\u{27e9}` and `22_96601_1` all give `22_96601_1`.
pub fn normalize_local_part(raw: &str) -> (r: String)
    ensures
        r@ == normalize(raw@),
{
    let n = raw.unicode_len();
    let mut lo: usize = 0;
    let mut hi: usize = n;
    assert(raw@.subrange(0, n as int) =~= raw@);
    loop
        invariant
            n == raw@.len(),
            lo <= hi <= n,
            normalize(raw@.subrange(lo as int, hi as int)) == normalize(raw@),
        ensures
            lo <= hi <= n,
            normalize(raw@.subrange(lo as int, hi as int)) == raw@.subrange(lo as int, hi as int),
            normalize(raw@.subrange(lo as int, hi as int)) == normalize(raw@),
        decreases hi - lo,
    {
        let ghost w = raw@.subrange(lo as int, hi as int);
        let k = window_prefix_len(raw, lo, hi);
        if k > 0 {
            assert(w.subrange(k as int, w.len() as int) =~= raw@.subrange(lo + k, hi as int));
            lo = lo + k;
        } else if hi - lo >= 2 && raw.get_char(lo) == OPEN_BRACKET && raw.get_char(hi - 1)
            == CLOSE_BRACKET {
            assert(w.subrange(1, w.len() - 1) =~= raw@.subrange(lo + 1, hi - 1));
            lo = lo + 1;
            hi = hi - 1;
        } else {
            break;
        }
    }
    slice_owned(raw, lo, hi)
}

/// Two references name the same record when their local parts are equal.
pub fn same_entity(a: &str, b: &str) -> (r: bool)
    ensures
        r == (normalize(a@) == normalize(b@)),
{
    let na = normalize_local_part(a);
    let nb = normalize_local_part(b);
    na == nb
}

/// The normal form has neither a table prefix nor enclosing brackets.
proof fn lemma_normal_form(t: Seq<char>)
    ensures
        prefix_len(normalize(t)) == 0,
        !is_bracketed(normalize(t)),
    decreases t.len(),
{
    if prefix_len(t) > 0 {
        lemma_normal_form(t.subrange(prefix_len(t) as int, t.len() as int));
    } else if is_bracketed(t) {
        lemma_normal_form(t.subrange(1, t.len() - 1));
    }
}

/// Normalising is idempotent: a local part normalises to itself.
pub proof fn lemma_normalize_idempotent(t: Seq<char>)
    ensures
        normalize(normalize(t)) == normalize(t),
{
    lemma_normal_form(t);
}

/// Index of the first `c` in `t` at or after `from`, or `t.len()` when there is none.
pub open spec fn index_from(t: Seq<char>, c: char, from: int) -> int
    decreases t.len() - from,
{
    if from < 0 || from >= t.len() {
        t.len() as int
    } else if t[from] == c {
        from
    } else {
        index_from(t, c, from + 1)
    }
}

pub proof fn lemma_index_from_bounds(t: Seq<char>, c: char, from: int)
    requires
        0 <= from <= t.len(),
    ensures
        from <= index_from(t, c, from) <= t.len(),
    decreases t.len() - from,
{
    if from < t.len() && t[from] != c {
        lemma_index_from_bounds(t, c, from + 1);
    }
}

pub fn find_char_from(s: &str, c: char, from: usize) -> (r: usize)
    requires
        from <= s@.len(),
    ensures
        r == index_from(s@, c, from as int),
        from <= r <= s@.len(),
{
    let n = s.unicode_len();
    let mut i = from;
    proof {
        lemma_index_from_bounds(s@, c, from as int);
    }
    while i < n
        invariant
            n == s@.len(),
            from <= i <= n,
            index_from(s@, c, i as int) == index_from(s@, c, from as int),
        decreases n - i,
    {
        if s.get_char(i) == c {
            return i;
        }
        i = i + 1;
    }
    i
}

/// The record key of a `table:key` reference: the text between the first `:` and
/// the next one (or the end); `None` when there is no `:`.
pub open spec fn id_key(t: Seq<char>) -> Option<Seq<char>> {
    let first = index_from(t, ':', 0);
    if first >= t.len() {
        None
    } else {
        Some(t.subrange(first + 1, index_from(t, ':', first + 1)))
    }
}

/// The key part of a `table:key` reference, as in `contacts:john_doe` giving `john_doe`.
pub fn extract_id_string(id: &str) -> (r: Option<String>)
    ensures
        match r {
            Some(k) => id_key(id@) == Some(k@),
            None => id_key(id@).is_none(),
        },
{
    let n = id.unicode_len();
    let first = find_char_from(id, ':', 0);
    if first >= n {
        return None;
    }
    let next = find_char_from(id, ':', first + 1);
    Some(slice_owned(id, first + 1, next))
}

/// Largest sequence a year and region may reach.
pub const MAX_SEQUENCE: u32 = 99;

/// A sequence that a project number may carry: 1 to 99.
pub open spec fn valid_sequence(seq: int) -> bool {
    1 <= seq <= MAX_SEQUENCE
}

pub fn is_valid_sequence(seq: u32) -> (r: bool)
    ensures
        r == valid_sequence(seq as int),
{
    1 <= seq && seq <= MAX_SEQUENCE
}

/// A region (dial) code that fits the three-digit slot and names a region: 1 to 999.
pub fn is_valid_country_code(code: u32) -> (r: bool)
    ensures
        r == (0 < code < 1000),
{
    code > 0 && code < 1000
}

/// The sequence after `current`, or `None` once the limit is reached.
pub fn increment_sequence(current: u32) -> (r: Option<u32>)
    ensures
        current >= MAX_SEQUENCE ==> r.is_none(),
        current < MAX_SEQUENCE ==> r == Some((current + 1) as u32),
{
    if current >= MAX_SEQUENCE {
        None
    } else {
        Some(current + 1)
    }
}

} // verus!
