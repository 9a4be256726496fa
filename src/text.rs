//! Character-level helpers shared by the codec, the provisioner and the export binder:
//! decimal digits, substring matching and literal replacement.

use vstd::prelude::*;

verus! {

/// The character that writes the decimal digit `d` (`0 <= d < 10`).
pub open spec fn digit_char(d: int) -> char {
    if d == 0 {
        '0'
    } else if d == 1 {
        '1'
    } else if d == 2 {
        '2'
    } else if d == 3 {
        '3'
    } else if d == 4 {
        '4'
    } else if d == 5 {
        '5'
    } else if d == 6 {
        '6'
    } else if d == 7 {
        '7'
    } else if d == 8 {
        '8'
    } else {
        '9'
    }
}

/// The value of an ASCII decimal digit, or -1 for any other character.
pub open spec fn digit_value(c: char) -> int {
    if c == '0' {
        0
    } else if c == '1' {
        1
    } else if c == '2' {
        2
    } else if c == '3' {
        3
    } else if c == '4' {
        4
    } else if c == '5' {
        5
    } else if c == '6' {
        6
    } else if c == '7' {
        7
    } else if c == '8' {
        8
    } else if c == '9' {
        9
    } else {
        -1
    }
}

pub open spec fn is_digit(c: char) -> bool {
    digit_value(c) >= 0
}

/// `n` written with exactly two digits (leading zero kept).
pub open spec fn two_digits(n: int) -> Seq<char> {
    seq![digit_char(n / 10), digit_char(n % 10)]
}

/// `n` written with exactly three digits (leading zeros kept).
pub open spec fn three_digits(n: int) -> Seq<char> {
    seq![digit_char(n / 100), digit_char((n / 10) % 10), digit_char(n % 10)]
}

/// `n` written with exactly four digits (leading zeros kept).
pub open spec fn four_digits(n: int) -> Seq<char> {
    seq![digit_char(n / 1000), digit_char((n / 100) % 10), digit_char((n / 10) % 10), digit_char(n % 10)]
}

/// The shortest decimal writing of `n`.
pub open spec fn decimal(n: nat) -> Seq<char>
    decreases n,
{
    if n < 10 {
        seq![digit_char(n as int)]
    } else {
        decimal(n / 10).push(digit_char((n % 10) as int))
    }
}

/// The decimal writing of a signed integer, with a leading `-` when negative.
pub open spec fn signed_decimal(v: int) -> Seq<char> {
    if v < 0 {
        seq!['-'] + decimal((-v) as nat)
    } else {
        decimal(v as nat)
    }
}

pub proof fn lemma_digit_round_trip(d: int)
    requires
        0 <= d < 10,
    ensures
        digit_value(digit_char(d)) == d,
        is_digit(digit_char(d)),
{
}

pub proof fn lemma_value_round_trip(c: char)
    requires
        is_digit(c),
    ensures
        digit_char(digit_value(c)) == c,
        0 <= digit_value(c) < 10,
{
}

/// `p` occurs in `t` starting at index `i`.
pub open spec fn occurs_at(t: Seq<char>, i: int, p: Seq<char>) -> bool {
    0 <= i && i + p.len() <= t.len() && t.subrange(i, i + p.len()) == p
}

/// `p` occurs somewhere in `t`.
pub open spec fn contains_seq(t: Seq<char>, p: Seq<char>) -> bool {
    exists|i: int| occurs_at(t, i, p)
}

/// `t` with every occurrence of `tok` replaced by `rep`, scanning left to right and
/// never overlapping; an empty `tok` replaces nothing.
pub open spec fn replace_all(t: Seq<char>, tok: Seq<char>, rep: Seq<char>) -> Seq<char>
    decreases t.len(),
{
    if tok.len() == 0 || t.len() == 0 {
        t
    } else if occurs_at(t, 0, tok) {
        rep + replace_all(t.subrange(tok.len() as int, t.len() as int), tok, rep)
    } else {
        seq![t[0]] + replace_all(t.subrange(1, t.len() as int), tok, rep)
    }
}

/// The value of the decimal digit `c`, if it is one.
pub fn digit_of(c: char) -> (r: Option<u32>)
    ensures
        match r {
            Some(v) => is_digit(c) && v == digit_value(c),
            None => !is_digit(c),
        },
{
    match c {
        '0' => Some(0),
        '1' => Some(1),
        '2' => Some(2),
        '3' => Some(3),
        '4' => Some(4),
        '5' => Some(5),
        '6' => Some(6),
        '7' => Some(7),
        '8' => Some(8),
        '9' => Some(9),
        _ => None,
    }
}

fn digit_str(d: u32) -> (r: &'static str)
    requires
        d < 10,
    ensures
        r@ == seq![digit_char(d as int)],
{
    if d == 0 {
        proof { reveal_strlit("0"); }
        "0"
    } else if d == 1 {
        proof { reveal_strlit("1"); }
        "1"
    } else if d == 2 {
        proof { reveal_strlit("2"); }
        "2"
    } else if d == 3 {
        proof { reveal_strlit("3"); }
        "3"
    } else if d == 4 {
        proof { reveal_strlit("4"); }
        "4"
    } else if d == 5 {
        proof { reveal_strlit("5"); }
        "5"
    } else if d == 6 {
        proof { reveal_strlit("6"); }
        "6"
    } else if d == 7 {
        proof { reveal_strlit("7"); }
        "7"
    } else if d == 8 {
        proof { reveal_strlit("8"); }
        "8"
    } else {
        proof { reveal_strlit("9"); }
        "9"
    }
}

/// Appends the digit `d`.
pub fn push_digit(s: &mut String, d: u32)
    requires
        d < 10,
    ensures
        final(s)@ == old(s)@.push(digit_char(d as int)),
{
    s.append(digit_str(d));
}

/// Appends `n` with exactly two digits.
pub fn push_two_digits(s: &mut String, n: u32)
    requires
        n < 100,
    ensures
        final(s)@ == old(s)@ + two_digits(n as int),
{
    push_digit(s, n / 10);
    push_digit(s, n % 10);
    assert(final(s)@ =~= old(s)@ + two_digits(n as int));
}

/// Appends `n` with exactly three digits.
pub fn push_three_digits(s: &mut String, n: u32)
    requires
        n < 1000,
    ensures
        final(s)@ == old(s)@ + three_digits(n as int),
{
    push_digit(s, n / 100);
    push_digit(s, (n / 10) % 10);
    push_digit(s, n % 10);
    assert(final(s)@ =~= old(s)@ + three_digits(n as int));
}

/// Appends the shortest decimal writing of `n`.
pub fn push_decimal(s: &mut String, n: u64)
    ensures
        final(s)@ == old(s)@ + decimal(n as nat),
    decreases n,
{
    if n < 10 {
        push_digit(s, n as u32);
        assert(final(s)@ =~= old(s)@ + decimal(n as nat));
    } else {
        let ghost before = s@;
        push_decimal(s, n / 10);
        push_digit(s, (n % 10) as u32);
        assert(final(s)@ =~= before + decimal(n as nat));
    }
}

/// Appends the decimal writing of a signed integer.
pub fn push_signed(s: &mut String, v: i32)
    ensures
        final(s)@ == old(s)@ + signed_decimal(v as int),
{
    if v < 0 {
        let ghost before = s@;
        proof { reveal_strlit("-"); }
        s.append("-");
        let m: i64 = -(v as i64);
        push_decimal(s, m as u64);
        assert(final(s)@ =~= before + signed_decimal(v as int));
    } else {
        push_decimal(s, v as u64);
    }
}

/// The owned text of `s[from..to]`, counted in characters.
pub fn slice_owned(s: &str, from: usize, to: usize) -> (r: String)
    requires
        from <= to <= s@.len(),
    ensures
        r@ == s@.subrange(from as int, to as int),
{
    s.substring_char(from, to).to_owned()
}

/// Whether `p` occurs in `s` at character index `i`.
pub fn matches_at(s: &str, i: usize, p: &str) -> (r: bool)
    ensures
        r == occurs_at(s@, i as int, p@),
{
    let sl = s.unicode_len();
    let pl = p.unicode_len();
    if i > sl || pl > sl - i {
        return false;
    }
    let mut j: usize = 0;
    while j < pl
        invariant
            sl == s@.len(),
            pl == p@.len(),
            i + pl <= sl,
            j <= pl,
            forall|k: int| 0 <= k < j ==> s@[i + k] == p@[k],
        decreases pl - j,
    {
        if s.get_char(i + j) != p.get_char(j) {
            assert(s@.subrange(i as int, i + pl)[j as int] == s@[i + j]);
            return false;
        }
        j = j + 1;
    }
    assert(s@.subrange(i as int, i + pl) =~= p@);
    true
}

/// Whether `p` occurs anywhere in `s`.
pub fn contains_text(s: &str, p: &str) -> (r: bool)
    ensures
        r == contains_seq(s@, p@),
{
    let sl = s.unicode_len();
    let mut i: usize = 0;
    loop
        invariant
            sl == s@.len(),
            i <= sl,
            forall|k: int| 0 <= k < i ==> !occurs_at(s@, k, p@),
        ensures
            forall|k: int| 0 <= k <= sl ==> !occurs_at(s@, k, p@),
        decreases sl - i,
    {
        if matches_at(s, i, p) {
            return true;
        }
        if i == sl {
            break;
        }
        i = i + 1;
    }
    false
}

/// `s` with every occurrence of `tok` replaced by `rep`.
pub fn replace_text(s: &str, tok: &str, rep: &str) -> (r: String)
    ensures
        r@ == replace_all(s@, tok@, rep@),
{
    let n = s.unicode_len();
    let tl = tok.unicode_len();
    let mut out = String::new();
    if tl == 0 {
        return s.to_owned();
    }
    let mut i: usize = 0;
    assert(s@.subrange(0, n as int) =~= s@);
    while i < n
        invariant
            n == s@.len(),
            tl == tok@.len(),
            tl > 0,
            i <= n,
            out@ + replace_all(s@.subrange(i as int, n as int), tok@, rep@) == replace_all(s@, tok@, rep@),
        decreases n - i,
    {
        let ghost rest = s@.subrange(i as int, n as int);
        let found = matches_at(s, i, tok);
        proof {
            assert(occurs_at(rest, 0, tok@) == occurs_at(s@, i as int, tok@)) by {
                if i + tl <= n {
                    assert(rest.subrange(0, tl as int) =~= s@.subrange(i as int, i + tl));
                }
            }
        }
        if found {
            let ghost prev = out@;
            out.append(rep);
            assert(rest.subrange(tl as int, rest.len() as int) =~= s@.subrange(i + tl, n as int));
            i = i + tl;
            assert(out@ + replace_all(s@.subrange(i as int, n as int), tok@, rep@) =~= prev + (rep@ + replace_all(s@.subrange(i as int, n as int), tok@, rep@)));
        } else {
            let ghost prev = out@;
            let piece = s.substring_char(i, i + 1);
            out.append(piece);
            assert(piece@ =~= seq![rest[0]]);
            assert(rest.subrange(1, rest.len() as int) =~= s@.subrange(i + 1, n as int));
            i = i + 1;
            assert(out@ + replace_all(s@.subrange(i as int, n as int), tok@, rep@) =~= prev + (seq![rest[0]] + replace_all(s@.subrange(i as int, n as int), tok@, rep@)));
        }
    }
    assert(s@.subrange(n as int, n as int) =~= Seq::<char>::empty());
    assert(out@ + replace_all(Seq::<char>::empty(), tok@, rep@) =~= out@);
    out
}

/// Whether two texts are equal.
pub fn same_text(a: &str, b: &str) -> (r: bool)
    ensures
        r == (a@ == b@),
{
    if a.unicode_len() != b.unicode_len() {
        return false;
    }
    let r = matches_at(a, 0, b);
    assert(a@.subrange(0, b@.len() as int) =~= a@);
    r
}

/// A prefix of the replaced text is either the same prefix of the text replaced in or
/// holds the first character of the replacement.
proof fn lemma_replaced_prefix(t: Seq<char>, tok: Seq<char>, rep: Seq<char>, m: int)
    requires
        rep.len() > 0,
        0 <= m <= replace_all(t, tok, rep).len(),
    ensures
        (m <= t.len() && replace_all(t, tok, rep).subrange(0, m) == t.subrange(0, m)) || exists|k: int|
            0 <= k < m && #[trigger] replace_all(t, tok, rep)[k] == rep[0],
    decreases t.len(),
{
    let r = replace_all(t, tok, rep);
    if tok.len() == 0 || t.len() == 0 {
    } else if occurs_at(t, 0, tok) {
        if m > 0 {
            assert(r[0] == rep[0]);
        } else {
            assert(r.subrange(0, 0) =~= t.subrange(0, 0));
        }
    } else if m == 0 {
        assert(r.subrange(0, 0) =~= t.subrange(0, 0));
    } else {
        let rest = t.subrange(1, t.len() as int);
        let rr = replace_all(rest, tok, rep);
        assert(r == seq![t[0]] + rr);
        lemma_replaced_prefix(rest, tok, rep, m - 1);
        if m - 1 <= rest.len() && rr.subrange(0, m - 1) == rest.subrange(0, m - 1) {
            assert(r.subrange(0, m) =~= t.subrange(0, m)) by {
                assert forall|j: int| 0 <= j < m implies r.subrange(0, m)[j] == t.subrange(0, m)[j] by {
                    if j > 0 {
                        assert(rr.subrange(0, m - 1)[j - 1] == rest.subrange(0, m - 1)[j - 1]);
                    }
                }
            }
        } else {
            let k = choose|k: int| 0 <= k < m - 1 && #[trigger] rr[k] == rep[0];
            assert(r[k + 1] == rep[0]);
        }
    }
}

/// Replacing a token leaves no occurrence of it behind when the replacement is not
/// empty, holds no copy of the token's first character, and starts with a character
/// the token does not hold.
pub proof fn lemma_replace_removes_token(t: Seq<char>, tok: Seq<char>, rep: Seq<char>)
    requires
        tok.len() > 0,
        rep.len() > 0,
        !rep.contains(tok[0]),
        !tok.contains(rep[0]),
    ensures
        !contains_seq(replace_all(t, tok, rep), tok),
    decreases t.len(),
{
    let r = replace_all(t, tok, rep);
    if t.len() == 0 {
        assert forall|i: int| !occurs_at(r, i, tok) by {}
    } else if occurs_at(t, 0, tok) {
        let rest = t.subrange(tok.len() as int, t.len() as int);
        let rr = replace_all(rest, tok, rep);
        lemma_replace_removes_token(rest, tok, rep);
        assert(r == rep + rr);
        assert forall|i: int| !occurs_at(r, i, tok) by {
            if occurs_at(r, i, tok) {
                if i < rep.len() {
                    assert(r.subrange(i, i + tok.len())[0] == tok[0]);
                    assert(r[i] == rep[i]);
                    assert(rep.contains(tok[0]));
                } else {
                    assert(r.subrange(i, i + tok.len()) =~= rr.subrange(i - rep.len(), i - rep.len() + tok.len()));
                    assert(occurs_at(rr, i - rep.len(), tok));
                }
            }
        }
    } else {
        let rest = t.subrange(1, t.len() as int);
        let rr = replace_all(rest, tok, rep);
        lemma_replace_removes_token(rest, tok, rep);
        assert(r == seq![t[0]] + rr);
        assert forall|i: int| !occurs_at(r, i, tok) by {
            if occurs_at(r, i, tok) {
                if i > 0 {
                    assert(r.subrange(i, i + tok.len()) =~= rr.subrange(i - 1, i - 1 + tok.len()));
                    assert(occurs_at(rr, i - 1, tok));
                } else {
                    let m = tok.len() - 1;
                    lemma_replaced_prefix(rest, tok, rep, m);
                    if m <= rest.len() && rr.subrange(0, m) == rest.subrange(0, m) {
                        assert(t.subrange(0, tok.len() as int) =~= r.subrange(0, tok.len() as int)) by {
                            assert forall|j: int| 0 <= j < tok.len() implies t.subrange(0, tok.len() as int)[j]
                                == r.subrange(0, tok.len() as int)[j] by {
                                if j > 0 {
                                    assert(rr.subrange(0, m)[j - 1] == rest.subrange(0, m)[j - 1]);
                                }
                            }
                        }
                        assert(occurs_at(t, 0, tok));
                    } else {
                        let k = choose|k: int| 0 <= k < m && #[trigger] rr[k] == rep[0];
                        assert(r[k + 1] == rep[0]);
                        assert(r.subrange(0, tok.len() as int)[k + 1] == tok[k + 1]);
                        assert(tok.contains(rep[0]));
                    }
                }
            }
        }
    }
}

} // verus!
