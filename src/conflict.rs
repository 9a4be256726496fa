//! Moving an existing artifact out of the way: the lowest free name among
//! `<stem>_old<ext>`, `<stem>_old2<ext>`, `<stem>_old3<ext>`, ... is chosen.

use vstd::prelude::*;
use crate::text::{decimal, push_decimal};

verus! {

/// How many alternate names are tried before giving up.
pub const MAX_ASIDE_ATTEMPTS: u64 = 1000;

/// Why no alternate name was found.
#[derive(Debug, Clone, Copy, PartialEq, Eq, Structural)]
pub enum AsideError {
    /// Every alternate name up to the bound is taken.
    Exhausted,
}

/// The suffix of the `n`-th alternate name: `_old`, then `_old2`, `_old3`, ...
pub open spec fn aside_suffix(n: int) -> Seq<char> {
    if n <= 1 {
        "_old"@
    } else {
        "_old"@ + decimal(n as nat)
    }
}

/// The `n`-th alternate name of `stem` + `ext`: the suffix goes between the two.
pub open spec fn aside_candidate(stem: Seq<char>, ext: Seq<char>, n: int) -> Seq<char> {
    stem + aside_suffix(n) + ext
}

/// The texts of a list of names.
pub open spec fn names_of(v: Seq<String>) -> Seq<Seq<char>> {
    v.map_values(|s: String| s@)
}

/// The lowest `k` in `n..=MAX_ASIDE_ATTEMPTS` whose alternate name is not taken.
pub open spec fn lowest_free(stem: Seq<char>, ext: Seq<char>, taken: Seq<Seq<char>>, n: int) -> Option<int>
    decreases MAX_ASIDE_ATTEMPTS + 1 - n,
{
    if n < 1 || n > MAX_ASIDE_ATTEMPTS {
        None
    } else if !taken.contains(aside_candidate(stem, ext, n)) {
        Some(n)
    } else {
        lowest_free(stem, ext, taken, n + 1)
    }
}

/// The `n`-th alternate name of `stem` + `ext`.
pub fn aside_name(stem: &str, ext: &str, n: u64) -> (r: String)
    ensures
        r@ == aside_candidate(stem@, ext@, n as int),
{
    let mut s = stem.to_owned();
    s.append("_old");
    if n > 1 {
        push_decimal(&mut s, n);
    }
    s.append(ext);
    assert(s@ =~= aside_candidate(stem@, ext@, n as int));
    s
}

/// Whether `name` is one of `taken`.
fn is_taken(taken: &Vec<String>, name: &String) -> (r: bool)
    ensures
        r == names_of(taken@).contains(name@),
{
    let mut i: usize = 0;
    while i < taken.len()
        invariant
            i <= taken@.len(),
            forall|k: int| 0 <= k < i ==> taken@[k]@ != name@,
        decreases taken.len() - i,
    {
        if taken[i] == *name {
            assert(names_of(taken@)[i as int] == name@);
            return true;
        }
        i = i + 1;
    }
    assert forall|k: int| 0 <= k < names_of(taken@).len() implies names_of(taken@)[k] != name@ by {
        assert(names_of(taken@)[k] == taken@[k]@);
    }
    false
}

/// The name to move an existing `stem` + `ext` to, given the names already present
/// beside it: the lowest free alternate name, never one of `taken`.
pub fn choose_aside_name(stem: &str, ext: &str, taken: &Vec<String>) -> (r: Result<String, AsideError>)
    ensures
        match lowest_free(stem@, ext@, names_of(taken@), 1) {
            Some(k) => r matches Ok(name) && name@ == aside_candidate(stem@, ext@, k)
                && !names_of(taken@).contains(name@),
            None => r == Err::<String, AsideError>(AsideError::Exhausted),
        },
{
    let mut n: u64 = 1;
    while n <= MAX_ASIDE_ATTEMPTS
        invariant
            1 <= n <= MAX_ASIDE_ATTEMPTS + 1,
            lowest_free(stem@, ext@, names_of(taken@), n as int) == lowest_free(
                stem@,
                ext@,
                names_of(taken@),
                1,
            ),
        decreases MAX_ASIDE_ATTEMPTS + 1 - n,
    {
        let candidate = aside_name(stem, ext, n);
        if !is_taken(taken, &candidate) {
            return Ok(candidate);
        }
        n = n + 1;
    }
    Err(AsideError::Exhausted)
}

/// Moving two artifacts of the same name aside one after the other, where no
/// alternate name was taken before, gives `_old` and then `_old2`: the second move
/// sees the first alternate name taken and never reuses it.
pub proof fn lemma_rename_aside_twice(stem: Seq<char>, ext: Seq<char>, taken: Seq<Seq<char>>)
    requires
        !taken.contains(aside_candidate(stem, ext, 1)),
        !taken.contains(aside_candidate(stem, ext, 2)),
    ensures
        lowest_free(stem, ext, taken, 1) == Some(1int),
        lowest_free(stem, ext, taken.push(aside_candidate(stem, ext, 1)), 1) == Some(2int),
        aside_candidate(stem, ext, 1) == stem + "_old"@ + ext,
        aside_candidate(stem, ext, 2) == stem + "_old2"@ + ext,
        aside_candidate(stem, ext, 1) != aside_candidate(stem, ext, 2),
{
    reveal_strlit("_old");
    reveal_strlit("_old2");
    let first = aside_candidate(stem, ext, 1);
    let second = aside_candidate(stem, ext, 2);
    assert(decimal(2) =~= seq!['2']);
    assert("_old"@ + decimal(2) =~= "_old2"@);
    assert(first.len() != second.len());
    let after = taken.push(first);
    assert(after.contains(first)) by {
        assert(after[taken.len() as int] == first);
    }
    assert(!after.contains(second)) by {
        if after.contains(second) {
            let i = choose|i: int| 0 <= i < after.len() && after[i] == second;
            if i < taken.len() {
                assert(taken[i] == second);
            }
        }
    }
    assert(lowest_free(stem, ext, after, 2) == Some(2int));
    assert(lowest_free(stem, ext, after, 1) == lowest_free(stem, ext, after, 2));
}

} // verus!
