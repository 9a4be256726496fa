//! Renaming a freshly copied template tree: every file or folder whose name holds
//! the placeholder token is renamed with the token replaced, deepest entries first,
//! so that no rename moves a folder whose contents are still to be renamed.

use vstd::prelude::*;
use crate::codec::is_number_text;
use crate::layout::{components_of, token_text};
use crate::text::{is_digit, contains_seq, contains_text, lemma_replace_removes_token, replace_all, replace_text};

verus! {

/// One file or folder of a copied tree, by its path components below the root.
#[derive(Debug, Clone)]
pub struct TreeEntry {
    pub path: Vec<String>,
    pub is_dir: bool,
}

/// One rename: in the folder `parent` (components below the root, as named before
/// any rename), the entry `from` becomes `to`.
#[derive(Debug, Clone)]
pub struct RenameStep {
    pub parent: Vec<String>,
    pub from: String,
    pub to: String,
}

/// What a rename step says, as plain texts: parent components, old name, new name.
pub type StepView = (Seq<Seq<char>>, Seq<char>, Seq<char>);

pub open spec fn step_view(s: RenameStep) -> StepView {
    (components_of(s.parent@), s.from@, s.to@)
}

pub open spec fn steps_view(v: Seq<RenameStep>) -> Seq<StepView> {
    v.map_values(|s: RenameStep| step_view(s))
}

/// The entry's name holds the (non-empty) token.
pub open spec fn needs_rename(e: TreeEntry, tok: Seq<char>) -> bool {
    e.path@.len() > 0 && tok.len() > 0 && contains_seq(e.path@.last()@, tok)
}

/// The rename of an entry: its parent, its name, its name with the token replaced.
pub open spec fn step_of(e: TreeEntry, tok: Seq<char>, rep: Seq<char>) -> StepView {
    (
        components_of(e.path@.drop_last()),
        e.path@.last()@,
        replace_all(e.path@.last()@, tok, rep),
    )
}

/// The renames of the entries at depth `d`, in listing order.
pub open spec fn steps_at_depth(es: Seq<TreeEntry>, d: int, tok: Seq<char>, rep: Seq<char>) -> Seq<StepView>
    decreases es.len(),
{
    if es.len() == 0 {
        Seq::empty()
    } else {
        let rest = steps_at_depth(es.drop_last(), d, tok, rep);
        let e = es.last();
        if e.path@.len() == d && needs_rename(e, tok) {
            rest.push(step_of(e, tok, rep))
        } else {
            rest
        }
    }
}

/// The renames of depths `d` down to 1, deepest first.
pub open spec fn plan_from(es: Seq<TreeEntry>, d: int, tok: Seq<char>, rep: Seq<char>) -> Seq<StepView>
    decreases d,
{
    if d <= 0 {
        Seq::empty()
    } else {
        steps_at_depth(es, d, tok, rep) + plan_from(es, d - 1, tok, rep)
    }
}

/// The greatest depth of the listing.
pub open spec fn max_depth(es: Seq<TreeEntry>) -> int
    decreases es.len(),
{
    if es.len() == 0 {
        0
    } else {
        let rest = max_depth(es.drop_last());
        if es.last().path@.len() > rest {
            es.last().path@.len() as int
        } else {
            rest
        }
    }
}

/// All renames of a listing, deepest entries first and in listing order within a depth.
pub open spec fn rename_plan(es: Seq<TreeEntry>, tok: Seq<char>, rep: Seq<char>) -> Seq<StepView> {
    plan_from(es, max_depth(es), tok, rep)
}

/// The depth of the entry a step renames.
pub open spec fn step_depth(s: StepView) -> int {
    s.0.len() as int + 1
}

proof fn lemma_steps_at_depth_depth(es: Seq<TreeEntry>, d: int, tok: Seq<char>, rep: Seq<char>)
    ensures
        forall|i: int|
            0 <= i < steps_at_depth(es, d, tok, rep).len() ==> step_depth(
                #[trigger] steps_at_depth(es, d, tok, rep)[i],
            ) == d,
    decreases es.len(),
{
    if es.len() > 0 {
        let rest = steps_at_depth(es.drop_last(), d, tok, rep);
        lemma_steps_at_depth_depth(es.drop_last(), d, tok, rep);
        let e = es.last();
        if e.path@.len() == d && needs_rename(e, tok) {
            let x = step_of(e, tok, rep);
            assert(x.0.len() == e.path@.len() - 1);
            let all = rest.push(x);
            assert forall|i: int| 0 <= i < all.len() implies step_depth(#[trigger] all[i]) == d by {
                if i < rest.len() {
                    assert(all[i] == rest[i]);
                }
            }
        }
    }
}

proof fn lemma_plan_from_order(es: Seq<TreeEntry>, d: int, tok: Seq<char>, rep: Seq<char>)
    ensures
        forall|i: int|
            0 <= i < plan_from(es, d, tok, rep).len() ==> 1 <= step_depth(
                #[trigger] plan_from(es, d, tok, rep)[i],
            ) <= d,
        forall|i: int, j: int|
            0 <= i < j < plan_from(es, d, tok, rep).len() ==> step_depth(
                #[trigger] plan_from(es, d, tok, rep)[i],
            ) >= step_depth(#[trigger] plan_from(es, d, tok, rep)[j]),
    decreases d,
{
    if d > 0 {
        lemma_steps_at_depth_depth(es, d, tok, rep);
        lemma_plan_from_order(es, d - 1, tok, rep);
        let a = steps_at_depth(es, d, tok, rep);
        let b = plan_from(es, d - 1, tok, rep);
        let p = plan_from(es, d, tok, rep);
        assert(p == a + b);
        assert forall|i: int| 0 <= i < p.len() implies 1 <= step_depth(#[trigger] p[i]) <= d by {
            if i < a.len() {
                assert(p[i] == a[i]);
            } else {
                assert(p[i] == b[i - a.len()]);
            }
        }
        assert forall|i: int, j: int| 0 <= i < j < p.len() implies step_depth(#[trigger] p[i])
            >= step_depth(#[trigger] p[j]) by {
            if i < a.len() {
                assert(p[i] == a[i]);
                if j < a.len() {
                    assert(p[j] == a[j]);
                } else {
                    assert(p[j] == b[j - a.len()]);
                }
            } else {
                assert(p[i] == b[i - a.len()]);
                assert(p[j] == b[j - a.len()]);
            }
        }
    }
}

/// The plan is bottom-up: no step renames an entry shallower than one renamed after it,
/// so every folder is renamed only once everything inside it has been.
pub proof fn lemma_plan_bottom_up(es: Seq<TreeEntry>, tok: Seq<char>, rep: Seq<char>)
    ensures
        forall|i: int, j: int|
            0 <= i < j < rename_plan(es, tok, rep).len() ==> step_depth(
                #[trigger] rename_plan(es, tok, rep)[i],
            ) >= step_depth(#[trigger] rename_plan(es, tok, rep)[j]),
{
    lemma_plan_from_order(es, max_depth(es), tok, rep);
}

/// A step renames a name holding the (non-empty) token to that name with the token
/// replaced.
pub open spec fn good_step(x: StepView, tok: Seq<char>, rep: Seq<char>) -> bool {
    tok.len() > 0 && contains_seq(x.1, tok) && x.2 == replace_all(x.1, tok, rep)
}

proof fn lemma_steps_at_depth_content(es: Seq<TreeEntry>, d: int, tok: Seq<char>, rep: Seq<char>)
    ensures
        forall|i: int|
            0 <= i < steps_at_depth(es, d, tok, rep).len() ==> good_step(#[trigger] steps_at_depth(es, d, tok, rep)[i], tok, rep),
        forall|j: int|
            0 <= j < es.len() && (#[trigger] es[j]).path@.len() == d && needs_rename(es[j], tok)
                ==> steps_at_depth(es, d, tok, rep).contains(step_of(es[j], tok, rep)),
    decreases es.len(),
{
    if es.len() > 0 {
        let init = es.drop_last();
        let rest = steps_at_depth(init, d, tok, rep);
        lemma_steps_at_depth_content(init, d, tok, rep);
        let e = es.last();
        let all = steps_at_depth(es, d, tok, rep);
        if e.path@.len() == d && needs_rename(e, tok) {
            assert(all == rest.push(step_of(e, tok, rep)));
            assert forall|i: int| 0 <= i < all.len() implies good_step(#[trigger] all[i], tok, rep) by {
                if i < rest.len() {
                    assert(all[i] == rest[i]);
                }
            }
            assert forall|j: int|
                0 <= j < es.len() && (#[trigger] es[j]).path@.len() == d && needs_rename(es[j], tok)
                implies all.contains(step_of(es[j], tok, rep)) by {
                if j < es.len() - 1 {
                    assert(es[j] == init[j]);
                    let k = choose|k: int| 0 <= k < rest.len() && rest[k] == step_of(init[j], tok, rep);
                    assert(all[k] == rest[k]);
                } else {
                    assert(all[rest.len() as int] == step_of(e, tok, rep));
                }
            }
        } else {
            assert forall|j: int|
                0 <= j < es.len() && (#[trigger] es[j]).path@.len() == d && needs_rename(es[j], tok)
                implies all.contains(step_of(es[j], tok, rep)) by {
                assert(j < es.len() - 1);
                assert(es[j] == init[j]);
            }
        }
    }
}

proof fn lemma_plan_from_content(es: Seq<TreeEntry>, d: int, tok: Seq<char>, rep: Seq<char>)
    ensures
        forall|i: int|
            0 <= i < plan_from(es, d, tok, rep).len() ==> good_step(#[trigger] plan_from(es, d, tok, rep)[i], tok, rep),
        forall|j: int|
            0 <= j < es.len() && 1 <= (#[trigger] es[j]).path@.len() <= d && needs_rename(es[j], tok)
                ==> plan_from(es, d, tok, rep).contains(step_of(es[j], tok, rep)),
    decreases d,
{
    if d > 0 {
        lemma_steps_at_depth_content(es, d, tok, rep);
        lemma_plan_from_content(es, d - 1, tok, rep);
        let a = steps_at_depth(es, d, tok, rep);
        let b = plan_from(es, d - 1, tok, rep);
        let p = plan_from(es, d, tok, rep);
        assert(p == a + b);
        assert forall|i: int| 0 <= i < p.len() implies good_step(#[trigger] p[i], tok, rep) by {
            if i < a.len() {
                assert(p[i] == a[i]);
            } else {
                assert(p[i] == b[i - a.len()]);
            }
        }
        assert forall|j: int|
            0 <= j < es.len() && 1 <= (#[trigger] es[j]).path@.len() <= d && needs_rename(es[j], tok)
            implies p.contains(step_of(es[j], tok, rep)) by {
            let x = step_of(es[j], tok, rep);
            if es[j].path@.len() == d {
                let k = choose|k: int| 0 <= k < a.len() && a[k] == x;
                assert(p[k] == a[k]);
            } else {
                let k = choose|k: int| 0 <= k < b.len() && b[k] == x;
                assert(p[k + a.len()] == b[k]);
            }
        }
    } else {
        assert(plan_from(es, d, tok, rep) =~= Seq::<StepView>::empty());
    }
}

proof fn lemma_max_depth_bounds(es: Seq<TreeEntry>)
    ensures
        forall|j: int| 0 <= j < es.len() ==> (#[trigger] es[j]).path@.len() <= max_depth(es),
    decreases es.len(),
{
    if es.len() > 0 {
        lemma_max_depth_bounds(es.drop_last());
        assert forall|j: int| 0 <= j < es.len() implies (#[trigger] es[j]).path@.len() <= max_depth(es) by {
            if j < es.len() - 1 {
                assert(es[j] == es.drop_last()[j]);
            }
        }
    }
}

/// The plan renames exactly the entries whose names hold the token: every such entry
/// has its rename in the plan, and every step of the plan renames a name holding the
/// token to that name with the token replaced.
pub proof fn lemma_plan_complete(es: Seq<TreeEntry>, tok: Seq<char>, rep: Seq<char>)
    ensures
        forall|j: int|
            0 <= j < es.len() && needs_rename(#[trigger] es[j], tok) ==> rename_plan(es, tok, rep).contains(
                step_of(es[j], tok, rep),
            ),
        forall|i: int|
            0 <= i < rename_plan(es, tok, rep).len() ==> good_step(#[trigger] rename_plan(es, tok, rep)[i], tok, rep),
{
    lemma_max_depth_bounds(es);
    lemma_plan_from_content(es, max_depth(es), tok, rep);
    assert forall|j: int| 0 <= j < es.len() && needs_rename(#[trigger] es[j], tok) implies rename_plan(
        es,
        tok,
        rep,
    ).contains(step_of(es[j], tok, rep)) by {
        assert(1 <= es[j].path@.len() <= max_depth(es));
    }
}

/// After the plan no name holds the token: the names it renames lose every
/// occurrence, and the names it leaves alone never held one. This needs a non-empty
/// replacement that holds no copy of the token's first character and starts with a
/// character the token does not hold.
pub proof fn lemma_plan_leaves_no_token(es: Seq<TreeEntry>, tok: Seq<char>, rep: Seq<char>)
    requires
        rep.len() > 0,
        tok.len() > 0 ==> !rep.contains(tok[0]),
        !tok.contains(rep[0]),
    ensures
        forall|i: int|
            0 <= i < rename_plan(es, tok, rep).len() ==> !contains_seq(
                (#[trigger] rename_plan(es, tok, rep)[i]).2,
                tok,
            ),
        forall|j: int|
            0 <= j < es.len() && (#[trigger] es[j]).path@.len() > 0 && !needs_rename(es[j], tok) && tok.len()
                > 0 ==> !contains_seq(es[j].path@.last()@, tok),
{
    lemma_plan_from_content(es, max_depth(es), tok, rep);
    assert forall|i: int| 0 <= i < rename_plan(es, tok, rep).len() implies !contains_seq(
        (#[trigger] rename_plan(es, tok, rep)[i]).2,
        tok,
    ) by {
        let x = rename_plan(es, tok, rep)[i];
        assert(good_step(x, tok, rep));
        lemma_replace_removes_token(x.1, tok, rep);
    }
}

/// Provisioning with a project number clears the placeholder: after the plan that
/// replaces `yy-cccnn` by a well-formed number, no name of the tree holds `yy-cccnn`.
pub proof fn lemma_number_clears_placeholder(es: Seq<TreeEntry>, number: Seq<char>)
    requires
        is_number_text(number),
    ensures
        forall|i: int|
            0 <= i < rename_plan(es, token_text(), number).len() ==> !contains_seq(
                (#[trigger] rename_plan(es, token_text(), number)[i]).2,
                token_text(),
            ),
        forall|j: int|
            0 <= j < es.len() && (#[trigger] es[j]).path@.len() > 0 && !needs_rename(es[j], token_text())
                ==> !contains_seq(es[j].path@.last()@, token_text()),
{
    let tok = token_text();
    reveal_strlit("yy-cccnn");
    assert(tok =~= seq!['y', 'y', '-', 'c', 'c', 'c', 'n', 'n']);
    assert(is_digit(number[0]));
    assert forall|k: int| 0 <= k < number.len() implies number[k] != 'y' by {
        if k != 2 {
            assert(is_digit(number[k]));
        }
    }
    assert(!number.contains(tok[0]));
    assert(!tok.contains(number[0])) by {
        assert forall|k: int| 0 <= k < tok.len() implies tok[k] != number[0] by {}
    }
    lemma_plan_leaves_no_token(es, tok, number);
}

/// The greatest depth of the listing.
fn listing_depth(entries: &Vec<TreeEntry>) -> (r: usize)
    ensures
        r == max_depth(entries@),
{
    let mut best: usize = 0;
    let mut i: usize = 0;
    while i < entries.len()
        invariant
            i <= entries@.len(),
            best == max_depth(entries@.subrange(0, i as int)),
        decreases entries.len() - i,
    {
        assert(entries@.subrange(0, i + 1).drop_last() =~= entries@.subrange(0, i as int));
        let l = entries[i].path.len();
        if l > best {
            best = l;
        }
        i = i + 1;
    }
    assert(entries@.subrange(0, entries@.len() as int) =~= entries@);
    best
}

/// The rename of one entry whose name holds the token.
fn make_step(e: &TreeEntry, token: &str, replacement: &str) -> (r: RenameStep)
    requires
        e.path@.len() > 0,
    ensures
        step_view(r) == step_of(*e, token@, replacement@),
{
    let n = e.path.len();
    let mut parent: Vec<String> = Vec::new();
    let mut i: usize = 0;
    while i + 1 < n
        invariant
            n == e.path@.len(),
            n > 0,
            i < n,
            parent@.len() == i,
            forall|k: int| 0 <= k < i ==> (#[trigger] parent@[k])@ == e.path@[k]@,
        decreases n - i,
    {
        parent.push(e.path[i].clone());
        i = i + 1;
    }
    assert(components_of(parent@) =~= components_of(e.path@.drop_last()));
    let from = e.path[n - 1].clone();
    let to = replace_text(e.path[n - 1].as_str(), token, replacement);
    RenameStep { parent, from, to }
}

/// The renames that turn a copied template tree into the project's tree: each entry
/// whose name holds `token` is renamed with every occurrence replaced by
/// `replacement`, deepest entries first, in listing order within a depth.
pub fn plan_renames(entries: &Vec<TreeEntry>, token: &str, replacement: &str) -> (r: Vec<RenameStep>)
    ensures
        steps_view(r@) == rename_plan(entries@, token@, replacement@),
        forall|i: int, j: int|
            0 <= i < j < r@.len() ==> step_depth(step_view(#[trigger] r@[i])) >= step_depth(
                step_view(#[trigger] r@[j]),
            ),
{
    let top = listing_depth(entries);
    let tl = token.unicode_len();
    let mut out: Vec<RenameStep> = Vec::new();
    let mut d: usize = top;
    while d > 0
        invariant
            d <= top,
            top == max_depth(entries@),
            tl == token@.len(),
            steps_view(out@) + plan_from(entries@, d as int, token@, replacement@) == rename_plan(
                entries@,
                token@,
                replacement@,
            ),
        decreases d,
    {
        let ghost start = steps_view(out@);
        let mut i: usize = 0;
        while i < entries.len()
            invariant
                i <= entries@.len(),
                d > 0,
                tl == token@.len(),
                steps_view(out@) == start + steps_at_depth(
                    entries@.subrange(0, i as int),
                    d as int,
                    token@,
                    replacement@,
                ),
            decreases entries.len() - i,
        {
            let e = &entries[i];
            assert(entries@.subrange(0, i + 1).drop_last() =~= entries@.subrange(0, i as int));
            assert(entries@.subrange(0, i + 1).last() == entries@[i as int]);
            if e.path.len() == d && tl > 0 && contains_text(e.path[d - 1].as_str(), token) {
                let step = make_step(e, token, replacement);
                let ghost before = steps_view(out@);
                out.push(step);
                assert(steps_view(out@) =~= before.push(step_view(step)));
            }
            i = i + 1;
        }
        assert(entries@.subrange(0, entries@.len() as int) =~= entries@);
        let ghost done = steps_view(out@);
        assert(done + plan_from(entries@, d - 1, token@, replacement@) =~= start + plan_from(
            entries@,
            d as int,
            token@,
            replacement@,
        ));
        d = d - 1;
    }
    assert(steps_view(out@) + plan_from(entries@, 0, token@, replacement@) =~= steps_view(out@));
    proof {
        lemma_plan_bottom_up(entries@, token@, replacement@);
        assert forall|i: int, j: int| 0 <= i < j < out@.len() implies step_depth(
            step_view(#[trigger] out@[i]),
        ) >= step_depth(step_view(#[trigger] out@[j])) by {
            assert(steps_view(out@)[i] == step_view(out@[i]));
            assert(steps_view(out@)[j] == step_view(out@[j]));
        }
    }
    out
}

} // verus!
