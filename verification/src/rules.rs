//! Shared vocabulary of the checking functions: an outcome is `None` when a
//! rule holds and the error message of the first rule that fails otherwise.
use vstd::prelude::*;

verus! {

/// The error a `Result` carries, by its text.
pub open spec fn err_of(r: Result<(), String>) -> Option<Seq<char>> {
    match r {
        Ok(_) => None,
        Err(e) => Some(e@),
    }
}

/// The first error among `f(lo), f(lo + 1), ..., f(hi - 1)`.
pub open spec fn first_err(f: spec_fn(int) -> Option<Seq<char>>, lo: int, hi: int) -> Option<
    Seq<char>,
>
    decreases hi - lo,
{
    if lo >= hi {
        None
    } else if f(lo).is_some() {
        f(lo)
    } else {
        first_err(f, lo + 1, hi)
    }
}

/// Chains two checks: the first error wins.
pub open spec fn then(a: Option<Seq<char>>, b: Option<Seq<char>>) -> Option<Seq<char>> {
    if a.is_some() {
        a
    } else {
        b
    }
}

pub proof fn lemma_first_err_none(f: spec_fn(int) -> Option<Seq<char>>, lo: int, hi: int)
    requires
        forall|j: int| lo <= j < hi ==> #[trigger] f(j).is_none(),
    ensures
        first_err(f, lo, hi).is_none(),
    decreases hi - lo,
{
    if lo < hi {
        lemma_first_err_none(f, lo + 1, hi);
    }
}

pub proof fn lemma_first_err_at(f: spec_fn(int) -> Option<Seq<char>>, lo: int, hi: int, i: int)
    requires
        lo <= i < hi,
        forall|j: int| lo <= j < i ==> #[trigger] f(j).is_none(),
        f(i).is_some(),
    ensures
        first_err(f, lo, hi) == f(i),
    decreases i - lo,
{
    if lo < i {
        lemma_first_err_at(f, lo + 1, hi, i);
    }
}

/// When no check fails, each check passes.
pub proof fn lemma_first_err_each(f: spec_fn(int) -> Option<Seq<char>>, lo: int, hi: int)
    requires
        first_err(f, lo, hi).is_none(),
    ensures
        forall|j: int| lo <= j < hi ==> #[trigger] f(j).is_none(),
    decreases hi - lo,
{
    if lo < hi {
        lemma_first_err_each(f, lo + 1, hi);
    }
}

} // verus!
