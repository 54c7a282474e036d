//! The iteration budget of an escape-time evaluation.
//!
//! An evaluation walks the orbit `z_0 = 0, z_1, z_2, ...` of a point and
//! counts the steps it takes. Before each step it looks at the current orbit
//! point: if the point has left the escape radius, or the count has reached
//! the budget `max_iter`, it stops and returns the count. Computing the orbit
//! and testing it against the radius is the caller's floating-point work; all
//! this module needs of it is the outcome of that test, one `bool` per orbit
//! point.

use vstd::prelude::*;

verus! {

/// Whether an evaluation that has taken `count` steps takes another one,
/// given whether the orbit point it stands on is within the escape radius.
pub open spec fn continues(count: nat, max_iter: nat, within_radius: bool) -> bool {
    within_radius && count < max_iter
}

/// `n` is the escape time of an orbit under the budget `max_iter`, where
/// `within(k)` says that the orbit point `z_k` is within the escape radius:
/// every point before `z_n` is within the radius, and `z_n` is the first
/// that is not, unless the budget ran out there.
pub open spec fn is_escape_time(within: spec_fn(nat) -> bool, max_iter: nat, n: nat) -> bool {
    &&& n <= max_iter
    &&& forall|k: nat| k < n ==> #[trigger] within(k)
    &&& (n == max_iter || !within(n))
}

/// The count that an evaluation returns when it resumes after `count` steps.
pub open spec fn escape_time_from(within: spec_fn(nat) -> bool, count: nat, max_iter: nat) -> nat
    decreases max_iter - count,
{
    if continues(count, max_iter, within(count)) {
        escape_time_from(within, count + 1, max_iter)
    } else {
        count
    }
}

/// The count that an evaluation returns: it starts on `z_0` with no step
/// taken.
pub open spec fn escape_time(within: spec_fn(nat) -> bool, max_iter: nat) -> nat {
    escape_time_from(within, 0, max_iter)
}

/// One decision of an evaluation: `Some` of the new count when another step
/// is to be taken, `None` when the evaluation is over and `count` is its
/// result.
pub fn escape_step(count: u32, max_iter: u32, within_radius: bool) -> (next: Option<u32>)
    ensures
        next == if continues(count as nat, max_iter as nat, within_radius) {
            Some((count + 1) as u32)
        } else {
            None
        },
        next matches Some(n) ==> n <= max_iter,
{
    if within_radius && count < max_iter {
        Some(count + 1)
    } else {
        None
    }
}

/// Resuming an evaluation never loses steps, and an evaluation that is
/// within its budget stays within it. Every point from `z_count` up to the
/// one it stops on was within the radius, and it stops on a point outside
/// the radius unless the budget ran out.
pub proof fn lemma_escape_time_from(within: spec_fn(nat) -> bool, count: nat, max_iter: nat)
    ensures
        count <= escape_time_from(within, count, max_iter),
        count <= max_iter ==> escape_time_from(within, count, max_iter) <= max_iter,
        forall|k: nat|
            count <= k < escape_time_from(within, count, max_iter) ==> #[trigger] within(k),
        escape_time_from(within, count, max_iter) >= max_iter || !within(
            escape_time_from(within, count, max_iter),
        ),
    decreases max_iter - count,
{
    if continues(count, max_iter, within(count)) {
        lemma_escape_time_from(within, count + 1, max_iter);
    }
}

/// An evaluation returns the escape time of the orbit it walked, and an
/// orbit has no other escape time.
pub proof fn lemma_escape_time_is_first_exit(within: spec_fn(nat) -> bool, max_iter: nat, n: nat)
    ensures
        is_escape_time(within, max_iter, n) <==> n == escape_time(within, max_iter),
{
    lemma_escape_time_from(within, 0, max_iter);
    let t = escape_time(within, max_iter);
    assert(is_escape_time(within, max_iter, t));
    if is_escape_time(within, max_iter, n) && n != t {
        if n < t {
            assert(within(n));
        } else {
            assert(within(t));
        }
    }
}

/// The count of an evaluation lies between 0 and the budget, and with no
/// budget at all it is 0.
pub proof fn lemma_escape_time_bounded(within: spec_fn(nat) -> bool, max_iter: nat)
    ensures
        escape_time(within, max_iter) <= max_iter,
        max_iter == 0 ==> escape_time(within, max_iter) == 0,
{
    lemma_escape_time_from(within, 0, max_iter);
}

/// An orbit that starts within the escape radius and is outside of it after
/// its first step has escape time 1 under every budget of at least one step.
/// This is the orbit of every `c` with `|c| > 2`: `z_0 = 0` and `z_1 = c`.
pub proof fn lemma_escape_time_immediate(within: spec_fn(nat) -> bool, max_iter: nat)
    requires
        within(0),
        !within(1),
        max_iter >= 1,
    ensures
        escape_time(within, max_iter) == 1,
{
    assert(is_escape_time(within, max_iter, 1)) by {
        assert forall|k: nat| k < 1 implies #[trigger] within(k) by {
            assert(k == 0);
        }
    }
    lemma_escape_time_is_first_exit(within, max_iter, 1);
}

/// An orbit that never leaves the escape radius uses up the whole budget:
/// its count is `max_iter`, whatever the budget. This is the orbit of
/// `c = 0`, which stays at 0.
pub proof fn lemma_escape_time_never_escaping(within: spec_fn(nat) -> bool, max_iter: nat)
    requires
        forall|k: nat| #[trigger] within(k),
    ensures
        escape_time(within, max_iter) == max_iter,
{
    assert(is_escape_time(within, max_iter, max_iter));
    lemma_escape_time_is_first_exit(within, max_iter, max_iter);
}

/// The evaluation is a function of the outcomes it is shown: two orbits that
/// agree on every point up to the budget have the same escape time.
pub proof fn lemma_escape_time_deterministic(
    first: spec_fn(nat) -> bool,
    second: spec_fn(nat) -> bool,
    max_iter: nat,
)
    requires
        forall|k: nat| k <= max_iter ==> (#[trigger] first(k)) == second(k),
    ensures
        escape_time(first, max_iter) == escape_time(second, max_iter),
{
    lemma_escape_time_from(first, 0, max_iter);
    let t = escape_time(first, max_iter);
    assert(is_escape_time(first, max_iter, t));
    assert(is_escape_time(second, max_iter, t)) by {
        assert forall|k: nat| k < t implies #[trigger] second(k) by {
            assert(first(k));
        }
    }
    lemma_escape_time_is_first_exit(second, max_iter, t);
}

} // verus!
