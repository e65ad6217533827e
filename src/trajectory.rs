//! A fixed-step trajectory driver: starting from an initial state, it
//! samples the state and advances it by one step, again and again, while the
//! state stays in its domain and an iteration budget lasts.
use vstd::prelude::*;

verus! {

/// Iteration `i` of a run: `states[i]` passed the domain test, was sampled
/// into `(xs[i], ys[i])` and was advanced into `states[i + 1]`.
pub open spec fn step_recorded<S, P, In, Adv, Smp>(
    in_domain: In,
    advance: Adv,
    sample: Smp,
    states: Seq<S>,
    xs: Seq<P>,
    ys: Seq<P>,
    i: int,
) -> bool where In: Fn(S) -> bool, Adv: Fn(S) -> S, Smp: Fn(S) -> (P, P) {
    &&& in_domain.ensures((states[i],), true)
    &&& sample.ensures((states[i],), (xs[i], ys[i]))
    &&& advance.ensures((states[i],), states[i + 1])
}

/// `states`, `xs` and `ys` describe one run of the driver from `start`:
/// `states[i]` is the state at iteration `i`, every recorded state passed the
/// domain test, was sampled into `(xs[i], ys[i])` and was advanced into
/// `states[i + 1]`; the run stopped because the budget was spent or because
/// the last state computed left the domain.
pub open spec fn is_trace<S, P, In, Adv, Smp>(
    start: S,
    max_iter: u32,
    in_domain: In,
    advance: Adv,
    sample: Smp,
    states: Seq<S>,
    xs: Seq<P>,
    ys: Seq<P>,
) -> bool where In: Fn(S) -> bool, Adv: Fn(S) -> S, Smp: Fn(S) -> (P, P) {
    &&& xs.len() == ys.len()
    &&& xs.len() <= max_iter
    &&& states.len() == xs.len() + 1
    &&& states[0] == start
    &&& forall|i: int|
        0 <= i < xs.len() ==> #[trigger] step_recorded(in_domain, advance, sample, states, xs, ys, i)
    &&& xs.len() == max_iter || in_domain.ensures((states[xs.len() as int],), false)
}

/// A run whose domain test never rejects a state records exactly `max_iter`
/// samples: the budget alone ends it.
pub proof fn lemma_budget_spent_inside_domain<S, P, In, Adv, Smp>(
    start: S,
    max_iter: u32,
    in_domain: In,
    advance: Adv,
    sample: Smp,
    states: Seq<S>,
    xs: Seq<P>,
    ys: Seq<P>,
) where In: Fn(S) -> bool, Adv: Fn(S) -> S, Smp: Fn(S) -> (P, P)
    requires
        is_trace(start, max_iter, in_domain, advance, sample, states, xs, ys),
        forall|s: S| !in_domain.ensures((s,), false),
    ensures
        xs.len() == max_iter,
        ys.len() == max_iter,
{
}

/// Every sample that a run records comes from a state that passed the domain
/// test, and each recorded state was advanced into the next one of the run.
pub proof fn lemma_recorded_states_in_domain<S, P, In, Adv, Smp>(
    start: S,
    max_iter: u32,
    in_domain: In,
    advance: Adv,
    sample: Smp,
    states: Seq<S>,
    xs: Seq<P>,
    ys: Seq<P>,
) where In: Fn(S) -> bool, Adv: Fn(S) -> S, Smp: Fn(S) -> (P, P)
    requires
        is_trace(start, max_iter, in_domain, advance, sample, states, xs, ys),
    ensures
        forall|i: int|
            0 <= i < xs.len() ==> #[trigger] sample.ensures((states[i],), (xs[i], ys[i]))
                && in_domain.ensures((states[i],), true),
        forall|i: int|
            0 <= i < xs.len() ==> #[trigger] advance.ensures((states[i],), states[i + 1]),
{
    assert forall|i: int| 0 <= i < xs.len() implies #[trigger] sample.ensures((states[i],), (xs[i], ys[i]))
        && in_domain.ensures((states[i],), true) by {
        assert(step_recorded(in_domain, advance, sample, states, xs, ys, i));
    }
    assert forall|i: int| 0 <= i < xs.len() implies #[trigger] advance.ensures((states[i],), states[i + 1]) by {
        assert(step_recorded(in_domain, advance, sample, states, xs, ys, i));
    }
}

/// Runs the driver from `start` for at most `max_iter` iterations. Each
/// iteration records the sample of the current state and replaces the state
/// by its successor; the run ends before recording a state that is outside
/// the domain, or when `max_iter` states have been recorded.
pub fn trace<S, P, In, Adv, Smp>(
    start: S,
    max_iter: u32,
    in_domain: &In,
    advance: &Adv,
    sample: &Smp,
) -> (r: (Vec<P>, Vec<P>)) where S: Copy, In: Fn(S) -> bool, Adv: Fn(S) -> S, Smp: Fn(S) -> (P, P)
    requires
        forall|s: S| in_domain.requires((s,)),
        forall|s: S| advance.requires((s,)),
        forall|s: S| sample.requires((s,)),
    ensures
        r.0@.len() == r.1@.len(),
        r.0@.len() <= max_iter,
        max_iter == 0 ==> r.0@.len() == 0 && r.1@.len() == 0,
        exists|states: Seq<S>| is_trace(start, max_iter, *in_domain, *advance, *sample, states, r.0@, r.1@),
{
    let mut state = start;
    let mut count: u32 = 0;
    let mut xs: Vec<P> = Vec::new();
    let mut ys: Vec<P> = Vec::new();
    let ghost mut states: Seq<S> = seq![start];
    loop
        invariant
            forall|s: S| in_domain.requires((s,)),
            forall|s: S| advance.requires((s,)),
            forall|s: S| sample.requires((s,)),
            count <= max_iter,
            xs@.len() == count,
            ys@.len() == count,
            states.len() == count + 1,
            states[0] == start,
            states[count as int] == state,
            forall|i: int|
                0 <= i < count ==> #[trigger] step_recorded(*in_domain, *advance, *sample, states, xs@, ys@, i),
        ensures
            count <= max_iter,
            xs@.len() == count,
            ys@.len() == count,
            states.len() == count + 1,
            states[0] == start,
            forall|i: int|
                0 <= i < count ==> #[trigger] step_recorded(*in_domain, *advance, *sample, states, xs@, ys@, i),
            count == max_iter || in_domain.ensures((states[count as int],), false),
        decreases max_iter - count,
    {
        let inside = in_domain(state);
        if !inside || count >= max_iter {
            break;
        }
        let ghost xs0 = xs@;
        let ghost ys0 = ys@;
        let (x, y) = sample(state);
        xs.push(x);
        ys.push(y);
        let next = advance(state);
        proof {
            let old_states = states;
            states = states.push(next);
            assert forall|i: int| 0 <= i <= count implies #[trigger] step_recorded(
                *in_domain,
                *advance,
                *sample,
                states,
                xs@,
                ys@,
                i,
            ) by {
                if i < count {
                    assert(step_recorded(*in_domain, *advance, *sample, old_states, xs0, ys0, i));
                }
            }
        }
        count = count + 1;
        state = next;
    }
    assert(is_trace(start, max_iter, *in_domain, *advance, *sample, states, xs@, ys@));
    (xs, ys)
}

} // verus!
