use vstd::prelude::*;

use crate::adapter::pull_step;
use crate::sender::Poll;
use crate::stream::{lift, try_steps, Step};

verus! {

/// What `k` successive pulls return, starting from a sequence that is
/// terminated or not (`done`) and whose producer still has `rem` to run.
pub open spec fn pulls<T>(done: bool, rem: Seq<Step<T>>, k: nat) -> Seq<Poll<Option<T>>>
    decreases k,
{
    if k == 0 {
        Seq::empty()
    } else {
        let (d, r, o) = pull_step(done, rem);
        seq![o] + pulls(d, r, (k - 1) as nat)
    }
}

/// The values the steps send, in order.
pub open spec fn sent<T>(steps: Seq<Step<T>>) -> Seq<T>
    decreases steps.len(),
{
    if steps.len() == 0 {
        Seq::empty()
    } else {
        match steps[0] {
            Step::Send(v) => seq![v] + sent(steps.drop_first()),
            Step::Yield => sent(steps.drop_first()),
        }
    }
}

/// The values that a run of pulls handed out, in order.
pub open spec fn delivered<T>(outs: Seq<Poll<Option<T>>>) -> Seq<T>
    decreases outs.len(),
{
    if outs.len() == 0 {
        Seq::empty()
    } else {
        match outs[0] {
            Poll::Ready(Some(v)) => seq![v] + delivered(outs.drop_first()),
            _ => delivered(outs.drop_first()),
        }
    }
}

proof fn lemma_delivered_cons<T>(o: Poll<Option<T>>, rest: Seq<Poll<Option<T>>>)
    ensures
        delivered(seq![o] + rest) == match o {
            Poll::Ready(Some(v)) => seq![v] + delivered(rest),
            _ => delivered(rest),
        },
{
    assert((seq![o] + rest).drop_first() =~= rest);
}

proof fn lemma_pulls_len<T>(done: bool, rem: Seq<Step<T>>, k: nat)
    ensures
        pulls(done, rem, k).len() == k,
    decreases k,
{
    if k > 0 {
        let (d, r, o) = pull_step(done, rem);
        lemma_pulls_len(d, r, (k - 1) as nat);
    }
}

/// Once a sequence has ended, every pull returns its end: nothing more is
/// delivered, and the producer is not resumed (the state stays as it is).
pub proof fn lemma_end_is_final<T>(rem: Seq<Step<T>>, k: nat)
    ensures
        pull_step(true, rem) == (true, rem, Poll::<Option<T>>::Ready(None)),
        pulls(true, rem, k) == Seq::new(k, |i: int| Poll::<Option<T>>::Ready(None)),
        delivered(pulls(true, rem, k)) == Seq::<T>::empty(),
    decreases k,
{
    if k > 0 {
        lemma_end_is_final(rem, (k - 1) as nat);
        assert(pulls(true, rem, k) =~= Seq::new(k, |i: int| Poll::<Option<T>>::Ready(None)));
        lemma_delivered_cons(Poll::<Option<T>>::Ready(None), pulls(true, rem, (k - 1) as nat));
    }
}

/// Pulling a producer that runs `rem` more than `rem.len()` times hands out
/// exactly the values it sends, in the order it sends them, with none skipped
/// or repeated, however many times it suspends without sending; from the
/// `rem.len()`-th pull on, every pull returns the end of the sequence.
pub proof fn lemma_delivers_what_is_sent<T>(rem: Seq<Step<T>>, k: nat)
    requires
        k > rem.len(),
    ensures
        pulls(false, rem, k).len() == k,
        delivered(pulls(false, rem, k)) == sent(rem),
        forall|i: int| rem.len() <= i < k ==> pulls(false, rem, k)[i] == Poll::<Option<T>>::Ready(None),
    decreases rem.len(),
{
    lemma_pulls_len(false, rem, k);
    let (d, r, o) = pull_step(false, rem);
    let rest = pulls(d, r, (k - 1) as nat);
    lemma_delivered_cons(o, rest);
    if rem.len() == 0 {
        lemma_end_is_final(rem, (k - 1) as nat);
    } else {
        lemma_delivers_what_is_sent(rem.drop_first(), (k - 1) as nat);
    }
}

/// What one pull returns when the producer's next step is `s`.
pub open spec fn step_output<T>(s: Step<T>) -> Poll<Option<T>> {
    match s {
        Step::Send(v) => Poll::Ready(Some(v)),
        Step::Yield => Poll::Pending,
    }
}

/// The state (terminated, steps left) after `k` successive pulls.
pub open spec fn after<T>(done: bool, rem: Seq<Step<T>>, k: nat) -> (bool, Seq<Step<T>>)
    decreases k,
{
    if k == 0 {
        (done, rem)
    } else {
        let (d, r, o) = pull_step(done, rem);
        after(d, r, (k - 1) as nat)
    }
}

/// Pull by pull: the `i`-th pull runs the `i`-th step of the producer and
/// returns what that step sends (nothing yet, for a suspension of its own);
/// once the steps are used up, every pull returns the end of the sequence.
pub proof fn lemma_pull_by_pull<T>(rem: Seq<Step<T>>, k: nat)
    ensures
        pulls(false, rem, k).len() == k,
        forall|i: int|
            0 <= i < k ==> pulls(false, rem, k)[i] == if i < rem.len() {
                step_output(rem[i])
            } else {
                Poll::<Option<T>>::Ready(None)
            },
    decreases k,
{
    lemma_pulls_len(false, rem, k);
    if k > 0 {
        let (d, r, o) = pull_step(false, rem);
        if rem.len() == 0 {
            lemma_end_is_final(rem, (k - 1) as nat);
        } else {
            lemma_pull_by_pull(rem.drop_first(), (k - 1) as nat);
        }
        assert forall|i: int| 0 <= i < k implies pulls(false, rem, k)[i] == if i < rem.len() {
            step_output(rem[i])
        } else {
            Poll::<Option<T>>::Ready(None)
        } by {
            if i > 0 {
                assert(pulls(false, rem, k)[i] == pulls(d, r, (k - 1) as nat)[i - 1]);
            }
        }
    }
}

/// More pulls than the producer has steps leave the sequence terminated,
/// with nothing left to run.
pub proof fn lemma_ends_terminated<T>(rem: Seq<Step<T>>, k: nat)
    requires
        k > rem.len(),
    ensures
        after(false, rem, k).0,
        after(false, rem, k).1.len() == 0,
    decreases rem.len(),
{
    if rem.len() == 0 {
        lemma_stays_terminated(rem, (k - 1) as nat);
    } else {
        lemma_ends_terminated(rem.drop_first(), (k - 1) as nat);
    }
}

proof fn lemma_stays_terminated<T>(rem: Seq<Step<T>>, k: nat)
    ensures
        after(true, rem, k) == (true, rem),
    decreases k,
{
    if k > 0 {
        lemma_stays_terminated(rem, (k - 1) as nat);
    }
}

/// Pulling a producer that only sends, then completes, returns its values in
/// order, one per pull, then the end of the sequence on every further pull.
pub proof fn lemma_sends_in_order<T>(rem: Seq<Step<T>>, k: nat)
    requires
        forall|i: int| 0 <= i < rem.len() ==> rem[i] is Send,
    ensures
        pulls(false, rem, k).len() == k,
        forall|i: int|
            0 <= i < k ==> pulls(false, rem, k)[i] == if i < rem.len() {
                Poll::Ready(Some(rem[i]->Send_0))
            } else {
                Poll::<Option<T>>::Ready(None)
            },
{
    lemma_pull_by_pull(rem, k);
}

proof fn lemma_sent_concat<T>(a: Seq<Step<T>>, b: Seq<Step<T>>)
    ensures
        sent(a + b) == sent(a) + sent(b),
    decreases a.len(),
{
    if a.len() == 0 {
        assert(a + b =~= b);
    } else {
        assert((a + b).drop_first() =~= a.drop_first() + b);
        lemma_sent_concat(a.drop_first(), b);
        assert((a + b)[0] == a[0]);
        match a[0] {
            Step::Send(v) => {
                assert(seq![v] + sent(a.drop_first()) + sent(b) =~= seq![v] + (sent(a.drop_first()) + sent(b)));
            },
            Step::Yield => {},
        }
    }
}

proof fn lemma_sent_lifted<T, E>(steps: Seq<Step<T>>)
    ensures
        sent(steps.map_values(|s: Step<T>| lift::<T, E>(s))) == sent(steps).map_values(|v: T| Ok::<T, E>(v)),
    decreases steps.len(),
{
    let lifted = steps.map_values(|s: Step<T>| lift::<T, E>(s));
    if steps.len() == 0 {
        assert(sent(steps).map_values(|v: T| Ok::<T, E>(v)) =~= Seq::empty());
    } else {
        assert(lifted.drop_first() =~= steps.drop_first().map_values(|s: Step<T>| lift::<T, E>(s)));
        lemma_sent_lifted::<T, E>(steps.drop_first());
        match steps[0] {
            Step::Send(v) => {
                assert(sent(steps).map_values(|v: T| Ok::<T, E>(v)) =~= seq![Ok::<T, E>(v)] + sent(
                    steps.drop_first(),
                ).map_values(|v: T| Ok::<T, E>(v)));
            },
            Step::Yield => {},
        }
    }
}

/// A fallible producer that runs `steps` and then fails with `e`: more than
/// enough pulls hand out its values as successes, then exactly one failure
/// equal to `e`, returned by the pull right after the last step; every pull
/// after that returns the end of the sequence, which is then terminated.
pub proof fn lemma_failure_comes_last<T, E>(steps: Seq<Step<T>>, e: E, k: nat)
    requires
        k > steps.len() + 1,
    ensures
        delivered(pulls(false, try_steps(steps, Some(e)), k)) == sent(steps).map_values(
            |v: T| Ok::<T, E>(v),
        ) + seq![Err::<T, E>(e)],
        pulls(false, try_steps(steps, Some(e)), k)[k - 1] == Poll::<Option<Result<T, E>>>::Ready(None),
        pulls(false, try_steps(steps, Some(e)), k)[steps.len() as int] == Poll::Ready(
            Some(Err::<T, E>(e)),
        ),
        forall|i: int|
            steps.len() < i < k ==> pulls(false, try_steps(steps, Some(e)), k)[i] == Poll::<
                Option<Result<T, E>>,
            >::Ready(None),
        after(false, try_steps(steps, Some(e)), k).0,
{
    let all = try_steps(steps, Some(e));
    let lifted = steps.map_values(|s: Step<T>| lift::<T, E>(s));
    let last = seq![Step::Send(Err::<T, E>(e))];
    lemma_sent_concat(lifted, last);
    lemma_sent_lifted::<T, E>(steps);
    assert(last.drop_first() =~= Seq::<Step<Result<T, E>>>::empty());
    assert(last[0] == Step::Send(Err::<T, E>(e)));
    assert(sent(last.drop_first()) == Seq::<Result<T, E>>::empty());
    assert(sent(last) =~= seq![Err::<T, E>(e)]);
    lemma_delivers_what_is_sent(all, k);
    lemma_pull_by_pull(all, k);
    lemma_ends_terminated(all, k);
    assert(all[steps.len() as int] == Step::Send(Err::<T, E>(e)));
}

/// A fallible producer that runs `steps` and then succeeds: more than enough
/// pulls hand out exactly its values as successes, with no failure, then the
/// end of the sequence, which is then terminated.
pub proof fn lemma_success_sends_no_failure<T, E>(steps: Seq<Step<T>>, k: nat)
    requires
        k > steps.len(),
    ensures
        delivered(pulls(false, try_steps(steps, None::<E>), k)) == sent(steps).map_values(
            |v: T| Ok::<T, E>(v),
        ),
        pulls(false, try_steps(steps, None::<E>), k)[k - 1] == Poll::<Option<Result<T, E>>>::Ready(None),
        after(false, try_steps(steps, None::<E>), k).0,
{
    let all = try_steps(steps, None::<E>);
    let lifted = steps.map_values(|s: Step<T>| lift::<T, E>(s));
    assert(all =~= lifted);
    lemma_sent_lifted::<T, E>(steps);
    lemma_delivers_what_is_sent(all, k);
    lemma_ends_terminated(all, k);
}

} // verus!
