//! A finalizer attached to a sequence of results, run only when the sequence
//! ends without a failure.

use crate::machine::Phase;
use crate::machine::Polled;
use crate::machine::Step;
use crate::runtime::pin_boxed;
use crate::runtime::resume_future;
use std::future::Future;
use std::pin::Pin;
use std::task::Context;
use vstd::prelude::*;

verus! {

/// What a driver can observe of a `TryFinally`.
pub struct TryStreamState {
    /// Which computation is resumed next, if any.
    pub phase: Phase,
    /// Whether the finalizer factory has been invoked.
    pub invoked: bool,
}

/// What the two computations answer in one resume call, should the call get
/// to resume them.
pub struct TryStreamRound<V, E> {
    /// The answer of the wrapped stream: pending, a success, a failure, or
    /// the end.
    pub item: Polled<Option<Result<V, E>>>,
    /// Whether the finalizer completes.
    pub finalizer_done: bool,
}

impl TryStreamState {
    /// The state of a fresh combinator.
    pub open spec fn initial() -> Self {
        TryStreamState { phase: Phase::RunningItem, invoked: false }
    }

    /// The states that a combinator can be in: the factory has not been
    /// invoked while the wrapped stream is held, and it has been while the
    /// finalizer is in flight.
    pub open spec fn wf(self) -> bool {
        match self.phase {
            Phase::RunningItem => !self.invoked,
            Phase::RunningFinalizer => self.invoked,
            Phase::Done => true,
        }
    }

    /// The state once the wrapped stream has answered `outcome`, in phase
    /// `RunningItem`: the end of the stream starts the finalizer, and a
    /// failure ends the combinator without it.
    pub open spec fn after_item<V, E>(self, outcome: Polled<Option<Result<V, E>>>) -> Self {
        match outcome {
            Polled::Ready(None) => TryStreamState { phase: Phase::RunningFinalizer, invoked: true },
            Polled::Ready(Some(Err(_))) => TryStreamState {
                phase: Phase::Done,
                invoked: self.invoked,
            },
            _ => self,
        }
    }

    /// How the call goes on once the wrapped stream has answered `outcome`,
    /// in phase `RunningItem`: a success, a failure or a pending answer is
    /// reported as it is.
    pub open spec fn step_of_item<V, E>(outcome: Polled<Option<Result<V, E>>>) -> Step<
        Option<Result<V, E>>,
    > {
        if outcome == Polled::Ready(None::<Result<V, E>>) {
            Step::Finalize
        } else {
            Step::Report(outcome)
        }
    }

    /// The state once the finalizer has answered, in phase
    /// `RunningFinalizer`.
    pub open spec fn after_finalizer(self, done: bool) -> Self {
        if done {
            TryStreamState { phase: Phase::Done, invoked: self.invoked }
        } else {
            self
        }
    }

    /// What the finalizer's answer makes the call report, in phase
    /// `RunningFinalizer`: the end of the stream, once the finalizer is done.
    pub open spec fn report_of_finalizer<V, E>(done: bool) -> Polled<Option<Result<V, E>>> {
        if done {
            Polled::Ready(None)
        } else {
            Polled::Pending
        }
    }

    /// One resume call: the state it leaves and what it reports.
    pub open spec fn poll_next<V, E>(self, round: TryStreamRound<V, E>) -> (
        Self,
        Polled<Option<Result<V, E>>>,
    ) {
        match self.phase {
            Phase::RunningItem => match Self::step_of_item(round.item) {
                Step::Report(polled) => (self.after_item(round.item), polled),
                Step::Finalize => (
                    self.after_item(round.item).after_finalizer(round.finalizer_done),
                    Self::report_of_finalizer(round.finalizer_done),
                ),
            },
            Phase::RunningFinalizer => (
                self.after_finalizer(round.finalizer_done),
                Self::report_of_finalizer(round.finalizer_done),
            ),
            Phase::Done => (self, Polled::Ready(None)),
        }
    }

    /// The state after the first `n` of the resume calls `rounds`.
    pub open spec fn after<V, E>(self, rounds: Seq<TryStreamRound<V, E>>, n: nat) -> Self
        decreases n,
    {
        if n == 0 {
            self
        } else {
            self.after(rounds, (n - 1) as nat).poll_next(rounds[n - 1]).0
        }
    }

    /// What resume call number `i` of `rounds` reports, counting from 0.
    pub open spec fn report<V, E>(self, rounds: Seq<TryStreamRound<V, E>>, i: nat) -> Polled<
        Option<Result<V, E>>,
    > {
        self.after(rounds, i).poll_next(rounds[i as int]).1
    }
}

impl TryStreamState {
    /// Whether the wrapped stream goes on after `outcome`: it does unless it
    /// has ended or failed.
    pub open spec fn goes_on<V, E>(outcome: Polled<Option<Result<V, E>>>) -> bool {
        match outcome {
            Polled::Pending => true,
            Polled::Ready(Some(Ok(_))) => true,
            _ => false,
        }
    }

    /// Phases are visited in order and none is entered twice: whatever a
    /// resume call meets, it leaves a state the combinator can be in, in the
    /// same phase or a later one. The factory is invoked only by the call
    /// that leaves `RunningItem`, so at most once.
    pub proof fn law_phase_only_advances<V, E>(self, round: TryStreamRound<V, E>)
        requires
            self.wf(),
        ensures
            self.poll_next(round).0.wf(),
            self.phase.rank() <= self.poll_next(round).0.phase.rank(),
            self.invoked ==> self.poll_next(round).0.invoked,
            self.poll_next(round).0.invoked != self.invoked ==> self.phase == Phase::RunningItem
                && self.poll_next(round).0.phase != Phase::RunningItem,
    {
    }

    /// Over any number of resume calls, a state that the combinator can be
    /// in is kept, and the phase never goes back.
    pub proof fn law_phases_in_order<V, E>(
        self,
        rounds: Seq<TryStreamRound<V, E>>,
        n: nat,
        m: nat,
    )
        requires
            self.wf(),
            n <= m,
        ensures
            self.after(rounds, m).wf(),
            self.after(rounds, n).phase.rank() <= self.after(rounds, m).phase.rank(),
            self.after(rounds, n).invoked ==> self.after(rounds, m).invoked,
        decreases m,
    {
        if m > 0 {
            let before = self.after(rounds, (m - 1) as nat);
            if n < m {
                self.law_phases_in_order(rounds, n, (m - 1) as nat);
            } else {
                self.law_phases_in_order(rounds, (m - 1) as nat, (m - 1) as nat);
            }
            before.law_phase_only_advances(rounds[m - 1]);
        }
    }

    /// Until the wrapped stream ends or fails, each resume call reports
    /// exactly what the wrapped stream answered, a success as much as a
    /// pending answer, and changes nothing: the factory is not invoked.
    pub proof fn law_passes_through_while_going_on<V, E>(
        self,
        rounds: Seq<TryStreamRound<V, E>>,
        k: nat,
    )
        requires
            self.phase == Phase::RunningItem,
            k <= rounds.len(),
            forall|i: int| 0 <= i < k ==> Self::goes_on((#[trigger] rounds[i]).item),
        ensures
            forall|n: nat| n <= k ==> #[trigger] self.after(rounds, n) == self,
            forall|i: nat| i < k ==> #[trigger] self.report(rounds, i) == rounds[i as int].item,
        decreases k,
    {
        if k > 0 {
            self.law_passes_through_while_going_on(rounds, (k - 1) as nat);
            assert(self.after(rounds, (k - 1) as nat) == self);
            assert(Self::goes_on(rounds[k - 1].item));
            assert(self.after(rounds, k) == self);
        }
    }

    /// Where the wrapped stream fails in call number `k`: that call reports
    /// the failure as it is and ends the combinator, every later call
    /// reports the end of the stream, and the factory is never invoked, in
    /// no call before, at or after the failure.
    pub proof fn law_failure_skips_finalizer<V, E>(
        self,
        rounds: Seq<TryStreamRound<V, E>>,
        k: nat,
        error: E,
        n: nat,
    )
        requires
            self.wf(),
            self.phase == Phase::RunningItem,
            k < rounds.len(),
            forall|i: int| 0 <= i < k ==> Self::goes_on((#[trigger] rounds[i]).item),
            rounds[k as int].item == Polled::Ready(Some(Err::<V, E>(error))),
        ensures
            forall|i: nat| i < k ==> #[trigger] self.report(rounds, i) == rounds[i as int].item,
            self.report(rounds, k) == Polled::Ready(Some(Err::<V, E>(error))),
            !self.after(rounds, n).invoked,
            self.after(rounds, n).phase != Phase::RunningFinalizer,
            n > k ==> self.after(rounds, n).phase == Phase::Done,
            n > k ==> self.report(rounds, n) == Polled::Ready(None::<Result<V, E>>),
        decreases n,
    {
        self.law_passes_through_while_going_on(rounds, k);
        assert(self.after(rounds, k) == self);
        if n <= k {
            assert(self.after(rounds, n) == self);
        } else {
            self.law_failure_skips_finalizer(rounds, k, error, (n - 1) as nat);
        }
    }

    /// Where the wrapped stream ends without a failure in call number `k`,
    /// and the finalizer is not ready `j` times and then completes: the
    /// factory is invoked in call `k` and in no earlier one, the calls from
    /// `k` on report that the stream is not ready while the finalizer is
    /// not, and call `k + j`, in which the finalizer completes, is the one
    /// that reports the end.
    pub proof fn law_ends_after_finalizer<V, E>(
        self,
        rounds: Seq<TryStreamRound<V, E>>,
        k: nat,
        j: nat,
    )
        requires
            self.wf(),
            self.phase == Phase::RunningItem,
            k + j < rounds.len(),
            forall|i: int| 0 <= i < k ==> Self::goes_on((#[trigger] rounds[i]).item),
            rounds[k as int].item == Polled::Ready(None::<Result<V, E>>),
            forall|i: int| k <= i < k + j ==> !(#[trigger] rounds[i]).finalizer_done,
            rounds[(k + j) as int].finalizer_done,
        ensures
            forall|i: nat| i < k ==> #[trigger] self.report(rounds, i) == rounds[i as int].item,
            forall|i: nat|
                k <= i < k + j ==> #[trigger] self.report(rounds, i) == Polled::<
                    Option<Result<V, E>>,
                >::Pending,
            self.report(rounds, (k + j) as nat) == Polled::Ready(None::<Result<V, E>>),
            forall|n: nat| n <= k ==> !(#[trigger] self.after(rounds, n)).invoked,
            forall|n: nat|
                k < n <= k + j ==> #[trigger] self.after(rounds, n) == (TryStreamState {
                    phase: Phase::RunningFinalizer,
                    invoked: true,
                }),
            self.after(rounds, (k + j + 1) as nat) == (TryStreamState {
                phase: Phase::Done,
                invoked: true,
            }),
    {
        self.law_passes_through_while_going_on(rounds, k);
        assert(self.after(rounds, k) == self);
        self.lemma_finalizer_in_flight(rounds, k, j, (k + j) as nat);
        assert forall|i: nat| k <= i < k + j implies #[trigger] self.report(rounds, i) == Polled::<
            Option<Result<V, E>>,
        >::Pending by {
            assert(!rounds[i as int].finalizer_done);
            if i > k {
                assert(self.after(rounds, i).phase == Phase::RunningFinalizer);
            }
        }
        if j > 0 {
            assert(self.after(rounds, (k + j) as nat).phase == Phase::RunningFinalizer);
        }
        assert forall|n: nat| n <= k implies !(#[trigger] self.after(rounds, n)).invoked by {
            assert(self.after(rounds, n) == self);
        }
    }

    /// From the call in which the wrapped stream ended up to the one in
    /// which the finalizer completes, the finalizer is in flight.
    proof fn lemma_finalizer_in_flight<V, E>(
        self,
        rounds: Seq<TryStreamRound<V, E>>,
        k: nat,
        j: nat,
        n: nat,
    )
        requires
            self.phase == Phase::RunningItem,
            self.after(rounds, k) == self,
            k + j < rounds.len(),
            rounds[k as int].item == Polled::Ready(None::<Result<V, E>>),
            forall|i: int| k <= i < k + j ==> !(#[trigger] rounds[i]).finalizer_done,
            n <= k + j,
        ensures
            forall|m: nat|
                k < m <= n ==> #[trigger] self.after(rounds, m) == (TryStreamState {
                    phase: Phase::RunningFinalizer,
                    invoked: true,
                }),
        decreases n,
    {
        if n > k {
            self.lemma_finalizer_in_flight(rounds, k, j, (n - 1) as nat);
            assert(!rounds[n - 1].finalizer_done);
            if n - 1 > k {
                assert(self.after(rounds, (n - 1) as nat).phase == Phase::RunningFinalizer);
            }
        }
    }

    /// Once the combined stream has ended, after a failure or after the
    /// finalizer, every further resume call reports the end again and
    /// changes nothing: the factory is not invoked then.
    pub proof fn law_done_stays_done<V, E>(self, rounds: Seq<TryStreamRound<V, E>>, n: nat)
        requires
            self.phase == Phase::Done,
        ensures
            self.after(rounds, n) == self,
            self.report(rounds, n) == Polled::Ready(None::<Result<V, E>>),
        decreases n,
    {
        if n > 0 {
            self.law_done_stays_done(rounds, (n - 1) as nat);
        }
    }
}

/// A stream of results that yields what the wrapped stream yields. Once the
/// wrapped stream has ended, it runs a finalizer before it reports its own
/// end; after a failure it ends at once, and the finalizer is never run.
#[verifier::reject_recursive_types(ST)]
#[verifier::reject_recursive_types(Fut)]
pub struct TryFinally<ST, Fut, F> {
    item: Option<Pin<Box<ST>>>,
    fut: Option<Pin<Box<Fut>>>,
    f: Option<F>,
    wrapped: Ghost<Option<ST>>,
    started: Ghost<Option<Fut>>,
}

impl<ST, Fut, F> View for TryFinally<ST, Fut, F> {
    type V = TryStreamState;

    closed spec fn view(&self) -> TryStreamState {
        TryStreamState {
            phase: if self.item is Some {
                Phase::RunningItem
            } else if self.fut is Some {
                Phase::RunningFinalizer
            } else {
                Phase::Done
            },
            invoked: self.started@ is Some,
        }
    }
}

/// Attaches a finalizer to any value that is to be driven as a stream.
pub trait FinallyTryStreamExt: Sized {
    /// Wraps `self` into a stream that yields what `self` yields, up to and
    /// with its first failure. Where `self` ends without one, the stream ends
    /// after the future that `f` returns has completed: `f` is invoked once,
    /// when `self` has ended. After a failure `f` is dropped unused.
    fn try_finally<Fut: Future, F: FnOnce() -> Fut>(self, f: F) -> (combined: TryFinally<Self, Fut, F>)
        requires
            f.requires(()),
        ensures
            combined.wf(),
            combined@ == TryStreamState::initial(),
            combined.wrapped() == Some(self),
            combined.factory() == Some(f),
            combined.finalizer() is None,
    {
        TryFinally {
            item: Some(pin_boxed(self)),
            fut: None,
            f: Some(f),
            wrapped: Ghost(Some(self)),
            started: Ghost(None),
        }
    }
}

impl<T: Sized> FinallyTryStreamExt for T {

}

impl<ST, Fut, F: FnOnce() -> Fut> TryFinally<ST, Fut, F> {
    /// The slots agree with one another: the wrapped stream and the factory
    /// are held together and before the factory is invoked, the finalizer
    /// only after it, never both at once; and the factory, while held, can
    /// be invoked.
    pub closed spec fn wf(&self) -> bool {
        &&& self.item is Some <==> self.wrapped@ is Some
        &&& self.item is Some <==> self.f is Some
        &&& self.f is Some ==> self.f->0.requires(())
        &&& self.item is Some ==> self.fut is None
        &&& self.item is Some ==> self.started@ is None
        &&& self.fut is Some ==> self.started@ is Some
    }

    /// The wrapped stream as it was handed over, while it is held.
    pub closed spec fn wrapped(&self) -> Option<ST> {
        self.wrapped@
    }

    /// The finalizer factory, while it has not been consumed.
    pub closed spec fn factory(&self) -> Option<F> {
        self.f
    }

    /// The finalizer as the factory returned it, from the invocation on.
    pub closed spec fn finalizer(&self) -> Option<Fut> {
        self.started@
    }

    /// What the slots hold in each phase.
    pub proof fn lemma_slots_follow_phase(&self)
        requires
            self.wf(),
        ensures
            self@.wf(),
            self@.phase == Phase::RunningItem <==> self.wrapped() is Some,
            self@.phase == Phase::RunningItem <==> self.factory() is Some,
            self.factory() is Some ==> self.factory()->0.requires(()),
            self@.phase == Phase::RunningFinalizer ==> self.finalizer() is Some,
            self@.invoked <==> self.finalizer() is Some,
    {
    }

    /// The phase the combinator is in.
    pub fn phase(&self) -> (phase: Phase)
        ensures
            phase == self@.phase,
    {
        if self.item.is_some() {
            Phase::RunningItem
        } else if self.fut.is_some() {
            Phase::RunningFinalizer
        } else {
            Phase::Done
        }
    }

    /// Takes the answer of the wrapped stream, in phase `RunningItem`.
    ///
    /// A pending answer and a success are reported as they are, and nothing
    /// changes. A failure is reported as it is too, and the wrapped stream and
    /// the factory are released at once: the factory is never invoked. At the
    /// end of the stream the factory is invoked and consumed, the finalizer
    /// that it returns is stored, and the wrapped stream is released: the
    /// finalizer is to be resumed next.
    pub fn item_resumed<V, E>(&mut self, outcome: Polled<Option<Result<V, E>>>) -> (step: Step<
        Option<Result<V, E>>,
    >)
        requires
            old(self).wf(),
            old(self)@.phase == Phase::RunningItem,
        ensures
            final(self).wf(),
            final(self)@ == old(self)@.after_item(outcome),
            step == TryStreamState::step_of_item(outcome),
            final(self)@ == old(self)@ ==> *final(self) == *old(self),
            final(self)@.phase == Phase::Done ==> {
                &&& final(self).factory() is None
                &&& final(self).wrapped() is None
                &&& final(self).finalizer() is None
            },
            step is Finalize ==> {
                &&& final(self).factory() is None
                &&& final(self).wrapped() is None
                &&& final(self).finalizer() is Some
                &&& old(self).factory()->0.ensures((), final(self).finalizer()->0)
            },
    {
        match outcome {
            Polled::Pending => Step::Report(Polled::Pending),
            Polled::Ready(Some(Ok(value))) => Step::Report(Polled::Ready(Some(Ok(value)))),
            Polled::Ready(Some(Err(error))) => {
                self.item = None;
                self.wrapped = Ghost(None);
                self.f = None;
                Step::Report(Polled::Ready(Some(Err(error))))
            },
            Polled::Ready(None) => {
                let func = self.f.take().unwrap();
                let fut = func();
                self.started = Ghost(Some(fut));
                self.fut = Some(pin_boxed(fut));
                self.item = None;
                self.wrapped = Ghost(None);
                Step::Finalize
            },
        }
    }

    /// Takes the answer of the finalizer, in phase `RunningFinalizer`.
    ///
    /// While the finalizer is pending, nothing changes and the call reports
    /// `Pending`. Once it has completed, it is released and the call reports
    /// the end of the stream.
    pub fn finalizer_resumed<V, E>(&mut self, done: bool) -> (polled: Polled<Option<Result<V, E>>>)
        requires
            old(self).wf(),
            old(self)@.phase == Phase::RunningFinalizer,
        ensures
            final(self).wf(),
            final(self)@ == old(self)@.after_finalizer(done),
            polled == TryStreamState::report_of_finalizer::<V, E>(done),
            !done ==> *final(self) == *old(self),
            final(self).factory() is None,
            final(self).wrapped() is None,
            final(self).finalizer() == old(self).finalizer(),
    {
        if done {
            self.fut = None;
            Polled::Ready(None)
        } else {
            Polled::Pending
        }
    }
}

impl<ST, Fut: Future, F: FnOnce() -> Fut> TryFinally<ST, Fut, F> {
    /// One resume call. `resume` is how the wrapped stream is resumed: it is
    /// called at most once, and only while the stream is held.
    ///
    /// While the wrapped stream is held, it is resumed and a pending answer,
    /// a success or a failure is reported as it is; a failure ends the
    /// combinator. At the end of the wrapped stream the finalizer is started
    /// and, in the same call and in every later one, resumed; once that has
    /// completed, the call reports the end of the stream. Every call on a
    /// combinator that has ended reports the end of the stream. What the two computations answer is theirs to decide:
    /// whatever it is, the call leaves the state and reports the result that
    /// `TryStreamState::poll_next` gives for those answers.
    pub fn poll_next<
        V,
        E,
        R: FnOnce(&mut Pin<Box<ST>>, &mut Context<'_>) -> Polled<Option<Result<V, E>>>,
    >(&mut self, cx: &mut Context<'_>, resume: R) -> (polled: Polled<Option<Result<V, E>>>)
        requires
            old(self).wf(),
            forall|slot: &mut Pin<Box<ST>>, context: &mut Context<'_>|
                resume.requires((slot, context)),
        ensures
            final(self).wf(),
            exists|round: TryStreamRound<V, E>| #[trigger]
                old(self)@.poll_next(round) == (final(self)@, polled),
            final(self)@.phase == Phase::RunningItem ==> final(self).factory() == old(
                self,
            ).factory() && final(self).wrapped() == old(self).wrapped(),
            old(self).finalizer() is Some ==> final(self).finalizer() == old(self).finalizer(),
            old(self).finalizer() is None && final(self).finalizer() is Some ==> old(
                self,
            ).factory()->0.ensures((), final(self).finalizer()->0),
    {
        let ghost before = self@;
        let ghost mut item_answer: Polled<Option<Result<V, E>>> = Polled::Pending;
        if self.item.is_some() {
            let outcome = match self.item.as_mut() {
                Some(slot) => resume(slot, cx),
                None => Polled::Pending,
            };
            proof {
                item_answer = outcome;
            }
            match self.item_resumed(outcome) {
                Step::Report(polled) => {
                    assert(before.poll_next(
                        TryStreamRound { item: item_answer, finalizer_done: false },
                    ) == (self@, polled));
                    return polled;
                },
                Step::Finalize => {},
            }
        }
        if self.fut.is_some() {
            let done = match self.fut.as_mut() {
                Some(slot) => match resume_future(slot, cx) {
                    Polled::Ready(_) => true,
                    Polled::Pending => false,
                },
                None => false,
            };
            let polled = self.finalizer_resumed(done);
            assert(before.poll_next(TryStreamRound { item: item_answer, finalizer_done: done }) == (
                self@,
                polled,
            ));
            return polled;
        }
        assert(before.poll_next(TryStreamRound { item: item_answer, finalizer_done: false }) == (
            self@,
            Polled::<Option<Result<V, E>>>::Ready(None),
        ));
        Polled::Ready(None)
    }
}

} // verus!
