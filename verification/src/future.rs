//! A finalizer attached to a single-value computation.

use crate::machine::InvariantViolation;
use crate::machine::Phase;
use crate::machine::Polled;
use crate::machine::Step;
use crate::runtime::pin_boxed;
use crate::runtime::resume_future;
use std::future::Future;
use std::pin::Pin;
use std::task::Context;
use vstd::prelude::*;

verus! {

/// What a driver can observe of a `ThenFinally`.
pub struct FutureState<O> {
    /// Which computation is resumed next, if any.
    pub phase: Phase,
    /// Whether the finalizer factory has been invoked.
    pub invoked: bool,
    /// The value of the wrapped future, while it waits for the finalizer.
    pub buffered: Option<O>,
}

/// What the two computations answer in one resume call, should the call get
/// to resume them.
pub struct Round<O> {
    /// The answer of the wrapped future.
    pub item: Polled<O>,
    /// Whether the finalizer completes.
    pub finalizer_done: bool,
}

impl<O> FutureState<O> {
    /// The state of a fresh combinator.
    pub open spec fn initial() -> Self {
        FutureState { phase: Phase::RunningItem, invoked: false, buffered: None }
    }

    /// The states that a combinator can be in.
    pub open spec fn wf(self) -> bool {
        match self.phase {
            Phase::RunningItem => !self.invoked && self.buffered is None,
            Phase::RunningFinalizer => self.invoked && self.buffered is Some,
            Phase::Done => self.invoked && self.buffered is None,
        }
    }

    /// The state once the wrapped future has answered `outcome`, in phase
    /// `RunningItem`: a value is buffered and the finalizer started.
    pub open spec fn after_item(self, outcome: Polled<O>) -> Self {
        match outcome {
            Polled::Pending => self,
            Polled::Ready(value) => FutureState {
                phase: Phase::RunningFinalizer,
                invoked: true,
                buffered: Some(value),
            },
        }
    }

    /// The state once the finalizer has answered, in phase
    /// `RunningFinalizer`: on completion the buffered value leaves.
    pub open spec fn after_finalizer(self, done: bool) -> Self {
        if done {
            FutureState { phase: Phase::Done, invoked: self.invoked, buffered: None }
        } else {
            self
        }
    }

    /// What the finalizer's answer makes the call report, in phase
    /// `RunningFinalizer`.
    pub open spec fn report_of_finalizer(self, done: bool) -> Polled<O> {
        if done {
            Polled::Ready(self.buffered->0)
        } else {
            Polled::Pending
        }
    }

    /// One resume call: the state it leaves and what it reports.
    pub open spec fn poll(self, round: Round<O>) -> (Self, Result<Polled<O>, InvariantViolation>) {
        match self.phase {
            Phase::RunningItem => match round.item {
                Polled::Pending => (self, Ok(Polled::Pending)),
                Polled::Ready(_) => {
                    let started = self.after_item(round.item);
                    (
                        started.after_finalizer(round.finalizer_done),
                        Ok(started.report_of_finalizer(round.finalizer_done)),
                    )
                },
            },
            Phase::RunningFinalizer => (
                self.after_finalizer(round.finalizer_done),
                Ok(self.report_of_finalizer(round.finalizer_done)),
            ),
            Phase::Done => (self, Err(InvariantViolation::OutputMissing)),
        }
    }

    /// The state after the first `n` of the resume calls `rounds`.
    pub open spec fn after(self, rounds: Seq<Round<O>>, n: nat) -> Self
        decreases n,
    {
        if n == 0 {
            self
        } else {
            self.after(rounds, (n - 1) as nat).poll(rounds[n - 1]).0
        }
    }

    /// What resume call number `i` of `rounds` reports, counting from 0.
    pub open spec fn report(self, rounds: Seq<Round<O>>, i: nat) -> Result<
        Polled<O>,
        InvariantViolation,
    > {
        self.after(rounds, i).poll(rounds[i as int]).1
    }
}

impl<O> FutureState<O> {
    /// Phases are visited in order and none is entered twice: whatever a
    /// resume call meets, it leaves a state the combinator can be in, in the
    /// same phase or a later one. The factory is invoked only by the call
    /// that leaves `RunningItem`, so at most once.
    pub proof fn law_phase_only_advances(self, round: Round<O>)
        requires
            self.wf(),
        ensures
            self.poll(round).0.wf(),
            self.phase.rank() <= self.poll(round).0.phase.rank(),
            self.poll(round).0.invoked != self.invoked ==> self.phase == Phase::RunningItem
                && self.poll(round).0.phase != Phase::RunningItem,
    {
    }

    /// Over any number of resume calls, a state that the combinator can be
    /// in is kept, and the phase never goes back.
    pub proof fn law_phases_in_order(self, rounds: Seq<Round<O>>, n: nat, m: nat)
        requires
            self.wf(),
            n <= m,
        ensures
            self.after(rounds, m).wf(),
            self.after(rounds, n).phase.rank() <= self.after(rounds, m).phase.rank(),
            self.after(rounds, n).invoked ==> self.after(rounds, m).invoked,
        decreases m,
    {
        if m > 0 {
            let before = self.after(rounds, (m - 1) as nat);
            if n < m {
                self.law_phases_in_order(rounds, n, (m - 1) as nat);
            } else {
                self.law_phases_in_order(rounds, (m - 1) as nat, (m - 1) as nat);
            }
            before.law_phase_only_advances(rounds[m - 1]);
        }
    }

    /// While the wrapped future answers that it is not ready, each resume
    /// call reports the same and changes nothing: the factory is not invoked.
    pub proof fn law_pending_item_suspends(self, rounds: Seq<Round<O>>, k: nat)
        requires
            self.phase == Phase::RunningItem,
            k <= rounds.len(),
            forall|i: int| 0 <= i < k ==> (#[trigger] rounds[i]).item is Pending,
        ensures
            forall|n: nat| n <= k ==> #[trigger] self.after(rounds, n) == self,
            forall|i: nat|
                i < k ==> #[trigger] self.report(rounds, i) == Ok::<Polled<O>, InvariantViolation>(
                    Polled::Pending,
                ),
        decreases k,
    {
        if k > 0 {
            self.law_pending_item_suspends(rounds, (k - 1) as nat);
            assert(self.after(rounds, (k - 1) as nat) == self);
            assert(rounds[k - 1].item is Pending);
            assert(self.after(rounds, k) == self);
        }
    }

    /// Where the wrapped future is not ready `k` times and then produces
    /// `value`, and the finalizer is not ready `j` times and then completes:
    /// the first `k + j` resume calls report that the combinator is not
    /// ready, and the next one reports `value`. The factory is invoked in
    /// call number `k` and in no earlier one, and the combinator is `Done`
    /// exactly from the call that reports the value.
    pub proof fn law_value_follows_finalizer(self, rounds: Seq<Round<O>>, k: nat, j: nat, value: O)
        requires
            self.wf(),
            self.phase == Phase::RunningItem,
            k + j < rounds.len(),
            forall|i: int| 0 <= i < k ==> (#[trigger] rounds[i]).item is Pending,
            rounds[k as int].item == Polled::Ready(value),
            forall|i: int| k <= i < k + j ==> !(#[trigger] rounds[i]).finalizer_done,
            rounds[(k + j) as int].finalizer_done,
        ensures
            forall|i: nat|
                i < k + j ==> #[trigger] self.report(rounds, i) == Ok::<
                    Polled<O>,
                    InvariantViolation,
                >(Polled::Pending),
            self.report(rounds, (k + j) as nat) == Ok::<Polled<O>, InvariantViolation>(
                Polled::Ready(value),
            ),
            forall|n: nat| n <= k ==> !(#[trigger] self.after(rounds, n)).invoked,
            forall|n: nat|
                k < n <= k + j ==> #[trigger] self.after(rounds, n) == (FutureState {
                    phase: Phase::RunningFinalizer,
                    invoked: true,
                    buffered: Some(value),
                }),
            forall|n: nat| n <= k + j ==> (#[trigger] self.after(rounds, n)).phase != Phase::Done,
            self.after(rounds, (k + j + 1) as nat).phase == Phase::Done,
    {
        self.law_pending_item_suspends(rounds, k);
        assert(self.after(rounds, k) == self);
        self.lemma_finalizer_in_flight(rounds, k, j, value, (k + j) as nat);
        assert forall|i: nat| i < k + j implies #[trigger] self.report(rounds, i) == Ok::<
            Polled<O>,
            InvariantViolation,
        >(Polled::Pending) by {
            if i >= k {
                assert(!rounds[i as int].finalizer_done);
                if i > k {
                    assert(self.after(rounds, i).phase == Phase::RunningFinalizer);
                }
            }
        }
        if j > 0 {
            assert(self.after(rounds, (k + j) as nat).phase == Phase::RunningFinalizer);
        }
        assert forall|n: nat| n <= k + j implies (#[trigger] self.after(rounds, n)).phase
            != Phase::Done by {
            if n <= k {
                assert(self.after(rounds, n) == self);
            }
        }
    }

    /// From the call in which the wrapped future produced `value` up to the
    /// one in which the finalizer completes, the value stays buffered.
    proof fn lemma_finalizer_in_flight(self, rounds: Seq<Round<O>>, k: nat, j: nat, value: O, n: nat)
        requires
            self.phase == Phase::RunningItem,
            self.after(rounds, k) == self,
            k + j < rounds.len(),
            rounds[k as int].item == Polled::Ready(value),
            forall|i: int| k <= i < k + j ==> !(#[trigger] rounds[i]).finalizer_done,
            n <= k + j,
        ensures
            forall|m: nat|
                k < m <= n ==> #[trigger] self.after(rounds, m) == (FutureState {
                    phase: Phase::RunningFinalizer,
                    invoked: true,
                    buffered: Some(value),
                }),
        decreases n,
    {
        if n > k {
            self.lemma_finalizer_in_flight(rounds, k, j, value, (n - 1) as nat);
            assert(!rounds[n - 1].finalizer_done);
            if n - 1 > k {
                assert(self.after(rounds, (n - 1) as nat).phase == Phase::RunningFinalizer);
            }
        }
    }

    /// A combinator that has handed out its value answers every further
    /// resume call with an error and stays as it is.
    pub proof fn law_done_stays_done(self, rounds: Seq<Round<O>>, n: nat)
        requires
            self.phase == Phase::Done,
        ensures
            self.after(rounds, n) == self,
            self.report(rounds, n) == Err::<Polled<O>, InvariantViolation>(
                InvariantViolation::OutputMissing,
            ),
        decreases n,
    {
        if n > 0 {
            self.law_done_stays_done(rounds, (n - 1) as nat);
        }
    }
}

/// A future that, once the wrapped future has produced its value, runs a
/// finalizer and only then hands that value out.
#[verifier::reject_recursive_types(FT)]
#[verifier::reject_recursive_types(Fut)]
pub struct ThenFinally<FT, Fut, F, O> {
    item: Option<Pin<Box<FT>>>,
    fut: Option<Pin<Box<Fut>>>,
    f: Option<F>,
    output: Option<O>,
    wrapped: Ghost<Option<FT>>,
    started: Ghost<Option<Fut>>,
}

impl<FT, Fut, F, O> View for ThenFinally<FT, Fut, F, O> {
    type V = FutureState<O>;

    closed spec fn view(&self) -> FutureState<O> {
        FutureState {
            phase: if self.item is Some {
                Phase::RunningItem
            } else if self.fut is Some {
                Phase::RunningFinalizer
            } else {
                Phase::Done
            },
            invoked: self.started@ is Some,
            buffered: self.output,
        }
    }
}

/// Attaches a finalizer to any value that is to be driven as a future.
pub trait ThenFinallyFutureExt: Sized {
    /// Wraps `self` into a future that produces what `self` produces, after
    /// the future that `f` returns has completed too. `f` is invoked once,
    /// when `self` has completed, whatever `self` produced.
    fn then_finally<Fut: Future, F: FnOnce() -> Fut, O>(self, f: F) -> (combined: ThenFinally<
        Self,
        Fut,
        F,
        O,
    >)
        requires
            f.requires(()),
        ensures
            combined.wf(),
            combined@ == FutureState::<O>::initial(),
            combined.wrapped() == Some(self),
            combined.factory() == Some(f),
            combined.finalizer() is None,
    {
        ThenFinally {
            item: Some(pin_boxed(self)),
            fut: None,
            f: Some(f),
            output: None,
            wrapped: Ghost(Some(self)),
            started: Ghost(None),
        }
    }
}

impl<T: Sized> ThenFinallyFutureExt for T {

}

impl<FT, Fut, F: FnOnce() -> Fut, O> ThenFinally<FT, Fut, F, O> {
    /// The slots agree with one another: the wrapped future and the factory
    /// are held together and before the factory is invoked, the finalizer
    /// and the buffered output are held together and after it, never both
    /// pairs at once; and the factory, while held, can be invoked.
    pub closed spec fn wf(&self) -> bool {
        &&& self.item is Some <==> self.wrapped@ is Some
        &&& self.item is Some <==> self.f is Some
        &&& self.f is Some ==> self.f->0.requires(())
        &&& self.item is Some ==> self.fut is None
        &&& self.fut is Some <==> self.output is Some
        &&& self.item is Some <==> self.started@ is None
    }

    /// The wrapped future as it was handed over, while it is held.
    pub closed spec fn wrapped(&self) -> Option<FT> {
        self.wrapped@
    }

    /// The finalizer factory, while it has not been consumed.
    pub closed spec fn factory(&self) -> Option<F> {
        self.f
    }

    /// The finalizer as the factory returned it, from the invocation on.
    pub closed spec fn finalizer(&self) -> Option<Fut> {
        self.started@
    }

    /// What the slots hold in each phase.
    pub proof fn lemma_slots_follow_phase(&self)
        requires
            self.wf(),
        ensures
            self@.wf(),
            self@.phase == Phase::RunningItem <==> self.wrapped() is Some,
            self@.phase == Phase::RunningItem <==> self.factory() is Some,
            self.factory() is Some ==> self.factory()->0.requires(()),
            self@.invoked <==> self.finalizer() is Some,
    {
    }

    /// The phase the combinator is in.
    pub fn phase(&self) -> (phase: Phase)
        ensures
            phase == self@.phase,
    {
        if self.item.is_some() {
            Phase::RunningItem
        } else if self.fut.is_some() {
            Phase::RunningFinalizer
        } else {
            Phase::Done
        }
    }

    /// Takes the answer of the wrapped future, in phase `RunningItem`.
    ///
    /// While the future is pending, nothing changes and the call is to
    /// report `Pending`. Once it is ready, its value is buffered, the factory
    /// is invoked and consumed, the finalizer that it returns is stored, and
    /// the wrapped future is released: the finalizer is to be resumed next.
    pub fn item_resumed(&mut self, outcome: Polled<O>) -> (step: Step<O>)
        requires
            old(self).wf(),
            old(self)@.phase == Phase::RunningItem,
        ensures
            final(self).wf(),
            final(self)@ == old(self)@.after_item(outcome),
            outcome is Pending ==> *final(self) == *old(self) && step == Step::<O>::Report(
                Polled::Pending,
            ),
            outcome is Ready ==> {
                &&& step is Finalize
                &&& final(self).factory() is None
                &&& final(self).wrapped() is None
                &&& final(self).finalizer() is Some
                &&& old(self).factory()->0.ensures((), final(self).finalizer()->0)
            },
    {
        match outcome {
            Polled::Pending => Step::Report(Polled::Pending),
            Polled::Ready(value) => {
                self.output = Some(value);
                let func = self.f.take().unwrap();
                let fut = func();
                self.started = Ghost(Some(fut));
                self.fut = Some(pin_boxed(fut));
                self.item = None;
                self.wrapped = Ghost(None);
                Step::Finalize
            },
        }
    }

    /// Takes the answer of the finalizer, in phase `RunningFinalizer`.
    ///
    /// While the finalizer is pending, nothing changes and the call reports
    /// `Pending`. Once it has completed, it is released and the buffered value
    /// is handed out.
    pub fn finalizer_resumed(&mut self, done: bool) -> (polled: Polled<O>)
        requires
            old(self).wf(),
            old(self)@.phase == Phase::RunningFinalizer,
        ensures
            final(self).wf(),
            final(self)@ == old(self)@.after_finalizer(done),
            polled == old(self)@.report_of_finalizer(done),
            !done ==> *final(self) == *old(self),
            final(self).factory() is None,
            final(self).wrapped() is None,
            final(self).finalizer() == old(self).finalizer(),
    {
        if done {
            self.fut = None;
            let value = self.output.take().unwrap();
            Polled::Ready(value)
        } else {
            Polled::Pending
        }
    }
}

impl<FT: Future<Output = O>, Fut: Future, F: FnOnce() -> Fut, O> ThenFinally<FT, Fut, F, O> {
    /// One resume call.
    ///
    /// Resumes the wrapped future while it is held; once it is ready, starts
    /// the finalizer and, in the same call and in every later one, resumes
    /// the finalizer; once that has completed, reports the value of the
    /// wrapped future. What the two computations answer is theirs to decide:
    /// whatever it is, the call leaves the state and reports the result that
    /// `FutureState::poll` gives for those answers. A combinator that has
    /// handed out its value answers with an error and stays as it is.
    pub fn poll(&mut self, cx: &mut Context<'_>) -> (polled: Result<Polled<O>, InvariantViolation>)
        requires
            old(self).wf(),
        ensures
            final(self).wf(),
            exists|round: Round<O>| #[trigger] old(self)@.poll(round) == (final(self)@, polled),
            polled is Err <==> old(self)@.phase == Phase::Done,
            final(self)@.phase == Phase::RunningItem ==> final(self).factory() == old(
                self,
            ).factory() && final(self).wrapped() == old(self).wrapped(),
            old(self).finalizer() is Some ==> final(self).finalizer() == old(self).finalizer(),
            old(self).finalizer() is None && final(self).finalizer() is Some ==> old(
                self,
            ).factory()->0.ensures((), final(self).finalizer()->0),
    {
        let ghost before = self@;
        let ghost mut item_answer: Polled<O> = Polled::Pending;
        if self.item.is_some() {
            let outcome = match self.item.as_mut() {
                Some(slot) => resume_future(slot, cx),
                None => Polled::Pending,
            };
            proof {
                item_answer = outcome;
            }
            match self.item_resumed(outcome) {
                Step::Report(polled) => {
                    assert(before.poll(Round { item: item_answer, finalizer_done: false }) == (
                        self@,
                        Ok::<Polled<O>, InvariantViolation>(polled),
                    ));
                    return Ok(polled);
                },
                Step::Finalize => {},
            }
        }
        if self.fut.is_some() {
            let done = match self.fut.as_mut() {
                Some(slot) => match resume_future(slot, cx) {
                    Polled::Ready(_) => true,
                    Polled::Pending => false,
                },
                None => false,
            };
            let polled = self.finalizer_resumed(done);
            assert(before.poll(Round { item: item_answer, finalizer_done: done }) == (
                self@,
                Ok::<Polled<O>, InvariantViolation>(polled),
            ));
            return Ok(polled);
        }
        assert(before.poll(Round { item: item_answer, finalizer_done: false }) == (
            self@,
            Err::<Polled<O>, InvariantViolation>(InvariantViolation::OutputMissing),
        ));
        Err(InvariantViolation::OutputMissing)
    }
}

} // verus!
