//! A finalizer attached to a sequence of values.

use crate::machine::Phase;
use crate::machine::Polled;
use crate::machine::Step;
use crate::runtime::pin_boxed;
use crate::runtime::resume_future;
use std::future::Future;
use std::pin::Pin;
use std::task::Context;
use vstd::prelude::*;

verus! {

/// What a driver can observe of a `Finally`.
pub struct StreamState {
    /// Which computation is resumed next, if any.
    pub phase: Phase,
    /// Whether the finalizer factory has been invoked.
    pub invoked: bool,
}

/// What the two computations answer in one resume call, should the call get
/// to resume them.
pub struct StreamRound<T> {
    /// The answer of the wrapped stream: pending, a value, or the end.
    pub item: Polled<Option<T>>,
    /// Whether the finalizer completes.
    pub finalizer_done: bool,
}

impl StreamState {
    /// The state of a fresh combinator.
    pub open spec fn initial() -> Self {
        StreamState { phase: Phase::RunningItem, invoked: false }
    }

    /// The states that a combinator can be in: the factory has been invoked
    /// exactly when the wrapped stream is gone.
    pub open spec fn wf(self) -> bool {
        self.invoked <==> self.phase != Phase::RunningItem
    }

    /// The state once the wrapped stream has answered `outcome`, in phase
    /// `RunningItem`: only the end of the stream starts the finalizer.
    pub open spec fn after_item<T>(self, outcome: Polled<Option<T>>) -> Self {
        if outcome == Polled::Ready(None::<T>) {
            StreamState { phase: Phase::RunningFinalizer, invoked: true }
        } else {
            self
        }
    }

    /// How the call goes on once the wrapped stream has answered `outcome`,
    /// in phase `RunningItem`: a value or a pending answer is reported as it
    /// is.
    pub open spec fn step_of_item<T>(outcome: Polled<Option<T>>) -> Step<Option<T>> {
        if outcome == Polled::Ready(None::<T>) {
            Step::Finalize
        } else {
            Step::Report(outcome)
        }
    }

    /// The state once the finalizer has answered, in phase
    /// `RunningFinalizer`.
    pub open spec fn after_finalizer(self, done: bool) -> Self {
        if done {
            StreamState { phase: Phase::Done, invoked: self.invoked }
        } else {
            self
        }
    }

    /// What the finalizer's answer makes the call report, in phase
    /// `RunningFinalizer`: the end of the stream, once the finalizer is done.
    pub open spec fn report_of_finalizer<T>(done: bool) -> Polled<Option<T>> {
        if done {
            Polled::Ready(None)
        } else {
            Polled::Pending
        }
    }

    /// One resume call: the state it leaves and what it reports.
    pub open spec fn poll_next<T>(self, round: StreamRound<T>) -> (Self, Polled<Option<T>>) {
        match self.phase {
            Phase::RunningItem => match Self::step_of_item(round.item) {
                Step::Report(polled) => (self, polled),
                Step::Finalize => (
                    self.after_item(round.item).after_finalizer(round.finalizer_done),
                    Self::report_of_finalizer(round.finalizer_done),
                ),
            },
            Phase::RunningFinalizer => (
                self.after_finalizer(round.finalizer_done),
                Self::report_of_finalizer(round.finalizer_done),
            ),
            Phase::Done => (self, Polled::Ready(None)),
        }
    }

    /// The state after the first `n` of the resume calls `rounds`.
    pub open spec fn after<T>(self, rounds: Seq<StreamRound<T>>, n: nat) -> Self
        decreases n,
    {
        if n == 0 {
            self
        } else {
            self.after(rounds, (n - 1) as nat).poll_next(rounds[n - 1]).0
        }
    }

    /// What resume call number `i` of `rounds` reports, counting from 0.
    pub open spec fn report<T>(self, rounds: Seq<StreamRound<T>>, i: nat) -> Polled<Option<T>> {
        self.after(rounds, i).poll_next(rounds[i as int]).1
    }
}

impl StreamState {
    /// Phases are visited in order and none is entered twice: whatever a
    /// resume call meets, it leaves a state the combinator can be in, in the
    /// same phase or a later one. The factory is invoked only by the call
    /// that leaves `RunningItem`, so at most once.
    pub proof fn law_phase_only_advances<T>(self, round: StreamRound<T>)
        requires
            self.wf(),
        ensures
            self.poll_next(round).0.wf(),
            self.phase.rank() <= self.poll_next(round).0.phase.rank(),
            self.poll_next(round).0.invoked != self.invoked ==> self.phase == Phase::RunningItem
                && self.poll_next(round).0.phase != Phase::RunningItem,
    {
    }

    /// Over any number of resume calls, a state that the combinator can be
    /// in is kept, and the phase never goes back.
    pub proof fn law_phases_in_order<T>(self, rounds: Seq<StreamRound<T>>, n: nat, m: nat)
        requires
            self.wf(),
            n <= m,
        ensures
            self.after(rounds, m).wf(),
            self.after(rounds, n).phase.rank() <= self.after(rounds, m).phase.rank(),
            self.after(rounds, n).invoked ==> self.after(rounds, m).invoked,
        decreases m,
    {
        if m > 0 {
            let before = self.after(rounds, (m - 1) as nat);
            if n < m {
                self.law_phases_in_order(rounds, n, (m - 1) as nat);
            } else {
                self.law_phases_in_order(rounds, (m - 1) as nat, (m - 1) as nat);
            }
            before.law_phase_only_advances(rounds[m - 1]);
        }
    }

    /// Until the wrapped stream ends, each resume call reports exactly what
    /// the wrapped stream answered, a value as much as a pending answer, and
    /// changes nothing: the combined stream yields the same values in the
    /// same order, suspends where the wrapped stream suspends, and the
    /// factory is not invoked.
    pub proof fn law_passes_through_until_end<T>(self, rounds: Seq<StreamRound<T>>, k: nat)
        requires
            self.phase == Phase::RunningItem,
            k <= rounds.len(),
            forall|i: int| 0 <= i < k ==> (#[trigger] rounds[i]).item != Polled::Ready(None::<T>),
        ensures
            forall|n: nat| n <= k ==> #[trigger] self.after(rounds, n) == self,
            forall|i: nat| i < k ==> #[trigger] self.report(rounds, i) == rounds[i as int].item,
        decreases k,
    {
        if k > 0 {
            self.law_passes_through_until_end(rounds, (k - 1) as nat);
            assert(self.after(rounds, (k - 1) as nat) == self);
            assert(rounds[k - 1].item != Polled::Ready(None::<T>));
            assert(self.after(rounds, k) == self);
        }
    }

    /// Where the wrapped stream ends in call number `k`, and the finalizer
    /// is not ready `j` times and then completes: the factory is invoked in
    /// call `k` and in no earlier one, the calls from `k` on report that the
    /// stream is not ready while the finalizer is not, and call `k + j`, in
    /// which the finalizer completes, is the one that reports the end.
    pub proof fn law_ends_after_finalizer<T>(self, rounds: Seq<StreamRound<T>>, k: nat, j: nat)
        requires
            self.wf(),
            self.phase == Phase::RunningItem,
            k + j < rounds.len(),
            forall|i: int| 0 <= i < k ==> (#[trigger] rounds[i]).item != Polled::Ready(None::<T>),
            rounds[k as int].item == Polled::Ready(None::<T>),
            forall|i: int| k <= i < k + j ==> !(#[trigger] rounds[i]).finalizer_done,
            rounds[(k + j) as int].finalizer_done,
        ensures
            forall|i: nat| i < k ==> #[trigger] self.report(rounds, i) == rounds[i as int].item,
            forall|i: nat|
                k <= i < k + j ==> #[trigger] self.report(rounds, i) == Polled::<
                    Option<T>,
                >::Pending,
            self.report(rounds, (k + j) as nat) == Polled::Ready(None::<T>),
            forall|n: nat| n <= k ==> !(#[trigger] self.after(rounds, n)).invoked,
            forall|n: nat|
                k < n <= k + j ==> #[trigger] self.after(rounds, n) == (StreamState {
                    phase: Phase::RunningFinalizer,
                    invoked: true,
                }),
            self.after(rounds, (k + j + 1) as nat) == (StreamState {
                phase: Phase::Done,
                invoked: true,
            }),
    {
        self.law_passes_through_until_end(rounds, k);
        assert(self.after(rounds, k) == self);
        self.lemma_finalizer_in_flight(rounds, k, j, (k + j) as nat);
        assert forall|i: nat| k <= i < k + j implies #[trigger] self.report(rounds, i) == Polled::<
            Option<T>,
        >::Pending by {
            assert(!rounds[i as int].finalizer_done);
            if i > k {
                assert(self.after(rounds, i).phase == Phase::RunningFinalizer);
            }
        }
        if j > 0 {
            assert(self.after(rounds, (k + j) as nat).phase == Phase::RunningFinalizer);
        }
        assert forall|n: nat| n <= k implies !(#[trigger] self.after(rounds, n)).invoked by {
            assert(self.after(rounds, n) == self);
        }
    }

    /// From the call in which the wrapped stream ended up to the one in
    /// which the finalizer completes, the finalizer is in flight.
    proof fn lemma_finalizer_in_flight<T>(self, rounds: Seq<StreamRound<T>>, k: nat, j: nat, n: nat)
        requires
            self.phase == Phase::RunningItem,
            self.after(rounds, k) == self,
            k + j < rounds.len(),
            rounds[k as int].item == Polled::Ready(None::<T>),
            forall|i: int| k <= i < k + j ==> !(#[trigger] rounds[i]).finalizer_done,
            n <= k + j,
        ensures
            forall|m: nat|
                k < m <= n ==> #[trigger] self.after(rounds, m) == (StreamState {
                    phase: Phase::RunningFinalizer,
                    invoked: true,
                }),
        decreases n,
    {
        if n > k {
            self.lemma_finalizer_in_flight(rounds, k, j, (n - 1) as nat);
            assert(!rounds[n - 1].finalizer_done);
            if n - 1 > k {
                assert(self.after(rounds, (n - 1) as nat).phase == Phase::RunningFinalizer);
            }
        }
    }

    /// Once the combined stream has ended, every further resume call
    /// reports the end again and changes nothing: the factory is not
    /// invoked again.
    pub proof fn law_done_stays_done<T>(self, rounds: Seq<StreamRound<T>>, n: nat)
        requires
            self.phase == Phase::Done,
        ensures
            self.after(rounds, n) == self,
            self.report(rounds, n) == Polled::Ready(None::<T>),
        decreases n,
    {
        if n > 0 {
            self.law_done_stays_done(rounds, (n - 1) as nat);
        }
    }
}

/// A stream that yields what the wrapped stream yields and, once that has
/// ended, runs a finalizer before it reports its own end.
#[verifier::reject_recursive_types(ST)]
#[verifier::reject_recursive_types(Fut)]
pub struct Finally<ST, Fut, F> {
    item: Option<Pin<Box<ST>>>,
    fut: Option<Pin<Box<Fut>>>,
    f: Option<F>,
    wrapped: Ghost<Option<ST>>,
    started: Ghost<Option<Fut>>,
}

impl<ST, Fut, F> View for Finally<ST, Fut, F> {
    type V = StreamState;

    closed spec fn view(&self) -> StreamState {
        StreamState {
            phase: if self.item is Some {
                Phase::RunningItem
            } else if self.fut is Some {
                Phase::RunningFinalizer
            } else {
                Phase::Done
            },
            invoked: self.started@ is Some,
        }
    }
}

/// Attaches a finalizer to any value that is to be driven as a stream.
pub trait FinallyStreamExt: Sized {
    /// Wraps `self` into a stream that yields what `self` yields and ends
    /// after the future that `f` returns has completed. `f` is invoked once,
    /// when `self` has ended.
    fn finally<Fut: Future, F: FnOnce() -> Fut>(self, f: F) -> (combined: Finally<Self, Fut, F>)
        requires
            f.requires(()),
        ensures
            combined.wf(),
            combined@ == StreamState::initial(),
            combined.wrapped() == Some(self),
            combined.factory() == Some(f),
            combined.finalizer() is None,
    {
        Finally {
            item: Some(pin_boxed(self)),
            fut: None,
            f: Some(f),
            wrapped: Ghost(Some(self)),
            started: Ghost(None),
        }
    }
}

impl<T: Sized> FinallyStreamExt for T {

}

impl<ST, Fut, F: FnOnce() -> Fut> Finally<ST, Fut, F> {
    /// The slots agree with one another: the wrapped stream and the factory
    /// are held together and before the factory is invoked, the finalizer
    /// only after it, never both at once; and the factory, while held, can
    /// be invoked.
    pub closed spec fn wf(&self) -> bool {
        &&& self.item is Some <==> self.wrapped@ is Some
        &&& self.item is Some <==> self.f is Some
        &&& self.f is Some ==> self.f->0.requires(())
        &&& self.item is Some ==> self.fut is None
        &&& self.item is Some <==> self.started@ is None
    }

    /// The wrapped stream as it was handed over, while it is held.
    pub closed spec fn wrapped(&self) -> Option<ST> {
        self.wrapped@
    }

    /// The finalizer factory, while it has not been consumed.
    pub closed spec fn factory(&self) -> Option<F> {
        self.f
    }

    /// The finalizer as the factory returned it, from the invocation on.
    pub closed spec fn finalizer(&self) -> Option<Fut> {
        self.started@
    }

    /// What the slots hold in each phase.
    pub proof fn lemma_slots_follow_phase(&self)
        requires
            self.wf(),
        ensures
            self@.wf(),
            self@.phase == Phase::RunningItem <==> self.wrapped() is Some,
            self@.phase == Phase::RunningItem <==> self.factory() is Some,
            self.factory() is Some ==> self.factory()->0.requires(()),
            self@.invoked <==> self.finalizer() is Some,
    {
    }

    /// The phase the combinator is in.
    pub fn phase(&self) -> (phase: Phase)
        ensures
            phase == self@.phase,
    {
        if self.item.is_some() {
            Phase::RunningItem
        } else if self.fut.is_some() {
            Phase::RunningFinalizer
        } else {
            Phase::Done
        }
    }

    /// Takes the answer of the wrapped stream, in phase `RunningItem`.
    ///
    /// A pending answer and a value are reported as they are, and nothing
    /// changes. At the end of the stream the factory is invoked and consumed,
    /// the finalizer that it returns is stored, and the wrapped stream is
    /// released: the finalizer is to be resumed next.
    pub fn item_resumed<T>(&mut self, outcome: Polled<Option<T>>) -> (step: Step<Option<T>>)
        requires
            old(self).wf(),
            old(self)@.phase == Phase::RunningItem,
        ensures
            final(self).wf(),
            final(self)@ == old(self)@.after_item(outcome),
            step == StreamState::step_of_item(outcome),
            step is Report ==> *final(self) == *old(self),
            step is Finalize ==> {
                &&& final(self).factory() is None
                &&& final(self).wrapped() is None
                &&& final(self).finalizer() is Some
                &&& old(self).factory()->0.ensures((), final(self).finalizer()->0)
            },
    {
        match outcome {
            Polled::Pending => Step::Report(Polled::Pending),
            Polled::Ready(Some(value)) => Step::Report(Polled::Ready(Some(value))),
            Polled::Ready(None) => {
                let func = self.f.take().unwrap();
                let fut = func();
                self.started = Ghost(Some(fut));
                self.fut = Some(pin_boxed(fut));
                self.item = None;
                self.wrapped = Ghost(None);
                Step::Finalize
            },
        }
    }

    /// Takes the answer of the finalizer, in phase `RunningFinalizer`.
    ///
    /// While the finalizer is pending, nothing changes and the call reports
    /// `Pending`. Once it has completed, it is released and the call reports
    /// the end of the stream.
    pub fn finalizer_resumed<T>(&mut self, done: bool) -> (polled: Polled<Option<T>>)
        requires
            old(self).wf(),
            old(self)@.phase == Phase::RunningFinalizer,
        ensures
            final(self).wf(),
            final(self)@ == old(self)@.after_finalizer(done),
            polled == StreamState::report_of_finalizer::<T>(done),
            !done ==> *final(self) == *old(self),
            final(self).factory() is None,
            final(self).wrapped() is None,
            final(self).finalizer() == old(self).finalizer(),
    {
        if done {
            self.fut = None;
            Polled::Ready(None)
        } else {
            Polled::Pending
        }
    }
}

impl<ST, Fut: Future, F: FnOnce() -> Fut> Finally<ST, Fut, F> {
    /// One resume call. `resume` is how the wrapped stream is resumed: it is
    /// called at most once, and only while the stream is held.
    ///
    /// While the wrapped stream is held, it is resumed and a pending answer
    /// or a value is reported as it is. At its end the finalizer is started
    /// and, in the same call and in every later one, resumed; once that has
    /// completed, the call reports the end of the stream, and so does every
    /// call after it. What the two computations answer is theirs to decide:
    /// whatever it is, the call leaves the state and reports the result that
    /// `StreamState::poll_next` gives for those answers.
    pub fn poll_next<T, R: FnOnce(&mut Pin<Box<ST>>, &mut Context<'_>) -> Polled<Option<T>>>(
        &mut self,
        cx: &mut Context<'_>,
        resume: R,
    ) -> (polled: Polled<Option<T>>)
        requires
            old(self).wf(),
            forall|slot: &mut Pin<Box<ST>>, context: &mut Context<'_>|
                resume.requires((slot, context)),
        ensures
            final(self).wf(),
            exists|round: StreamRound<T>| #[trigger]
                old(self)@.poll_next(round) == (final(self)@, polled),
            final(self)@.phase == Phase::RunningItem ==> final(self).factory() == old(
                self,
            ).factory() && final(self).wrapped() == old(self).wrapped(),
            old(self).finalizer() is Some ==> final(self).finalizer() == old(self).finalizer(),
            old(self).finalizer() is None && final(self).finalizer() is Some ==> old(
                self,
            ).factory()->0.ensures((), final(self).finalizer()->0),
    {
        let ghost before = self@;
        let ghost mut item_answer: Polled<Option<T>> = Polled::Pending;
        if self.item.is_some() {
            let outcome = match self.item.as_mut() {
                Some(slot) => resume(slot, cx),
                None => Polled::Pending,
            };
            proof {
                item_answer = outcome;
            }
            match self.item_resumed(outcome) {
                Step::Report(polled) => {
                    assert(before.poll_next(
                        StreamRound { item: item_answer, finalizer_done: false },
                    ) == (self@, polled));
                    return polled;
                },
                Step::Finalize => {},
            }
        }
        if self.fut.is_some() {
            let done = match self.fut.as_mut() {
                Some(slot) => match resume_future(slot, cx) {
                    Polled::Ready(_) => true,
                    Polled::Pending => false,
                },
                None => false,
            };
            let polled = self.finalizer_resumed(done);
            assert(before.poll_next(StreamRound { item: item_answer, finalizer_done: done }) == (
                self@,
                polled,
            ));
            return polled;
        }
        assert(before.poll_next(StreamRound { item: item_answer, finalizer_done: false }) == (
            self@,
            Polled::<Option<T>>::Ready(None),
        ));
        Polled::Ready(None)
    }
}

} // verus!
