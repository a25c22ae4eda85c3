//! The few things the combinators need from the task machinery of std. None
//! of it is proved here: the contracts below are taken on trust, and they
//! claim nothing of what a computation answers.

use crate::machine::Polled;
use std::future::Future;
use std::pin::Pin;
use std::task::Context;
use std::task::Poll;
use vstd::prelude::*;

verus! {

/// `std::pin::Pin`: a pointer whose target stays where it is. The
/// combinators only hold values of it and hand them to `resume_future` or to
/// the caller's way of resuming a stream; nothing is known of what is inside.
#[verifier::external_type_specification]
#[verifier::external_body]
#[verifier::reject_recursive_types(P)]
pub struct ExPin<P>(Pin<P>);

/// `std::task::Context`: the caller's handle for wakeups. It is passed on
/// untouched to whatever is resumed.
#[verifier::external_type_specification]
#[verifier::external_body]
pub struct ExContext<'a>(Context<'a>);

/// `Box::pin`: moves `value` to the heap and pins it there. Nothing is
/// claimed of the result.
#[verifier::external_body]
pub(crate) fn pin_boxed<T>(value: T) -> (slot: Pin<Box<T>>) {
    Box::pin(value)
}

/// `Future::poll` on a heap-pinned future: one resume of that future, with
/// the caller's context. What comes back is the future's own answer, so
/// nothing is claimed of it. A future may panic when it is resumed after it
/// has reported that it is ready; the combinators release a future in the
/// call in which it does.
#[verifier::external_body]
pub(crate) fn resume_future<T: Future>(slot: &mut Pin<Box<T>>, cx: &mut Context<'_>) -> (polled:
    Polled<T::Output>) {
    match slot.as_mut().poll(cx) {
        Poll::Ready(value) => Polled::Ready(value),
        Poll::Pending => Polled::Pending,
    }
}

} // verus!
