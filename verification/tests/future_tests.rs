use futures_finally::future::ThenFinally;
use futures_finally::future::ThenFinallyFutureExt;
use futures_finally::machine::InvariantViolation;
use futures_finally::machine::Phase;
use futures_finally::machine::Polled;
use futures_finally::machine::Step;
use std::cell::Cell;
use std::collections::VecDeque;
use std::future::Future;
use std::pin::Pin;
use std::rc::Rc;
use std::task::Context;
use std::task::Poll;

/// A future that gives the scripted answers in turn: `None` stands for
/// "not ready". It counts how often it is resumed.
struct ScriptedFuture<T> {
    answers: VecDeque<Option<T>>,
    resumes: Rc<Cell<u32>>,
}

impl<T: Unpin> Future for ScriptedFuture<T> {
    type Output = T;

    fn poll(mut self: Pin<&mut Self>, cx: &mut Context<'_>) -> Poll<T> {
        self.resumes.set(self.resumes.get() + 1);
        match self.answers.pop_front().expect("resumed after completion") {
            Some(value) => Poll::Ready(value),
            None => {
                cx.waker().wake_by_ref();
                Poll::Pending
            }
        }
    }
}

fn scripted_future<T>(answers: Vec<Option<T>>, resumes: &Rc<Cell<u32>>) -> ScriptedFuture<T> {
    ScriptedFuture { answers: answers.into_iter().collect(), resumes: resumes.clone() }
}

fn drive_future<FT, Fut, F, O>(combined: &mut ThenFinally<FT, Fut, F, O>) -> O
where
    FT: Future<Output = O>,
    Fut: Future,
    F: FnOnce() -> Fut,
{
    futures::executor::block_on(futures::future::poll_fn(|cx| match combined.poll(cx) {
        Ok(Polled::Ready(value)) => Poll::Ready(value),
        Ok(Polled::Pending) => Poll::Pending,
        Err(_) => panic!("output from future to be value"),
    }))
}

#[test]
fn future_final() {
    futures::executor::block_on(async move {
        let mut val = 0;

        {
            let mut combined = futures::future::ready(()).then_finally(|| async {
                val = 1;
            });
            futures::future::poll_fn(|cx| match combined.poll(cx) {
                Ok(Polled::Ready(value)) => Poll::Ready(value),
                Ok(Polled::Pending) => Poll::Pending,
                Err(_) => panic!("output from future to be value"),
            })
            .await;
        }

        assert_eq!(val, 1);
    });
}

#[test]
fn future_value_is_handed_out_after_the_finalizer() {
    let flag = Cell::new(0);
    let mut combined = futures::future::ready(7u32).then_finally(|| async {
        flag.set(1);
    });
    assert_eq!(combined.phase(), Phase::RunningItem);
    assert_eq!(flag.get(), 0);
    let value = drive_future(&mut combined);
    assert_eq!(value, 7);
    assert_eq!(flag.get(), 1);
    assert_eq!(combined.phase(), Phase::Done);
}

#[test]
fn future_resumed_after_completion_reports_missing_output() {
    let mut combined = futures::future::ready(7u32).then_finally(|| async {});
    assert_eq!(drive_future(&mut combined), 7);
    let mut cx = Context::from_waker(futures::task::noop_waker_ref());
    assert!(matches!(combined.poll(&mut cx), Err(InvariantViolation::OutputMissing)));
    assert!(matches!(combined.poll(&mut cx), Err(InvariantViolation::OutputMissing)));
    assert_eq!(combined.phase(), Phase::Done);
}

#[test]
fn future_suspends_exactly_while_the_item_is_pending() {
    let item_resumes = Rc::new(Cell::new(0));
    let finalizer_resumes = Rc::new(Cell::new(0));
    let invocations = Rc::new(Cell::new(0));
    let item = scripted_future(vec![None, None, None, Some(42u8)], &item_resumes);
    let mut combined = item.then_finally(|| {
        invocations.set(invocations.get() + 1);
        scripted_future(vec![Some(())], &finalizer_resumes)
    });
    let mut cx = Context::from_waker(futures::task::noop_waker_ref());
    for call in 1..=3 {
        assert!(matches!(combined.poll(&mut cx), Ok(Polled::Pending)));
        assert_eq!(item_resumes.get(), call);
        assert_eq!(invocations.get(), 0);
        assert_eq!(finalizer_resumes.get(), 0);
        assert_eq!(combined.phase(), Phase::RunningItem);
    }
    assert!(matches!(combined.poll(&mut cx), Ok(Polled::Ready(42))));
    assert_eq!(item_resumes.get(), 4);
    assert_eq!(invocations.get(), 1);
    assert_eq!(finalizer_resumes.get(), 1);
    assert_eq!(combined.phase(), Phase::Done);
}

#[test]
fn future_waits_for_a_pending_finalizer() {
    let item_resumes = Rc::new(Cell::new(0));
    let finalizer_resumes = Rc::new(Cell::new(0));
    let invocations = Rc::new(Cell::new(0));
    let item = scripted_future(vec![None, Some("value")], &item_resumes);
    let mut combined = item.then_finally(|| {
        invocations.set(invocations.get() + 1);
        scripted_future(vec![None, None, Some(5u64)], &finalizer_resumes)
    });
    let mut cx = Context::from_waker(futures::task::noop_waker_ref());

    assert!(matches!(combined.poll(&mut cx), Ok(Polled::Pending)));
    assert_eq!((item_resumes.get(), invocations.get(), finalizer_resumes.get()), (1, 0, 0));
    assert_eq!(combined.phase(), Phase::RunningItem);

    assert!(matches!(combined.poll(&mut cx), Ok(Polled::Pending)));
    assert_eq!((item_resumes.get(), invocations.get(), finalizer_resumes.get()), (2, 1, 1));
    assert_eq!(combined.phase(), Phase::RunningFinalizer);

    assert!(matches!(combined.poll(&mut cx), Ok(Polled::Pending)));
    assert_eq!((item_resumes.get(), invocations.get(), finalizer_resumes.get()), (2, 1, 2));
    assert_eq!(combined.phase(), Phase::RunningFinalizer);

    assert!(matches!(combined.poll(&mut cx), Ok(Polled::Ready("value"))));
    assert_eq!((item_resumes.get(), invocations.get(), finalizer_resumes.get()), (2, 1, 3));
    assert_eq!(combined.phase(), Phase::Done);
}

#[test]
fn future_item_resumed_buffers_the_value_and_starts_the_finalizer() {
    let invocations = Cell::new(0);
    let mut combined = futures::future::pending::<u16>().then_finally(|| {
        invocations.set(invocations.get() + 1);
        futures::future::ready(())
    });

    assert!(matches!(combined.item_resumed(Polled::Pending), Step::Report(Polled::Pending)));
    assert_eq!(combined.phase(), Phase::RunningItem);
    assert_eq!(invocations.get(), 0);

    assert!(matches!(combined.item_resumed(Polled::Ready(300)), Step::Finalize));
    assert_eq!(combined.phase(), Phase::RunningFinalizer);
    assert_eq!(invocations.get(), 1);

    assert!(matches!(combined.finalizer_resumed(false), Polled::Pending));
    assert_eq!(combined.phase(), Phase::RunningFinalizer);

    assert!(matches!(combined.finalizer_resumed(true), Polled::Ready(300)));
    assert_eq!(combined.phase(), Phase::Done);
    assert_eq!(invocations.get(), 1);
}

#[test]
fn future_runs_the_finalizer_whatever_the_item_returns() {
    let flag = Cell::new(0);
    let mut combined = futures::future::ready(Err::<u8, &str>("failed")).then_finally(|| async {
        flag.set(flag.get() + 1);
    });
    assert_eq!(drive_future(&mut combined), Err("failed"));
    assert_eq!(flag.get(), 1);
}
