use futures::Stream;
use futures_finally::machine::Phase;
use futures_finally::machine::Polled;
use futures_finally::machine::Step;
use futures_finally::stream::Finally;
use futures_finally::stream::FinallyStreamExt;
use std::cell::Cell;
use std::collections::VecDeque;
use std::future::Future;
use std::pin::Pin;
use std::rc::Rc;
use std::task::Context;
use std::task::Poll;

/// A stream that gives the scripted answers in turn and counts how often it
/// is resumed.
struct ScriptedStream<T> {
    answers: VecDeque<Poll<Option<T>>>,
    resumes: Rc<Cell<u32>>,
}

impl<T: Unpin> Stream for ScriptedStream<T> {
    type Item = T;

    fn poll_next(mut self: Pin<&mut Self>, cx: &mut Context<'_>) -> Poll<Option<T>> {
        self.resumes.set(self.resumes.get() + 1);
        let answer = self.answers.pop_front().expect("resumed after the end");
        if answer.is_pending() {
            cx.waker().wake_by_ref();
        }
        answer
    }
}

/// A finalizer that is not ready `pending` times, then sets `done`.
struct CountingFinalizer {
    pending: u32,
    done: Rc<Cell<bool>>,
}

impl Future for CountingFinalizer {
    type Output = ();

    fn poll(mut self: Pin<&mut Self>, cx: &mut Context<'_>) -> Poll<()> {
        if self.pending > 0 {
            self.pending -= 1;
            cx.waker().wake_by_ref();
            Poll::Pending
        } else {
            self.done.set(true);
            Poll::Ready(())
        }
    }
}

fn resume_stream<ST: Stream>(slot: &mut Pin<Box<ST>>, cx: &mut Context<'_>) -> Polled<Option<ST::Item>> {
    match slot.as_mut().poll_next(cx) {
        Poll::Ready(value) => Polled::Ready(value),
        Poll::Pending => Polled::Pending,
    }
}

fn next_of_stream<ST, Fut, F>(combined: &mut Finally<ST, Fut, F>) -> Option<ST::Item>
where
    ST: Stream,
    Fut: Future,
    F: FnOnce() -> Fut,
{
    futures::executor::block_on(futures::future::poll_fn(|cx| {
        match combined.poll_next(cx, resume_stream::<ST>) {
            Polled::Ready(value) => Poll::Ready(value),
            Polled::Pending => Poll::Pending,
        }
    }))
}

#[test]
fn stream_final() {
    futures::executor::block_on(async move {
        let mut val = 0;

        {
            let mut st = futures::stream::once(async { 0 }).finally(|| async {
                val = 1;
            });

            while let Some(v) = futures::future::poll_fn(|cx| {
                match st.poll_next(cx, |slot, cx| match slot.as_mut().poll_next(cx) {
                    Poll::Ready(value) => Polled::Ready(value),
                    Poll::Pending => Polled::Pending,
                }) {
                    Polled::Ready(value) => Poll::Ready(value),
                    Polled::Pending => Poll::Pending,
                }
            })
            .await
            {
                assert_eq!(v, 0);
            }
        }

        assert_eq!(val, 1);
    });
}

#[test]
fn stream_yields_zero_once_and_sets_the_flag_at_the_end() {
    let flag = Cell::new(0);
    let mut st = futures::stream::once(async { 0 }).finally(|| async {
        flag.set(1);
    });
    assert_eq!(next_of_stream(&mut st), Some(0));
    assert_eq!(flag.get(), 0);
    assert_eq!(next_of_stream(&mut st), None);
    assert_eq!(flag.get(), 1);
}

#[test]
fn stream_yields_the_same_values_in_the_same_order() {
    let invocations = Cell::new(0);
    let flag = Cell::new(false);
    let mut st = futures::stream::iter(vec![3, 1, 4, 1, 5]).finally(|| {
        invocations.set(invocations.get() + 1);
        async {
            flag.set(true);
        }
    });
    let mut seen = Vec::new();
    while let Some(value) = next_of_stream(&mut st) {
        assert!(!flag.get());
        assert_eq!(invocations.get(), 0);
        assert_eq!(st.phase(), Phase::RunningItem);
        seen.push(value);
    }
    assert_eq!(seen, vec![3, 1, 4, 1, 5]);
    assert!(flag.get());
    assert_eq!(invocations.get(), 1);
    assert_eq!(st.phase(), Phase::Done);
}

#[test]
fn stream_reports_the_end_again_and_again() {
    let invocations = Cell::new(0);
    let mut st = futures::stream::iter(vec!['a']).finally(|| {
        invocations.set(invocations.get() + 1);
        async {}
    });
    assert_eq!(next_of_stream(&mut st), Some('a'));
    for _ in 0..4 {
        assert_eq!(next_of_stream(&mut st), None);
        assert_eq!(st.phase(), Phase::Done);
        assert_eq!(invocations.get(), 1);
    }
}

#[test]
fn stream_without_values_runs_the_finalizer() {
    let flag = Cell::new(false);
    let mut st = futures::stream::empty::<u8>().finally(|| async {
        flag.set(true);
    });
    assert_eq!(st.phase(), Phase::RunningItem);
    assert_eq!(next_of_stream(&mut st), None);
    assert!(flag.get());
    assert_eq!(st.phase(), Phase::Done);
}

#[test]
fn stream_suspends_where_the_item_and_the_finalizer_suspend() {
    let item_resumes = Rc::new(Cell::new(0));
    let done = Rc::new(Cell::new(false));
    let invocations = Cell::new(0);
    let item = ScriptedStream {
        answers: vec![
            Poll::Pending,
            Poll::Ready(Some(10u8)),
            Poll::Pending,
            Poll::Pending,
            Poll::Ready(Some(20u8)),
            Poll::Ready(None),
        ]
        .into_iter()
        .collect(),
        resumes: item_resumes.clone(),
    };
    let mut st = item.finally(|| {
        invocations.set(invocations.get() + 1);
        CountingFinalizer { pending: 2, done: done.clone() }
    });
    let mut cx = Context::from_waker(futures::task::noop_waker_ref());

    assert!(matches!(st.poll_next(&mut cx, resume_stream), Polled::Pending));
    assert!(matches!(st.poll_next(&mut cx, resume_stream), Polled::Ready(Some(10))));
    assert!(matches!(st.poll_next(&mut cx, resume_stream), Polled::Pending));
    assert!(matches!(st.poll_next(&mut cx, resume_stream), Polled::Pending));
    assert!(matches!(st.poll_next(&mut cx, resume_stream), Polled::Ready(Some(20))));
    assert_eq!(item_resumes.get(), 5);
    assert_eq!(invocations.get(), 0);
    assert_eq!(st.phase(), Phase::RunningItem);

    assert!(matches!(st.poll_next(&mut cx, resume_stream), Polled::Pending));
    assert_eq!(item_resumes.get(), 6);
    assert_eq!(invocations.get(), 1);
    assert!(!done.get());
    assert_eq!(st.phase(), Phase::RunningFinalizer);

    assert!(matches!(st.poll_next(&mut cx, resume_stream), Polled::Pending));
    assert!(!done.get());
    assert_eq!(st.phase(), Phase::RunningFinalizer);

    assert!(matches!(st.poll_next(&mut cx, resume_stream), Polled::Ready(None)));
    assert!(done.get());
    assert_eq!(st.phase(), Phase::Done);

    assert!(matches!(st.poll_next(&mut cx, resume_stream), Polled::Ready(None)));
    assert_eq!(item_resumes.get(), 6);
    assert_eq!(invocations.get(), 1);
}

#[test]
fn stream_item_resumed_passes_values_through_and_starts_the_finalizer_at_the_end() {
    let invocations = Cell::new(0);
    let mut st = futures::stream::pending::<u32>().finally(|| {
        invocations.set(invocations.get() + 1);
        futures::future::ready(())
    });

    assert!(matches!(st.item_resumed(Polled::<Option<u32>>::Pending), Step::Report(Polled::Pending)));
    assert!(matches!(st.item_resumed(Polled::Ready(Some(8u32))), Step::Report(Polled::Ready(Some(8)))));
    assert_eq!(st.phase(), Phase::RunningItem);
    assert_eq!(invocations.get(), 0);

    assert!(matches!(st.item_resumed(Polled::Ready(None::<u32>)), Step::Finalize));
    assert_eq!(st.phase(), Phase::RunningFinalizer);
    assert_eq!(invocations.get(), 1);

    assert!(matches!(st.finalizer_resumed::<u32>(false), Polled::Pending));
    assert_eq!(st.phase(), Phase::RunningFinalizer);
    assert!(matches!(st.finalizer_resumed::<u32>(true), Polled::Ready(None)));
    assert_eq!(st.phase(), Phase::Done);
    assert_eq!(invocations.get(), 1);
}
