use async_stream::adapter::{make_stream, make_try_stream, AsyncStream};
use async_stream::sender::{pair, Poll, Sender, TrySender};
use async_stream::slot::SlotStack;
use async_stream::stream::{Script, Step};

fn sends(values: &[i32]) -> Vec<Step<i32>> {
    values.iter().map(|v| Step::Send(*v)).collect()
}

fn drain<T>(s: &mut AsyncStream<T, Script<T>>, slots: &mut SlotStack<T>) -> Vec<T> {
    let mut out = Vec::new();
    loop {
        match s.poll_next(slots) {
            Poll::Ready(Some(v)) => out.push(v),
            Poll::Ready(None) => return out,
            Poll::Pending => {}
        }
    }
}

#[test]
fn sum_of_one_to_hundred() {
    let steps: Vec<Step<u64>> = (1..=100u64).map(Step::Send).collect();
    let mut s = make_stream(steps);
    let mut slots = SlotStack::new();
    let items = drain(&mut s, &mut slots);
    assert_eq!(items.len(), 100);
    assert_eq!(items.iter().sum::<u64>(), 5050);
}

#[test]
fn fallible_producer_surfaces_failure_last() {
    let steps = vec![Step::Send("a"), Step::Send("b")];
    let mut s = make_try_stream(steps, Err("oops"));
    let mut slots = SlotStack::new();
    assert_eq!(s.poll_next(&mut slots), Poll::Ready(Some(Ok("a"))));
    assert_eq!(s.poll_next(&mut slots), Poll::Ready(Some(Ok("b"))));
    assert_eq!(s.poll_next(&mut slots), Poll::Ready(Some(Err("oops"))));
    assert!(!s.is_terminated());
    assert_eq!(s.poll_next(&mut slots), Poll::Ready(None));
    assert!(s.is_terminated());
    assert_eq!(s.size_hint(), (0, Some(0)));
    assert_eq!(s.poll_next(&mut slots), Poll::Ready(None));
    assert_eq!(slots.depth(), 0);
}

#[test]
fn fallible_producer_that_succeeds_sends_no_failure() {
    let steps = vec![Step::Send(1), Step::Yield, Step::Send(2)];
    let mut s = make_try_stream::<i32, &str>(steps, Ok(()));
    let mut slots = SlotStack::new();
    assert_eq!(s.poll_next(&mut slots), Poll::Ready(Some(Ok(1))));
    assert_eq!(s.poll_next(&mut slots), Poll::Pending);
    assert_eq!(s.poll_next(&mut slots), Poll::Ready(Some(Ok(2))));
    assert_eq!(s.poll_next(&mut slots), Poll::Ready(None));
    assert_eq!(s.poll_next(&mut slots), Poll::Ready(None));
}

#[test]
fn fallible_producer_failing_at_once() {
    let mut s = make_try_stream::<i32, i32>(Vec::new(), Err(7));
    let mut slots = SlotStack::new();
    assert_eq!(s.poll_next(&mut slots), Poll::Ready(Some(Err(7))));
    assert_eq!(s.poll_next(&mut slots), Poll::Ready(None));
}

#[test]
fn dropping_after_three_pulls_stops_the_producer() {
    let steps: Vec<Step<i32>> = (1..=100).map(Step::Send).collect();
    let mut s = make_stream(steps);
    let mut slots = SlotStack::new();
    for expected in 1..=3 {
        assert_eq!(s.poll_next(&mut slots), Poll::Ready(Some(expected)));
    }
    assert_eq!(s.generator().steps_left(), 97);
    assert!(!s.is_terminated());
    drop(s);
    assert_eq!(slots.depth(), 0);
}

#[test]
fn sends_then_end_forever() {
    let mut s = make_stream(sends(&[4, 8, 15]));
    let mut slots = SlotStack::new();
    assert_eq!(s.poll_next(&mut slots), Poll::Ready(Some(4)));
    assert_eq!(s.poll_next(&mut slots), Poll::Ready(Some(8)));
    assert_eq!(s.poll_next(&mut slots), Poll::Ready(Some(15)));
    for _ in 0..5 {
        assert_eq!(s.poll_next(&mut slots), Poll::Ready(None));
    }
}

#[test]
fn empty_producer_ends_at_once() {
    let mut s = make_stream::<i32>(Vec::new());
    let mut slots = SlotStack::new();
    assert_eq!(s.size_hint(), (0, None));
    assert_eq!(s.poll_next(&mut slots), Poll::Ready(None));
    assert!(s.is_terminated());
    assert_eq!(s.size_hint(), (0, Some(0)));
}

#[test]
fn terminated_sequence_does_not_resume_producer() {
    let mut s = make_stream(sends(&[1]));
    let mut slots = SlotStack::new();
    assert_eq!(s.poll_next(&mut slots), Poll::Ready(Some(1)));
    assert!(!s.is_terminated());
    assert_eq!(s.poll_next(&mut slots), Poll::Ready(None));
    assert!(s.is_terminated());
    for _ in 0..3 {
        assert_eq!(s.poll_next(&mut slots), Poll::Ready(None));
        assert_eq!(s.generator().steps_left(), 0);
        assert_eq!(s.size_hint(), (0, Some(0)));
    }
}

#[test]
fn internal_suspensions_skip_and_repeat_nothing() {
    let steps = vec![
        Step::Yield,
        Step::Send(1),
        Step::Yield,
        Step::Yield,
        Step::Send(2),
        Step::Send(3),
        Step::Yield,
    ];
    let mut s = make_stream(steps);
    let mut slots = SlotStack::new();
    let mut outs = Vec::new();
    for _ in 0..9 {
        outs.push(s.poll_next(&mut slots));
    }
    assert_eq!(
        outs,
        vec![
            Poll::Pending,
            Poll::Ready(Some(1)),
            Poll::Pending,
            Poll::Pending,
            Poll::Ready(Some(2)),
            Poll::Ready(Some(3)),
            Poll::Pending,
            Poll::Ready(None),
            Poll::Ready(None),
        ]
    );
}

#[test]
fn nested_pulls_keep_outer_slot() {
    let mut outer = make_stream(sends(&[10, 20]));
    let mut inner = make_stream(sends(&[1]));
    let mut slots = SlotStack::new();
    let (_tx, mut rx) = pair::<i32>();
    let g = rx.enter(&mut slots);
    assert_eq!(inner.poll_next(&mut slots), Poll::Ready(Some(1)));
    assert_eq!(outer.poll_next(&mut slots), Poll::Ready(Some(10)));
    assert_eq!(slots.depth(), 1);
    assert_eq!(slots.leave(g), None);
    assert_eq!(slots.depth(), 0);
}

#[test]
fn send_fills_empty_slot_then_finishes() {
    let (mut tx, mut rx): (Sender<i32>, _) = pair();
    let mut slots = SlotStack::new();
    let g = rx.enter(&mut slots);
    let mut op = tx.send(5);
    assert_eq!(op.poll(&mut slots), Poll::Pending);
    assert_eq!(op.poll(&mut slots), Poll::Ready(()));
    assert_eq!(slots.leave(g), Some(5));
    assert!(!slots.is_active());
}

#[test]
fn send_into_occupied_slot_stays_armed() {
    let (mut tx, mut rx) = pair::<i32>();
    let mut slots = SlotStack::new();
    let g = rx.enter(&mut slots);
    assert_eq!(slots.put(1), None);
    let mut op = tx.send(2);
    assert_eq!(op.poll(&mut slots), Poll::Pending);
    assert_eq!(slots.leave(g), Some(1));
    let g = rx.enter(&mut slots);
    assert_eq!(op.poll(&mut slots), Poll::Pending);
    assert_eq!(op.poll(&mut slots), Poll::Ready(()));
    assert_eq!(slots.leave(g), Some(2));
}

#[test]
fn slot_stack_restores_in_reverse_order() {
    let mut slots = SlotStack::<i32>::new();
    let (_tx, mut rx) = pair::<i32>();
    let a = rx.enter(&mut slots);
    assert_eq!(slots.put(1), None);
    let b = rx.enter(&mut slots);
    assert_eq!(slots.depth(), 2);
    assert_eq!(slots.put(2), None);
    assert_eq!(slots.put(3), Some(3));
    assert_eq!(slots.leave(b), Some(2));
    assert_eq!(slots.depth(), 1);
    assert_eq!(slots.leave(a), Some(1));
    assert_eq!(slots.depth(), 0);
}

#[test]
fn leaving_outer_guard_drops_inner_slots() {
    let mut slots = SlotStack::<i32>::new();
    let (_tx, mut rx) = pair::<i32>();
    let a = rx.enter(&mut slots);
    let _b = rx.enter(&mut slots);
    assert_eq!(slots.put(9), None);
    assert_eq!(slots.leave(a), None);
    assert_eq!(slots.depth(), 0);
}

#[test]
fn finish_pull_prefers_value_over_completion() {
    let (_tx, rx) = pair::<i32>();
    let mut s = AsyncStream::new(rx, ());
    assert_eq!(s.finish_pull(Some(3), true), Poll::Ready(Some(3)));
    assert!(s.is_terminated());
    let (_tx, rx) = pair::<i32>();
    let mut s = AsyncStream::new(rx, ());
    assert_eq!(s.finish_pull(None, false), Poll::Pending);
    assert!(!s.is_terminated());
    assert_eq!(s.finish_pull(None, true), Poll::Ready(None));
    assert!(s.is_terminated());
}

#[test]
fn try_sender_wraps_values_as_success() {
    let (tx, mut rx) = pair::<Result<i32, String>>();
    let mut tx = TrySender::new(tx);
    let mut slots = SlotStack::new();
    let g = rx.enter(&mut slots);
    let mut op = tx.send(6);
    assert_eq!(op.poll(&mut slots), Poll::Pending);
    assert_eq!(slots.leave(g), Some(Ok(6)));
}

#[test]
fn driver_outside_library_pulls_through_enter_and_finish() {
    let (mut tx, rx) = pair::<i32>();
    let mut s = AsyncStream::new(rx, 0u32);
    let mut slots = SlotStack::new();
    let g = s.enter(&mut slots);
    *s.generator_mut() += 1;
    let mut op = tx.send(42);
    assert!(op.is_armed());
    assert_eq!(op.poll(&mut slots), Poll::Pending);
    assert!(!op.is_armed());
    let dst = slots.leave(g);
    assert_eq!(s.finish_pull(dst, false), Poll::Ready(Some(42)));
    assert_eq!(*s.generator(), 1);
    let g = s.enter(&mut slots);
    assert_eq!(op.poll(&mut slots), Poll::Ready(()));
    let dst = slots.leave(g);
    assert_eq!(s.finish_pull(dst, true), Poll::Ready(None));
    assert!(s.is_terminated());
    assert_eq!(slots.depth(), 0);
}

#[test]
fn try_sender_sends_failure_as_err() {
    let (tx, mut rx) = pair::<Result<i32, String>>();
    let mut tx = TrySender::new(tx);
    let mut slots = SlotStack::new();
    let g = rx.enter(&mut slots);
    let mut op = tx.send_failure("bad".to_string());
    assert_eq!(op.poll(&mut slots), Poll::Pending);
    assert_eq!(slots.leave(g), Some(Err("bad".to_string())));
}
