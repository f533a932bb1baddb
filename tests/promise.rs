use pinlab::promise::Polled;
use pinlab::{handle_promise, handle_promises};
use poll_promise::Promise;

fn poll<T: Send + 'static>(slot: &mut Option<Promise<T>>) -> Polled<T> {
    slot.take().map(|p| p.try_take())
}

#[test]
fn poll_before_and_after_completion() {
    let (sender, promise) = Promise::<u32>::new();
    let mut slot = Some(promise);
    let mut calls = 0;
    let polled = poll(&mut slot);
    assert_eq!(handle_promise(&mut slot, polled, |v| v * 2), None);
    assert!(slot.is_some());
    sender.send(21);
    let polled = poll(&mut slot);
    let got = handle_promise(&mut slot, polled, |v| {
        calls += 1;
        v * 2
    });
    assert_eq!(got, Some(42));
    assert!(slot.is_none());
    let polled = poll(&mut slot);
    assert_eq!(handle_promise(&mut slot, polled, |v| v * 2), None);
    assert!(slot.is_none());
    assert_eq!(calls, 1);
}

#[test]
fn empty_slot_gives_nothing() {
    let mut slot: Option<Promise<u32>> = None;
    assert_eq!(handle_promise(&mut slot, None, |v| v), None);
    assert!(slot.is_none());
}

#[test]
fn failed_work_reaches_the_handler() {
    let mut slot = Some(Promise::<Result<u32, String>>::from_ready(Err("disk".to_string())));
    let polled = poll(&mut slot);
    let got = handle_promise(&mut slot, polled, |r| match r {
        Ok(_) => "ok".to_string(),
        Err(e) => format!("error: {}", e),
    });
    assert_eq!(got, Some("error: disk".to_string()));
    assert!(slot.is_none());
}

#[test]
fn handling_many_prunes_finished_and_keeps_order() {
    let (first_sender, first) = Promise::<u32>::new();
    let (fourth_sender, fourth) = Promise::<u32>::new();
    let mut slots = vec![
        Some(first),
        Some(Promise::from_ready(2)),
        None,
        Some(fourth),
        Some(Promise::from_ready(5)),
    ];
    let polled = slots.iter_mut().map(poll).collect();
    let (pending, out) = handle_promises(polled, &|v: u32| v * 10);
    assert_eq!(out, vec![20, 50]);
    slots = pending;
    assert_eq!(slots.len(), 2);
    fourth_sender.send(3);
    let polled = slots.iter_mut().map(poll).collect();
    let (pending, out) = handle_promises(polled, &|v: u32| v * 10);
    assert_eq!(out, vec![30]);
    slots = pending;
    assert_eq!(slots.len(), 1);
    first_sender.send(1);
    let polled = slots.iter_mut().map(poll).collect();
    let (pending, out) = handle_promises(polled, &|v: u32| v * 10);
    assert_eq!(out, vec![10]);
    assert!(pending.is_empty());
    let (pending, out) = handle_promises(Vec::<Polled<u32>>::new(), &|v: u32| v * 10);
    assert!(out.is_empty() && pending.is_empty());
}

#[test]
fn pending_promises_keep_their_order() {
    let (a_sender, a) = Promise::<u32>::new();
    let (b_sender, b) = Promise::<u32>::new();
    let mut slots = vec![Some(a), Some(Promise::from_ready(9)), Some(b)];
    let polled = slots.iter_mut().map(poll).collect();
    let (mut pending, out) = handle_promises(polled, &|v: u32| v);
    assert_eq!(out, vec![9]);
    b_sender.send(2);
    a_sender.send(1);
    let first = pending.remove(0).unwrap().try_take().ok();
    let second = pending.remove(0).unwrap().try_take().ok();
    assert_eq!((first, second), (Some(1), Some(2)));
}
