use vstd::prelude::*;

use poll_promise::Promise;

verus! {

/// poll_promise::Promise, a value that some task will produce, held opaque.
#[verifier::external_type_specification]
#[verifier::external_body]
#[verifier::reject_recursive_types(T)]
pub struct ExPromise<T: Send + 'static>(Promise<T>);

/// What polling a slot found: `None` where the slot held no promise, else
/// the value of the finished work, or the promise itself, still pending.
/// The poll is made where the promise's task may be waited on, outside this
/// library; the library decides what follows from what it found.
pub type Polled<T> = Option<Result<T, Promise<T>>>;

/// One poll of a slot: `held` whether it held a promise before, `got`
/// whether a result came out, `kept` whether it holds one after. A result
/// comes out only of an outstanding promise and clears the slot; with no
/// result the slot stays as outstanding as it was.
pub open spec fn poll_step(held: bool, got: bool, kept: bool) -> bool {
    &&& got ==> held && !kept
    &&& !got ==> kept == held
}

/// Polling a slot twice yields at most one result, and after a result the
/// slot stays cleared: the handler runs at most once per promise.
pub proof fn lemma_consumed_once(h0: bool, g1: bool, h1: bool, g2: bool, h2: bool)
    requires
        poll_step(h0, g1, h1),
        poll_step(h1, g2, h2),
    ensures
        !(g1 && g2),
        g1 ==> !h1 && !h2,
        !g1 && !g2 ==> h2 == h0,
{
}

/// Takes in one poll of a slot whose promise was taken out to be polled.
/// Where the work had finished, its value (an error value too) goes to
/// `on_result` and what that returns comes back, the slot staying clear; a
/// pending promise goes back into the slot, with no result; an empty slot
/// stays empty.
pub fn handle_promise<T: Send + 'static, R, F: FnOnce(T) -> R>(
    slot: &mut Option<Promise<T>>,
    polled: Polled<T>,
    on_result: F,
) -> (r: Option<R>)
    requires
        old(slot).is_none(),
        forall|t: T| on_result.requires((t,)),
    ensures
        match polled {
            None => r.is_none() && final(slot).is_none(),
            Some(Ok(t)) => final(slot).is_none() && (r matches Some(v) && on_result.ensures(
                (t,),
                v,
            )),
            Some(Err(p)) => *final(slot) == Some(p) && r.is_none(),
        },
        poll_step(polled.is_some(), r.is_some(), final(slot).is_some()),
{
    match polled {
        None => None,
        Some(Ok(t)) => Some(on_result(t)),
        Some(Err(p)) => {
            *slot = Some(p);
            None
        },
    }
}

/// The promises still pending among the polled slots, in their order.
pub open spec fn still_pending<T: Send + 'static>(s: Seq<Polled<T>>) -> Seq<Option<Promise<T>>>
    decreases s.len(),
{
    if s.len() == 0 {
        Seq::empty()
    } else {
        (match s[0] {
            Some(Err(p)) => seq![Some(p)],
            _ => Seq::empty(),
        }) + still_pending(s.subrange(1, s.len() as int))
    }
}

/// The values of the finished work among the polled slots, in their order.
pub open spec fn finished<T: Send + 'static>(s: Seq<Polled<T>>) -> Seq<T>
    decreases s.len(),
{
    if s.len() == 0 {
        Seq::empty()
    } else {
        (match s[0] {
            Some(Ok(t)) => seq![t],
            _ => Seq::empty(),
        }) + finished(s.subrange(1, s.len() as int))
    }
}

/// Takes in one poll of every slot of an ordered list. Each finished value
/// goes to `on_result`, in the order of the slots, and the outputs come back
/// in that order; the pending promises come back, in their order, as the
/// slots to keep; empty and finished slots are pruned.
pub fn handle_promises<T: Send + 'static, R, F: Fn(T) -> R>(
    polled: Vec<Polled<T>>,
    on_result: &F,
) -> (r: (Vec<Option<Promise<T>>>, Vec<R>))
    requires
        forall|t: T| on_result.requires((t,)),
    ensures
        r.0@ == still_pending(polled@),
        r.1@.len() == finished(polled@).len(),
        forall|i: int|
            0 <= i < r.1@.len() ==> on_result.ensures((finished(polled@)[i],), #[trigger] r.1@[i]),
{
    let ghost all = polled@;
    let mut rest = polled;
    let mut pending: Vec<Option<Promise<T>>> = Vec::new();
    let mut results: Vec<R> = Vec::new();
    let ghost mut done: Seq<T> = Seq::empty();
    while rest.len() > 0
        invariant
            pending@ + still_pending(rest@) == still_pending(all),
            done + finished(rest@) == finished(all),
            results@.len() == done.len(),
            forall|i: int| 0 <= i < results@.len() ==> on_result.ensures((done[i],), #[trigger] results@[i]),
            forall|t: T| on_result.requires((t,)),
        decreases rest@.len(),
    {
        let ghost before = rest@;
        let x = rest.remove(0);
        assert(rest@ =~= before.subrange(1, before.len() as int));
        let ghost old_pending = pending@;
        let ghost old_done = done;
        match x {
            None => {
                assert(pending@ + still_pending(rest@) =~= old_pending + still_pending(before));
                assert(done + finished(rest@) =~= old_done + finished(before));
            },
            Some(Ok(t)) => {
                let v = on_result(t);
                results.push(v);
                proof {
                    done = done.push(t);
                    assert(pending@ + still_pending(rest@) =~= old_pending + still_pending(before));
                    assert(done + finished(rest@) =~= old_done + finished(before));
                    assert(results@[results@.len() - 1] == v);
                }
            },
            Some(Err(p)) => {
                pending.push(Some(p));
                proof {
                    assert(pending@ + still_pending(rest@) =~= old_pending + still_pending(before));
                    assert(done + finished(rest@) =~= old_done + finished(before));
                }
            },
        }
    }
    assert(pending@ =~= still_pending(all));
    assert(done =~= finished(all));
    (pending, results)
}

} // verus!
