//! The dispatch queue: a FIFO handoff of decoded event callbacks from the
//! HTTP boundary to the worker.
//!
//! The queue itself is a plain value; the surrounding program guards it with
//! whatever synchronization its execution model needs and gives it to exactly
//! one consumer. Delivery order is the push order.

use vstd::prelude::*;
use crate::model::EventCallback;
use crate::model::EventCallbackV;

verus! {

/// The values of a sequence of event callbacks, element by element.
pub open spec fn view_callbacks(s: Seq<EventCallback>) -> Seq<EventCallbackV>
    decreases s,
{
    if s.len() == 0 {
        Seq::empty()
    } else {
        seq![s[0]@] + view_callbacks(s.drop_first())
    }
}

/// `view_callbacks` keeps the length and maps each element to its view.
pub broadcast proof fn lemma_view_callbacks(s: Seq<EventCallback>)
    ensures
        (#[trigger] view_callbacks(s)).len() == s.len(),
        forall|i: int| 0 <= i < s.len() ==> view_callbacks(s)[i] == s[i]@,
    decreases s,
{
    if s.len() != 0 {
        lemma_view_callbacks(s.drop_first());
        assert(view_callbacks(s) == seq![s[0]@] + view_callbacks(s.drop_first()));
        assert forall|i: int| 0 <= i < s.len() implies view_callbacks(s)[i] == s[i]@ by {
            if i > 0 {
                assert(view_callbacks(s)[i] == view_callbacks(s.drop_first())[i - 1]);
                assert(s.drop_first()[i - 1] == s[i]);
            }
        }
    }
}

/// A first-in, first-out queue of event callbacks.
pub struct DispatchQueue {
    items: Vec<EventCallback>,
}

impl View for DispatchQueue {
    type V = Seq<EventCallbackV>;

    closed spec fn view(&self) -> Seq<EventCallbackV> {
        view_callbacks(self.items@)
    }
}

impl DispatchQueue {
    /// An empty queue.
    pub fn new() -> (q: DispatchQueue)
        ensures
            q@ == Seq::<EventCallbackV>::empty(),
    {
        DispatchQueue { items: Vec::new() }
    }

    /// How many callbacks are waiting.
    pub fn len(&self) -> (n: usize)
        ensures
            n == self@.len(),
    {
        proof {
            lemma_view_callbacks(self.items@);
        }
        self.items.len()
    }

    /// Appends one callback at the back.
    pub fn push(&mut self, cb: EventCallback)
        ensures
            final(self)@ == old(self)@.push(cb@),
    {
        let ghost old_items = self.items@;
        let ghost cbv = cb@;
        self.items.push(cb);
        proof {
            lemma_view_callbacks(old_items);
            lemma_view_callbacks(self.items@);
            assert(view_callbacks(self.items@) =~= view_callbacks(old_items).push(cbv));
        }
    }

    /// Removes and returns the callback that has waited longest, if any.
    pub fn pop(&mut self) -> (r: Option<EventCallback>)
        ensures
            old(self)@.len() == 0 ==> r is None && final(self)@ == old(self)@,
            old(self)@.len() > 0 ==> (match r {
                Some(cb) => cb@ == old(self)@[0] && final(self)@ == old(self)@.drop_first(),
                None => false,
            }),
    {
        proof {
            lemma_view_callbacks(self.items@);
        }
        if self.items.len() == 0 {
            return None;
        }
        let ghost old_items = self.items@;
        let cb = self.items.remove(0);
        proof {
            lemma_view_callbacks(old_items);
            lemma_view_callbacks(self.items@);
            assert(self.items@ =~= old_items.drop_first());
            assert(view_callbacks(self.items@) =~= view_callbacks(old_items).drop_first());
        }
        Some(cb)
    }
}

/// Dispatch is first-in, first-out: after pushing `e1` and then `e2`,
/// everything queued earlier leaves first, then `e1`, and only then `e2` —
/// whatever else the two pushes were interleaved with is in `q0`.
pub proof fn lemma_queue_fifo(q0: Seq<EventCallbackV>, e1: EventCallbackV, e2: EventCallbackV)
    ensures
        q0.push(e1).push(e2).len() == q0.len() + 2,
        q0.push(e1).push(e2)[q0.len() as int] == e1,
        q0.push(e1).push(e2)[q0.len() as int + 1] == e2,
        forall|i: int| 0 <= i < q0.len() ==> q0.push(e1).push(e2)[i] == q0[i],
{
}

} // verus!
