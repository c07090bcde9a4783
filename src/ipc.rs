//! Channels: unbounded FIFO queues of values between processes.
use crate::val::Value;
use std::collections::VecDeque;
use vstd::prelude::*;

verus! {

/// A first-in first-out queue of values; receiving never blocks.
#[derive(Debug)]
pub struct Channel {
    messages: VecDeque<Value>,
}

impl Channel {
    /// The values waiting, oldest first.
    pub closed spec fn queue(&self) -> Seq<Value> {
        self.messages@
    }

    /// The oldest value waiting, taken off the queue; `None` when the queue is empty.
    pub fn recv(&mut self) -> (r: Option<Value>)
        ensures
            old(self).queue().len() == 0 ==> r is None && final(self).queue() == old(self).queue(),
            old(self).queue().len() > 0 ==> r == Some(old(self).queue()[0])
                && final(self).queue() == old(self).queue().drop_first(),
    {
        self.messages.pop_front()
    }

    /// Puts `val` at the end of the queue.
    pub fn send(&mut self, val: Value)
        ensures
            final(self).queue() == old(self).queue().push(val),
    {
        self.messages.push_back(val);
    }

    /// An empty channel.
    pub fn new() -> (r: Self)
        ensures
            r.queue() == Seq::<Value>::empty(),
    {
        Self { messages: VecDeque::with_capacity(8) }
    }
}

} // verus!
