//! The message bus: a first-in, first-out queue.

use crate::error::ChatError;
use std::collections::VecDeque;
use vstd::prelude::*;

verus! {

/// An unbounded queue of messages. What goes in at the back comes out at the
/// front, in the order in which it went in.
#[derive(Debug)]
pub struct MessageBus<T> {
    pub queue: VecDeque<T>,
}

impl<T> View for MessageBus<T> {
    type V = Seq<T>;

    open spec fn view(&self) -> Seq<T> {
        self.queue@
    }
}

impl<T> MessageBus<T> {
    pub fn new() -> (bus: Self)
        ensures
            bus@ == Seq::<T>::empty(),
    {
        MessageBus { queue: VecDeque::new() }
    }

    /// Appends `msg` at the tail. This never fails.
    pub fn push_back(&mut self, msg: T) -> (r: Result<(), ChatError>)
        ensures
            r is Ok,
            final(self)@ == old(self)@.push(msg),
    {
        self.queue.push_back(msg);
        Ok(())
    }

    /// Takes the oldest message off the bus, if there is one.
    pub fn pop_front(&mut self) -> (r: Option<T>)
        ensures
            old(self)@.len() == 0 ==> r is None && final(self)@ == old(self)@,
            old(self)@.len() > 0 ==> r == Some(old(self)@.first()) && final(self)@ == old(
                self,
            )@.drop_first(),
    {
        self.queue.pop_front()
    }

    pub fn len(&self) -> (n: usize)
        ensures
            n == self@.len(),
    {
        self.queue.len()
    }

    pub fn is_empty(&self) -> (b: bool)
        ensures
            b == (self@.len() == 0),
    {
        self.queue.len() == 0
    }
}

impl<T> Default for MessageBus<T> {
    fn default() -> (bus: Self)
        ensures
            bus@ == Seq::<T>::empty(),
    {
        MessageBus::new()
    }
}

} // verus!
