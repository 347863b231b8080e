//! One step of an asynchronous iteration, as scripts see it.

use vstd::prelude::*;

verus! {

/// The result of asking a stream for its next item.
#[derive(Debug, Clone, PartialEq, Eq)]
pub struct Next<T> {
    pub done: bool,
    pub value: Option<T>,
}

impl<T> Next<T> {
    /// The step that corresponds to what the stream yielded: an item while
    /// there is one, and the end, without a value, once there is none.
    pub fn new(item: Option<T>) -> (r: Next<T>)
        ensures
            r.done == (item is None),
            r.value == item,
    {
        match item {
            Some(next) => Next { done: false, value: Some(next) },
            None => Next { done: true, value: None },
        }
    }
}

} // verus!
