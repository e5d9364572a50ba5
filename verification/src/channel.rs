//! The two control-plane channels: commands inbound to the engine, state
//! snapshots outbound to its observers.
//!
//! Each channel is an unbounded, non-blocking, multi-producer/multi-consumer
//! FIFO queue shared between the audio thread and any number of control
//! threads. Because every handle may be raced by another thread, no contract
//! here says how a queue's contents change: the verified engine takes
//! whatever a pop hands back and is proved correct for every such value.

use vstd::prelude::*;

use crate::types::Command;
use crate::types::State;

verus! {

/// A shared handle to the command channel (control plane to engine).
#[verifier::external_body]
pub struct CommandQueue {
    queue: std::sync::Arc<crossbeam_queue::SegQueue<Command>>,
}

impl CommandQueue {
    /// Relies on crossbeam_queue::SegQueue::new: creates an empty queue.
    /// Nothing is claimed of the contents, which other handles may change at
    /// any time.
    #[verifier::external_body]
    pub fn new() -> (r: CommandQueue) {
        CommandQueue { queue: std::sync::Arc::new(crossbeam_queue::SegQueue::new()) }
    }

    /// A second handle to the same underlying queue, for another thread.
    /// Relies on std::sync::Arc::clone.
    #[verifier::external_body]
    pub fn handle(&self) -> (r: CommandQueue) {
        CommandQueue { queue: std::sync::Arc::clone(&self.queue) }
    }

    /// Relies on crossbeam_queue::SegQueue::push: appends at the tail and
    /// never blocks.
    #[verifier::external_body]
    pub fn push(&self, c: Command) {
        self.queue.push(c);
    }

    /// Relies on crossbeam_queue::SegQueue::pop: removes the head element,
    /// or returns `None` when the queue is observed empty; never blocks.
    #[verifier::external_body]
    pub fn pop(&self) -> (r: Option<Command>) {
        self.queue.pop()
    }
}

/// A shared handle to the state channel (engine to control plane).
#[verifier::external_body]
pub struct StateQueue {
    queue: std::sync::Arc<crossbeam_queue::SegQueue<State>>,
}

impl StateQueue {
    /// Relies on crossbeam_queue::SegQueue::new: creates an empty queue.
    /// Nothing is claimed of the contents, which other handles may change at
    /// any time.
    #[verifier::external_body]
    pub fn new() -> (r: StateQueue) {
        StateQueue { queue: std::sync::Arc::new(crossbeam_queue::SegQueue::new()) }
    }

    /// A second handle to the same underlying queue, for another thread.
    /// Relies on std::sync::Arc::clone.
    #[verifier::external_body]
    pub fn handle(&self) -> (r: StateQueue) {
        StateQueue { queue: std::sync::Arc::clone(&self.queue) }
    }

    /// Relies on crossbeam_queue::SegQueue::push: appends at the tail and
    /// never blocks.
    #[verifier::external_body]
    pub fn push(&self, s: State) {
        self.queue.push(s);
    }

    /// Relies on crossbeam_queue::SegQueue::pop: removes the head element,
    /// or returns `None` when the queue is observed empty; never blocks.
    #[verifier::external_body]
    pub fn pop(&self) -> (r: Option<State>) {
        self.queue.pop()
    }
}

} // verus!
