//! The decisions of the output consumer: it forwards characters from the
//! output channel until told to stop, then drains what is still queued.

use vstd::prelude::*;

verus! {

/// What the consumer does after one poll of its channels.
#[derive(Clone, Copy, Debug, PartialEq, Eq, Structural)]
pub enum IoAction {
    /// Write this character to the sink.
    Emit(char),
    /// Nothing to write yet; poll again.
    Wait,
    /// A stop was requested and the output channel is empty: terminate.
    Exit,
}

/// The output consumer's state: whether a stop request has been seen.
pub struct Virtio {
    stop_requested: bool,
}

impl Virtio {
    /// A consumer that has seen no stop request.
    pub fn new() -> (r: Virtio)
        ensures
            !r.stop_requested(),
    {
        Virtio { stop_requested: false }
    }

    pub closed spec fn stop_requested(&self) -> bool {
        self.stop_requested
    }

    pub fn is_stopping(&self) -> (r: bool)
        ensures
            r == self.stop_requested(),
    {
        self.stop_requested
    }

    /// One poll: `stop` tells whether the control channel delivered a stop
    /// request, and `next` is what the output channel then gave, if anything.
    /// A queued character is always forwarded; the consumer exits only once a
    /// stop request has been seen and the output channel is empty.
    pub fn next_action(&mut self, stop: bool, next: Option<char>) -> (a: IoAction)
        ensures
            final(self).stop_requested() == (old(self).stop_requested() || stop),
            a == match next {
                Some(c) => IoAction::Emit(c),
                None => if final(self).stop_requested() {
                    IoAction::Exit
                } else {
                    IoAction::Wait
                },
            },
    {
        if stop {
            self.stop_requested = true;
        }
        match next {
            Some(c) => IoAction::Emit(c),
            None => if self.stop_requested {
                IoAction::Exit
            } else {
                IoAction::Wait
            },
        }
    }
}

} // verus!
