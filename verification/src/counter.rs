//! A counter that two buttons move up and down.

use vstd::prelude::*;

verus! {

/// The presses of the two buttons.
#[derive(Clone, Copy, Debug, PartialEq, Eq, Structural)]
pub enum CounterMessage {
    IncrementPressed,
    DecrementPressed,
}

/// The counter.
#[derive(Clone, Copy, Debug, PartialEq, Eq, Structural)]
pub struct CounterState {
    pub value: i32,
}

impl CounterState {
    /// The counter as it starts: at 1.
    pub fn new() -> (state: CounterState)
        ensures
            state.value == 1,
    {
        CounterState { value: 1 }
    }

    /// Moves the counter one up or one down. A counter at the end of the
    /// range of `i32` cannot move past it.
    pub fn update(&mut self, message: CounterMessage)
        requires
            message == CounterMessage::IncrementPressed ==> old(self).value < i32::MAX,
            message == CounterMessage::DecrementPressed ==> old(self).value > i32::MIN,
        ensures
            message == CounterMessage::IncrementPressed ==> final(self).value == old(self).value
                + 1,
            message == CounterMessage::DecrementPressed ==> final(self).value == old(self).value
                - 1,
    {
        match message {
            CounterMessage::IncrementPressed => {
                self.value += 1;
            },
            CounterMessage::DecrementPressed => {
                self.value -= 1;
            },
        }
    }
}

} // verus!
