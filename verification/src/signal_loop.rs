//! The signal loop's policy: what one bounded wait on the local interrupt
//! channel makes the loop do.
//!
//! A dedicated thread installs the process-wide interrupt handler, which
//! posts to a local channel; the thread polls that channel with a bounded
//! wait. A received interrupt is forwarded to the action loop; a timeout is
//! the moment to check the stop flag and wind down.

use vstd::prelude::*;
use crate::action_loop::ActionMessage;

verus! {

/// What one bounded wait on the local interrupt channel produced.
#[derive(Copy, Clone, Debug, PartialEq, Eq, Structural)]
pub enum SignalPoll {
    /// The interrupt handler fired.
    Received,
    /// The wait timed out with nothing received.
    TimedOut,
}

/// What the signal loop does next.
pub struct SignalStep {
    /// Forward an interrupt event to the action loop.
    pub emit: Option<ActionMessage>,
    /// Leave the loop.
    pub exit_loop: bool,
}

/// Decide one signal-loop iteration from the wait's outcome and the stop
/// flag as last observed: an interrupt is always forwarded, and only a quiet
/// interval lets the loop notice the stop request.
pub fn signal_step(poll: SignalPoll, stop_set: bool) -> (r: SignalStep)
    ensures
        match poll {
            SignalPoll::Received => {
                &&& r.emit matches Some(m) && m == ActionMessage::CtrlC
                &&& r.exit_loop == false
            },
            SignalPoll::TimedOut => {
                &&& r.emit is None
                &&& r.exit_loop == stop_set
            },
        },
{
    match poll {
        SignalPoll::Received => SignalStep { emit: Some(ActionMessage::CtrlC), exit_loop: false },
        SignalPoll::TimedOut => SignalStep { emit: None, exit_loop: stop_set },
    }
}

} // verus!
