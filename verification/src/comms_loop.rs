//! The reader loop's policy: what one read outcome makes the loop do.
//!
//! A dedicated thread owns the connection and reads in non-blocking mode; the
//! decisions it takes per outcome live here. Successful messages are
//! forwarded; the exit message also ends the loop from the inside. A
//! would-block read only pauses the loop. Any other failure is forwarded as a
//! transport error and the loop carries on. Whatever the outcome, a set stop
//! flag ends the loop, so a steady message stream cannot defer shutdown.

use vstd::prelude::*;
use crate::action_loop::ActionMessage;
use crate::comms::{CommsError, MessageFromLV};

verus! {

/// What one non-blocking read of the connection produced.
#[derive(Debug)]
pub enum ReadOutcome {
    /// A whole message arrived.
    Message(MessageFromLV),
    /// Nothing has arrived yet; not a failure.
    WouldBlock,
    /// The read failed.
    Failed(CommsError),
}

/// What the reader loop does next.
pub struct CommsStep {
    /// The message to forward to the action loop, if any.
    pub forward: Option<ActionMessage>,
    /// Sleep briefly before the next read, to avoid busy-spinning.
    pub pause: bool,
    /// Leave the loop.
    pub exit_loop: bool,
}

/// Whether a message ends the session from the child's side.
pub open spec fn is_terminating_message(m: MessageFromLV) -> bool {
    m matches MessageFromLV::EXIT(_)
}

/// Decide one reader-loop iteration from the read outcome and the stop flag
/// as last observed.
pub fn comms_step(outcome: ReadOutcome, stop_set: bool) -> (r: CommsStep)
    ensures
        match outcome {
            ReadOutcome::Message(m) => {
                &&& r.forward matches Some(f) && f == ActionMessage::LVMessage(m)
                &&& r.pause == false
                &&& r.exit_loop == (is_terminating_message(m) || stop_set)
            },
            ReadOutcome::WouldBlock => {
                &&& r.forward is None
                &&& r.pause == !stop_set
                &&& r.exit_loop == stop_set
            },
            ReadOutcome::Failed(e) => {
                &&& r.forward matches Some(f) && f == ActionMessage::CommsError(e)
                &&& r.pause == false
                &&& r.exit_loop == stop_set
            },
        },
{
    match outcome {
        ReadOutcome::Message(m) => {
            let terminating = match &m {
                MessageFromLV::EXIT(_) => true,
                _ => false,
            };
            CommsStep {
                forward: Some(ActionMessage::LVMessage(m)),
                pause: false,
                exit_loop: terminating || stop_set,
            }
        },
        ReadOutcome::WouldBlock => CommsStep {
            forward: None,
            pause: !stop_set,
            exit_loop: stop_set,
        },
        ReadOutcome::Failed(e) => CommsStep {
            forward: Some(ActionMessage::CommsError(e)),
            pause: false,
            exit_loop: stop_set,
        },
    }
}

} // verus!
