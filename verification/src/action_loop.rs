//! The action loop: the single consumer that turns every concurrent event —
//! child messages, transport failures, interrupts — into one terminal
//! decision, and publishes the shared stop flag the background threads poll.

use vstd::prelude::*;
use std::sync::Arc;
use std::sync::atomic::AtomicBool;
use std::sync::mpsc::{Receiver, Sender};
use crate::comms::{CommsError, MessageFromLV};

verus! {

/// The unified event stream the action loop consumes.
#[derive(Debug)]
pub enum ActionMessage {
    /// A message the child application sent.
    LVMessage(MessageFromLV),
    /// The transport failed; the run ends with the failure exit code.
    CommsError(CommsError),
    /// The user interrupted the run.
    CtrlC,
}

/// The terminal verdict of a run.
#[derive(Copy, Clone, Debug, PartialEq, Eq, Structural)]
pub enum ExitAction {
    /// Exit cleanly with the provided error code.
    CleanExit(i32),
    /// Kill signals have been recieved. Stop and kill all processes ASAP.
    ForcedExit,
}

/// How one message moves the decision: output messages change nothing, an
/// exit code or a transport failure decides a clean exit, and an interrupt
/// forces the forced exit whatever went before.
pub open spec fn next_action(state: ExitAction, m: ActionMessage) -> ExitAction {
    match m {
        ActionMessage::LVMessage(MessageFromLV::OUTP(_)) => state,
        ActionMessage::LVMessage(MessageFromLV::SERR(_)) => state,
        ActionMessage::LVMessage(MessageFromLV::EXIT(code)) => ExitAction::CleanExit(code),
        ActionMessage::CommsError(_) => ExitAction::CleanExit(-1i32),
        ActionMessage::CtrlC => ExitAction::ForcedExit,
    }
}

/// Whether a message asks the cooperating threads to wind down.
pub open spec fn sets_stop(m: ActionMessage) -> bool {
    match m {
        ActionMessage::LVMessage(MessageFromLV::OUTP(_)) => false,
        ActionMessage::LVMessage(MessageFromLV::SERR(_)) => false,
        _ => true,
    }
}

/// The decision after a whole message sequence, starting from a clean exit
/// with code 0.
pub open spec fn final_action(msgs: Seq<ActionMessage>) -> ExitAction
    decreases msgs.len(),
{
    if msgs.len() == 0 {
        ExitAction::CleanExit(0)
    } else {
        next_action(final_action(msgs.drop_last()), msgs.last())
    }
}

/// A message that only relays output.
pub open spec fn is_output_message(m: ActionMessage) -> bool {
    match m {
        ActionMessage::LVMessage(MessageFromLV::OUTP(_)) => true,
        ActionMessage::LVMessage(MessageFromLV::SERR(_)) => true,
        _ => false,
    }
}

/// However much output precedes it, a sequence of child messages that ends
/// with its one exit message decides a clean exit with that exit code.
pub proof fn lemma_exit_code_decides(msgs: Seq<ActionMessage>, code: i32)
    requires
        msgs.len() > 0,
        msgs.last() == ActionMessage::LVMessage(MessageFromLV::EXIT(code)),
        forall|i: int| 0 <= i < msgs.len() - 1 ==> is_output_message(#[trigger] msgs[i]),
    ensures
        final_action(msgs) == ExitAction::CleanExit(code),
{
}

/// An interrupt always wins: whatever was decided before it, a trailing
/// interrupt forces the forced exit.
pub proof fn lemma_interrupt_overrides(msgs: Seq<ActionMessage>)
    ensures
        final_action(msgs.push(ActionMessage::CtrlC)) == ExitAction::ForcedExit,
{
    let pushed = msgs.push(ActionMessage::CtrlC);
    assert(pushed.last() == ActionMessage::CtrlC);
}

/// Take one message: the decision it leaves, and whether it set the stop
/// flag.
pub fn handle_message(state: ExitAction, message: &ActionMessage) -> (r: (ExitAction, bool))
    ensures
        r.0 == next_action(state, *message),
        r.1 == sets_stop(*message),
{
    match message {
        ActionMessage::LVMessage(MessageFromLV::OUTP(_)) => (state, false),
        ActionMessage::LVMessage(MessageFromLV::SERR(_)) => (state, false),
        ActionMessage::LVMessage(MessageFromLV::EXIT(code)) => (
            ExitAction::CleanExit(*code),
            true,
        ),
        ActionMessage::CommsError(_) => (ExitAction::CleanExit(-1), true),
        ActionMessage::CtrlC => (ExitAction::ForcedExit, true),
    }
}

/// Run the decision rules over a whole recorded message sequence.
pub fn process_messages(messages: &Vec<ActionMessage>) -> (r: ExitAction)
    ensures
        r == final_action(messages@),
{
    let mut state = ExitAction::CleanExit(0);
    let mut i: usize = 0;
    while i < messages.len()
        invariant
            0 <= i <= messages@.len(),
            state == final_action(messages@.take(i as int)),
        decreases messages@.len() - i,
    {
        let (next, _) = handle_message(state, &messages[i]);
        state = next;
        proof {
            assert(messages@.take(i + 1).drop_last() =~= messages@.take(i as int));
            assert(messages@.take(i + 1).last() == messages@[i as int]);
        }
        i += 1;
    }
    proof {
        assert(messages@.take(messages@.len() as int) =~= messages@);
    }
    state
}

/// Relies on `std::sync::mpsc::Sender`: the sending half of the unified
/// channel into the action loop.
#[verifier::external_type_specification]
#[verifier::external_body]
#[verifier::reject_recursive_types(T)]
pub struct ExSender<T>(Sender<T>);

/// Relies on `std::sync::mpsc::Receiver`: the consuming half of that
/// channel.
#[verifier::external_type_specification]
#[verifier::external_body]
#[verifier::reject_recursive_types(T)]
pub struct ExReceiver<T>(Receiver<T>);

/// Relies on `std::sync::mpsc::channel`: the two halves belong to one
/// freshly created queue; nothing about its contents is modelled.
#[verifier::external_body]
fn action_channel() -> (Sender<ActionMessage>, Receiver<ActionMessage>) {
    std::sync::mpsc::channel()
}

/// Relies on `Sender::clone`: the clone is a sending handle on the very
/// same channel, so as abstract values the two are equal.
#[verifier::external_body]
fn clone_sender(tx: &Sender<ActionMessage>) -> (r: Sender<ActionMessage>)
    ensures
        r == *tx,
{
    tx.clone()
}

/// Relies on `Arc::clone`: the clone is a handle to the very same shared
/// flag, so as abstract values the two are equal.
#[verifier::external_body]
fn clone_flag(stopped: &Arc<AtomicBool>) -> (r: Arc<AtomicBool>)
    ensures
        r == *stopped,
{
    stopped.clone()
}


/// The hub that owns the unified channel and the shared stop flag. The
/// thread that drives the run holds the receiving half; `tx` is the setup
/// code's own sentinel sender, to be released before the receive loop starts
/// so that the channel closes once every producer is gone.
pub struct ActionLoop {
    pub tx: Sender<ActionMessage>,
    pub rx: Receiver<ActionMessage>,
    pub stopped: Arc<AtomicBool>,
}

impl ActionLoop {
    /// Create the channel and the stop flag, both not yet shared.
    pub fn new() -> Self {
        let (tx, rx) = action_channel();
        let stopped = Arc::new(AtomicBool::new(false));
        ActionLoop { tx, rx, stopped }
    }

    /// Get a copy of the channel to send messages to the action loop: a
    /// sending handle on the loop's own unified channel.
    pub fn get_channel(&self) -> (r: Sender<ActionMessage>)
        ensures
            r == self.tx,
    {
        clone_sender(&self.tx)
    }

    /// Get a copy of the stop signal used to monitor when the loop has
    /// stopped: a handle to the loop's own shared flag, not a fresh one.
    pub fn get_stop_signal(&self) -> (r: Arc<AtomicBool>)
        ensures
            r == self.stopped,
    {
        clone_flag(&self.stopped)
    }
}

/// The process exit code a decision maps to: the child's own reported code
/// on a clean exit, the forced-exit sentinel on an interrupt-driven one.
pub fn exit_code(action: ExitAction) -> (r: i32)
    ensures
        r == match action {
            ExitAction::CleanExit(code) => code,
            ExitAction::ForcedExit => -1i32,
        },
{
    match action {
        ExitAction::CleanExit(code) => code,
        ExitAction::ForcedExit => -1,
    }
}

} // verus!

