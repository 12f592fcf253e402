//! Tests of the concurrent runtime's decision rules: the action loop, the
//! reader and signal loop policies, the accept wait, launch planning, and
//! argument joining.

use g_cli::action_loop::{
    exit_code, handle_message, process_messages, ActionLoop, ActionMessage, ExitAction,
};
use g_cli::comms::{
    startup_messages, wait_on_polls, wrap_read_error, CommsError, MessageFromLV, MessageToLV,
    PollOutcome, ReadErrorKind,
};
use g_cli::comms_loop::{comms_step, ReadOutcome};
use g_cli::installs::{Bitness, LabviewInstall, SystemLabviewInstalls};
use g_cli::launch::{choose_vi_location, create_args, find_install, plan_launch, LaunchMethod};
use g_cli::labview_error::LabVIEWError;
use g_cli::os_string_support::join_os_string;
use g_cli::signal_loop::{signal_step, SignalPoll};

#[test]
fn output_messages_leave_the_decision_alone() {
    let messages = vec![
        ActionMessage::LVMessage(MessageFromLV::OUTP(String::from("hello"))),
        ActionMessage::LVMessage(MessageFromLV::SERR(String::from("warn"))),
    ];

    assert_eq!(process_messages(&messages), ExitAction::CleanExit(0));
}

#[test]
fn exit_code_decides_after_any_output() {
    let messages = vec![
        ActionMessage::LVMessage(MessageFromLV::OUTP(String::from("a"))),
        ActionMessage::LVMessage(MessageFromLV::SERR(String::from("b"))),
        ActionMessage::LVMessage(MessageFromLV::OUTP(String::from("c"))),
        ActionMessage::LVMessage(MessageFromLV::EXIT(42)),
    ];

    assert_eq!(process_messages(&messages), ExitAction::CleanExit(42));
}

#[test]
fn transport_error_decides_the_failure_code() {
    let messages = vec![
        ActionMessage::LVMessage(MessageFromLV::OUTP(String::from("a"))),
        ActionMessage::CommsError(CommsError::ConnectionClosedEof),
    ];

    assert_eq!(process_messages(&messages), ExitAction::CleanExit(-1));
}

#[test]
fn interrupt_after_clean_exit_still_forces() {
    let messages = vec![
        ActionMessage::LVMessage(MessageFromLV::EXIT(0)),
        ActionMessage::CtrlC,
    ];

    assert_eq!(process_messages(&messages), ExitAction::ForcedExit);
}

#[test]
fn handle_message_reports_stop_requests() {
    let start = ExitAction::CleanExit(0);

    let (state, stop) = handle_message(start, &ActionMessage::LVMessage(MessageFromLV::OUTP(String::from("x"))));
    assert_eq!(state, ExitAction::CleanExit(0));
    assert!(!stop);

    let (state, stop) = handle_message(start, &ActionMessage::LVMessage(MessageFromLV::EXIT(3)));
    assert_eq!(state, ExitAction::CleanExit(3));
    assert!(stop);

    let (state, stop) = handle_message(state, &ActionMessage::CtrlC);
    assert_eq!(state, ExitAction::ForcedExit);
    assert!(stop);
}

#[test]
fn action_loop_channel_delivers_messages() {
    let action_loop = ActionLoop::new();
    let sender = action_loop.get_channel();
    sender
        .send(ActionMessage::LVMessage(MessageFromLV::EXIT(7)))
        .expect("queue must accept");
    drop(sender);
    drop(action_loop.tx);

    let received = action_loop.rx.recv().expect("one message is queued");
    let (state, _) = handle_message(ExitAction::CleanExit(0), &received);
    assert_eq!(state, ExitAction::CleanExit(7));
    // With every sender gone the channel reports closure.
    assert!(action_loop.rx.recv().is_err());
}

#[test]
fn exit_code_keeps_clean_codes_and_marks_forced_exits() {
    assert_eq!(exit_code(ExitAction::CleanExit(0)), 0);
    assert_eq!(exit_code(ExitAction::CleanExit(100)), 100);
    assert_eq!(exit_code(ExitAction::CleanExit(-10000)), -10000);
    assert_eq!(exit_code(ExitAction::ForcedExit), -1);
}

#[test]
fn startup_handshake_sends_arguments_then_cwd() {
    let args = vec![String::from("one"), String::from("two")];
    let messages = startup_messages(args.clone(), String::from("/work"));

    assert_eq!(messages.len(), 2);
    assert_eq!(messages[0], MessageToLV::ARGS(args));
    assert_eq!(messages[1], MessageToLV::CCWD(String::from("/work")));
}

#[test]
fn comms_step_forwards_and_ends_on_exit() {
    let step = comms_step(ReadOutcome::Message(MessageFromLV::EXIT(1)), false);
    assert!(matches!(
        step.forward,
        Some(ActionMessage::LVMessage(MessageFromLV::EXIT(1)))
    ));
    assert!(!step.pause);
    assert!(step.exit_loop);

    let step = comms_step(ReadOutcome::Message(MessageFromLV::OUTP(String::from("t"))), false);
    assert!(step.forward.is_some());
    assert!(!step.exit_loop);
}

#[test]
fn comms_step_pauses_on_would_block_and_heeds_stop() {
    let step = comms_step(ReadOutcome::WouldBlock, false);
    assert!(step.forward.is_none());
    assert!(step.pause);
    assert!(!step.exit_loop);

    let step = comms_step(ReadOutcome::WouldBlock, true);
    assert!(!step.pause);
    assert!(step.exit_loop);
}

#[test]
fn comms_step_forwards_errors_and_continues() {
    let step = comms_step(ReadOutcome::Failed(CommsError::ReadLvMessageError), false);
    assert!(matches!(
        step.forward,
        Some(ActionMessage::CommsError(CommsError::ReadLvMessageError))
    ));
    assert!(!step.exit_loop);
}

#[test]
fn signal_step_always_forwards_interrupts() {
    let step = signal_step(SignalPoll::Received, true);
    assert!(matches!(step.emit, Some(ActionMessage::CtrlC)));
    assert!(!step.exit_loop);

    let step = signal_step(SignalPoll::TimedOut, false);
    assert!(step.emit.is_none());
    assert!(!step.exit_loop);

    let step = signal_step(SignalPoll::TimedOut, true);
    assert!(step.exit_loop);
}

#[test]
fn wrap_read_error_diagnoses_closures() {
    assert_eq!(wrap_read_error(ReadErrorKind::UnexpectedEof), CommsError::ConnectionClosedEof);
    assert_eq!(
        wrap_read_error(ReadErrorKind::ConnectionAborted),
        CommsError::ConenctionClosedAborted
    );
    assert_eq!(wrap_read_error(ReadErrorKind::Other), CommsError::ReadLvMessageError);
}

#[test]
fn zero_timeout_accept_times_out_at_the_first_poll() {
    // One would-block poll suffices to decide: no waiting ever happens.
    let polls = vec![PollOutcome::WouldBlock];
    let outcome = wait_on_polls(&polls, 0);
    assert_eq!(outcome, Some(Err(CommsError::WaitOnConnectionTimeOut)));
}

#[test]
fn accept_within_budget_connects() {
    let polls = vec![PollOutcome::WouldBlock, PollOutcome::WouldBlock, PollOutcome::Connected];
    let outcome = wait_on_polls(&polls, 60_000);
    assert_eq!(outcome, Some(Ok(())));
}

#[test]
fn accept_budget_exhaustion_times_out() {
    // A 30 ms timeout affords three wait intervals; the third would-block
    // poll exhausts them.
    let polls = vec![
        PollOutcome::WouldBlock,
        PollOutcome::WouldBlock,
        PollOutcome::WouldBlock,
        PollOutcome::Connected,
    ];
    let outcome = wait_on_polls(&polls, 30);
    assert_eq!(outcome, Some(Err(CommsError::WaitOnConnectionTimeOut)));
}

#[test]
fn accept_failure_is_distinct_from_timeout() {
    let polls = vec![PollOutcome::Failed];
    let outcome = wait_on_polls(&polls, 60_000);
    assert_eq!(outcome, Some(Err(CommsError::WaitOnConnectionIoError)));
}

#[test]
fn test_args_with_port() {
    let args = create_args(1234, false);

    let expected = vec![
        String::from("-unattended"),
        String::from("--"),
        String::from("-p:1234"),
    ];

    assert_eq!(args, expected);
}

#[test]
fn test_args_no_dialog() {
    let args = create_args(1234, true);

    let expected = vec![String::from("--"), String::from("-p:1234")];

    assert_eq!(args, expected);
}

#[test]
fn launch_method_follows_the_extension() {
    assert_eq!(plan_launch("test.vi"), LaunchMethod::LabviewVi);
    assert_eq!(plan_launch("built/app.exe"), LaunchMethod::Executable);
    assert_eq!(plan_launch("tool"), LaunchMethod::AppendViExtension);
    match plan_launch("notes.txt") {
        LaunchMethod::UnknownExtension(ext) => assert_eq!(ext, "txt"),
        _ => panic!("txt must be refused"),
    }
}

#[test]
fn missing_vi_is_reported_by_path() {
    let install = LabviewInstall {
        version: String::from("2020"),
        bitness: Bitness::X64,
        path: String::from("/LV2020"),
    };

    let chosen = choose_vi_location("gone.vi", &install, false, false);
    match chosen {
        Err(LabVIEWError::ViDoesNotExist(path)) => assert_eq!(path, "gone.vi"),
        _ => panic!("a missing VI must be reported"),
    }

    let fallback = choose_vi_location("gone.vi", &install, false, true).expect("fallback exists");
    assert_eq!(fallback.labview_parameter(), "/LV2020/vi.lib/G CLI Tools/gone.vi");
}

#[test]
fn find_install_prefers_the_requested_version() {
    let mut installs = SystemLabviewInstalls::new();
    let v2019 = LabviewInstall {
        version: String::from("2019"),
        bitness: Bitness::X64,
        path: String::from("/LV2019_64"),
    };
    let v2020 = LabviewInstall {
        version: String::from("2020"),
        bitness: Bitness::X64,
        path: String::from("/LV2020_64"),
    };
    installs.add_install(v2019.clone());
    installs.add_install(v2020.clone());

    let chosen = find_install(&Some(String::from("2019")), Bitness::X64, &installs);
    assert_eq!(chosen, Some(v2019));

    // An unknown version falls back to the default, the latest install.
    let chosen = find_install(&Some(String::from("2031")), Bitness::X64, &installs);
    assert_eq!(chosen, Some(v2020.clone()));

    let chosen = find_install(&None, Bitness::X64, &installs);
    assert_eq!(chosen, Some(v2020));

    let empty = SystemLabviewInstalls::new();
    assert_eq!(find_install(&None, Bitness::X64, &empty), None);
}

#[test]
fn test_join_basic() {
    let input = vec![String::from("Test1"), String::from("Test2")];

    let output = join_os_string(&input, " ");

    assert_eq!(output, String::from("Test1 Test2"));
}

#[test]
fn test_join_single() {
    let input = vec![String::from("Test1")];

    let output = join_os_string(&input, " ");

    assert_eq!(output, String::from("Test1"));
}

#[test]
fn test_join_empty() {
    let input: Vec<String> = vec![];

    let output = join_os_string(&input, " ");

    assert_eq!(output, String::from(""));
}
