use lldbui::session::{ControlRequest, EngineError};
use lldbui::state::{Frame, ProcessState, SessionState, Thread};

fn fresh(state: ProcessState) -> SessionState {
    SessionState::new(String::from("a.out"), Vec::new(), state, 0)
}

fn thread(id: u64, valid: bool) -> Thread {
    Thread {
        id,
        valid,
        name: format!("thread-{}", id),
        queue: None,
        stop_reason: None,
    }
}

fn frame(id: u32, valid: bool, has_parent: bool) -> Frame {
    Frame {
        id,
        valid,
        function_name: String::from("main"),
        line_entry: None,
        language: None,
        has_parent,
    }
}

#[test]
fn can_continue_only_when_halted() {
    let halted = [ProcessState::Stopped, ProcessState::Suspended];
    let others = [
        ProcessState::NotRunning,
        ProcessState::Launching,
        ProcessState::Running,
        ProcessState::Stepping,
        ProcessState::Crashed,
        ProcessState::Exited,
        ProcessState::Detached,
    ];
    for state in halted {
        assert!(fresh(state).can_continue());
    }
    for state in others {
        assert!(!fresh(state).can_continue());
    }
}

#[test]
fn can_stop_only_when_executing() {
    let executing = [ProcessState::Running, ProcessState::Stepping];
    let others = [
        ProcessState::NotRunning,
        ProcessState::Launching,
        ProcessState::Stopped,
        ProcessState::Suspended,
        ProcessState::Crashed,
        ProcessState::Exited,
        ProcessState::Detached,
    ];
    for state in executing {
        assert!(fresh(state).can_stop());
    }
    for state in others {
        assert!(!fresh(state).can_stop());
    }
}

#[test]
fn requests_blocked_while_cannot_continue() {
    // While the process runs, only a stop may be forwarded.
    let running = fresh(ProcessState::Running);
    assert_eq!(running.dispatch_control(ControlRequest::Continue), None);
    assert_eq!(running.dispatch_control(ControlRequest::StepInto), None);
    assert_eq!(running.dispatch_control(ControlRequest::StepOver), None);
    assert_eq!(running.dispatch_control(ControlRequest::StepOut), None);
    assert_eq!(
        running.dispatch_control(ControlRequest::Stop),
        Some(ControlRequest::Stop)
    );
}

#[test]
fn no_request_forwarded_in_terminal_states() {
    for state in [
        ProcessState::Exited,
        ProcessState::Crashed,
        ProcessState::Detached,
    ] {
        let s = fresh(state);
        for req in [
            ControlRequest::Stop,
            ControlRequest::Continue,
            ControlRequest::StepInto,
            ControlRequest::StepOver,
            ControlRequest::StepOut,
        ] {
            assert_eq!(s.dispatch_control(req), None);
        }
    }
}

#[test]
fn step_out_needs_parent_frame() {
    let mut s = fresh(ProcessState::Stopped);
    s.set_frames(vec![frame(1, true, false)], 1);
    assert_eq!(s.dispatch_control(ControlRequest::StepOut), None);
    s.set_frames(vec![frame(1, true, true)], 1);
    assert_eq!(
        s.dispatch_control(ControlRequest::StepOut),
        Some(ControlRequest::StepOut)
    );
    assert_eq!(
        s.dispatch_control(ControlRequest::StepInto),
        Some(ControlRequest::StepInto)
    );
}

#[test]
fn select_thread_applies_only_to_present_ids() {
    let mut s = fresh(ProcessState::Stopped);
    s.set_threads(vec![thread(7, true), thread(9, true)], 7);
    assert_eq!(s.selected_thread_id, 7);
    assert!(!s.take_stale());

    assert!(s.select_thread(9));
    assert_eq!(s.selected_thread_id, 9);
    assert!(s.take_stale());

    assert!(!s.select_thread(42));
    assert_eq!(s.selected_thread_id, 9);
    assert!(!s.take_stale());

    assert!(s.select_thread(0));
    assert_eq!(s.selected_thread_id, 0);
}

#[test]
fn engine_selection_not_in_list_clears_selection() {
    let mut s = fresh(ProcessState::Stopped);
    s.set_threads(vec![thread(7, true)], 12);
    assert_eq!(s.selected_thread_id, 0);
    s.set_frames(vec![frame(3, true, false)], 5);
    assert_eq!(s.selected_frame_id, 0);
}

#[test]
fn selected_frame_finds_first_match() {
    let mut s = fresh(ProcessState::Stopped);
    let mut inner = frame(2, true, true);
    inner.function_name = String::from("callee");
    let mut outer = frame(4, true, false);
    outer.function_name = String::from("caller");
    s.set_frames(vec![inner, outer], 4);
    let f = s.selected_frame().expect("selected frame should be found");
    assert_eq!(f.function_name, "caller");
    assert_eq!(f.id, 4);

    s.select_frame(0);
    assert!(s.selected_frame().is_none());
}

#[test]
fn retain_valid_threads_drops_invalid_handles() {
    let kept = lldbui::session::retain_valid_threads(vec![
        thread(1, true),
        thread(2, false),
        thread(3, true),
    ]);
    let ids: Vec<u64> = kept.iter().map(|t| t.id).collect();
    assert_eq!(ids, vec![1, 3]);
}

#[test]
fn retain_valid_frames_drops_invalid_handles() {
    let kept = lldbui::session::retain_valid_frames(vec![
        frame(0, true, false),
        frame(1, false, false),
        frame(2, true, true),
    ]);
    let ids: Vec<u32> = kept.iter().map(|f| f.id).collect();
    assert_eq!(ids, vec![0, 2]);
}

#[test]
fn console_transcript_records_commands_verbatim() {
    let mut s = fresh(ProcessState::Stopped);
    s.record_console_result(
        &String::from("breakpoint list"),
        &Ok(String::from("No breakpoints currently set.")),
    );
    assert_eq!(
        s.console_transcript,
        "(lldb) breakpoint list\nNo breakpoints currently set.\n"
    );
}

#[test]
fn console_error_is_recorded_and_state_unchanged() {
    let mut s = fresh(ProcessState::Stopped);
    s.set_threads(vec![thread(7, true)], 7);
    let before_threads: Vec<u64> = s.threads.iter().map(|t| t.id).collect();
    let before_state = s.process_state;
    let before_pid = s.process_pid;
    let before_stdout = s.stdout_buffer.clone();

    let err = Err(String::from("error: 'nonexistent-command' is not a valid command."));
    s.record_console_result(&String::from("nonexistent-command"), &err);

    assert_eq!(
        s.console_transcript,
        "(lldb) nonexistent-command\nerror: 'nonexistent-command' is not a valid command.\n"
    );
    let after_threads: Vec<u64> = s.threads.iter().map(|t| t.id).collect();
    assert_eq!(before_threads, after_threads);
    assert_eq!(before_state, s.process_state);
    assert_eq!(before_pid, s.process_pid);
    assert_eq!(before_stdout, s.stdout_buffer);
    assert_eq!(s.selected_thread_id, 7);
    assert!(s.breakpoints.is_empty());
    assert!(s.watchpoints.is_empty());
}

#[test]
fn engine_error_message_is_verbatim() {
    let e = EngineError::ConsoleCommandFailed(String::from("unknown command"));
    assert_eq!(e.message(), "unknown command");
    let e = EngineError::LaunchFailed(String::from("no such file"));
    assert_eq!(e.message(), "no such file");
}
