use lldbui::cli::{session_plan, Cli, SessionPlan};
use lldbui::events::Event;
use lldbui::launch::{attach_outcome, control_outcome, launch_outcome, launch_plan, AttachTarget};
use lldbui::session::{ControlRequest, EngineError};
use lldbui::state::{Frame, LineEntry, ProcessState, SessionState, Thread};

fn thread(id: u64) -> Thread {
    Thread {
        id,
        valid: true,
        name: String::from("main-thread"),
        queue: None,
        stop_reason: Some(String::from("breakpoint")),
    }
}

fn frame_at(id: u32, file: &str, line: u32) -> Frame {
    Frame {
        id,
        valid: true,
        function_name: String::from("main"),
        line_entry: Some(LineEntry {
            file: String::from(file),
            line,
        }),
        language: None,
        has_parent: false,
    }
}

#[test]
fn launch_reaches_stopped_at_entry() {
    // Launch ./a.out with args ["--flag"].
    let plan = launch_plan(
        String::from("./a.out"),
        Some(vec![String::from("--flag")]),
        true,
    );
    assert!(plan.stop_at_entry);
    assert!(plan.synchronous);
    assert_eq!(plan.args, vec![String::from("--flag")]);

    let mut s = SessionState::new(
        plan.executable.clone(),
        plan.args.clone(),
        ProcessState::NotRunning,
        0,
    );
    assert_eq!(s.process_state, ProcessState::NotRunning);

    // The engine reports the transitions; the bridge records them in order.
    s.drain_events(vec![Event::ProcessStateChanged {
        state: ProcessState::Launching,
        pid: 0,
    }]);
    assert_eq!(s.process_state, ProcessState::Launching);
    s.drain_events(vec![Event::ProcessStateChanged {
        state: ProcessState::Stopped,
        pid: 777,
    }]);
    assert_eq!(s.process_state, ProcessState::Stopped);
    assert_eq!(s.process_pid, 777);

    // The controller records the thread list and frame 0 of the selected
    // thread.
    s.set_threads(vec![thread(11)], 11);
    assert_eq!(s.selected_thread_id, 11);
    assert!(s.threads.iter().any(|t| t.id == s.selected_thread_id));
    s.set_frames(vec![frame_at(0, "a.c", 1)], 0);
    let f = &s.frames[0];
    assert!(f.valid);
    assert_eq!(f.id, 0);
}

#[test]
fn breakpoint_then_continue_stops_at_the_new_line() {
    // Stopped at line 10 of main.c.
    let mut s = SessionState::new(
        String::from("a.out"),
        Vec::new(),
        ProcessState::Stopped,
        777,
    );
    s.set_threads(vec![thread(11)], 11);
    s.set_frames(vec![frame_at(1, "main.c", 10)], 1);
    assert_eq!(
        s.selected_frame().unwrap().line_entry.as_ref().unwrap().line,
        10
    );

    // create_breakpoint("main.c", 20): the engine assigns the id and
    // resolves the location.
    s.breakpoint_created(lldbui::state::Breakpoint {
        id: 1,
        locations: vec![lldbui::state::BreakpointLocation {
            address: Some(lldbui::state::ResolvedAddress {
                line_entry: Some(LineEntry {
                    file: String::from("main.c"),
                    line: 20,
                }),
            }),
        }],
    });
    assert_eq!(
        s.breakpoint_locations(),
        vec![(1, String::from("main.c"), 20)]
    );

    // process_continue() is permitted while stopped.
    assert_eq!(
        s.dispatch_control(ControlRequest::Continue),
        Some(ControlRequest::Continue)
    );

    // The bridge eventually drains the resulting events.
    s.drain_events(vec![
        Event::ProcessStateChanged {
            state: ProcessState::Running,
            pid: 777,
        },
        Event::ProcessStateChanged {
            state: ProcessState::Stopped,
            pid: 777,
        },
    ]);
    assert_eq!(s.process_state, ProcessState::Stopped);

    // Re-fetched frames now stand at the breakpoint.
    s.set_frames(vec![frame_at(1, "main.c", 20)], 1);
    let entry = s.selected_frame().unwrap().line_entry.as_ref().unwrap();
    assert_eq!(entry.file, "main.c");
    assert_eq!(entry.line, 20);
}

#[test]
fn console_failure_returns_verbatim_error_and_changes_nothing() {
    let mut s = SessionState::new(
        String::from("a.out"),
        Vec::new(),
        ProcessState::Stopped,
        777,
    );
    let engine_text = String::from("error: 'nonexistent-command' is not a valid command.");
    let result: Result<String, String> = Err(engine_text.clone());
    let state_before = s.process_state;
    let pid_before = s.process_pid;

    s.record_console_result(&String::from("nonexistent-command"), &result);
    match result {
        Err(message) => assert_eq!(message, engine_text),
        Ok(_) => unreachable!(),
    }
    assert_eq!(s.process_state, state_before);
    assert_eq!(s.process_pid, pid_before);
    assert!(s.breakpoints.is_empty());
    assert!(s.watchpoints.is_empty());
    assert_eq!(s.stdout_buffer, "");
}

#[test]
fn deleting_an_unknown_breakpoint_id_is_a_noop() {
    let mut s = SessionState::new(
        String::from("a.out"),
        Vec::new(),
        ProcessState::Stopped,
        777,
    );
    s.delete_breakpoint(12345);
    assert!(s.breakpoints.is_empty());
    s.breakpoint_created(lldbui::state::Breakpoint {
        id: 2,
        locations: Vec::new(),
    });
    s.delete_breakpoint(12345);
    assert_eq!(s.breakpoints.len(), 1);
    assert_eq!(s.breakpoints[0].id, 2);
}

#[test]
fn cli_chooses_launch_then_pid_then_name() {
    let launch = session_plan(Cli {
        executable: Some(String::from("./a.out")),
        args: Some(vec![String::from("--flag")]),
        attach_pid: None,
        attach_name: None,
        no_lldbinit: true,
    });
    match launch {
        Some(SessionPlan::Launch(p)) => {
            assert_eq!(p.executable, "./a.out");
            assert_eq!(p.args, vec![String::from("--flag")]);
            assert!(!p.source_init_files);
        }
        _ => panic!("an executable should launch"),
    }

    let attach = session_plan(Cli {
        executable: None,
        args: None,
        attach_pid: Some(4242),
        attach_name: None,
        no_lldbinit: false,
    });
    match attach {
        Some(SessionPlan::Attach(p)) => {
            assert!(matches!(p.target, AttachTarget::Pid(4242)));
            assert!(p.source_init_files);
        }
        _ => panic!("a pid should attach"),
    }

    let by_name = session_plan(Cli {
        executable: None,
        args: None,
        attach_pid: None,
        attach_name: Some(String::from("server")),
        no_lldbinit: false,
    });
    match by_name {
        Some(SessionPlan::Attach(p)) => match p.target {
            AttachTarget::Name { name, wait_for } => {
                assert_eq!(name, "server");
                assert!(wait_for);
            }
            AttachTarget::Pid(_) => panic!("a name should attach by name"),
        },
        _ => panic!("a name should attach"),
    }

    let nothing = session_plan(Cli {
        executable: None,
        args: None,
        attach_pid: None,
        attach_name: None,
        no_lldbinit: false,
    });
    assert!(nothing.is_none());
}

#[test]
fn engine_failures_map_to_their_error_kinds() {
    let launch = launch_outcome(Err(String::from("no such executable")));
    match launch {
        Err(EngineError::LaunchFailed(m)) => assert_eq!(m, "no such executable"),
        _ => panic!("a launch error should be LaunchFailed"),
    }
    let attach = attach_outcome(Err(String::from("no such process")));
    match attach {
        Err(EngineError::AttachFailed(m)) => assert_eq!(m, "no such process"),
        _ => panic!("an attach error should be AttachFailed"),
    }
    let control = control_outcome(Err(String::from("process already running")));
    match control {
        Err(EngineError::ControlRequestFailed(m)) => assert_eq!(m, "process already running"),
        _ => panic!("a control error should be ControlRequestFailed"),
    }
    assert!(launch_outcome(Ok(())).is_ok());
    assert!(attach_outcome(Ok(())).is_ok());
    assert!(control_outcome(Ok(())).is_ok());
}
