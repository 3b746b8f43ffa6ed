//! Session creation: the launch and attach parameters handed to the
//! engine, and the interpretation of its answer.
//!
//! Creation is the one synchronous exception to the fire-and-forget rule:
//! asynchronous event delivery is disabled around the launch or attach
//! call, so the call either fully succeeds or fully fails before it
//! returns and no partial session is left running.

use vstd::prelude::*;

use crate::session::EngineError;

verus! {

/// Parameters for launching a new process under the debugger.
pub struct LaunchPlan {
    pub executable: String,
    pub args: Vec<String>,
    /// The process halts at its entry point, so initial breakpoints can be
    /// set before any target code executes.
    pub stop_at_entry: bool,
    /// Asynchronous event delivery is disabled for the duration of the
    /// launch call and restored afterwards.
    pub synchronous: bool,
    /// Whether the engine may source init files from the environment.
    pub source_init_files: bool,
}

/// Whom to attach to.
pub enum AttachTarget {
    Pid(u64),
    /// Attaching by name waits for the named process to appear.
    Name { name: String, wait_for: bool },
}

/// Parameters for attaching to an existing process.
pub struct AttachPlan {
    pub target: AttachTarget,
    /// Same synchronous-creation rule as a launch.
    pub synchronous: bool,
    pub source_init_files: bool,
}

/// Builds the launch parameters: always stop at entry, always launch
/// synchronously, arguments passed through unchanged (absent means none).
pub fn launch_plan(executable: String, args: Option<Vec<String>>, source_init_files: bool) -> (p:
    LaunchPlan)
    ensures
        p.executable == executable,
        p.args@ == match args {
            Some(a) => a@,
            None => Seq::<String>::empty(),
        },
        p.stop_at_entry,
        p.synchronous,
        p.source_init_files == source_init_files,
{
    LaunchPlan {
        executable,
        args: match args {
            Some(a) => a,
            None => Vec::new(),
        },
        stop_at_entry: true,
        synchronous: true,
        source_init_files,
    }
}

/// Builds the parameters for a synchronous attach by pid.
pub fn attach_pid_plan(pid: u64, source_init_files: bool) -> (p: AttachPlan)
    ensures
        p.target == AttachTarget::Pid(pid),
        p.synchronous,
        p.source_init_files == source_init_files,
{
    AttachPlan { target: AttachTarget::Pid(pid), synchronous: true, source_init_files }
}

/// Builds the parameters for a synchronous attach by process name,
/// waiting for the process to appear.
pub fn attach_name_plan(name: String, source_init_files: bool) -> (p: AttachPlan)
    ensures
        p.target matches AttachTarget::Name { name: n, wait_for } && n == name && wait_for,
        p.synchronous,
        p.source_init_files == source_init_files,
{
    AttachPlan {
        target: AttachTarget::Name { name, wait_for: true },
        synchronous: true,
        source_init_files,
    }
}

/// Interprets the engine's answer to a launch: an error message becomes
/// the fatal `LaunchFailed`, verbatim; success stays success.
pub fn launch_outcome(result: Result<(), String>) -> (r: Result<(), EngineError>)
    ensures
        match result {
            Ok(_) => r is Ok,
            Err(m) => r matches Err(EngineError::LaunchFailed(msg)) && msg == m,
        },
{
    match result {
        Ok(_) => Ok(()),
        Err(m) => Err(EngineError::LaunchFailed(m)),
    }
}

/// Interprets the engine's answer to an attach, as `launch_outcome` does
/// for a launch.
pub fn attach_outcome(result: Result<(), String>) -> (r: Result<(), EngineError>)
    ensures
        match result {
            Ok(_) => r is Ok,
            Err(m) => r matches Err(EngineError::AttachFailed(msg)) && msg == m,
        },
{
    match result {
        Ok(_) => Ok(()),
        Err(m) => Err(EngineError::AttachFailed(m)),
    }
}

/// Interprets the engine's answer to a control request.  A failure is
/// non-fatal: the caller logs it, the session continues, and the next
/// event drain reconciles the actual state.
pub fn control_outcome(result: Result<(), String>) -> (r: Result<(), EngineError>)
    ensures
        match result {
            Ok(_) => r is Ok,
            Err(m) => r matches Err(EngineError::ControlRequestFailed(msg)) && msg == m,
        },
{
    match result {
        Ok(_) => Ok(()),
        Err(m) => Err(EngineError::ControlRequestFailed(m)),
    }
}

} // verus!
