//! The launch/attach choice made from command-line parameters.
//!
//! Argument parsing itself belongs to the surrounding binary; it hands the
//! parsed values in unchanged, and the choice of session to create is
//! decided here.

use vstd::prelude::*;

use crate::launch::attach_name_plan;
use crate::launch::attach_pid_plan;
use crate::launch::launch_plan;
use crate::launch::AttachPlan;
use crate::launch::AttachTarget;
use crate::launch::LaunchPlan;

verus! {

/// The command-line surface: an executable to launch (with optional
/// arguments), or a pid or process name to attach to, and whether to skip
/// sourcing init files.
pub struct Cli {
    pub executable: Option<String>,
    pub args: Option<Vec<String>>,
    pub attach_pid: Option<u64>,
    pub attach_name: Option<String>,
    pub no_lldbinit: bool,
}

/// The session the command line asks for.
pub enum SessionPlan {
    Launch(LaunchPlan),
    Attach(AttachPlan),
}

/// Chooses the session to create: an executable launches; otherwise a pid
/// attaches; otherwise a name attaches; with none of the three there is
/// nothing to create (the argument parser requires one, so the caller
/// reports the absence as the missing-parameter error).
pub fn session_plan(cli: Cli) -> (r: Option<SessionPlan>)
    ensures
        r is None <==> cli.executable is None && cli.attach_pid is None && cli.attach_name
            is None,
        cli.executable matches Some(exe) ==> {
            &&& r matches Some(SessionPlan::Launch(p))
            &&& p.executable == exe
            &&& p.args@ == match cli.args {
                Some(a) => a@,
                None => Seq::<String>::empty(),
            }
            &&& p.stop_at_entry
            &&& p.synchronous
            &&& p.source_init_files == !cli.no_lldbinit
        },
        cli.executable is None ==> (cli.attach_pid matches Some(pid) ==> {
            &&& r matches Some(SessionPlan::Attach(p))
            &&& p.target == AttachTarget::Pid(pid)
            &&& p.synchronous
            &&& p.source_init_files == !cli.no_lldbinit
        }),
        cli.executable is None && cli.attach_pid is None ==> (cli.attach_name matches Some(n)
            ==> {
            &&& r matches Some(SessionPlan::Attach(p))
            &&& p.target matches AttachTarget::Name { name, wait_for } && name == n && wait_for
            &&& p.synchronous
            &&& p.source_init_files == !cli.no_lldbinit
        }),
{
    let source_init_files = !cli.no_lldbinit;
    if let Some(executable) = cli.executable {
        Some(SessionPlan::Launch(launch_plan(executable, cli.args, source_init_files)))
    } else if let Some(pid) = cli.attach_pid {
        Some(SessionPlan::Attach(attach_pid_plan(pid, source_init_files)))
    } else if let Some(name) = cli.attach_name {
        Some(SessionPlan::Attach(attach_name_plan(name, source_init_files)))
    } else {
        None
    }
}

} // verus!
