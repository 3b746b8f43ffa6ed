//! The session-state snapshot: everything the presentation layer reads.
//!
//! All of it is plain data.  The engine owns the truth about the debugged
//! process; this snapshot records what the engine has reported so far, and
//! the well-formedness invariant [`SessionState::wf`] ties the selection
//! fields to the recorded thread and frame lists.

use vstd::prelude::*;

verus! {

/// Lifecycle of the debugged process, as reported by the engine.
///
/// Control calls never set this directly; they only request a transition,
/// and the event bridge records whatever state the engine reports next.
#[derive(Clone, Copy, Debug, PartialEq, Eq, Structural)]
pub enum ProcessState {
    NotRunning,
    Launching,
    Running,
    Stepping,
    Stopped,
    Suspended,
    Crashed,
    Exited,
    Detached,
}

/// A source position attached to an instruction address.
pub struct LineEntry {
    pub file: String,
    pub line: u32,
}

/// The address a breakpoint location resolved to, if any; the engine only
/// hands out a line entry for addresses that carry one in the line table.
pub struct ResolvedAddress {
    pub line_entry: Option<LineEntry>,
}

/// One location of a breakpoint.  A location without an address is
/// unresolved and never shown.
pub struct BreakpointLocation {
    pub address: Option<ResolvedAddress>,
}

/// A breakpoint with its engine-assigned id and resolved locations.
pub struct Breakpoint {
    pub id: i32,
    pub locations: Vec<BreakpointLocation>,
}

/// A watchpoint: the watched address is the sole key used to correlate it
/// with values in the variable tree.
pub struct Watchpoint {
    pub id: i32,
    pub address: u64,
    pub read: bool,
    pub write: bool,
    pub modify: bool,
}

/// One thread of the debugged process.
pub struct Thread {
    pub id: u64,
    pub valid: bool,
    pub name: String,
    pub queue: Option<String>,
    pub stop_reason: Option<String>,
}

/// One activation record of the selected thread's call stack.
pub struct Frame {
    pub id: u32,
    pub valid: bool,
    pub function_name: String,
    pub line_entry: Option<LineEntry>,
    pub language: Option<String>,
    pub has_parent: bool,
}

/// A node of the variable tree: aggregates carry children, and values that
/// occupy addressable storage carry a load address.
pub struct ValueNode {
    pub name: String,
    pub display_type: String,
    pub value: String,
    pub load_address: Option<u64>,
    pub children: Vec<ValueNode>,
}

/// True when some thread in `threads` has the id `id`.
pub open spec fn thread_present(threads: Seq<Thread>, id: u64) -> bool {
    exists|i: int| 0 <= i < threads.len() && #[trigger] threads[i].id == id
}

/// True when some frame in `frames` has the id `id`.
pub open spec fn frame_present(frames: Seq<Frame>, id: u32) -> bool {
    exists|i: int| 0 <= i < frames.len() && #[trigger] frames[i].id == id
}

/// True when some watchpoint in `wps` watches the address `address`.
pub open spec fn address_watched(wps: Seq<Watchpoint>, address: u64) -> bool {
    exists|i: int| 0 <= i < wps.len() && #[trigger] wps[i].address == address
}

/// At most one watchpoint per address: address equality is the correlation
/// key for watch/unwatch, so two watchpoints at one address would make the
/// toggle ambiguous.
pub open spec fn watch_addresses_unique(wps: Seq<Watchpoint>) -> bool {
    forall|i: int, j: int|
        0 <= i < wps.len() && 0 <= j < wps.len() && i != j
            ==> #[trigger] wps[i].address != #[trigger] wps[j].address
}

/// The first frame in `frames` whose id is `id`, scanning front to back.
pub open spec fn find_frame(frames: Seq<Frame>, id: u32) -> Option<Frame>
    decreases frames.len(),
{
    if frames.len() == 0 {
        None
    } else if frames[0].id == id {
        Some(frames[0])
    } else {
        find_frame(frames.drop_first(), id)
    }
}

/// If everything before index `i` misses and `frames[i]` matches, the scan
/// finds `frames[i]`.
pub proof fn lemma_find_frame_at(frames: Seq<Frame>, id: u32, i: int)
    requires
        0 <= i < frames.len(),
        frames[i].id == id,
        forall|k: int| 0 <= k < i ==> #[trigger] frames[k].id != id,
    ensures
        find_frame(frames, id) == Some(frames[i]),
    decreases i,
{
    if i > 0 {
        lemma_find_frame_at(frames.drop_first(), id, i - 1);
    }
}

/// If nothing up to the end matches, the scan finds nothing.
pub proof fn lemma_find_frame_none(frames: Seq<Frame>, id: u32)
    requires
        forall|k: int| 0 <= k < frames.len() ==> #[trigger] frames[k].id != id,
    ensures
        find_frame(frames, id) is None,
    decreases frames.len(),
{
    if frames.len() > 0 {
        assert(forall|k: int|
            0 <= k < frames.drop_first().len()
                ==> #[trigger] frames.drop_first()[k].id != id);
        lemma_find_frame_none(frames.drop_first(), id);
    }
}

/// The mutation-gated snapshot shared between the controller, the event
/// bridge and the presentation layer.
pub struct SessionState {
    pub executable: String,
    pub process_args: Vec<String>,

    pub process_state: ProcessState,
    pub process_pid: u64,

    pub threads: Vec<Thread>,
    pub selected_thread_id: u64,

    pub frames: Vec<Frame>,
    pub selected_frame_id: u32,

    pub locals: Vec<ValueNode>,
    pub statics: Vec<ValueNode>,
    pub arguments: Vec<ValueNode>,
    pub registers: Vec<ValueNode>,

    pub breakpoints: Vec<Breakpoint>,
    pub watchpoints: Vec<Watchpoint>,

    pub stdout_buffer: String,
    pub stderr_buffer: String,
    pub console_transcript: String,

    /// Cross-thread signal: derived views (frames, source position) must be
    /// recomputed even though no backing engine event arrived.  Kept as an
    /// explicit flag because the engine does not notify selection changes.
    pub stale: bool,
}

impl SessionState {
    /// Well-formedness: each selection is either 0 (none) or present in the
    /// list it selects from, and watched addresses are unique.
    pub open spec fn wf(&self) -> bool {
        &&& (self.selected_thread_id == 0
            || thread_present(self.threads@, self.selected_thread_id))
        &&& (self.selected_frame_id == 0 || frame_present(self.frames@, self.selected_frame_id))
        &&& watch_addresses_unique(self.watchpoints@)
    }

    /// A fresh snapshot for a session over `executable`, before the engine
    /// has reported anything beyond the launch parameters.
    pub fn new(
        executable: String,
        process_args: Vec<String>,
        process_state: ProcessState,
        process_pid: u64,
    ) -> (s: SessionState)
        ensures
            s.executable == executable,
            s.process_args == process_args,
            s.process_state == process_state,
            s.process_pid == process_pid,
            s.threads@.len() == 0,
            s.selected_thread_id == 0,
            s.frames@.len() == 0,
            s.selected_frame_id == 0,
            s.locals@.len() == 0,
            s.statics@.len() == 0,
            s.arguments@.len() == 0,
            s.registers@.len() == 0,
            s.breakpoints@.len() == 0,
            s.watchpoints@.len() == 0,
            s.stdout_buffer@.len() == 0,
            s.stderr_buffer@.len() == 0,
            s.console_transcript@.len() == 0,
            !s.stale,
            s.wf(),
    {
        SessionState {
            executable,
            process_args,
            process_state,
            process_pid,
            threads: Vec::new(),
            selected_thread_id: 0,
            frames: Vec::new(),
            selected_frame_id: 0,
            locals: Vec::new(),
            statics: Vec::new(),
            arguments: Vec::new(),
            registers: Vec::new(),
            breakpoints: Vec::new(),
            watchpoints: Vec::new(),
            stdout_buffer: String::new(),
            stderr_buffer: String::new(),
            console_transcript: String::new(),
            stale: false,
        }
    }

    /// The first recorded frame whose id equals `selected_frame_id`, if any.
    pub fn selected_frame(&self) -> (r: Option<&Frame>)
        ensures
            match r {
                Some(f) => find_frame(self.frames@, self.selected_frame_id) == Some(*f),
                None => find_frame(self.frames@, self.selected_frame_id) is None,
            },
    {
        let n = self.frames.len();
        let mut i: usize = 0;
        while i < n
            invariant
                0 <= i <= n,
                n == self.frames@.len(),
                forall|k: int| 0 <= k < i ==> #[trigger] self.frames@[k].id != self.selected_frame_id,
            decreases n - i,
        {
            if self.frames[i].id == self.selected_frame_id {
                proof {
                    lemma_find_frame_at(self.frames@, self.selected_frame_id, i as int);
                }
                return Some(&self.frames[i]);
            }
            i = i + 1;
        }
        proof {
            lemma_find_frame_none(self.frames@, self.selected_frame_id);
        }
        None
    }
}

} // verus!
