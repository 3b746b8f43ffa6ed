//! Session controller: the decisions behind every request sent to the
//! engine.
//!
//! Control calls are fire-and-forget: the controller decides whether a
//! request may be forwarded (the permission predicates below), the
//! binary performs the engine call, and the event bridge later records the
//! state transition the engine reports.  Nothing here blocks, and nothing
//! here writes `process_state` directly.

use vstd::prelude::*;

use crate::sequences::lemma_filter_take_step;
use crate::state::find_frame;
use crate::state::frame_present;
use crate::state::thread_present;
use crate::state::Frame;
use crate::state::ProcessState;
use crate::state::SessionState;
use crate::state::Thread;

verus! {

/// Errors surfaced by session operations, mirroring the engine's failure
/// modes.  Launch and attach failures are fatal to the creation attempt;
/// control and console failures leave the session running.
pub enum EngineError {
    LaunchFailed(String),
    AttachFailed(String),
    ControlRequestFailed(String),
    ConsoleCommandFailed(String),
}

impl EngineError {
    /// The engine's verbatim error text.
    pub fn message(&self) -> (r: &String)
        ensures
            r == match self {
                EngineError::LaunchFailed(m) => m,
                EngineError::AttachFailed(m) => m,
                EngineError::ControlRequestFailed(m) => m,
                EngineError::ConsoleCommandFailed(m) => m,
            },
    {
        match self {
            EngineError::LaunchFailed(m) => m,
            EngineError::AttachFailed(m) => m,
            EngineError::ControlRequestFailed(m) => m,
            EngineError::ConsoleCommandFailed(m) => m,
        }
    }
}

/// A process-control request the presentation layer may issue.
#[derive(Clone, Copy, Debug, PartialEq, Eq, Structural)]
pub enum ControlRequest {
    Stop,
    Continue,
    StepInto,
    StepOver,
    StepOut,
}

/// The process accepts a continue or step request only while halted.
pub open spec fn can_continue_state(s: ProcessState) -> bool {
    s == ProcessState::Stopped || s == ProcessState::Suspended
}

/// The process accepts a stop request only while executing.
pub open spec fn can_stop_state(s: ProcessState) -> bool {
    s == ProcessState::Running || s == ProcessState::Stepping
}

/// The selected frame exists, is valid, and has a parent frame, so a
/// step-out request has somewhere to return to.
pub open spec fn selected_frame_has_parent(s: SessionState) -> bool {
    match find_frame(s.frames@, s.selected_frame_id) {
        Some(f) => f.valid && f.has_parent,
        None => false,
    }
}

/// Checked before any control request is forwarded to the engine.
pub open spec fn control_permitted(s: SessionState, req: ControlRequest) -> bool {
    match req {
        ControlRequest::Stop => can_stop_state(s.process_state),
        ControlRequest::Continue => can_continue_state(s.process_state),
        ControlRequest::StepInto => can_continue_state(s.process_state),
        ControlRequest::StepOver => can_continue_state(s.process_state),
        ControlRequest::StepOut => can_continue_state(s.process_state)
            && selected_frame_has_parent(s),
    }
}

impl SessionState {
    /// Pure predicate over the snapshot; never an engine round-trip.
    pub fn can_continue(&self) -> (r: bool)
        ensures
            r == can_continue_state(self.process_state),
    {
        match self.process_state {
            ProcessState::Stopped => true,
            ProcessState::Suspended => true,
            _ => false,
        }
    }

    /// Pure predicate over the snapshot; never an engine round-trip.
    pub fn can_stop(&self) -> (r: bool)
        ensures
            r == can_stop_state(self.process_state),
    {
        match self.process_state {
            ProcessState::Running => true,
            ProcessState::Stepping => true,
            _ => false,
        }
    }

    /// True when the selected frame is valid and has a parent, which is when
    /// a step-out is meaningful.
    pub fn has_parent_frame(&self) -> (r: bool)
        ensures
            r == selected_frame_has_parent(*self),
    {
        match self.selected_frame() {
            Some(f) => f.valid && f.has_parent,
            None => false,
        }
    }

    /// Decides whether `req` may be forwarded to the engine: the request
    /// comes back to be dispatched exactly when its gate holds, and is
    /// dropped otherwise.
    pub fn dispatch_control(&self, req: ControlRequest) -> (r: Option<ControlRequest>)
        ensures
            r == if control_permitted(*self, req) {
                Some(req)
            } else {
                None::<ControlRequest>
            },
    {
        let permitted = match req {
            ControlRequest::Stop => self.can_stop(),
            ControlRequest::Continue => self.can_continue(),
            ControlRequest::StepInto => self.can_continue(),
            ControlRequest::StepOver => self.can_continue(),
            ControlRequest::StepOut => self.can_continue() && self.has_parent_frame(),
        };
        if permitted {
            Some(req)
        } else {
            None
        }
    }

    /// Selects the thread the stepping requests act on.  The selection
    /// applies only to a thread that is present (or 0, meaning none); an
    /// applied selection raises the staleness flag, because the engine does
    /// not reliably notify selection changes.
    pub fn select_thread(&mut self, thread_id: u64) -> (applied: bool)
        requires
            old(self).wf(),
        ensures
            final(self).wf(),
            applied == (thread_id == 0 || thread_present(old(self).threads@, thread_id)),
            applied ==> *final(self) == (SessionState {
                selected_thread_id: thread_id,
                stale: true,
                ..*old(self)
            }),
            !applied ==> *final(self) == *old(self),
    {
        if thread_id == 0 || thread_listed(&self.threads, thread_id) {
            self.selected_thread_id = thread_id;
            self.stale = true;
            true
        } else {
            false
        }
    }

    /// Selects the frame the variable views and step-out act on; same
    /// staleness rule as thread selection.
    pub fn select_frame(&mut self, frame_id: u32) -> (applied: bool)
        requires
            old(self).wf(),
        ensures
            final(self).wf(),
            applied == (frame_id == 0 || frame_present(old(self).frames@, frame_id)),
            applied ==> *final(self) == (SessionState {
                selected_frame_id: frame_id,
                stale: true,
                ..*old(self)
            }),
            !applied ==> *final(self) == *old(self),
    {
        if frame_id == 0 || frame_listed(&self.frames, frame_id) {
            self.selected_frame_id = frame_id;
            self.stale = true;
            true
        } else {
            false
        }
    }

    /// Reads and clears the staleness flag: the presentation layer calls
    /// this once per redraw to learn whether derived views must be rebuilt.
    pub fn take_stale(&mut self) -> (was_stale: bool)
        requires
            old(self).wf(),
        ensures
            final(self).wf(),
            was_stale == old(self).stale,
            *final(self) == (SessionState { stale: false, ..*old(self) }),
    {
        let was_stale = self.stale;
        self.stale = false;
        was_stale
    }

    /// Raises the staleness flag without any other change.
    pub fn mark_stale(&mut self)
        requires
            old(self).wf(),
        ensures
            final(self).wf(),
            *final(self) == (SessionState { stale: true, ..*old(self) }),
    {
        self.stale = true;
    }

    /// Records one console interaction in the transcript exactly as the
    /// console shows it: the echoed command, then the engine's verbatim
    /// output or error text.  Nothing else in the session changes, whether
    /// the command succeeded or failed: a console error is display text,
    /// never a crash, and any engine-visible side effects surface through
    /// the next event drain, not here.
    pub fn record_console_result(&mut self, command: &String, result: &Result<String, String>)
        requires
            old(self).wf(),
        ensures
            final(self).wf(),
            final(self).console_transcript@ == old(self).console_transcript@ + "(lldb) "@
                + command@ + "\n"@ + (match result {
                Ok(out) => out@,
                Err(err) => err@,
            }) + "\n"@,
            *final(self) == (SessionState {
                console_transcript: final(self).console_transcript,
                ..*old(self)
            }),
    {
        self.console_transcript.append("(lldb) ");
        self.console_transcript.append(command.as_str());
        self.console_transcript.append("\n");
        match result {
            Ok(out) => self.console_transcript.append(out.as_str()),
            Err(err) => self.console_transcript.append(err.as_str()),
        }
        self.console_transcript.append("\n");
    }

    /// Replaces the recorded thread list after an event drain, keeping the
    /// engine's reported selection when it is present and clearing it
    /// otherwise, so the selection invariant holds whatever the engine said.
    pub fn set_threads(&mut self, threads: Vec<Thread>, selected: u64)
        requires
            old(self).wf(),
        ensures
            final(self).wf(),
            final(self).threads == threads,
            final(self).selected_thread_id == if selected == 0 || thread_present(
                threads@,
                selected,
            ) {
                selected
            } else {
                0u64
            },
            *final(self) == (SessionState {
                threads: threads,
                selected_thread_id: final(self).selected_thread_id,
                ..*old(self)
            }),
    {
        let sel = if selected == 0 || thread_listed(&threads, selected) {
            selected
        } else {
            0
        };
        self.threads = threads;
        self.selected_thread_id = sel;
    }

    /// Replaces the recorded frame list for the selected thread, with the
    /// same selection rule as `set_threads`.
    pub fn set_frames(&mut self, frames: Vec<Frame>, selected: u32)
        requires
            old(self).wf(),
        ensures
            final(self).wf(),
            final(self).frames == frames,
            final(self).selected_frame_id == if selected == 0 || frame_present(
                frames@,
                selected,
            ) {
                selected
            } else {
                0u32
            },
            *final(self) == (SessionState {
                frames: frames,
                selected_frame_id: final(self).selected_frame_id,
                ..*old(self)
            }),
    {
        let sel = if selected == 0 || frame_listed(&frames, selected) {
            selected
        } else {
            0
        };
        self.frames = frames;
        self.selected_frame_id = sel;
    }
}

/// Whether some thread in the list has the id `thread_id`.
pub fn thread_listed(threads: &Vec<Thread>, thread_id: u64) -> (r: bool)
    ensures
        r == thread_present(threads@, thread_id),
{
    let n = threads.len();
    let mut i: usize = 0;
    while i < n
        invariant
            0 <= i <= n,
            n == threads@.len(),
            forall|k: int| 0 <= k < i ==> #[trigger] threads@[k].id != thread_id,
        decreases n - i,
    {
        if threads[i].id == thread_id {
            return true;
        }
        i = i + 1;
    }
    false
}

/// Whether some frame in the list has the id `frame_id`.
pub fn frame_listed(frames: &Vec<Frame>, frame_id: u32) -> (r: bool)
    ensures
        r == frame_present(frames@, frame_id),
{
    let n = frames.len();
    let mut i: usize = 0;
    while i < n
        invariant
            0 <= i <= n,
            n == frames@.len(),
            forall|k: int| 0 <= k < i ==> #[trigger] frames@[k].id != frame_id,
        decreases n - i,
    {
        if frames[i].id == frame_id {
            return true;
        }
        i = i + 1;
    }
    false
}

/// While the process cannot be continued, no continue or step request is
/// ever forwarded to the engine, whatever sequence of requests arrives; a
/// stop request is likewise dropped unless the process can be stopped.  A
/// stop while the process runs is the one request that passes, by design:
/// the engine treats it as an interrupt.
pub proof fn lemma_gate_blocks_requests(s: SessionState, reqs: Seq<ControlRequest>)
    requires
        !can_continue_state(s.process_state),
        forall|i: int|
            0 <= i < reqs.len() && #[trigger] reqs[i] is Stop ==> !can_stop_state(s.process_state),
    ensures
        forall|i: int| 0 <= i < reqs.len() ==> !control_permitted(s, #[trigger] reqs[i]),
{
    assert forall|i: int| 0 <= i < reqs.len() implies !control_permitted(s, #[trigger] reqs[i]) by {
        match reqs[i] {
            ControlRequest::Stop => {
                assert(reqs[i] is Stop);
            },
            _ => {},
        }
    }
}

/// Keeps only the threads the engine marked valid, in their reported order:
/// the thread list shown to the presentation layer never holds an invalid
/// handle.
pub fn retain_valid_threads(threads: Vec<Thread>) -> (r: Vec<Thread>)
    ensures
        r@ == threads@.filter(|t: Thread| t.valid),
{
    let mut work = threads;
    let mut out: Vec<Thread> = Vec::new();
    let ghost orig = work@;
    let ghost mut j: int = 0;
    while work.len() > 0
        invariant
            0 <= j <= orig.len(),
            work@ == orig.skip(j),
            out@ == orig.take(j).filter(|t: Thread| t.valid),
        decreases work@.len(),
    {
        let t = work.remove(0);
        proof {
            assert(t == orig[j]);
            lemma_filter_take_step(orig, |t: Thread| t.valid, j);
            assert(orig.skip(j).remove(0) =~= orig.skip(j + 1));
        }
        if t.valid {
            out.push(t);
        }
        proof {
            j = j + 1;
        }
    }
    proof {
        assert(j == orig.len());
        assert(orig.take(j) =~= orig);
    }
    out
}

/// Keeps only the frames the engine marked valid, in their reported order.
pub fn retain_valid_frames(frames: Vec<Frame>) -> (r: Vec<Frame>)
    ensures
        r@ == frames@.filter(|f: Frame| f.valid),
{
    let mut work = frames;
    let mut out: Vec<Frame> = Vec::new();
    let ghost orig = work@;
    let ghost mut j: int = 0;
    while work.len() > 0
        invariant
            0 <= j <= orig.len(),
            work@ == orig.skip(j),
            out@ == orig.take(j).filter(|f: Frame| f.valid),
        decreases work@.len(),
    {
        let f = work.remove(0);
        proof {
            assert(f == orig[j]);
            lemma_filter_take_step(orig, |f: Frame| f.valid, j);
            assert(orig.skip(j).remove(0) =~= orig.skip(j + 1));
        }
        if f.valid {
            out.push(f);
        }
        proof {
            j = j + 1;
        }
    }
    proof {
        assert(j == orig.len());
        assert(orig.take(j) =~= orig);
    }
    out
}

} // verus!
