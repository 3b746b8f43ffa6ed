//! The event bridge: folds the engine's asynchronous event stream into the
//! session-state snapshot.
//!
//! The bridge loop has two states: idle-polling (a bounded wait that may
//! yield nothing) and draining (applying one received event).  Events are
//! applied in delivery order, never reordered or coalesced; the output
//! buffers are append-only, never truncated.  Every drained event ends with
//! a request that the presentation layer redraw within a bounded delay.

use vstd::prelude::*;

use crate::state::ProcessState;
use crate::state::SessionState;

verus! {

/// An engine event after classification.  Anything the bridge does not
/// recognise still requests a redraw but changes nothing.
pub enum Event {
    ProcessStateChanged { state: ProcessState, pid: u64 },
    StdoutAvailable { data: String },
    StderrAvailable { data: String },
    Other,
}

/// Ceiling on redraw latency after a drained event, in milliseconds.
pub const REDRAW_DELAY_MILLIS: u64 = 100;

/// The stdout text a sequence of events delivers, in delivery order.
pub open spec fn stdout_of_events(evs: Seq<Event>) -> Seq<char>
    decreases evs.len(),
{
    if evs.len() == 0 {
        Seq::empty()
    } else {
        stdout_of_events(evs.drop_last()) + match evs.last() {
            Event::StdoutAvailable { data } => data@,
            _ => Seq::empty(),
        }
    }
}

/// The stderr text a sequence of events delivers, in delivery order.  The
/// engine may route the target's stderr into the stdout channel on some
/// platforms, so this is best-effort by design: it may stay empty even
/// while the child writes to stderr.
pub open spec fn stderr_of_events(evs: Seq<Event>) -> Seq<char>
    decreases evs.len(),
{
    if evs.len() == 0 {
        Seq::empty()
    } else {
        stderr_of_events(evs.drop_last()) + match evs.last() {
            Event::StderrAvailable { data } => data@,
            _ => Seq::empty(),
        }
    }
}

/// The last process status a sequence of events reports, if any: later
/// events win, because events are applied in delivery order.
pub open spec fn last_status_change(evs: Seq<Event>) -> Option<(ProcessState, u64)>
    decreases evs.len(),
{
    if evs.len() == 0 {
        None
    } else {
        match evs.last() {
            Event::ProcessStateChanged { state, pid } => Some((state, pid)),
            _ => last_status_change(evs.drop_last()),
        }
    }
}

impl SessionState {
    /// Applies one drained event to the snapshot and returns the bounded
    /// delay within which the presentation layer is asked to redraw.  A
    /// status event records the new state and pid and marks the session
    /// stale (the displayed source line may no longer match); an output
    /// event appends to its buffer; anything else changes nothing.  Every
    /// mutation either fully applies or is skipped entirely.
    pub fn apply_event(&mut self, ev: Event) -> (redraw_millis: u64)
        requires
            old(self).wf(),
        ensures
            final(self).wf(),
            redraw_millis == REDRAW_DELAY_MILLIS,
            match ev {
                Event::ProcessStateChanged { state, pid } => *final(self) == (SessionState {
                    process_state: state,
                    process_pid: pid,
                    stale: true,
                    ..*old(self)
                }),
                Event::StdoutAvailable { data } => {
                    &&& final(self).stdout_buffer@ == old(self).stdout_buffer@ + data@
                    &&& *final(self) == (SessionState {
                        stdout_buffer: final(self).stdout_buffer,
                        ..*old(self)
                    })
                },
                Event::StderrAvailable { data } => {
                    &&& final(self).stderr_buffer@ == old(self).stderr_buffer@ + data@
                    &&& *final(self) == (SessionState {
                        stderr_buffer: final(self).stderr_buffer,
                        ..*old(self)
                    })
                },
                Event::Other => *final(self) == *old(self),
            },
    {
        match ev {
            Event::ProcessStateChanged { state, pid } => {
                self.process_state = state;
                self.process_pid = pid;
                self.stale = true;
            },
            Event::StdoutAvailable { data } => {
                self.stdout_buffer.append(data.as_str());
            },
            Event::StderrAvailable { data } => {
                self.stderr_buffer.append(data.as_str());
            },
            Event::Other => {},
        }
        REDRAW_DELAY_MILLIS
    }

    /// One iteration of the bridge loop: either the bounded wait yielded
    /// nothing (idle-poll, no redraw) or one event is drained and a redraw
    /// is requested within the bounded delay.
    pub fn poll_step(&mut self, ev: Option<Event>) -> (redraw_after: Option<u64>)
        requires
            old(self).wf(),
        ensures
            final(self).wf(),
            match ev {
                Some(_) => redraw_after == Some(REDRAW_DELAY_MILLIS),
                None => redraw_after is None && *final(self) == *old(self),
            },
            match ev {
                Some(Event::ProcessStateChanged { state, pid }) => *final(self) == (SessionState {
                    process_state: state,
                    process_pid: pid,
                    stale: true,
                    ..*old(self)
                }),
                Some(Event::StdoutAvailable { data }) => {
                    &&& final(self).stdout_buffer@ == old(self).stdout_buffer@ + data@
                    &&& *final(self) == (SessionState {
                        stdout_buffer: final(self).stdout_buffer,
                        ..*old(self)
                    })
                },
                Some(Event::StderrAvailable { data }) => {
                    &&& final(self).stderr_buffer@ == old(self).stderr_buffer@ + data@
                    &&& *final(self) == (SessionState {
                        stderr_buffer: final(self).stderr_buffer,
                        ..*old(self)
                    })
                },
                Some(Event::Other) => *final(self) == *old(self),
                None => *final(self) == *old(self),
            },
    {
        match ev {
            Some(event) => Some(self.apply_event(event)),
            None => None,
        }
    }

    /// Drains a batch of events in delivery order.  The buffers grow by
    /// exactly the delivered output, the recorded status is the last one
    /// reported, nothing else changes, and the staleness flag is never
    /// cleared by a drain.
    pub fn drain_events(&mut self, evs: Vec<Event>)
        requires
            old(self).wf(),
        ensures
            final(self).wf(),
            final(self).stdout_buffer@ == old(self).stdout_buffer@ + stdout_of_events(evs@),
            final(self).stderr_buffer@ == old(self).stderr_buffer@ + stderr_of_events(evs@),
            match last_status_change(evs@) {
                Some(change) => final(self).process_state == change.0 && final(self).process_pid
                    == change.1 && final(self).stale,
                None => final(self).process_state == old(self).process_state
                    && final(self).process_pid == old(self).process_pid
                    && final(self).stale == old(self).stale,
            },
            *final(self) == (SessionState {
                process_state: final(self).process_state,
                process_pid: final(self).process_pid,
                stdout_buffer: final(self).stdout_buffer,
                stderr_buffer: final(self).stderr_buffer,
                stale: final(self).stale,
                ..*old(self)
            }),
    {
        let ghost orig = evs@;
        let mut work = evs;
        let ghost mut j: int = 0;
        while work.len() > 0
            invariant
                0 <= j <= orig.len(),
                work@ == orig.skip(j),
                old(self).wf(),
                self.wf(),
                self.stdout_buffer@ == old(self).stdout_buffer@ + stdout_of_events(orig.take(j)),
                self.stderr_buffer@ == old(self).stderr_buffer@ + stderr_of_events(orig.take(j)),
                match last_status_change(orig.take(j)) {
                    Some(change) => self.process_state == change.0 && self.process_pid == change.1
                        && self.stale,
                    None => self.process_state == old(self).process_state && self.process_pid
                        == old(self).process_pid && self.stale == old(self).stale,
                },
                *self == (SessionState {
                    process_state: self.process_state,
                    process_pid: self.process_pid,
                    stdout_buffer: self.stdout_buffer,
                    stderr_buffer: self.stderr_buffer,
                    stale: self.stale,
                    ..*old(self)
                }),
            decreases work@.len(),
        {
            let ev = work.remove(0);
            proof {
                assert(ev == orig[j]);
                assert(orig.skip(j).remove(0) =~= orig.skip(j + 1));
                assert(orig.take(j + 1).drop_last() =~= orig.take(j));
                assert(orig.take(j + 1).last() == orig[j]);
            }
            self.apply_event(ev);
            proof {
                j = j + 1;
            }
        }
        proof {
            assert(j == orig.len());
            assert(orig.take(j) =~= orig);
        }
    }
}

} // verus!
