//! Breakpoint and watchpoint tables: the derived gutter view, deletion,
//! and the watch/unwatch toggle keyed by address.

use vstd::prelude::*;

use crate::sequences::lemma_filter_all_kept;
use crate::sequences::lemma_filter_singleton;
use crate::sequences::lemma_filter_take_step;
use crate::state::address_watched;
use crate::state::watch_addresses_unique;
use crate::state::Breakpoint;
use crate::state::BreakpointLocation;
use crate::state::SessionState;
use crate::state::ValueNode;
use crate::state::Watchpoint;

verus! {

/// The gutter rows a single location contributes: one row when the
/// location resolved to an address that carries a line entry, none
/// otherwise.  Unresolved locations are invisible by construction.
pub open spec fn location_rows(id: i32, loc: BreakpointLocation) -> Seq<(i32, String, u32)> {
    match loc.address {
        Some(addr) => match addr.line_entry {
            Some(le) => seq![(id, le.file, le.line)],
            None => Seq::empty(),
        },
        None => Seq::empty(),
    }
}

/// The rows contributed by a breakpoint's locations, in order.
pub open spec fn rows_of_locations(id: i32, locs: Seq<BreakpointLocation>) -> Seq<
    (i32, String, u32),
>
    decreases locs.len(),
{
    if locs.len() == 0 {
        Seq::empty()
    } else {
        rows_of_locations(id, locs.drop_last()) + location_rows(id, locs.last())
    }
}

/// The whole gutter view: every breakpoint's resolved locations with line
/// entries, walked in table order.
pub open spec fn rows_of_breakpoints(bps: Seq<Breakpoint>) -> Seq<(i32, String, u32)>
    decreases bps.len(),
{
    if bps.len() == 0 {
        Seq::empty()
    } else {
        rows_of_breakpoints(bps.drop_last()) + rows_of_locations(
            bps.last().id,
            bps.last().locations@,
        )
    }
}

/// Whether a location resolved to an address with a line entry.
pub open spec fn location_has_line(loc: BreakpointLocation) -> bool {
    match loc.address {
        Some(addr) => addr.line_entry is Some,
        None => false,
    }
}

/// How many of a breakpoint's locations resolved to an address with a line
/// entry.
pub open spec fn resolved_line_count_of(locs: Seq<BreakpointLocation>) -> nat
    decreases locs.len(),
{
    if locs.len() == 0 {
        0
    } else {
        resolved_line_count_of(locs.drop_last()) + if location_has_line(locs.last()) {
            1nat
        } else {
            0nat
        }
    }
}

/// Total resolved-with-line-entry locations over a breakpoint table.
pub open spec fn resolved_line_count(bps: Seq<Breakpoint>) -> nat
    decreases bps.len(),
{
    if bps.len() == 0 {
        0
    } else {
        resolved_line_count(bps.drop_last()) + resolved_line_count_of(bps.last().locations@)
    }
}

/// The gutter view never contains an entry for an unresolved breakpoint
/// location: it holds exactly one row per location that resolved to an
/// address with a line entry, so its length equals — and hence never
/// exceeds — the number of such locations.
pub proof fn lemma_rows_match_resolved(bps: Seq<Breakpoint>)
    ensures
        rows_of_breakpoints(bps).len() == resolved_line_count(bps),
    decreases bps.len(),
{
    if bps.len() > 0 {
        lemma_rows_match_resolved(bps.drop_last());
        lemma_location_rows_match_resolved(bps.last().id, bps.last().locations@);
    }
}

/// The per-breakpoint piece of `lemma_rows_match_resolved`.
pub proof fn lemma_location_rows_match_resolved(id: i32, locs: Seq<BreakpointLocation>)
    ensures
        rows_of_locations(id, locs).len() == resolved_line_count_of(locs),
    decreases locs.len(),
{
    if locs.len() > 0 {
        lemma_location_rows_match_resolved(id, locs.drop_last());
    }
}

/// The breakpoint table without the breakpoint of the given id; deleting
/// an id that is not present changes nothing.
pub open spec fn without_breakpoint(bps: Seq<Breakpoint>, id: i32) -> Seq<Breakpoint> {
    bps.filter(|b: Breakpoint| b.id != id)
}

/// The watchpoint table without the watchpoint of the given id.
pub open spec fn without_watchpoint(wps: Seq<Watchpoint>, id: i32) -> Seq<Watchpoint> {
    wps.filter(|w: Watchpoint| w.id != id)
}

/// The watchpoint table without any watchpoint at the given address.
pub open spec fn without_watched_address(wps: Seq<Watchpoint>, address: u64) -> Seq<Watchpoint> {
    wps.filter(|w: Watchpoint| w.address != address)
}

/// Deleting a breakpoint id that the table does not hold is a no-op.
pub proof fn lemma_delete_missing_breakpoint(bps: Seq<Breakpoint>, id: i32)
    requires
        forall|i: int| 0 <= i < bps.len() ==> (#[trigger] bps[i]).id != id,
    ensures
        without_breakpoint(bps, id) == bps,
{
    lemma_filter_all_kept(bps, |b: Breakpoint| b.id != id);
}

/// Deleting a watchpoint id that the table does not hold is a no-op.
pub proof fn lemma_delete_missing_watchpoint(wps: Seq<Watchpoint>, id: i32)
    requires
        forall|i: int| 0 <= i < wps.len() ==> (#[trigger] wps[i]).id != id,
    ensures
        without_watchpoint(wps, id) == wps,
{
    lemma_filter_all_kept(wps, |w: Watchpoint| w.id != id);
}

/// Watching an address and then unwatching it restores the watchpoint
/// table exactly as it was before the watch.
pub proof fn lemma_watch_unwatch_round_trip(wps: Seq<Watchpoint>, wp: Watchpoint)
    requires
        !address_watched(wps, wp.address),
    ensures
        without_watched_address(wps.push(wp), wp.address) == wps,
{
    broadcast use vstd::seq_lib::group_filter_ensures;

    let pred = |w: Watchpoint| w.address != wp.address;
    assert(forall|i: int| 0 <= i < wps.len() ==> #[trigger] pred(wps[i])) by {
        assert(forall|i: int| 0 <= i < wps.len() ==> (#[trigger] wps[i]).address != wp.address);
    }
    lemma_filter_all_kept(wps, pred);
    lemma_filter_singleton(wp, pred);
    assert(wps.push(wp) =~= wps + seq![wp]);
    assert((wps + seq![wp]).filter(pred) == wps.filter(pred) + seq![wp].filter(pred));
    assert(wps.filter(pred) + Seq::<Watchpoint>::empty() =~= wps);
}

/// Unwatching an address leaves no watchpoint at that address: watching an
/// already-watched address toggles it off rather than producing a second
/// watchpoint at the same address.
pub proof fn lemma_unwatch_removes_address(wps: Seq<Watchpoint>, address: u64)
    ensures
        !address_watched(without_watched_address(wps, address), address),
{
    broadcast use vstd::seq_lib::group_filter_ensures;

    let pred = |w: Watchpoint| w.address != address;
    let out = wps.filter(pred);
    assert forall|i: int| 0 <= i < out.len() implies (#[trigger] out[i]).address != address by {
        assert(pred(out[i]));
    }
}

/// What the watch toggle guarantees: an already-watched address has its
/// watchpoint removed and reported; an unwatched address changes nothing
/// and a watch with write and modify access is requested, so no address
/// ever carries two watchpoints.
pub open spec fn watch_toggle_outcome(
    pre: SessionState,
    post: SessionState,
    address: u64,
    d: WatchDecision,
) -> bool {
    &&& post == (SessionState { watchpoints: post.watchpoints, ..pre })
    &&& address_watched(pre.watchpoints@, address) ==> {
        &&& post.watchpoints@ == without_watched_address(pre.watchpoints@, address)
        &&& d matches WatchDecision::Removed { id } && exists|k: int|
            0 <= k < pre.watchpoints@.len() && (#[trigger] pre.watchpoints@[k]).address
                == address && pre.watchpoints@[k].id == id
    }
    &&& !address_watched(pre.watchpoints@, address) ==> {
        &&& post == pre
        &&& d == (WatchDecision::Requested { address, read: false, write: true, modify: true })
    }
}

impl SessionState {
    /// The derived gutter view: walks every breakpoint's locations and
    /// keeps only those whose address carries a line-table entry, as
    /// `(id, file, line)` rows, without exposing engine handles.
    pub fn breakpoint_locations(&self) -> (r: Vec<(i32, String, u32)>)
        ensures
            r@ == rows_of_breakpoints(self.breakpoints@),
    {
        let mut out: Vec<(i32, String, u32)> = Vec::new();
        let nb = self.breakpoints.len();
        let mut b: usize = 0;
        while b < nb
            invariant
                0 <= b <= nb,
                nb == self.breakpoints@.len(),
                out@ == rows_of_breakpoints(self.breakpoints@.take(b as int)),
            decreases nb - b,
        {
            let bp = &self.breakpoints[b];
            let nl = bp.locations.len();
            let mut l: usize = 0;
            while l < nl
                invariant
                    0 <= l <= nl,
                    0 <= b < nb,
                    nb == self.breakpoints@.len(),
                    bp == &self.breakpoints[b as int],
                    nl == bp.locations@.len(),
                    out@ == rows_of_breakpoints(self.breakpoints@.take(b as int))
                        + rows_of_locations(bp.id, bp.locations@.take(l as int)),
                decreases nl - l,
            {
                proof {
                    assert(bp.locations@.take(l + 1).drop_last() =~= bp.locations@.take(l as int));
                    assert(bp.locations@.take(l + 1).last() == bp.locations@[l as int]);
                }
                match &bp.locations[l].address {
                    Some(addr) => match &addr.line_entry {
                        Some(le) => {
                            out.push((bp.id, le.file.clone(), le.line));
                            proof {
                                assert(location_rows(bp.id, bp.locations@[l as int]) =~= seq![
                                    (bp.id, le.file, le.line),
                                ]);
                            }
                        },
                        None => {
                            proof {
                                assert(location_rows(bp.id, bp.locations@[l as int])
                                    =~= Seq::<(i32, String, u32)>::empty());
                            }
                        },
                    },
                    None => {
                        proof {
                            assert(location_rows(bp.id, bp.locations@[l as int])
                                =~= Seq::<(i32, String, u32)>::empty());
                        }
                    },
                }
                proof {
                    assert(out@ =~= rows_of_breakpoints(self.breakpoints@.take(b as int))
                        + rows_of_locations(bp.id, bp.locations@.take(l + 1)));
                }
                l = l + 1;
            }
            proof {
                assert(bp.locations@.take(nl as int) =~= bp.locations@);
                assert(self.breakpoints@.take(b + 1).drop_last() =~= self.breakpoints@.take(
                    b as int,
                ));
                assert(self.breakpoints@.take(b + 1).last() == self.breakpoints@[b as int]);
            }
            b = b + 1;
        }
        proof {
            assert(self.breakpoints@.take(nb as int) =~= self.breakpoints@);
        }
        out
    }

    /// Records an engine-created breakpoint in the table.
    pub fn breakpoint_created(&mut self, bp: Breakpoint)
        requires
            old(self).wf(),
        ensures
            final(self).wf(),
            final(self).breakpoints@ == old(self).breakpoints@.push(bp),
            *final(self) == (SessionState {
                breakpoints: final(self).breakpoints,
                ..*old(self)
            }),
    {
        self.breakpoints.push(bp);
    }

    /// Removes every entry of the given breakpoint id from the table.
    /// Deleting an id that is not present is a no-op: no error, no change.
    pub fn delete_breakpoint(&mut self, id: i32)
        requires
            old(self).wf(),
        ensures
            final(self).wf(),
            final(self).breakpoints@ == without_breakpoint(old(self).breakpoints@, id),
            *final(self) == (SessionState {
                breakpoints: final(self).breakpoints,
                ..*old(self)
            }),
    {
        let ghost orig = self.breakpoints@;
        let ghost pred = |b: Breakpoint| b.id != id;
        let ghost mut j: int = 0;
        let mut i: usize = 0;
        while i < self.breakpoints.len()
            invariant
                0 <= j <= orig.len(),
                i as int == orig.take(j).filter(pred).len(),
                self.breakpoints@ == orig.take(j).filter(pred) + orig.skip(j),
                *self == (SessionState { breakpoints: self.breakpoints, ..*old(self) }),
                pred == (|b: Breakpoint| b.id != id),
            decreases orig.len() - j,
        {
            proof {
                assert(orig.skip(j).len() > 0);
                assert(self.breakpoints@[i as int] == orig.skip(j)[0]);
                assert(orig.skip(j)[0] == orig[j]);
                lemma_filter_take_step(orig, pred, j);
            }
            if self.breakpoints[i].id == id {
                let ghost before = self.breakpoints@;
                self.breakpoints.remove(i);
                proof {
                    assert(before.remove(i as int) =~= orig.take(j + 1).filter(pred) + orig.skip(
                        j + 1,
                    ));
                    j = j + 1;
                }
            } else {
                proof {
                    assert(self.breakpoints@ =~= orig.take(j + 1).filter(pred) + orig.skip(j + 1));
                    j = j + 1;
                }
                i = i + 1;
            }
        }
        proof {
            assert(orig.skip(j).len() == 0);
            assert(j == orig.len());
            assert(orig.take(j) =~= orig);
        }
    }

    /// Removes every entry of the given watchpoint id from the table, with
    /// the same no-op rule as breakpoint deletion.
    pub fn delete_watchpoint(&mut self, id: i32)
        requires
            old(self).wf(),
        ensures
            final(self).wf(),
            final(self).watchpoints@ == without_watchpoint(old(self).watchpoints@, id),
            *final(self) == (SessionState {
                watchpoints: final(self).watchpoints,
                ..*old(self)
            }),
    {
        let ghost orig = self.watchpoints@;
        let ghost pred = |w: Watchpoint| w.id != id;
        let ghost mut j: int = 0;
        let mut i: usize = 0;
        while i < self.watchpoints.len()
            invariant
                0 <= j <= orig.len(),
                i as int == orig.take(j).filter(pred).len(),
                self.watchpoints@ == orig.take(j).filter(pred) + orig.skip(j),
                *self == (SessionState { watchpoints: self.watchpoints, ..*old(self) }),
                pred == (|w: Watchpoint| w.id != id),
                watch_addresses_unique(orig),
            decreases orig.len() - j,
        {
            proof {
                assert(orig.skip(j).len() > 0);
                assert(self.watchpoints@[i as int] == orig.skip(j)[0]);
                assert(orig.skip(j)[0] == orig[j]);
                lemma_filter_take_step(orig, pred, j);
            }
            if self.watchpoints[i].id == id {
                let ghost before = self.watchpoints@;
                self.watchpoints.remove(i);
                proof {
                    assert(before.remove(i as int) =~= orig.take(j + 1).filter(pred) + orig.skip(
                        j + 1,
                    ));
                    j = j + 1;
                }
            } else {
                proof {
                    assert(self.watchpoints@ =~= orig.take(j + 1).filter(pred) + orig.skip(j + 1));
                    j = j + 1;
                }
                i = i + 1;
            }
        }
        proof {
            assert(orig.skip(j).len() == 0);
            assert(j == orig.len());
            assert(orig.take(j) =~= orig);
            lemma_filter_facts_for_unique(orig, pred);
        }
    }

    /// Records an engine-created watchpoint.  The toggle only requests a
    /// watch for an address that is not watched, which keeps addresses
    /// unique.
    pub fn watch_created(&mut self, wp: Watchpoint)
        requires
            old(self).wf(),
            !address_watched(old(self).watchpoints@, wp.address),
        ensures
            final(self).wf(),
            final(self).watchpoints@ == old(self).watchpoints@.push(wp),
            *final(self) == (SessionState {
                watchpoints: final(self).watchpoints,
                ..*old(self)
            }),
    {
        proof {
            let orig = self.watchpoints@;
            assert forall|a: int, b: int|
                0 <= a < orig.push(wp).len() && 0 <= b < orig.push(wp).len() && a != b implies (
            #[trigger] orig.push(wp)[a]).address != (#[trigger] orig.push(wp)[b]).address by {
                if a < orig.len() && b < orig.len() {
                    assert(orig[a].address != orig[b].address);
                } else if a < orig.len() {
                    assert(orig[a].address != wp.address);
                } else {
                    assert(orig[b].address != wp.address);
                }
            }
        }
        self.watchpoints.push(wp);
    }

    /// The watch toggle from the variable tree: address equality is the
    /// sole correlation key.  If the address is already watched the
    /// existing watchpoint is removed (unwatch); otherwise nothing changes
    /// and a watch is requested with write and modify access, never a
    /// duplicate.
    pub fn toggle_watch(&mut self, address: u64) -> (d: WatchDecision)
        requires
            old(self).wf(),
        ensures
            final(self).wf(),
            watch_toggle_outcome(*old(self), *final(self), address, d),
    {
        let ghost orig = self.watchpoints@;
        let ghost pred = |w: Watchpoint| w.address != address;
        let n = self.watchpoints.len();
        let mut i: usize = 0;
        while i < n
            invariant
                0 <= i <= n,
                n == self.watchpoints@.len(),
                forall|k: int| 0 <= k < i ==> (#[trigger] self.watchpoints@[k]).address != address,
                self.watchpoints@ == orig,
                *self == *old(self),
                old(self).wf(),
                watch_addresses_unique(orig),
                pred == (|w: Watchpoint| w.address != address),
            decreases n - i,
        {
            if self.watchpoints[i].address == address {
                proof {
                    assert(orig[i as int].address == address);
                }
                let wp = self.watchpoints.remove(i);
                proof {
                    broadcast use vstd::seq_lib::group_filter_ensures;

                    assert(orig =~= orig.take(i as int) + seq![orig[i as int]] + orig.skip(
                        i + 1,
                    ));
                    assert forall|k: int| 0 <= k < orig.take(i as int).len() implies #[trigger] pred(
                        orig.take(i as int)[k],
                    ) by {
                        assert(orig.take(i as int)[k] == orig[k]);
                        assert(orig[k].address != orig[i as int].address);
                    }
                    lemma_filter_all_kept(orig.take(i as int), pred);
                    assert forall|k: int| 0 <= k < orig.skip(i + 1).len() implies #[trigger] pred(
                        orig.skip(i + 1)[k],
                    ) by {
                        assert(orig.skip(i + 1)[k] == orig[k + i + 1]);
                        assert(orig[k + i + 1].address != orig[i as int].address);
                    }
                    lemma_filter_all_kept(orig.skip(i + 1), pred);
                    lemma_filter_singleton(orig[i as int], pred);
                    assert(orig.filter(pred) == (orig.take(i as int) + seq![orig[i as int]]
                        + orig.skip(i + 1)).filter(pred));
                    assert(orig.filter(pred) =~= orig.take(i as int) + orig.skip(i + 1));
                    assert(orig.remove(i as int) =~= orig.take(i as int) + orig.skip(i + 1));
                    lemma_filter_facts_for_unique(orig, pred);
                }
                return WatchDecision::Removed { id: wp.id };
            }
            i = i + 1;
        }
        WatchDecision::Requested { address, read: false, write: true, modify: true }
    }

    /// The watch toggle for one value of the variable tree: only a value
    /// that occupies addressable storage can be watched, and its load
    /// address is the sole correlation key.  A value without a load
    /// address is not watchable and nothing happens.
    pub fn toggle_watch_for_value(&mut self, value: &ValueNode) -> (d: Option<WatchDecision>)
        requires
            old(self).wf(),
        ensures
            final(self).wf(),
            match value.load_address {
                Some(addr) => d matches Some(decision) && watch_toggle_outcome(
                    *old(self),
                    *final(self),
                    addr,
                    decision,
                ),
                None => d is None && *final(self) == *old(self),
            },
    {
        match value.load_address {
            Some(addr) => Some(self.toggle_watch(addr)),
            None => None,
        }
    }
}

/// What the variable-tree watch toggle decided: either an existing
/// watchpoint was removed, or a new watch should be requested from the
/// engine with the given access flags.
pub enum WatchDecision {
    Removed { id: i32 },
    Requested { address: u64, read: bool, write: bool, modify: bool },
}

/// Uniqueness of watched addresses survives any filter, since a filter
/// only drops elements: every kept address was watched before, and no two
/// kept positions share one.
proof fn lemma_filter_facts_for_unique(wps: Seq<Watchpoint>, pred: spec_fn(Watchpoint) -> bool)
    requires
        watch_addresses_unique(wps),
    ensures
        watch_addresses_unique(wps.filter(pred)),
        forall|i: int|
            0 <= i < wps.filter(pred).len() ==> address_watched(
                wps,
                (#[trigger] wps.filter(pred)[i]).address,
            ),
    decreases wps.len(),
{
    reveal(Seq::filter);
    if wps.len() > 0 {
        let prefix = wps.drop_last();
        assert(watch_addresses_unique(prefix)) by {
            assert(forall|a: int, b: int|
                0 <= a < prefix.len() && 0 <= b < prefix.len() && a != b ==> (
                #[trigger] prefix[a]).address != (#[trigger] prefix[b]).address) by {
                assert(forall|a: int| 0 <= a < prefix.len() ==> prefix[a] == wps[a]);
            }
        }
        lemma_filter_facts_for_unique(prefix, pred);
        let sub = prefix.filter(pred);
        assert forall|i: int| 0 <= i < sub.len() implies address_watched(
            wps,
            (#[trigger] sub[i]).address,
        ) by {
            let k = choose|k: int|
                0 <= k < prefix.len() && (#[trigger] prefix[k]).address == sub[i].address;
            assert(wps[k].address == sub[i].address);
        }
        if pred(wps.last()) {
            let out = sub.push(wps.last());
            assert(wps.filter(pred) == out);
            assert forall|a: int, b: int|
                0 <= a < out.len() && 0 <= b < out.len() && a != b implies (
            #[trigger] out[a]).address != (#[trigger] out[b]).address by {
                if a < sub.len() && b < sub.len() {
                    assert(out[a] == sub[a] && out[b] == sub[b]);
                } else if a < sub.len() {
                    let k = choose|k: int|
                        0 <= k < prefix.len() && (#[trigger] prefix[k]).address == sub[a].address;
                    assert(wps[k].address == out[a].address);
                    assert(wps[k].address != wps[wps.len() - 1].address);
                } else if b < sub.len() {
                    let k = choose|k: int|
                        0 <= k < prefix.len() && (#[trigger] prefix[k]).address == sub[b].address;
                    assert(wps[k].address == out[b].address);
                    assert(wps[k].address != wps[wps.len() - 1].address);
                }
            }
            assert forall|i: int| 0 <= i < out.len() implies address_watched(
                wps,
                (#[trigger] out[i]).address,
            ) by {
                if i < sub.len() {
                    assert(address_watched(wps, sub[i].address));
                } else {
                    assert(wps[wps.len() - 1].address == out[i].address);
                }
            }
        } else {
            assert(wps.filter(pred) == sub);
        }
    }
}

/// The first gutter row at a file name and line, scanning in order.
pub open spec fn find_row(rows: Seq<(i32, String, u32)>, file: Seq<char>, line: u32) -> Option<
    i32,
>
    decreases rows.len(),
{
    if rows.len() == 0 {
        None
    } else if rows[0].1@ == file && rows[0].2 == line {
        Some(rows[0].0)
    } else {
        find_row(rows.drop_first(), file, line)
    }
}

/// If everything before index `i` misses and row `i` matches, the scan
/// finds row `i`.
proof fn lemma_find_row_at(rows: Seq<(i32, String, u32)>, file: Seq<char>, line: u32, i: int)
    requires
        0 <= i < rows.len(),
        rows[i].1@ == file && rows[i].2 == line,
        forall|k: int| 0 <= k < i ==> !((#[trigger] rows[k]).1@ == file && rows[k].2 == line),
    ensures
        find_row(rows, file, line) == Some(rows[i].0),
    decreases i,
{
    if i > 0 {
        lemma_find_row_at(rows.drop_first(), file, line, i - 1);
    }
}

/// If no row matches, the scan finds nothing.
proof fn lemma_find_row_none(rows: Seq<(i32, String, u32)>, file: Seq<char>, line: u32)
    requires
        forall|k: int|
            0 <= k < rows.len() ==> !((#[trigger] rows[k]).1@ == file && rows[k].2 == line),
    ensures
        find_row(rows, file, line) is None,
    decreases rows.len(),
{
    if rows.len() > 0 {
        assert(forall|k: int|
            0 <= k < rows.drop_first().len() ==> rows.drop_first()[k] == rows[k + 1]);
        lemma_find_row_none(rows.drop_first(), file, line);
    }
}

/// What a click on the gutter of one source line decides: remove the
/// breakpoint already marked there, or create one at that file and line.
pub enum BreakpointToggle {
    Remove { id: i32 },
    Create { file: String, line: u32 },
}

/// Decides a gutter click against the current gutter rows: the first row
/// at that file and line names the breakpoint to delete; with no row
/// there, a breakpoint at `(file, line)` is to be created.
pub fn toggle_breakpoint_at_line(rows: &Vec<(i32, String, u32)>, file: &String, line: u32) -> (d:
    BreakpointToggle)
    ensures
        match find_row(rows@, file@, line) {
            Some(id) => d == (BreakpointToggle::Remove { id }),
            None => d matches BreakpointToggle::Create { file: f, line: l } && f@ == file@ && l
                == line,
        },
{
    let n = rows.len();
    let mut i: usize = 0;
    while i < n
        invariant
            0 <= i <= n,
            n == rows@.len(),
            forall|k: int| 0 <= k < i ==> !((#[trigger] rows@[k]).1@ == file@ && rows@[k].2 == line),
        decreases n - i,
    {
        if rows[i].1 == *file && rows[i].2 == line {
            proof {
                lemma_find_row_at(rows@, file@, line, i as int);
            }
            return BreakpointToggle::Remove { id: rows[i].0 };
        }
        i = i + 1;
    }
    proof {
        lemma_find_row_none(rows@, file@, line);
    }
    BreakpointToggle::Create { file: file.clone(), line }
}

} // verus!
