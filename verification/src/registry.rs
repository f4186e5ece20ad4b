//! The registry: all registered files and all volume monitors of one
//! process.
//!
//! The process keeps two tables: file identifier to file tracker, and volume
//! root to volume monitor. A monitor lives exactly as long as some tracker
//! still listens to its root; a dead table entry is purged on the next
//! reconciliation pass. The registry is one owned value — the host keeps it
//! behind its own lock — and monitor liveness is the visible predicate
//! [`root_live`]: a monitor's entry is dead as soon as no tracker names its
//! root.
//!
//! The host drives the registry: it boots a watcher when
//! [`Registry::monitor_is_live`] says a fresh one is needed, shuts a watcher
//! down when [`Registry::unregister_file`] hands back its root, collects each
//! live root's raw events, and feeds them to [`Registry::tick`] together with
//! the snapshot of side-channel reads.
use vstd::prelude::*;

use crate::events::events_view;
use crate::events::rewrite_event;
use crate::events::with_root;
use crate::events::EventView;
use crate::events::FSEvent;
use crate::paths::get_volume_label;
use crate::paths::str_eq;
use crate::paths::volume_label_of;
use crate::tracker::advance_state;
use crate::tracker::lemma_run_preserves_id;
use crate::tracker::run_state;
use crate::tracker::state_id;
use crate::tracker::FileTracker;
use crate::tracker::FileTrackerState;
use crate::tracker::StateView;
use crate::tracker::StepView;
use crate::tracker::TagProbes;

verus! {

/// One volume's monitor entry: the watched root and the event buffer of the
/// most recent reconciliation pass. Events are consumed within the pass that
/// collected them, so the buffer is empty whenever the registry is at rest.
pub struct VolumeMonitor {
    /// Absolute volume label, e.g. `C:\` — the topmost ancestor of every
    /// path watched through this monitor.
    pub root: String,
    /// Raw events of the most recent pass, already rewritten to absolute
    /// paths; drained before the pass returns.
    pub events: Vec<FSEvent>,
}

/// The process-wide registry: every registered file's tracker and every
/// volume's monitor entry.
pub struct Registry {
    /// One tracker per registered file, keyed by the identifier its state
    /// carries.
    pub trackers: Vec<FileTracker>,
    /// One entry per watched volume root.
    pub monitors: Vec<VolumeMonitor>,
}

/// No two trackers carry the same identifier.
pub open spec fn distinct_ids(ts: Seq<FileTracker>) -> bool {
    forall|i: int, j: int|
        0 <= i < j < ts.len() ==> state_id(#[trigger] ts[i].state@) != state_id(
            #[trigger] ts[j].state@,
        )
}

/// No two monitor entries watch the same root.
pub open spec fn distinct_roots(ms: Seq<VolumeMonitor>) -> bool {
    forall|i: int, j: int| 0 <= i < j < ms.len() ==> (#[trigger] ms[i].root@) != (#[trigger] ms[j].root@)
}

/// Some tracker carries the identifier `id`.
pub open spec fn has_tracker(ts: Seq<FileTracker>, id: Seq<char>) -> bool {
    exists|i: int| 0 <= i < ts.len() && state_id((#[trigger] ts[i]).state@) == id
}

/// The index of the tracker carrying `id`; meaningful under [`distinct_ids`]
/// when [`has_tracker`] holds.
pub open spec fn tracker_at(ts: Seq<FileTracker>, id: Seq<char>) -> int {
    choose|i: int| 0 <= i < ts.len() && state_id(ts[i].state@) == id
}

/// The volume root and state of the tracker carrying `id`, if any.
pub open spec fn tracker_entry(ts: Seq<FileTracker>, id: Seq<char>) -> Option<
    (Seq<char>, StateView),
> {
    if has_tracker(ts, id) {
        Option::Some((ts[tracker_at(ts, id)].root@, ts[tracker_at(ts, id)].state@))
    } else {
        Option::None
    }
}

/// Some monitor entry watches `root`.
pub open spec fn has_monitor(ms: Seq<VolumeMonitor>, root: Seq<char>) -> bool {
    exists|i: int| 0 <= i < ms.len() && (#[trigger] ms[i]).root@ == root
}

/// A monitor for `root` is alive: some tracker still listens to it. A
/// monitor entry whose root no tracker names stands for a dead weak
/// reference and is purged on the next pass.
pub open spec fn root_live(ts: Seq<FileTracker>, root: Seq<char>) -> bool {
    exists|i: int| 0 <= i < ts.len() && (#[trigger] ts[i]).root@ == root
}

/// The trackers table after the tracker carrying `id` is removed; the table
/// itself when no tracker carries `id`.
pub open spec fn remove_tracker(ts: Seq<FileTracker>, id: Seq<char>) -> Seq<FileTracker> {
    if has_tracker(ts, id) {
        ts.remove(tracker_at(ts, id))
    } else {
        ts
    }
}

/// View of the per-root raw event batches the host hands to a tick.
pub open spec fn batches_view(bs: Seq<(String, Vec<FSEvent>)>) -> Seq<(Seq<char>, Seq<EventView>)> {
    bs.map_values(|b: (String, Vec<FSEvent>)| (b.0@, events_view(b.1@)))
}

/// The batch recorded for `root`, scanning from entry `i`; empty when no
/// batch names `root`.
pub open spec fn batch_lookup_from(
    bs: Seq<(Seq<char>, Seq<EventView>)>,
    root: Seq<char>,
    i: int,
) -> Seq<EventView>
    decreases bs.len() - i,
{
    if i < 0 || i >= bs.len() {
        Seq::<EventView>::empty()
    } else if bs[i].0 == root {
        bs[i].1
    } else {
        batch_lookup_from(bs, root, i + 1)
    }
}

/// The batch recorded for `root`, if any; empty otherwise.
pub open spec fn batch_lookup(bs: Seq<(Seq<char>, Seq<EventView>)>, root: Seq<char>) -> Seq<
    EventView,
> {
    batch_lookup_from(bs, root, 0)
}

/// The events one tick publishes to the monitor of `root`: the root's raw
/// batch, each path rewritten to an absolute one.
pub open spec fn tick_events_for(root: Seq<char>, bs: Seq<(Seq<char>, Seq<EventView>)>) -> Seq<
    EventView,
> {
    batch_lookup(bs, root).map_values(|e: EventView| with_root(root, e))
}

/// The raw batch of `root`, rewritten to absolute paths, executably.
fn batch_events_for(root: &str, batches: &Vec<(String, Vec<FSEvent>)>) -> (r: Vec<FSEvent>)
    ensures
        events_view(r@) == tick_events_for(root@, batches_view(batches@)),
{
    let ghost bs = batches_view(batches@);
    let mut j: usize = 0;
    while j < batches.len()
        invariant
            j <= batches@.len(),
            bs == batches_view(batches@),
            bs.len() == batches@.len(),
            batch_lookup(bs, root@) == batch_lookup_from(bs, root@, j as int),
        decreases batches@.len() - j,
    {
        if str_eq(batches[j].0.as_str(), root) {
            let raw = &batches[j].1;
            let mut out: Vec<FSEvent> = Vec::new();
            let mut k: usize = 0;
            while k < raw.len()
                invariant
                    k <= raw@.len(),
                    out@.len() == k as int,
                    forall|m: int|
                        0 <= m < k ==> (#[trigger] out@[m])@ == with_root(root@, raw@[m]@),
                decreases raw@.len() - k,
            {
                let e = rewrite_event(root, &raw[k]);
                out.push(e);
                k = k + 1;
            }
            proof {
                assert(bs[j as int].0 == batches@[j as int].0@);
                assert(bs[j as int].1 == events_view(raw@));
                assert(events_view(out@) =~= tick_events_for(root@, bs));
            }
            return out;
        }
        proof {
            assert(bs[j as int].0 == batches@[j as int].0@);
        }
        j = j + 1;
    }
    let out: Vec<FSEvent> = Vec::new();
    proof {
        assert(events_view(out@) =~= tick_events_for(root@, bs));
    }
    out
}

impl Registry {
    /// Registry invariant: identifiers are unique; at most one monitor entry
    /// exists per root; every tracker's root has a monitor entry; event
    /// buffers are drained.
    pub open spec fn wf(&self) -> bool {
        &&& distinct_ids(self.trackers@)
        &&& distinct_roots(self.monitors@)
        &&& forall|i: int|
            0 <= i < self.trackers@.len() ==> has_monitor(
                self.monitors@,
                (#[trigger] self.trackers@[i]).root@,
            )
        &&& forall|i: int|
            0 <= i < self.monitors@.len() ==> (#[trigger] self.monitors@[i]).events@.len() == 0
    }

    /// An empty registry.
    pub fn new() -> (r: Registry)
        ensures
            r.wf(),
            r.trackers@.len() == 0,
            r.monitors@.len() == 0,
    {
        Registry { trackers: Vec::new(), monitors: Vec::new() }
    }

    /// The index of the tracker carrying `id`, if any.
    fn find_tracker_index(&self, id: &str) -> (r: Option<usize>)
        ensures
            match r {
                Option::Some(i) => 0 <= i < self.trackers@.len() && state_id(
                    self.trackers@[i as int].state@,
                ) == id@,
                Option::None => !has_tracker(self.trackers@, id@),
            },
    {
        let mut i: usize = 0;
        while i < self.trackers.len()
            invariant
                i <= self.trackers@.len(),
                forall|k: int|
                    0 <= k < i ==> state_id((#[trigger] self.trackers@[k]).state@) != id@,
            decreases self.trackers@.len() - i,
        {
            let matches_id = match &self.trackers[i].state {
                FileTrackerState::Certain { id: tid, path } => str_eq(tid.as_str(), id),
                FileTrackerState::Renaming { id: tid, partial_path } => str_eq(tid.as_str(), id),
                FileTrackerState::Moving { id: tid, partial_path } => str_eq(tid.as_str(), id),
            };
            if matches_id {
                return Some(i);
            }
            i = i + 1;
        }
        None
    }

    /// The index of the monitor entry for `root`, if any.
    fn find_monitor_index(&self, root: &str) -> (r: Option<usize>)
        ensures
            match r {
                Option::Some(i) => 0 <= i < self.monitors@.len() && self.monitors@[i as int].root@
                    == root@,
                Option::None => !has_monitor(self.monitors@, root@),
            },
    {
        let mut i: usize = 0;
        while i < self.monitors.len()
            invariant
                i <= self.monitors@.len(),
                forall|k: int| 0 <= k < i ==> (#[trigger] self.monitors@[k]).root@ != root@,
            decreases self.monitors@.len() - i,
        {
            if str_eq(self.monitors[i].root.as_str(), root) {
                return Some(i);
            }
            i = i + 1;
        }
        None
    }

    /// Whether a monitor for `root` is alive — whether some registered file
    /// still listens to it. Before registering a file whose volume answers
    /// `false` here, the host must boot a fresh watcher for the root.
    pub fn monitor_is_live(&self, root: &str) -> (r: bool)
        ensures
            r == root_live(self.trackers@, root@),
    {
        let mut i: usize = 0;
        while i < self.trackers.len()
            invariant
                i <= self.trackers@.len(),
                forall|k: int| 0 <= k < i ==> (#[trigger] self.trackers@[k]).root@ != root@,
            decreases self.trackers@.len() - i,
        {
            if str_eq(self.trackers[i].root.as_str(), root) {
                return true;
            }
            i = i + 1;
        }
        false
    }

    /// Snapshot of the state of the tracker carrying `id`, or `None` when no
    /// such file is registered.
    pub fn get_tracker_state(&self, id: &str) -> (r: Option<FileTrackerState>)
        requires
            self.wf(),
        ensures
            r is Some <==> has_tracker(self.trackers@, id@),
            r matches Some(s) ==> tracker_entry(self.trackers@, id@) matches Some(e) && e.1 == s@,
    {
        match self.find_tracker_index(id) {
            Option::Some(i) => {
                proof {
                    lemma_tracker_at_unique(self.trackers@, id@, i as int);
                }
                Some(self.trackers[i].state.dup())
            },
            Option::None => None,
        }
    }

    /// Enters a freshly tagged file: a new `Certain` tracker for `id` at
    /// `file`, listening to the monitor of `file`'s volume. A monitor entry
    /// for that root is created if none exists; an existing entry — alive or
    /// not — is reused. A tracker already carrying `id` is replaced.
    ///
    /// The caller has already written `id` into the file's side-channel, and
    /// has booted a watcher for the volume root if [`Registry::monitor_is_live`]
    /// answered `false` for it.
    pub fn register_file(&mut self, file: &str, id: String)
        requires
            old(self).wf(),
        ensures
            final(self).wf(),
            tracker_entry(final(self).trackers@, id@) == Option::Some(
                (
                    volume_label_of(file@),
                    (StateView::Certain { id: id@, path: file@ }),
                ),
            ),
            forall|id2: Seq<char>|
                id2 != id@ ==> #[trigger] tracker_entry(final(self).trackers@, id2)
                    == tracker_entry(old(self).trackers@, id2),
            forall|rt: Seq<char>|
                #[trigger] has_monitor(final(self).monitors@, rt) <==> (has_monitor(
                    old(self).monitors@,
                    rt,
                ) || rt == volume_label_of(file@)),
    {
        let ghost pre_monitors = self.monitors@;
        let volume = get_volume_label(file);
        match self.find_monitor_index(volume.as_str()) {
            Option::Some(mi) => {
                proof {
                    assert(self.monitors@[mi as int].root@ == volume@);
                    assert(has_monitor(self.monitors@, volume@));
                }
            },
            Option::None => {
                self.monitors.push(VolumeMonitor { root: volume.clone(), events: Vec::new() });
                proof {
                    assert(self.monitors@[pre_monitors.len() as int].root@ == volume@);
                    assert(has_monitor(self.monitors@, volume@));
                    assert forall|a: int, b: int| 0 <= a < b < self.monitors@.len() implies (
                    #[trigger] self.monitors@[a]).root@ != (#[trigger] self.monitors@[b]).root@ by {
                        assert(self.monitors@[a] == pre_monitors[a]);
                        if b < pre_monitors.len() {
                            assert(self.monitors@[b] == pre_monitors[b]);
                        } else {
                            assert(self.monitors@[b].root@ == volume@);
                        }
                    }
                }
            },
        }
        proof {
            assert forall|rt: Seq<char>| #[trigger] has_monitor(self.monitors@, rt) implies (
            has_monitor(pre_monitors, rt) || rt == volume@) by {
                let k = choose|k: int|
                    0 <= k < self.monitors@.len() && (#[trigger] self.monitors@[k]).root@ == rt;
                if k < pre_monitors.len() {
                    assert(self.monitors@[k] == pre_monitors[k]);
                }
            }
            assert forall|rt: Seq<char>| has_monitor(pre_monitors, rt) implies #[trigger] has_monitor(
                self.monitors@,
                rt,
            ) by {
                let k = choose|k: int|
                    0 <= k < pre_monitors.len() && (#[trigger] pre_monitors[k]).root@ == rt;
                assert(self.monitors@[k] == pre_monitors[k]);
            }
            assert(has_monitor(self.monitors@, volume@));
        }
        let state = FileTrackerState::Certain { id: id.clone(), path: String::from_str(file) };
        let tracker = FileTracker { root: volume, state };
        let ghost new_entry = tracker;
        let ghost pre = self.trackers@;
        match self.find_tracker_index(id.as_str()) {
            Option::Some(i) => {
                proof {
                    lemma_tracker_at_unique(pre, id@, i as int);
                }
                self.trackers[i] = tracker;
                proof {
                    assert(self.trackers@ =~= pre.update(i as int, new_entry));
                    assert forall|id2: Seq<char>| id2 != id@ implies #[trigger] tracker_entry(
                        self.trackers@,
                        id2,
                    ) == tracker_entry(pre, id2) by {
                        lemma_entry_after_update(pre, i as int, new_entry, id2);
                    }
                    lemma_distinct_after_update(pre, i as int, new_entry);
                    lemma_tracker_at_unique(self.trackers@, id@, i as int);
                }
            },
            Option::None => {
                self.trackers.push(tracker);
                proof {
                    assert(self.trackers@ =~= pre.push(new_entry));
                    assert forall|id2: Seq<char>| id2 != id@ implies #[trigger] tracker_entry(
                        self.trackers@,
                        id2,
                    ) == tracker_entry(pre, id2) by {
                        lemma_entry_after_push(pre, new_entry, id2);
                    }
                    lemma_distinct_after_push(pre, new_entry);
                    lemma_tracker_at_unique(self.trackers@, id@, pre.len() as int);
                }
            },
        }
        proof {
            assert forall|k: int| 0 <= k < self.trackers@.len() implies has_monitor(
                self.monitors@,
                (#[trigger] self.trackers@[k]).root@,
            ) by {
                if self.trackers@[k] == new_entry {
                } else {
                    assert(self.trackers@[k] == pre[k]);
                }
            }
        }
    }

    /// Removes the tracker carrying the identifier `file`, if any. Returns
    /// the root whose monitor thereby lost its last listener — the host must
    /// shut that root's watcher down — or `None` when no monitor died. The
    /// dead monitor entry itself stays until the next [`Registry::tick`]
    /// purges it.
    pub fn unregister_file(&mut self, file: &str) -> (r: Option<String>)
        requires
            old(self).wf(),
        ensures
            final(self).wf(),
            final(self).monitors@ == old(self).monitors@,
            final(self).trackers@ == remove_tracker(old(self).trackers@, file@),
            !has_tracker(final(self).trackers@, file@),
            forall|id2: Seq<char>|
                id2 != file@ ==> #[trigger] tracker_entry(final(self).trackers@, id2)
                    == tracker_entry(old(self).trackers@, id2),
            match r {
                Option::Some(root) => {
                    &&& tracker_entry(old(self).trackers@, file@) matches Some(e) && e.0 == root@
                    &&& !root_live(final(self).trackers@, root@)
                },
                Option::None => {
                    has_tracker(old(self).trackers@, file@) ==> root_live(
                        final(self).trackers@,
                        tracker_entry(old(self).trackers@, file@)->Some_0.0,
                    )
                },
            },
    {
        match self.find_tracker_index(file) {
            Option::None => None,
            Option::Some(i) => {
                proof {
                    lemma_tracker_at_unique(self.trackers@, file@, i as int);
                    assert(remove_tracker(self.trackers@, file@) == self.trackers@.remove(i as int));
                }
                let ghost pre = self.trackers@;
                let removed = self.trackers.remove(i);
                proof {
                    lemma_remove_keeps_others(pre, i as int);
                    lemma_distinct_after_remove(pre, i as int);
                    assert forall|id2: Seq<char>| id2 != file@ implies #[trigger] tracker_entry(
                        self.trackers@,
                        id2,
                    ) == tracker_entry(pre, id2) by {
                        lemma_entry_after_remove(pre, i as int, id2);
                    }
                    assert(!has_tracker(self.trackers@, file@)) by {
                        if has_tracker(self.trackers@, file@) {
                            let k = tracker_at(self.trackers@, file@);
                            assert(state_id(self.trackers@[k].state@) == file@);
                            if k < i {
                                assert(pre[k] == self.trackers@[k]);
                            } else {
                                assert(pre[k + 1] == self.trackers@[k]);
                            }
                        }
                    }
                    assert forall|k: int| 0 <= k < self.trackers@.len() implies has_monitor(
                        self.monitors@,
                        (#[trigger] self.trackers@[k]).root@,
                    ) by {
                        if k < i {
                            assert(self.trackers@[k] == pre[k]);
                        } else {
                            assert(self.trackers@[k] == pre[k + 1]);
                        }
                    }
                }
                let root_still_used = self.monitor_is_live(removed.root.as_str());
                if root_still_used {
                    None
                } else {
                    Some(removed.root)
                }
            },
        }
    }

    /// The roots whose monitors are alive — those whose watchers run and
    /// must be drained before a tick. Each live root appears exactly once.
    pub fn live_roots(&self) -> (r: Vec<String>)
        requires
            self.wf(),
        ensures
            forall|k: int|
                0 <= k < r@.len() ==> has_monitor(self.monitors@, (#[trigger] r@[k])@)
                    && root_live(self.trackers@, r@[k]@),
            forall|rt: Seq<char>|
                #[trigger] has_monitor(self.monitors@, rt) && root_live(self.trackers@, rt)
                    ==> exists|k: int| 0 <= k < r@.len() && (#[trigger] r@[k])@ == rt,
            forall|k: int, l: int| 0 <= k < l < r@.len() ==> (#[trigger] r@[k])@ != (#[trigger] r@[l])@,
    {
        let mut out: Vec<String> = Vec::new();
        let mut j: usize = 0;
        while j < self.monitors.len()
            invariant
                self.wf(),
                j <= self.monitors@.len(),
                forall|k: int|
                    0 <= k < out@.len() ==> exists|m: int|
                        0 <= m < j && (#[trigger] out@[k])@ == (#[trigger] self.monitors@[m]).root@
                            && root_live(self.trackers@, out@[k]@),
                forall|m: int|
                    0 <= m < j && root_live(
                        self.trackers@,
                        (#[trigger] self.monitors@[m]).root@,
                    ) ==> exists|k: int|
                        0 <= k < out@.len() && (#[trigger] out@[k])@ == self.monitors@[m].root@,
                forall|k: int, l: int|
                    0 <= k < l < out@.len() ==> (#[trigger] out@[k])@ != (#[trigger] out@[l])@,
            decreases self.monitors@.len() - j,
        {
            let ghost pre_out = out@;
            if self.monitor_is_live(self.monitors[j].root.as_str()) {
                out.push(self.monitors[j].root.clone());
                proof {
                    assert(out@[pre_out.len() as int]@ == self.monitors@[j as int].root@);
                    assert forall|k: int, l: int| 0 <= k < l < out@.len() implies (
                    #[trigger] out@[k])@ != (#[trigger] out@[l])@ by {
                        assert(out@[k] == pre_out[k]);
                        if l < pre_out.len() {
                            assert(out@[l] == pre_out[l]);
                        } else {
                            let m = choose|m: int|
                                0 <= m < j && (#[trigger] pre_out[k])@ == (
                                #[trigger] self.monitors@[m]).root@ && root_live(
                                    self.trackers@,
                                    pre_out[k]@,
                                );
                            assert(self.monitors@[m].root@ != self.monitors@[j as int].root@);
                        }
                    }
                }
            }
            proof {
                assert forall|m: int|
                    0 <= m < j + 1 && root_live(
                        self.trackers@,
                        (#[trigger] self.monitors@[m]).root@,
                    ) implies exists|k: int|
                    0 <= k < out@.len() && (#[trigger] out@[k])@ == self.monitors@[m].root@ by {
                    if m < j {
                        let k0 = choose|k: int|
                            0 <= k < pre_out.len() && (#[trigger] pre_out[k])@
                                == self.monitors@[m].root@;
                        assert(out@[k0]@ == self.monitors@[m].root@);
                    } else {
                        assert(out@[out@.len() - 1]@ == self.monitors@[m].root@);
                    }
                }
            }
            j = j + 1;
        }
        proof {
            assert forall|rt: Seq<char>|
                #[trigger] has_monitor(self.monitors@, rt) && root_live(
                    self.trackers@,
                    rt,
                ) implies exists|k: int| 0 <= k < out@.len() && (#[trigger] out@[k])@ == rt by {
                let m = choose|m: int|
                    0 <= m < self.monitors@.len() && (#[trigger] self.monitors@[m]).root@ == rt;
                assert(root_live(self.trackers@, self.monitors@[m].root@));
            }
            assert forall|k: int| 0 <= k < out@.len() implies has_monitor(
                self.monitors@,
                (#[trigger] out@[k])@,
            ) && root_live(self.trackers@, out@[k]@) by {
                let m = choose|m: int|
                    0 <= m < self.monitors@.len() && (#[trigger] out@[k])@ == (
                    #[trigger] self.monitors@[m]).root@ && root_live(self.trackers@, out@[k]@);
                assert(self.monitors@[m].root@ == out@[k]@);
            }
        }
        out
    }

    /// One reconciliation pass: publishes each live monitor's batch of raw
    /// events — rewritten to absolute paths — to the trackers of its volume,
    /// advances every tracker's state machine over the batch in delivery
    /// order, and purges the monitor entries no tracker listens to.
    ///
    /// `batches` holds each live root's raw events as its watcher delivered
    /// them; a root without a batch is treated as having none. `probes` is
    /// the pass's snapshot of side-channel reads. `Err(path)` reports a
    /// missing probe: the registry is left untouched, and the caller records
    /// `get_tag(path)` in the snapshot and calls again, so that one pass is
    /// an atomic reconciliation unit. On `Ok` every tracker's state reflects
    /// the whole of its volume's batch, and every event buffer is empty
    /// again.
    pub fn tick(&mut self, batches: &Vec<(String, Vec<FSEvent>)>, probes: &TagProbes) -> (r:
        Result<(), String>)
        requires
            old(self).wf(),
        ensures
            final(self).wf(),
            r matches Err(p) ==> *final(self) == *old(self) && exists|i: int|
                0 <= i < old(self).trackers@.len() && #[trigger] run_state(
                    old(self).trackers@[i].state@,
                    tick_events_for(old(self).trackers@[i].root@, batches_view(batches@)),
                    probes@,
                ) == StepView::NeedTag(p@),
            r matches Ok(u) ==> {
                &&& final(self).trackers@.len() == old(self).trackers@.len()
                &&& forall|i: int|
                    0 <= i < old(self).trackers@.len() ==> (#[trigger] final(self).trackers@[i]).root@
                        == old(self).trackers@[i].root@
                &&& forall|i: int|
                    0 <= i < old(self).trackers@.len() ==> #[trigger] run_state(
                        old(self).trackers@[i].state@,
                        tick_events_for(old(self).trackers@[i].root@, batches_view(batches@)),
                        probes@,
                    ) == StepView::Next(final(self).trackers@[i].state@)
                &&& forall|i: int|
                    0 <= i < old(self).trackers@.len() ==> state_id(
                        (#[trigger] final(self).trackers@[i]).state@,
                    ) == state_id(old(self).trackers@[i].state@)
                &&& forall|rt: Seq<char>|
                    #[trigger] has_monitor(final(self).monitors@, rt) <==> (has_monitor(
                        old(self).monitors@,
                        rt,
                    ) && root_live(old(self).trackers@, rt))
                &&& forall|j: int|
                    0 <= j < final(self).monitors@.len() ==> (#[trigger] final(self).monitors@[j]).events@.len()
                        == 0
            },
    {
        let ghost bs = batches_view(batches@);
        let mut new_trackers: Vec<FileTracker> = Vec::new();
        let mut i: usize = 0;
        while i < self.trackers.len()
            invariant
                *self == *old(self),
                old(self).wf(),
                bs == batches_view(batches@),
                i <= self.trackers@.len(),
                new_trackers@.len() == i as int,
                forall|k: int|
                    0 <= k < i ==> (#[trigger] new_trackers@[k]).root@ == self.trackers@[k].root@,
                forall|k: int|
                    0 <= k < i ==> run_state(
                        self.trackers@[k].state@,
                        tick_events_for(self.trackers@[k].root@, bs),
                        probes@,
                    ) == StepView::Next((#[trigger] new_trackers@[k]).state@),
                forall|k: int|
                    0 <= k < i ==> state_id((#[trigger] new_trackers@[k]).state@) == state_id(
                        self.trackers@[k].state@,
                    ),
            decreases self.trackers@.len() - i,
        {
            let evs = batch_events_for(self.trackers[i].root.as_str(), batches);
            match advance_state(&self.trackers[i].state, &evs, probes) {
                Ok(s) => {
                    proof {
                        lemma_run_preserves_id(
                            self.trackers@[i as int].state@,
                            events_view(evs@),
                            probes@,
                            s@,
                        );
                    }
                    let root2 = self.trackers[i].root.clone();
                    new_trackers.push(FileTracker { root: root2, state: s });
                },
                Err(p) => {
                    proof {
                        assert(run_state(
                            old(self).trackers@[i as int].state@,
                            tick_events_for(old(self).trackers@[i as int].root@, bs),
                            probes@,
                        ) == StepView::NeedTag(p@));
                    }
                    return Err(p);
                },
            }
            i = i + 1;
        }
        let ghost pre_trackers = self.trackers@;
        let ghost newt = new_trackers@;
        self.trackers = new_trackers;
        proof {
            assert forall|rt: Seq<char>| #[trigger] root_live(self.trackers@, rt) implies root_live(
                pre_trackers,
                rt,
            ) by {
                let k = choose|k: int|
                    0 <= k < self.trackers@.len() && (#[trigger] self.trackers@[k]).root@ == rt;
                assert(pre_trackers[k].root@ == rt);
            }
            assert forall|rt: Seq<char>| #[trigger] root_live(pre_trackers, rt) implies root_live(
                self.trackers@,
                rt,
            ) by {
                let k = choose|k: int|
                    0 <= k < pre_trackers.len() && (#[trigger] pre_trackers[k]).root@ == rt;
                assert(self.trackers@[k].root@ == rt);
            }
            assert forall|a: int, b: int| 0 <= a < b < self.trackers@.len() implies state_id(
                (#[trigger] self.trackers@[a]).state@,
            ) != state_id((#[trigger] self.trackers@[b]).state@) by {
                assert(state_id(pre_trackers[a].state@) != state_id(pre_trackers[b].state@));
            }
        }
        let mut kept: Vec<VolumeMonitor> = Vec::new();
        let mut j: usize = 0;
        while j < self.monitors.len()
            invariant
                self.monitors@ == old(self).monitors@,
                self.trackers@ == newt,
                old(self).wf(),
                j <= self.monitors@.len(),
                forall|k: int| 0 <= k < kept@.len() ==> (#[trigger] kept@[k]).events@.len() == 0,
                forall|k: int|
                    0 <= k < kept@.len() ==> exists|m: int|
                        0 <= m < j && (#[trigger] kept@[k]).root@ == (
                        #[trigger] self.monitors@[m]).root@ && root_live(self.trackers@, kept@[k].root@),
                forall|m: int|
                    0 <= m < j && root_live(
                        self.trackers@,
                        (#[trigger] self.monitors@[m]).root@,
                    ) ==> exists|k: int|
                        0 <= k < kept@.len() && (#[trigger] kept@[k]).root@
                            == self.monitors@[m].root@,
                distinct_roots(kept@),
            decreases self.monitors@.len() - j,
        {
            let ghost pre_kept = kept@;
            if self.monitor_is_live(self.monitors[j].root.as_str()) {
                kept.push(
                    VolumeMonitor { root: self.monitors[j].root.clone(), events: Vec::new() },
                );
                proof {
                    assert(kept@[pre_kept.len() as int].root@ == self.monitors@[j as int].root@);
                    assert forall|a: int, b: int| 0 <= a < b < kept@.len() implies (
                    #[trigger] kept@[a]).root@ != (#[trigger] kept@[b]).root@ by {
                        assert(kept@[a] == pre_kept[a]);
                        if b < pre_kept.len() {
                            assert(kept@[b] == pre_kept[b]);
                        } else {
                            let m = choose|m: int|
                                0 <= m < j && (#[trigger] pre_kept[a]).root@ == (
                                #[trigger] self.monitors@[m]).root@ && root_live(
                                    self.trackers@,
                                    pre_kept[a].root@,
                                );
                            assert(self.monitors@[m].root@ != self.monitors@[j as int].root@);
                        }
                    }
                }
            }
            proof {
                assert forall|m: int|
                    0 <= m < j + 1 && root_live(
                        self.trackers@,
                        (#[trigger] self.monitors@[m]).root@,
                    ) implies exists|k: int|
                    0 <= k < kept@.len() && (#[trigger] kept@[k]).root@
                        == self.monitors@[m].root@ by {
                    if m < j {
                        let k0 = choose|k: int|
                            0 <= k < pre_kept.len() && (#[trigger] pre_kept[k]).root@
                                == self.monitors@[m].root@;
                        assert(kept@[k0].root@ == self.monitors@[m].root@);
                    } else {
                        assert(kept@[kept@.len() - 1].root@ == self.monitors@[m].root@);
                    }
                }
            }
            j = j + 1;
        }
        let ghost pre_monitors = self.monitors@;
        self.monitors = kept;
        proof {
            assert forall|rt: Seq<char>| #[trigger] has_monitor(self.monitors@, rt) implies (
            has_monitor(pre_monitors, rt) && root_live(newt, rt)) by {
                let k = choose|k: int|
                    0 <= k < self.monitors@.len() && (#[trigger] self.monitors@[k]).root@ == rt;
                let m = choose|m: int|
                    0 <= m < pre_monitors.len() && (#[trigger] self.monitors@[k]).root@ == (
                    #[trigger] pre_monitors[m]).root@ && root_live(newt, self.monitors@[k].root@);
                assert(pre_monitors[m].root@ == rt);
            }
            assert forall|rt: Seq<char>|
                has_monitor(pre_monitors, rt) && root_live(newt, rt) implies #[trigger] has_monitor(
                self.monitors@,
                rt,
            ) by {
                let m = choose|m: int|
                    0 <= m < pre_monitors.len() && (#[trigger] pre_monitors[m]).root@ == rt;
                let k0 = choose|k: int|
                    0 <= k < self.monitors@.len() && (#[trigger] self.monitors@[k]).root@
                        == pre_monitors[m].root@;
                assert(self.monitors@[k0].root@ == rt);
            }
            assert forall|k: int| 0 <= k < self.trackers@.len() implies has_monitor(
                self.monitors@,
                (#[trigger] self.trackers@[k]).root@,
            ) by {
                let rt = self.trackers@[k].root@;
                assert(pre_trackers[k].root@ == rt);
                assert(has_monitor(pre_monitors, rt));
                assert(root_live(newt, rt));
            }
            assert forall|rt: Seq<char>| root_live(old(self).trackers@, rt) implies root_live(
                newt,
                rt,
            ) by {
                let k = choose|k: int|
                    0 <= k < old(self).trackers@.len() && (#[trigger] old(
                        self,
                    ).trackers@[k]).root@ == rt;
                assert(newt[k].root@ == rt);
            }
        }
        Ok(())
    }
}

/// Under unique identifiers, any index carrying `id` is the one
/// [`tracker_at`] names.
proof fn lemma_tracker_at_unique(ts: Seq<FileTracker>, id: Seq<char>, k: int)
    requires
        distinct_ids(ts),
        0 <= k < ts.len(),
        state_id(ts[k].state@) == id,
    ensures
        has_tracker(ts, id),
        tracker_at(ts, id) == k,
{
    assert(has_tracker(ts, id));
    let a = tracker_at(ts, id);
    assert(0 <= a < ts.len() && state_id(ts[a].state@) == id);
    if a < k {
        assert(state_id(ts[a].state@) != state_id(ts[k].state@));
    } else if k < a {
        assert(state_id(ts[k].state@) != state_id(ts[a].state@));
    }
}

/// Removing one tracker keeps every other index's entry, merely shifted.
proof fn lemma_remove_keeps_others(ts: Seq<FileTracker>, i: int)
    requires
        0 <= i < ts.len(),
    ensures
        ts.remove(i).len() == ts.len() - 1,
        forall|j: int| 0 <= j < i ==> #[trigger] ts.remove(i)[j] == ts[j],
        forall|j: int| i <= j < ts.len() - 1 ==> #[trigger] ts.remove(i)[j] == ts[j + 1],
{
}

/// Removal keeps identifiers unique.
proof fn lemma_distinct_after_remove(ts: Seq<FileTracker>, i: int)
    requires
        distinct_ids(ts),
        0 <= i < ts.len(),
    ensures
        distinct_ids(ts.remove(i)),
{
    lemma_remove_keeps_others(ts, i);
    let r = ts.remove(i);
    assert forall|a: int, b: int| 0 <= a < b < r.len() implies state_id(
        (#[trigger] r[a]).state@,
    ) != state_id((#[trigger] r[b]).state@) by {
        let a0 = if a < i {
            a
        } else {
            a + 1
        };
        let b0 = if b < i {
            b
        } else {
            b + 1
        };
        assert(r[a] == ts[a0]);
        assert(r[b] == ts[b0]);
    }
}

/// Removing the tracker of one identifier leaves every other identifier's
/// entry as it was.
proof fn lemma_entry_after_remove(ts: Seq<FileTracker>, i: int, id2: Seq<char>)
    requires
        distinct_ids(ts),
        0 <= i < ts.len(),
        state_id(ts[i].state@) != id2,
    ensures
        tracker_entry(ts.remove(i), id2) == tracker_entry(ts, id2),
{
    lemma_remove_keeps_others(ts, i);
    lemma_distinct_after_remove(ts, i);
    let r = ts.remove(i);
    if has_tracker(ts, id2) {
        let j = tracker_at(ts, id2);
        assert(0 <= j < ts.len() && state_id(ts[j].state@) == id2);
        assert(j != i);
        let j2 = if j < i {
            j
        } else {
            j - 1
        };
        assert(r[j2] == ts[j]);
        lemma_tracker_at_unique(r, id2, j2);
        lemma_tracker_at_unique(ts, id2, j);
    } else {
        if has_tracker(r, id2) {
            let k = tracker_at(r, id2);
            assert(0 <= k < r.len() && state_id(r[k].state@) == id2);
            let k0 = if k < i {
                k
            } else {
                k + 1
            };
            assert(r[k] == ts[k0]);
            assert(state_id(ts[k0].state@) == id2);
        }
    }
}

/// Replacement by a tracker carrying the same identifier keeps identifiers
/// unique.
proof fn lemma_distinct_after_update(ts: Seq<FileTracker>, i: int, t: FileTracker)
    requires
        distinct_ids(ts),
        0 <= i < ts.len(),
        state_id(t.state@) == state_id(ts[i].state@),
    ensures
        distinct_ids(ts.update(i, t)),
{
    let u = ts.update(i, t);
    assert forall|a: int, b: int| 0 <= a < b < u.len() implies state_id(
        (#[trigger] u[a]).state@,
    ) != state_id((#[trigger] u[b]).state@) by {
        assert(a == i || u[a] == ts[a]);
        assert(b == i || u[b] == ts[b]);
        assert(state_id(ts[a].state@) != state_id(ts[b].state@));
    }
}

/// Appending a tracker with a fresh identifier keeps identifiers unique.
proof fn lemma_distinct_after_push(ts: Seq<FileTracker>, t: FileTracker)
    requires
        distinct_ids(ts),
        !has_tracker(ts, state_id(t.state@)),
    ensures
        distinct_ids(ts.push(t)),
{
    let u = ts.push(t);
    assert forall|a: int, b: int| 0 <= a < b < u.len() implies state_id(
        (#[trigger] u[a]).state@,
    ) != state_id((#[trigger] u[b]).state@) by {
        assert(u[a] == ts[a]);
        if b < ts.len() {
            assert(u[b] == ts[b]);
        } else {
            assert(u[b] == t);
            if state_id(ts[a].state@) == state_id(t.state@) {
                assert(has_tracker(ts, state_id(t.state@)));
            }
        }
    }
}

/// Replacing a tracker by one that carries the same identifier keeps every
/// other identifier's entry as it was.
proof fn lemma_entry_after_update(ts: Seq<FileTracker>, i: int, t: FileTracker, id2: Seq<char>)
    requires
        distinct_ids(ts),
        0 <= i < ts.len(),
        state_id(t.state@) == state_id(ts[i].state@),
        id2 != state_id(t.state@),
    ensures
        tracker_entry(ts.update(i, t), id2) == tracker_entry(ts, id2),
{
    lemma_distinct_after_update(ts, i, t);
    let u = ts.update(i, t);
    if has_tracker(ts, id2) {
        let j = tracker_at(ts, id2);
        assert(0 <= j < ts.len() && state_id(ts[j].state@) == id2);
        assert(j != i);
        assert(u[j] == ts[j]);
        lemma_tracker_at_unique(u, id2, j);
        lemma_tracker_at_unique(ts, id2, j);
    } else {
        if has_tracker(u, id2) {
            let k = tracker_at(u, id2);
            assert(0 <= k < u.len() && state_id(u[k].state@) == id2);
            assert(k != i);
            assert(u[k] == ts[k]);
            assert(state_id(ts[k].state@) == id2);
        }
    }
}

/// Appending a tracker with a fresh identifier keeps every other
/// identifier's entry as it was.
proof fn lemma_entry_after_push(ts: Seq<FileTracker>, t: FileTracker, id2: Seq<char>)
    requires
        distinct_ids(ts),
        !has_tracker(ts, state_id(t.state@)),
        id2 != state_id(t.state@),
    ensures
        tracker_entry(ts.push(t), id2) == tracker_entry(ts, id2),
{
    lemma_distinct_after_push(ts, t);
    let u = ts.push(t);
    if has_tracker(ts, id2) {
        let j = tracker_at(ts, id2);
        assert(0 <= j < ts.len() && state_id(ts[j].state@) == id2);
        assert(u[j] == ts[j]);
        lemma_tracker_at_unique(u, id2, j);
        lemma_tracker_at_unique(ts, id2, j);
    } else {
        if has_tracker(u, id2) {
            let k = tracker_at(u, id2);
            assert(0 <= k < u.len() && state_id(u[k].state@) == id2);
            assert(k < ts.len());
            assert(u[k] == ts[k]);
            assert(state_id(ts[k].state@) == id2);
        }
    }
}

/// Law: at most one volume monitor exists per root at any time. In any
/// monitor table satisfying the registry invariant, two entries watching the
/// same root are the same entry.
pub proof fn lemma_one_monitor_per_root(ms: Seq<VolumeMonitor>, i: int, j: int)
    requires
        distinct_roots(ms),
        0 <= i < ms.len(),
        0 <= j < ms.len(),
        ms[i].root@ == ms[j].root@,
    ensures
        i == j,
{
}

/// Law: an unregistered file is forgotten. Whatever the trackers table
/// held, the table after the tracker carrying `id` is removed — the table
/// `unregister_file` leaves behind — has no tracker for `id`, so a
/// subsequent state query for `id` answers nothing.
pub proof fn lemma_unregister_forgets(ts: Seq<FileTracker>, id: Seq<char>)
    requires
        distinct_ids(ts),
    ensures
        !has_tracker(remove_tracker(ts, id), id),
        tracker_entry(remove_tracker(ts, id), id) is None,
{
    if has_tracker(ts, id) {
        let i = tracker_at(ts, id);
        assert(0 <= i < ts.len() && state_id(ts[i].state@) == id);
        lemma_remove_keeps_others(ts, i);
        let r = ts.remove(i);
        if has_tracker(r, id) {
            let k = tracker_at(r, id);
            assert(0 <= k < r.len() && state_id(r[k].state@) == id);
            if k < i {
                assert(r[k] == ts[k]);
            } else {
                assert(r[k] == ts[k + 1]);
            }
        }
    }
}

} // verus!
