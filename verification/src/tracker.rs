//! The per-file reconciliation state machine.
//!
//! A tracker follows one registered file. It is `Certain` of the file's
//! absolute path until the watcher reports a rename or removal of the path
//! itself or of one of its ancestors; it then remembers the suffix below the
//! affected ancestor (`Renaming` after a rename, `Moving` after a removal)
//! and waits for the matching second half. When a candidate new location
//! arrives, identity is confirmed by reading the durable tag at the
//! reconstructed path: only a tag equal to the tracker's own identifier moves
//! it back to `Certain`.
//!
//! The side-channel reads themselves are the host's: the machine consumes a
//! [`TagProbes`] snapshot of `get_tag` results, and reports through
//! `Err(path)` which probe it is missing, so the host can read that path and
//! run the reconciliation again. Within one reconciliation pass each path is
//! thereby read at most once.
use vstd::prelude::*;

use crate::events::events_view;
use crate::events::EventView;
use crate::events::FSEvent;
use crate::paths::get_relative_path;
use crate::paths::is_path_prefix;
use crate::paths::join_path;
use crate::paths::join_under;
use crate::paths::relative_part;
use crate::paths::str_eq;

verus! {

/// Mathematical image of a [`FileTrackerState`].
pub ghost enum StateView {
    Certain { id: Seq<char>, path: Seq<char> },
    Renaming { id: Seq<char>, partial_path: Seq<char> },
    Moving { id: Seq<char>, partial_path: Seq<char> },
}

/// The identifier a state carries; every state carries one.
pub open spec fn state_id(s: StateView) -> Seq<char> {
    match s {
        StateView::Certain { id, path } => id,
        StateView::Renaming { id, partial_path } => id,
        StateView::Moving { id, partial_path } => id,
    }
}

/// Where a tracker believes its file stands.
#[derive(Debug)]
pub enum FileTrackerState {
    /// The last-known absolute path is believed current.
    Certain { id: String, path: String },
    /// A rename of the path or an ancestor was observed; `partial_path` is
    /// the suffix below the renamed entry (empty when the file itself was
    /// renamed).
    Renaming { id: String, partial_path: String },
    /// A removal of the path or an ancestor was observed; `partial_path` is
    /// the suffix below the removed entry.
    Moving { id: String, partial_path: String },
}

impl View for FileTrackerState {
    type V = StateView;

    open spec fn view(&self) -> StateView {
        match self {
            FileTrackerState::Certain { id, path } => StateView::Certain {
                id: id@,
                path: path@,
            },
            FileTrackerState::Renaming { id, partial_path } => StateView::Renaming {
                id: id@,
                partial_path: partial_path@,
            },
            FileTrackerState::Moving { id, partial_path } => StateView::Moving {
                id: id@,
                partial_path: partial_path@,
            },
        }
    }
}

impl FileTrackerState {
    /// A copy with the same view.
    pub fn dup(&self) -> (r: Self)
        ensures
            r@ == self@,
    {
        match self {
            FileTrackerState::Certain { id, path } => FileTrackerState::Certain {
                id: id.clone(),
                path: path.clone(),
            },
            FileTrackerState::Renaming { id, partial_path } => FileTrackerState::Renaming {
                id: id.clone(),
                partial_path: partial_path.clone(),
            },
            FileTrackerState::Moving { id, partial_path } => FileTrackerState::Moving {
                id: id.clone(),
                partial_path: partial_path.clone(),
            },
        }
    }
}

/// A snapshot of side-channel reads: for each probed path, the identifier
/// `get_tag` returned there, or `None` when the side-channel was absent or
/// unreadable.
pub struct TagProbes {
    entries: Vec<(String, Option<String>)>,
}

/// View of one probe entry.
pub open spec fn probe_entry_view(e: (String, Option<String>)) -> (Seq<char>, Option<Seq<char>>) {
    (
        e.0@,
        match e.1 {
            Option::Some(t) => Option::Some(t@),
            Option::None => Option::None,
        },
    )
}

impl View for TagProbes {
    type V = Seq<(Seq<char>, Option<Seq<char>>)>;

    closed spec fn view(&self) -> Seq<(Seq<char>, Option<Seq<char>>)> {
        self.entries@.map_values(|e: (String, Option<String>)| probe_entry_view(e))
    }
}

/// The recorded probe for `path`, scanning from entry `i`: `None` when no
/// entry names `path`, otherwise the first entry's result.
pub open spec fn probe_lookup_from(
    ps: Seq<(Seq<char>, Option<Seq<char>>)>,
    path: Seq<char>,
    i: int,
) -> Option<Option<Seq<char>>>
    decreases ps.len() - i,
{
    if i < 0 || i >= ps.len() {
        Option::None
    } else if ps[i].0 == path {
        Option::Some(ps[i].1)
    } else {
        probe_lookup_from(ps, path, i + 1)
    }
}

/// The recorded probe for `path`, if any.
pub open spec fn probe_lookup(ps: Seq<(Seq<char>, Option<Seq<char>>)>, path: Seq<char>) -> Option<
    Option<Seq<char>>,
> {
    probe_lookup_from(ps, path, 0)
}

impl TagProbes {
    /// An empty snapshot.
    pub fn new() -> (r: TagProbes)
        ensures
            r@ == Seq::<(Seq<char>, Option<Seq<char>>)>::empty(),
    {
        let r = TagProbes { entries: Vec::new() };
        proof {
            assert(r@ =~= Seq::<(Seq<char>, Option<Seq<char>>)>::empty());
        }
        r
    }

    /// Records the result of one `get_tag` read.
    pub fn record(&mut self, path: String, tag: Option<String>) -> (r: ())
        ensures
            final(self)@ == old(self)@.push(probe_entry_view((path, tag))),
    {
        self.entries.push((path, tag));
        proof {
            assert(final(self)@ =~= old(self)@.push(probe_entry_view((path, tag))));
        }
    }

    /// The index of the first entry for `path`, if one exists.
    fn find(&self, path: &str) -> (r: Option<usize>)
        ensures
            match r {
                Option::Some(i) => 0 <= i < self@.len() && self@[i as int].0 == path@
                    && probe_lookup(self@, path@) == Option::Some(self@[i as int].1),
                Option::None => probe_lookup(self@, path@) is None,
            },
    {
        let mut i: usize = 0;
        while i < self.entries.len()
            invariant
                i <= self.entries.len(),
                self@.len() == self.entries@.len(),
                probe_lookup(self@, path@) == probe_lookup_from(self@, path@, i as int),
            decreases self.entries.len() - i,
        {
            if str_eq(self.entries[i].0.as_str(), path) {
                return Some(i);
            }
            i = i + 1;
        }
        None
    }
}

/// The path a confirmation must probe: `base` itself when the remembered
/// suffix is empty, otherwise the suffix re-attached under `base`.
pub open spec fn check_full_path(base: Seq<char>, partial: Seq<char>) -> Seq<char> {
    if partial.len() == 0 {
        base
    } else {
        join_path(base, partial)
    }
}

/// Outcome of holding a candidate location against the probe snapshot.
pub enum CheckResult {
    /// The snapshot records an identifier at the reconstructed path.
    Confirmed { tag: String, full: String },
    /// The snapshot records that no tag could be read there.
    NoTag { full: String },
    /// The snapshot holds no entry for the reconstructed path yet.
    Unprobed { full: String },
}

/// Reconstructs the candidate path of a file whose ancestor `base` was the
/// target of a rename or move, and looks the path up in the probe snapshot.
pub fn check_potential_path(base: &str, partial_path: &str, probes: &TagProbes) -> (r: CheckResult)
    ensures
        match r {
            CheckResult::Confirmed { tag, full } => full@ == check_full_path(base@, partial_path@)
                && probe_lookup(probes@, full@) == Option::Some(Option::Some(tag@)),
            CheckResult::NoTag { full } => full@ == check_full_path(base@, partial_path@)
                && probe_lookup(probes@, full@) == Option::Some(Option::None::<Seq<char>>),
            CheckResult::Unprobed { full } => full@ == check_full_path(base@, partial_path@)
                && probe_lookup(probes@, full@) is None,
        },
{
    let full: String = if partial_path.unicode_len() == 0 {
        String::from_str(base)
    } else {
        join_under(base, partial_path)
    };
    match probes.find(full.as_str()) {
        Option::Some(i) => {
            match &probes.entries[i].1 {
                Option::Some(tag) => CheckResult::Confirmed { tag: tag.clone(), full },
                Option::None => CheckResult::NoTag { full },
            }
        },
        Option::None => CheckResult::Unprobed { full },
    }
}

/// Result of one transition attempt: the next state, or the path whose probe
/// the snapshot is missing.
pub ghost enum StepView {
    Next(StateView),
    NeedTag(Seq<char>),
}

/// Confirmation of a candidate location `new_base` for a tracker in a
/// transient state `s` carrying `id` and `partial`: back to `Certain` exactly
/// when the probe at the reconstructed path returned `id`; unchanged when it
/// returned another identifier or nothing; a missing probe suspends the run.
pub open spec fn confirm_step(
    s: StateView,
    id: Seq<char>,
    partial: Seq<char>,
    new_base: Seq<char>,
    probes: Seq<(Seq<char>, Option<Seq<char>>)>,
) -> StepView {
    let full = check_full_path(new_base, partial);
    match probe_lookup(probes, full) {
        Option::None => StepView::NeedTag(full),
        Option::Some(Option::None) => StepView::Next(s),
        Option::Some(Option::Some(t)) => if t == id {
            StepView::Next(StateView::Certain { id, path: full })
        } else {
            StepView::Next(s)
        },
    }
}

/// One transition of the reconciliation machine. Events outside the defined
/// transitions leave the state unchanged.
pub open spec fn step_state(
    s: StateView,
    e: EventView,
    probes: Seq<(Seq<char>, Option<Seq<char>>)>,
) -> StepView {
    match e {
        EventView::RenamedOld(old_path) => match s {
            StateView::Certain { id, path } => if is_path_prefix(old_path, path) {
                StepView::Next(
                    StateView::Renaming { id, partial_path: relative_part(old_path, path) },
                )
            } else {
                StepView::Next(s)
            },
            _ => StepView::Next(s),
        },
        EventView::Removed(old_path) => match s {
            StateView::Certain { id, path } => if is_path_prefix(old_path, path) {
                StepView::Next(
                    StateView::Moving { id, partial_path: relative_part(old_path, path) },
                )
            } else {
                StepView::Next(s)
            },
            _ => StepView::Next(s),
        },
        EventView::RenamedNew(new_base) => match s {
            StateView::Renaming { id, partial_path } => confirm_step(
                s,
                id,
                partial_path,
                new_base,
                probes,
            ),
            _ => StepView::Next(s),
        },
        EventView::Added(new_base) => match s {
            StateView::Moving { id, partial_path } => confirm_step(
                s,
                id,
                partial_path,
                new_base,
                probes,
            ),
            _ => StepView::Next(s),
        },
        EventView::Modified(p) => StepView::Next(s),
    }
}

/// The machine run over the events from index `i` on, in delivery order,
/// stopping at the first missing probe.
pub open spec fn run_state_from(
    s: StateView,
    evs: Seq<EventView>,
    probes: Seq<(Seq<char>, Option<Seq<char>>)>,
    i: int,
) -> StepView
    decreases evs.len() - i,
{
    if i < 0 || i >= evs.len() {
        StepView::Next(s)
    } else {
        match step_state(s, evs[i], probes) {
            StepView::NeedTag(p) => StepView::NeedTag(p),
            StepView::Next(s2) => run_state_from(s2, evs, probes, i + 1),
        }
    }
}

/// The machine run over a whole event batch: the terminal state of the
/// sequence, or the first missing probe.
pub open spec fn run_state(
    s: StateView,
    evs: Seq<EventView>,
    probes: Seq<(Seq<char>, Option<Seq<char>>)>,
) -> StepView {
    run_state_from(s, evs, probes, 0)
}

/// One transition, executably.
fn step_once(state: &FileTrackerState, event: &FSEvent, probes: &TagProbes) -> (r: Result<
    FileTrackerState,
    String,
>)
    ensures
        r matches Ok(s) ==> step_state(state@, event@, probes@) == StepView::Next(s@),
        r matches Err(p) ==> step_state(state@, event@, probes@) == StepView::NeedTag(p@),
{
    match event {
        FSEvent::FileRenamedOld(old_path) => {
            if let FileTrackerState::Certain { id, path } = state {
                match get_relative_path(old_path.as_str(), path.as_str()) {
                    Ok(relative) => Ok(
                        FileTrackerState::Renaming { id: id.clone(), partial_path: relative },
                    ),
                    Err(_) => Ok(state.dup()),
                }
            } else {
                Ok(state.dup())
            }
        },
        FSEvent::FileRemoved(old_path) => {
            if let FileTrackerState::Certain { id, path } = state {
                match get_relative_path(old_path.as_str(), path.as_str()) {
                    Ok(relative) => Ok(
                        FileTrackerState::Moving { id: id.clone(), partial_path: relative },
                    ),
                    Err(_) => Ok(state.dup()),
                }
            } else {
                Ok(state.dup())
            }
        },
        FSEvent::FileRenamedNew(new_base) => {
            if let FileTrackerState::Renaming { id, partial_path } = state {
                match check_potential_path(new_base.as_str(), partial_path.as_str(), probes) {
                    CheckResult::Confirmed { tag, full } => {
                        if str_eq(id.as_str(), tag.as_str()) {
                            Ok(FileTrackerState::Certain { id: id.clone(), path: full })
                        } else {
                            Ok(state.dup())
                        }
                    },
                    CheckResult::NoTag { full } => Ok(state.dup()),
                    CheckResult::Unprobed { full } => Err(full),
                }
            } else {
                Ok(state.dup())
            }
        },
        FSEvent::FileAdded(new_base) => {
            if let FileTrackerState::Moving { id, partial_path } = state {
                match check_potential_path(new_base.as_str(), partial_path.as_str(), probes) {
                    CheckResult::Confirmed { tag, full } => {
                        if str_eq(id.as_str(), tag.as_str()) {
                            Ok(FileTrackerState::Certain { id: id.clone(), path: full })
                        } else {
                            Ok(state.dup())
                        }
                    },
                    CheckResult::NoTag { full } => Ok(state.dup()),
                    CheckResult::Unprobed { full } => Err(full),
                }
            } else {
                Ok(state.dup())
            }
        },
        FSEvent::FileModified(p) => Ok(state.dup()),
    }
}

/// Runs the machine over a whole event batch, from `state`.
///
/// `Ok` carries the terminal state; `Err` carries the path whose probe the
/// snapshot is missing, at which the run stopped.
pub fn advance_state(state: &FileTrackerState, events: &Vec<FSEvent>, probes: &TagProbes) -> (r:
    Result<FileTrackerState, String>)
    ensures
        r matches Ok(s) ==> run_state(state@, events_view(events@), probes@) == StepView::Next(s@),
        r matches Err(p) ==> run_state(state@, events_view(events@), probes@) == StepView::NeedTag(
            p@,
        ),
{
    let mut st = state.dup();
    let mut i: usize = 0;
    while i < events.len()
        invariant
            i <= events.len(),
            run_state(state@, events_view(events@), probes@) == run_state_from(
                st@,
                events_view(events@),
                probes@,
                i as int,
            ),
        decreases events.len() - i,
    {
        match step_once(&st, &events[i], probes) {
            Ok(s2) => {
                st = s2;
            },
            Err(p) => {
                return Err(p);
            },
        }
        i = i + 1;
    }
    Ok(st)
}

/// One registered file: the root of the volume monitor it listens to, and
/// the reconciliation state.
pub struct FileTracker {
    /// Root of the volume whose events this tracker consumes; fixed at
    /// registration.
    pub root: String,
    /// Current reconciliation state.
    pub state: FileTrackerState,
}

impl FileTracker {
    /// Applies one tick's event batch of this tracker's volume to the state
    /// machine.
    ///
    /// On `Ok` the state is the terminal state of the event sequence. On
    /// `Err(path)` the probe snapshot lacks the read at `path`; the tracker
    /// is left unchanged so the host can read the tag there, record it, and
    /// call again.
    pub fn update_state(&mut self, events: &Vec<FSEvent>, probes: &TagProbes) -> (r: Result<
        (),
        String,
    >)
        ensures
            final(self).root == old(self).root,
            r matches Ok(u) ==> run_state(old(self).state@, events_view(events@), probes@)
                == StepView::Next(final(self).state@),
            r matches Err(p) ==> *final(self) == *old(self) && run_state(
                old(self).state@,
                events_view(events@),
                probes@,
            ) == StepView::NeedTag(p@),
            state_id(final(self).state@) == state_id(old(self).state@),
    {
        match advance_state(&self.state, events, probes) {
            Ok(s) => {
                proof {
                    lemma_run_preserves_id(self.state@, events_view(events@), probes@, s@);
                }
                self.state = s;
                Ok(())
            },
            Err(p) => Err(p),
        }
    }
}

/// One transition keeps the identifier.
proof fn lemma_step_preserves_id(
    s: StateView,
    e: EventView,
    probes: Seq<(Seq<char>, Option<Seq<char>>)>,
    t: StateView,
)
    requires
        step_state(s, e, probes) == StepView::Next(t),
    ensures
        state_id(t) == state_id(s),
{
}

/// Helper for [`lemma_run_preserves_id`]: induction over the event suffix.
proof fn lemma_run_from_preserves_id(
    s: StateView,
    evs: Seq<EventView>,
    probes: Seq<(Seq<char>, Option<Seq<char>>)>,
    i: int,
    t: StateView,
)
    requires
        run_state_from(s, evs, probes, i) == StepView::Next(t),
    ensures
        state_id(t) == state_id(s),
    decreases evs.len() - i,
{
    if i < 0 || i >= evs.len() {
    } else {
        match step_state(s, evs[i], probes) {
            StepView::NeedTag(p) => {},
            StepView::Next(s2) => {
                lemma_step_preserves_id(s, evs[i], probes, s2);
                lemma_run_from_preserves_id(s2, evs, probes, i + 1, t);
            },
        }
    }
}

/// Law: a tracker's identifier never changes from one reconciliation to the
/// next. Whatever terminal state a run of the machine reaches, it carries
/// the identifier the starting state carried.
pub proof fn lemma_run_preserves_id(
    s: StateView,
    evs: Seq<EventView>,
    probes: Seq<(Seq<char>, Option<Seq<char>>)>,
    t: StateView,
)
    requires
        run_state(s, evs, probes) == StepView::Next(t),
    ensures
        state_id(t) == state_id(s),
{
    lemma_run_from_preserves_id(s, evs, probes, 0, t);
}

/// One transition adopts a `Certain` path only on a matching probe.
proof fn lemma_step_certain_confirmed(
    s: StateView,
    e: EventView,
    probes: Seq<(Seq<char>, Option<Seq<char>>)>,
    id: Seq<char>,
    path: Seq<char>,
)
    requires
        step_state(s, e, probes) == StepView::Next((StateView::Certain { id, path })),
    ensures
        s == (StateView::Certain { id, path }) || probe_lookup(probes, path) == Option::Some(
            Option::Some(id),
        ),
{
}

/// Helper for [`lemma_run_certain_confirmed`]: induction over the event
/// suffix.
proof fn lemma_run_from_certain_confirmed(
    s: StateView,
    evs: Seq<EventView>,
    probes: Seq<(Seq<char>, Option<Seq<char>>)>,
    i: int,
    id: Seq<char>,
    path: Seq<char>,
)
    requires
        run_state_from(s, evs, probes, i) == StepView::Next((StateView::Certain { id, path })),
    ensures
        s == (StateView::Certain { id, path }) || probe_lookup(probes, path) == Option::Some(
            Option::Some(id),
        ),
    decreases evs.len() - i,
{
    if i < 0 || i >= evs.len() {
    } else {
        match step_state(s, evs[i], probes) {
            StepView::NeedTag(p) => {},
            StepView::Next(s2) => {
                lemma_run_from_certain_confirmed(s2, evs, probes, i + 1, id, path);
                if s2 == (StateView::Certain { id, path }) {
                    lemma_step_certain_confirmed(s, evs[i], probes, id, path);
                }
            },
        }
    }
}

/// Law: when a reconciliation run ends `Certain` of a path, either it was
/// already certain of that path and identifier before the run, or the probe
/// snapshot — the fresh `get_tag` reads of this pass — returned exactly the
/// tracker's identifier at that path.
pub proof fn lemma_run_certain_confirmed(
    s: StateView,
    evs: Seq<EventView>,
    probes: Seq<(Seq<char>, Option<Seq<char>>)>,
    id: Seq<char>,
    path: Seq<char>,
)
    requires
        run_state(s, evs, probes) == StepView::Next((StateView::Certain { id, path })),
    ensures
        s == (StateView::Certain { id, path }) || probe_lookup(probes, path) == Option::Some(
            Option::Some(id),
        ),
{
    lemma_run_from_certain_confirmed(s, evs, probes, 0, id, path);
}

} // verus!
