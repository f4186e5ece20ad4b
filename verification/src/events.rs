//! Typed file-system events.
//!
//! The native watcher reports one action per changed entry, with a path that
//! is relative to the watched volume root. The volume monitor rewrites each
//! path to an absolute one by prepending the root before trackers see it.
use vstd::prelude::*;
use vstd::string::StrSliceExecFns;
use vstd::string::StringSliceAdditionalSpecFns;

verus! {

/// One raw change reported by a volume's watcher. The payload is the affected
/// path: volume-relative as delivered, absolute after [`rewrite_event`].
#[derive(Debug)]
pub enum FSEvent {
    FileAdded(String),
    FileRemoved(String),
    FileModified(String),
    FileRenamedOld(String),
    FileRenamedNew(String),
}

/// Mathematical image of an [`FSEvent`].
pub ghost enum EventView {
    Added(Seq<char>),
    Removed(Seq<char>),
    Modified(Seq<char>),
    RenamedOld(Seq<char>),
    RenamedNew(Seq<char>),
}

impl View for FSEvent {
    type V = EventView;

    open spec fn view(&self) -> EventView {
        match self {
            FSEvent::FileAdded(p) => EventView::Added(p@),
            FSEvent::FileRemoved(p) => EventView::Removed(p@),
            FSEvent::FileModified(p) => EventView::Modified(p@),
            FSEvent::FileRenamedOld(p) => EventView::RenamedOld(p@),
            FSEvent::FileRenamedNew(p) => EventView::RenamedNew(p@),
        }
    }
}

/// The views of a whole event batch, in delivery order.
pub open spec fn events_view(evs: Seq<FSEvent>) -> Seq<EventView> {
    evs.map_values(|e: FSEvent| e@)
}

/// The event with `root` prepended to its path. The rewrite is a plain
/// textual concatenation: the watcher's relative paths carry no leading
/// separator and the root carries its own trailing one.
pub open spec fn with_root(root: Seq<char>, e: EventView) -> EventView {
    match e {
        EventView::Added(p) => EventView::Added(root + p),
        EventView::Removed(p) => EventView::Removed(root + p),
        EventView::Modified(p) => EventView::Modified(root + p),
        EventView::RenamedOld(p) => EventView::RenamedOld(root + p),
        EventView::RenamedNew(p) => EventView::RenamedNew(root + p),
    }
}

/// Rewrites one volume-relative event to an absolute one under `root`.
pub fn rewrite_event(root: &str, e: &FSEvent) -> (r: FSEvent)
    ensures
        r@ == with_root(root@, e@),
{
    match e {
        FSEvent::FileAdded(p) => FSEvent::FileAdded(String::from_str(root).concat(p.as_str())),
        FSEvent::FileRemoved(p) => FSEvent::FileRemoved(String::from_str(root).concat(p.as_str())),
        FSEvent::FileModified(p) => FSEvent::FileModified(
            String::from_str(root).concat(p.as_str()),
        ),
        FSEvent::FileRenamedOld(p) => FSEvent::FileRenamedOld(
            String::from_str(root).concat(p.as_str()),
        ),
        FSEvent::FileRenamedNew(p) => FSEvent::FileRenamedNew(
            String::from_str(root).concat(p.as_str()),
        ),
    }
}

/// The bytes of `s` followed by a single zero byte, as the native watcher's C
/// interface expects its path arguments.
pub fn to_null_terminated(s: &str) -> (r: Vec<u8>)
    ensures
        r@ == s.spec_bytes().push(0u8),
        r@.len() == s.spec_bytes().len() + 1,
{
    let mut res: Vec<u8> = s.as_bytes_vec();
    res.push(0u8);
    res
}

} // verus!
