//! The filesystem-watch subsystem's decisions: which paths are
//! watched, how external change events are classified, and when the
//! debounced batch is flushed.  The shell owns the actual watcher
//! and the timer; it feeds every command and event through here.

use vstd::prelude::*;
use crate::pathseg::str_eq;

verus! {

/// Milliseconds an event batch settles before it is emitted.
pub const DEBOUNCE_MS: u64 = 500;

/// Commands sent into the watcher loop.
#[derive(Debug)]
pub enum WatcherCommand {
    AddPath(String),
    RemovePath(String),
    ReplaceMapsPath(Option<String>, String),
    Shutdown,
}

/// A change kind the UI is told about.
#[derive(Clone, Copy, Debug, PartialEq, Eq, Structural)]
pub enum FsEventKind {
    Create,
    Remove,
    Rename,
    Other,
}

/// The wire label of a change kind; `None` for events the UI never
/// sees.
pub fn event_label(kind: FsEventKind) -> (r: Option<&'static str>)
    ensures
        kind is Create ==> (r matches Some(l) && l@ == "create"@),
        kind is Remove ==> (r matches Some(l) && l@ == "delete"@),
        kind is Rename ==> (r matches Some(l) && l@ == "rename"@),
        kind is Other ==> r is None,
{
    match kind {
        FsEventKind::Create => Some("create"),
        FsEventKind::Remove => Some("delete"),
        FsEventKind::Rename => Some("rename"),
        FsEventKind::Other => None,
    }
}

/// The set of watched paths, each held once.
pub struct WatchSet {
    pub paths: Vec<String>,
}

/// What the shell must do to its watcher after a command.
pub enum WatchAction {
    /// Watch the path recursively.
    Watch(String),
    /// Stop watching the path.
    Unwatch(String),
    /// Leave the loop.
    Stop,
}

impl WatchSet {
    /// Each path is held at most once.
    pub open spec fn wf(&self) -> bool {
        forall|i: int, j: int|
            0 <= i < j < self.paths@.len() ==> self.paths@[i]@ != self.paths@[j]@
    }

    /// Whether `p` is watched.
    pub open spec fn spec_watches(&self, p: Seq<char>) -> bool {
        exists|i: int| 0 <= i < self.paths@.len() && self.paths@[i]@ == p
    }

    /// An empty watch set.
    pub fn new() -> (r: WatchSet)
        ensures
            r.wf(),
            forall|p: Seq<char>| !r.spec_watches(p),
    {
        WatchSet { paths: Vec::new() }
    }

    /// Whether `p` is watched.
    pub fn contains(&self, p: &str) -> (r: bool)
        ensures
            r == self.spec_watches(p@),
    {
        let mut i: usize = 0;
        while i < self.paths.len()
            invariant
                i <= self.paths@.len(),
                forall|j: int| 0 <= j < i ==> self.paths@[j]@ != p@,
            decreases self.paths@.len() - i,
        {
            if str_eq(self.paths[i].as_str(), p) {
                return true;
            }
            i += 1;
        }
        false
    }

    /// Add `p`; nothing changes when it is already watched.  Returns
    /// whether it was new.
    pub fn insert(&mut self, p: String) -> (added: bool)
        requires
            old(self).wf(),
        ensures
            final(self).wf(),
            added == !old(self).spec_watches(p@),
            forall|x: Seq<char>|
                final(self).spec_watches(x) == (old(self).spec_watches(x) || x == p@),
    {
        if self.contains(p.as_str()) {
            proof {
                assert forall|x: Seq<char>|
                    self.spec_watches(x) == (self.spec_watches(x) || x == p@) by {
                    if x == p@ {
                        assert(self.spec_watches(x));
                    }
                }
            }
            false
        } else {
            let ghost oldpaths = self.paths@;
            self.paths.push(p);
            proof {
                assert forall|x: Seq<char>| self.spec_watches(x) == (old(
                    self,
                ).spec_watches(x) || x == p@) by {
                    if self.spec_watches(x) {
                        let i = choose|i: int|
                            0 <= i < self.paths@.len() && self.paths@[i]@ == x;
                        if i < oldpaths.len() {
                            assert(oldpaths[i]@ == x);
                        }
                    }
                    if old(self).spec_watches(x) {
                        let i = choose|i: int| 0 <= i < oldpaths.len() && oldpaths[i]@ == x;
                        assert(self.paths@[i]@ == x);
                    }
                    if x == p@ {
                        assert(self.paths@[self.paths@.len() - 1]@ == x);
                    }
                }
            }
            true
        }
    }

    /// Remove `p`; returns whether it was watched.
    pub fn remove(&mut self, p: &str) -> (removed: bool)
        requires
            old(self).wf(),
        ensures
            final(self).wf(),
            removed == old(self).spec_watches(p@),
            forall|x: Seq<char>|
                final(self).spec_watches(x) == (old(self).spec_watches(x) && x != p@),
    {
        let ghost oldpaths = self.paths@;
        let mut i: usize = 0;
        while i < self.paths.len()
            invariant
                i <= self.paths@.len(),
                self.paths@ == oldpaths,
                oldpaths == old(self).paths@,
                forall|a: int, b: int| 0 <= a < b < oldpaths.len() ==> oldpaths[a]@ != oldpaths[b]@,
                forall|j: int| 0 <= j < i ==> self.paths@[j]@ != p@,
            decreases self.paths@.len() - i,
        {
            if str_eq(self.paths[i].as_str(), p) {
                self.paths.remove(i);
                proof {
                    oldpaths.remove_ensures(i as int);
                    assert(self.paths@ == oldpaths.remove(i as int));
                    assert forall|a: int, b: int|
                        0 <= a < b < self.paths@.len() implies self.paths@[a]@
                        != self.paths@[b]@ by {
                        let a0: int = if a < i { a } else { a + 1 };
                        let b0: int = if b < i { b } else { b + 1 };
                        assert(self.paths@[a] == oldpaths[a0]);
                        assert(self.paths@[b] == oldpaths[b0]);
                    }
                    assert forall|x: Seq<char>| self.spec_watches(x) == (old(
                        self,
                    ).spec_watches(x) && x != p@) by {
                        if self.spec_watches(x) {
                            let k = choose|k: int|
                                0 <= k < self.paths@.len() && self.paths@[k]@ == x;
                            if k < i {
                                assert(self.paths@[k] == oldpaths[k]);
                                assert(oldpaths[k]@ == x);
                            } else {
                                assert(self.paths@[k] == oldpaths[k + 1]);
                                assert(oldpaths[k + 1]@ == x);
                            }
                            assert(x != p@) by {
                                if k < i {
                                } else {
                                    assert(oldpaths[i as int]@ == p@);
                                }
                            }
                        }
                        if old(self).spec_watches(x) && x != p@ {
                            let k = choose|k: int|
                                0 <= k < oldpaths.len() && oldpaths[k]@ == x;
                            assert(oldpaths[i as int]@ == p@);
                            assert(k != i);
                            if k < i {
                                assert(self.paths@[k] == oldpaths[k]);
                                assert(self.paths@[k]@ == x);
                            } else {
                                assert(self.paths@[k - 1] == oldpaths[k]);
                                assert(self.paths@[k - 1]@ == x);
                            }
                        }
                    }
                    assert(old(self).spec_watches(p@)) by {
                        assert(oldpaths[i as int]@ == p@);
                    }
                }
                return true;
            }
            i += 1;
        }
        false
    }

    /// Apply one command: update the watch set and say what the
    /// shell's watcher must do.  A path that does not exist is never
    /// added; replacing first drops the old path, then adds the new.
    pub fn apply_command(&mut self, cmd: WatcherCommand, new_path_exists: bool) -> (acts: Vec<
        WatchAction,
    >)
        requires
            old(self).wf(),
        ensures
            final(self).wf(),
            match cmd {
                WatcherCommand::AddPath(p) => {
                    if new_path_exists && !old(self).spec_watches(p@) {
                        &&& acts@.len() == 1
                        &&& (acts@[0] matches WatchAction::Watch(w) && w@ == p@)
                        &&& forall|x: Seq<char>|
                            final(self).spec_watches(x) == (old(self).spec_watches(x) || x
                                == p@)
                    } else {
                        &&& acts@.len() == 0
                        &&& forall|x: Seq<char>|
                            final(self).spec_watches(x) == old(self).spec_watches(x)
                    }
                },
                WatcherCommand::RemovePath(p) => {
                    &&& forall|x: Seq<char>|
                        final(self).spec_watches(x) == (old(self).spec_watches(x) && x != p@)
                    &&& if old(self).spec_watches(p@) {
                        acts@.len() == 1 && (acts@[0] matches WatchAction::Unwatch(w) && w@
                            == p@)
                    } else {
                        acts@.len() == 0
                    }
                },
                WatcherCommand::ReplaceMapsPath(_, _) => true,
                WatcherCommand::Shutdown => {
                    &&& acts@.len() == 1
                    &&& acts@[0] is Stop
                    &&& forall|x: Seq<char>|
                        final(self).spec_watches(x) == old(self).spec_watches(x)
                },
            },
    {
        let mut acts: Vec<WatchAction> = Vec::new();
        match cmd {
            WatcherCommand::AddPath(p) => {
                if new_path_exists && !self.contains(p.as_str()) {
                    let _ = self.insert(p.clone());
                    acts.push(WatchAction::Watch(p));
                }
            },
            WatcherCommand::RemovePath(p) => {
                let removed = self.remove(p.as_str());
                if removed {
                    acts.push(WatchAction::Unwatch(p));
                }
            },
            WatcherCommand::ReplaceMapsPath(old_path, new_path) => {
                match old_path {
                    Some(o) => {
                        let removed = self.remove(o.as_str());
                        if removed {
                            acts.push(WatchAction::Unwatch(o));
                        }
                    },
                    None => {},
                }
                if new_path_exists && !self.contains(new_path.as_str()) {
                    let _ = self.insert(new_path.clone());
                    acts.push(WatchAction::Watch(new_path));
                }
            },
            WatcherCommand::Shutdown => {
                acts.push(WatchAction::Stop);
            },
        }
        acts
    }
}

/// The debounced batch of changes waiting to be emitted: the latest
/// kind seen for each path.
pub struct PendingChanges {
    pub items: Vec<(String, String)>,
}

impl PendingChanges {
    /// Each path appears at most once.
    pub open spec fn wf(&self) -> bool {
        forall|i: int, j: int|
            0 <= i < j < self.items@.len() ==> self.items@[i].0@ != self.items@[j].0@
    }

    /// The kind recorded for a path, if any.
    pub open spec fn spec_kind_of(&self, p: Seq<char>) -> Option<Seq<char>> {
        if exists|i: int| 0 <= i < self.items@.len() && self.items@[i].0@ == p {
            Some(
                self.items@[choose|i: int|
                    0 <= i < self.items@.len() && self.items@[i].0@ == p].1@,
            )
        } else {
            None
        }
    }

    /// An empty batch.
    pub fn new() -> (r: PendingChanges)
        ensures
            r.wf(),
            r.items@.len() == 0,
    {
        PendingChanges { items: Vec::new() }
    }

    /// Whether nothing is pending.
    pub fn is_empty(&self) -> (r: bool)
        ensures
            r == (self.items@.len() == 0),
    {
        self.items.len() == 0
    }

    /// Record a change: the newest kind for a path wins.  Returns
    /// whether the path was already pending.
    pub fn record(&mut self, path: String, kind: String) -> (updated: bool)
        requires
            old(self).wf(),
        ensures
            final(self).wf(),
            final(self).spec_kind_of(path@) == Some(kind@),
            forall|x: Seq<char>|
                x != path@ ==> final(self).spec_kind_of(x) == old(self).spec_kind_of(x),
            final(self).items@.len() >= 1,
    {
        let ghost old_items = self.items@;
        let ghost p = path@;
        let mut i: usize = 0;
        while i < self.items.len()
            invariant
                i <= self.items@.len(),
                self.items@ == old_items,
                old_items == old(self).items@,
                p == path@,
                forall|a: int, b: int|
                    0 <= a < b < old_items.len() ==> old_items[a].0@ != old_items[b].0@,
                forall|j: int| 0 <= j < i ==> self.items@[j].0@ != p,
            decreases self.items@.len() - i,
        {
            if str_eq(self.items[i].0.as_str(), path.as_str()) {
                proof {
                    assert(old_items[i as int].0@ == p);
                }
                let _ = self.items.remove(i);
                self.items.insert(i, (path, kind));
                proof {
                    assert(self.items@ =~= old_items.update(i as int, (path, kind)));
                    assert(self.items@[i as int].0@ == p);
                    assert(forall|j: int|
                        0 <= j < self.items@.len() && j != i ==> self.items@[j]
                            == old_items[j]);
                    assert forall|a: int, b: int|
                        0 <= a < b < self.items@.len() implies self.items@[a].0@
                        != self.items@[b].0@ by {
                        if a != i && b != i {
                        } else if a == i {
                            assert(old_items[b].0@ != old_items[i as int].0@);
                        } else {
                            assert(old_items[a].0@ != old_items[i as int].0@);
                        }
                    }
                    lemma_kind_of_at(*self, i as int);
                    assert forall|x: Seq<char>| x != p implies self.spec_kind_of(x) == old(
                        self,
                    ).spec_kind_of(x) by {
                        if exists|k: int|
                            0 <= k < self.items@.len() && self.items@[k].0@ == x {
                            let k = choose|k: int|
                                0 <= k < self.items@.len() && self.items@[k].0@ == x;
                            assert(k != i);
                            assert(old_items[k].0@ == x);
                            lemma_kind_of_at(*self, k);
                            lemma_kind_of_at(*old(self), k);
                        } else if exists|k: int|
                            0 <= k < old_items.len() && old_items[k].0@ == x {
                            let k = choose|k: int|
                                0 <= k < old_items.len() && old_items[k].0@ == x;
                            assert(k != i);
                            assert(self.items@[k].0@ == x);
                        }
                    }
                }
                return true;
            }
            i += 1;
        }
        self.items.push((path, kind));
        proof {
            assert(self.items@ =~= old_items.push((path, kind)));
            let last = self.items@.len() - 1;
            assert(self.items@[last].0@ == p);
            assert forall|a: int, b: int|
                0 <= a < b < self.items@.len() implies self.items@[a].0@
                != self.items@[b].0@ by {
                if b == last {
                    assert(self.items@[a] == old_items[a]);
                    assert(old_items[a].0@ != p);
                } else {
                    assert(self.items@[a] == old_items[a]);
                    assert(self.items@[b] == old_items[b]);
                }
            }
            lemma_kind_of_at(*self, last);
            assert forall|x: Seq<char>| x != p implies self.spec_kind_of(x) == old(
                self,
            ).spec_kind_of(x) by {
                if exists|k: int| 0 <= k < self.items@.len() && self.items@[k].0@ == x {
                    let k = choose|k: int|
                        0 <= k < self.items@.len() && self.items@[k].0@ == x;
                    assert(k != last);
                    assert(old_items[k].0@ == x);
                    lemma_kind_of_at(*self, k);
                    lemma_kind_of_at(*old(self), k);
                } else if exists|k: int| 0 <= k < old_items.len() && old_items[k].0@ == x {
                    let k = choose|k: int| 0 <= k < old_items.len() && old_items[k].0@ == x;
                    assert(self.items@[k].0@ == x);
                }
            }
        }
        false
    }

    /// Take the whole batch, leaving it empty.
    pub fn drain(&mut self) -> (r: Vec<(String, String)>)
        requires
            old(self).wf(),
        ensures
            final(self).wf(),
            final(self).items@.len() == 0,
            r@ == old(self).items@,
    {
        let mut out: Vec<(String, String)> = Vec::new();
        core::mem::swap(&mut out, &mut self.items);
        out
    }
}

/// The recorded kind at a distinct index is what `spec_kind_of`
/// answers for that path.
proof fn lemma_kind_of_at(pc: PendingChanges, i: int)
    requires
        pc.wf(),
        0 <= i < pc.items@.len(),
    ensures
        pc.spec_kind_of(pc.items@[i].0@) == Some(pc.items@[i].1@),
{
    let p = pc.items@[i].0@;
    assert(exists|k: int| 0 <= k < pc.items@.len() && pc.items@[k].0@ == p) by {
        assert(pc.items@[i].0@ == p);
    }
    let k = choose|k: int| 0 <= k < pc.items@.len() && pc.items@[k].0@ == p;
    if k != i {
        assert(pc.items@[k].0@ != pc.items@[i].0@);
    }
}

/// Whether the settled batch should be flushed now: something is
/// pending and the debounce interval has passed since the last
/// event.
pub fn should_flush(now_ms: u64, last_event_ms: u64, pending_empty: bool) -> (r: bool)
    ensures
        r == (!pending_empty && now_ms >= last_event_ms as int + DEBOUNCE_MS),
{
    if pending_empty {
        false
    } else if now_ms < last_event_ms {
        false
    } else {
        now_ms - last_event_ms >= DEBOUNCE_MS
    }
}

} // verus!
