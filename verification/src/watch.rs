//! The table of watched paths. Each path has at most one listener; the
//! listeners themselves live with the caller, who starts and releases them,
//! and are known here by a number.

use crate::text::str_equal;
use vstd::prelude::*;

verus! {

/// The seconds for which changes of a watched path must have calmed down
/// before they are reported as one.
pub const DEBOUNCE_SECONDS: u64 = 2;

/// The watched paths, each with the number of its listener.
pub struct WatchRegistry {
    paths: Vec<String>,
    listeners: Vec<u64>,
}

impl View for WatchRegistry {
    type V = Map<Seq<char>, u64>;

    /// The table as a map from path to listener.
    closed spec fn view(&self) -> Map<Seq<char>, u64> {
        Map::new(
            |path: Seq<char>| exists|i: int| self.holds_at(path, i),
            |path: Seq<char>| self.listeners[self.index_of(path)],
        )
    }
}

impl WatchRegistry {
    /// The invariant of the type: every path has one listener and no path
    /// stands twice.
    pub closed spec fn wf(&self) -> bool {
        &&& self.paths.len() == self.listeners.len()
        &&& forall|i: int, j: int|
            0 <= i < j < self.paths.len() ==> (#[trigger] self.paths[i])@ != (
            #[trigger] self.paths[j])@
    }

    spec fn holds_at(&self, path: Seq<char>, i: int) -> bool {
        0 <= i < self.paths.len() && self.paths[i]@ == path
    }

    spec fn index_of(&self, path: Seq<char>) -> int {
        choose|i: int| self.holds_at(path, i)
    }

    /// An empty table.
    pub fn new() -> (r: WatchRegistry)
        ensures
            r.wf(),
            r@ == Map::<Seq<char>, u64>::empty(),
    {
        WatchRegistry { paths: Vec::new(), listeners: Vec::new() }
    }

    fn find(&self, path: &str) -> (r: Option<usize>)
        requires
            self.wf(),
        ensures
            match r {
                Some(i) => self.holds_at(path@, i as int),
                None => forall|i: int| !self.holds_at(path@, i),
            },
    {
        let mut i: usize = 0;
        while i < self.paths.len()
            invariant
                i <= self.paths.len(),
                forall|k: int| 0 <= k < i ==> (#[trigger] self.paths[k])@ != path@,
            decreases self.paths.len() - i,
        {
            if str_equal(self.paths[i].as_str(), path) {
                return Some(i);
            }
            i += 1;
        }
        None
    }

    /// The listener of `path`, if it is watched.
    pub fn listener_of(&self, path: &str) -> (r: Option<u64>)
        requires
            self.wf(),
        ensures
            r == if self@.contains_key(path@) {
                Some(self@[path@])
            } else {
                None
            },
    {
        match self.find(path) {
            Some(i) => Some(self.listeners[i]),
            None => {
                proof {
                    if self@.contains_key(path@) {
                        assert(self.holds_at(path@, self.index_of(path@)));
                    }
                }
                None
            },
        }
    }

    /// Makes `listener` the listener of `path`. Where the path was watched
    /// already its earlier listener is replaced and handed back, so that the
    /// caller can release it.
    pub fn register(&mut self, path: &str, listener: u64) -> (replaced: Option<u64>)
        requires
            old(self).wf(),
        ensures
            final(self).wf(),
            final(self)@ == old(self)@.insert(path@, listener),
            replaced == if old(self)@.contains_key(path@) {
                Some(old(self)@[path@])
            } else {
                None
            },
    {
        match self.find(path) {
            Some(i) => {
                let earlier = self.listeners[i];
                self.listeners.set(i, listener);
                proof {
                    let before = *old(self);
                    let after = *self;
                    assert forall|p: Seq<char>| #[trigger]
                        after@.contains_key(p) == before@.insert(path@, listener).contains_key(
                            p,
                        ) by {
                        if after@.contains_key(p) {
                            let k = choose|k: int| after.holds_at(p, k);
                            assert(before.holds_at(p, k));
                        }
                        if before@.contains_key(p) {
                            let k = choose|k: int| before.holds_at(p, k);
                            assert(after.holds_at(p, k));
                        }
                        if p == path@ {
                            assert(after.holds_at(p, i as int));
                        }
                    }
                }
                Some(earlier)
            },
            None => {
                self.paths.push(path.to_owned());
                self.listeners.push(listener);
                proof {
                    let before = *old(self);
                    let after = *self;
                    let n = before.paths.len() as int;
                    assert(after.holds_at(path@, n));
                    assert forall|a: int, b: int| 0 <= a < b < after.paths.len() implies (
                    #[trigger] after.paths[a])@ != (#[trigger] after.paths[b])@ by {
                        if b == n {
                            assert(!before.holds_at(path@, a));
                        }
                    }
                    if before@.contains_key(path@) {
                        assert(before.holds_at(path@, before.index_of(path@)));
                    }
                    assert forall|p: Seq<char>| #[trigger]
                        after@.contains_key(p) == before@.insert(path@, listener).contains_key(
                            p,
                        ) by {
                        if after@.contains_key(p) {
                            let k = choose|k: int| after.holds_at(p, k);
                            if k < n {
                                assert(before.holds_at(p, k));
                            }
                        }
                        if before@.contains_key(p) {
                            let k = choose|k: int| before.holds_at(p, k);
                            assert(after.holds_at(p, k));
                        }
                    }
                }
                None
            },
        }
    }

    /// Stops watching `path` and hands its listener back, so that the caller
    /// can release it; nothing changes where the path is not watched.
    pub fn unregister(&mut self, path: &str) -> (released: Option<u64>)
        requires
            old(self).wf(),
        ensures
            final(self).wf(),
            final(self)@ == old(self)@.remove(path@),
            released == if old(self)@.contains_key(path@) {
                Some(old(self)@[path@])
            } else {
                None
            },
    {
        match self.find(path) {
            Some(i) => {
                self.paths.remove(i);
                let earlier = self.listeners.remove(i);
                proof {
                    let before = *old(self);
                    let after = *self;
                    assert forall|p: Seq<char>| #[trigger]
                        after@.contains_key(p) == before@.remove(path@).contains_key(p) by {
                        if after@.contains_key(p) {
                            let k = choose|k: int| after.holds_at(p, k);
                            let k0 = if k < i { k } else { k + 1 };
                            assert(before.holds_at(p, k0));
                        }
                        if before@.contains_key(p) && p != path@ {
                            let k = choose|k: int| before.holds_at(p, k);
                            let k1 = if k < i { k } else { k - 1 };
                            assert(after.holds_at(p, k1));
                        }
                    }
                }
                Some(earlier)
            },
            None => {
                proof {
                    if self@.contains_key(path@) {
                        assert(self.holds_at(path@, self.index_of(path@)));
                    }
                }
                None
            },
        }
    }
}

} // verus!
