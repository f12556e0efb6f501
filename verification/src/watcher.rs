//! Watching context files for growth: the watcher remembers how far it has read each file and
//! reports only what was appended since.

use vstd::prelude::*;
use crate::text::{ends_with, str_ends_with, trim_chars, chars_of, trim_ws};

verus! {

broadcast use vstd::string::group_string_axioms;

/// New text appended to a context file.
#[derive(Debug, Clone)]
pub struct CtxChange {
    pub layer: usize,
    pub path: String,
    pub delta: String,
    pub total_size: u64,
}

/// Watches context files for growth and scans session directories for new ones.
pub struct CtxWatcher {
    targets: Vec<(usize, String)>,
    scan_dirs: Vec<(usize, String)>,
    sizes: Vec<(String, u64)>,
    poll_interval_ms: u64,
}

/// Size of new files below which the watcher reads them from the start.
pub const SMALL_FILE_BYTES: u64 = 8192;

impl CtxWatcher {
    /// The watched files, as (layer, path), in the order they were added.
    pub closed spec fn targets(&self) -> Seq<(usize, Seq<char>)> {
        self.targets@.map_values(|t: (usize, String)| (t.0, t.1@))
    }

    /// The scanned directories, as (layer, path).
    pub closed spec fn scan_dirs(&self) -> Seq<(usize, Seq<char>)> {
        self.scan_dirs@.map_values(|t: (usize, String)| (t.0, t.1@))
    }

    /// How many bytes of `path` have been read, if it is known.
    pub closed spec fn size_of(&self, path: Seq<char>) -> Option<u64> {
        if exists|i: int| 0 <= i < self.sizes@.len() && self.sizes@[i].0@ == path {
            Some(self.sizes@[choose|i: int| 0 <= i < self.sizes@.len() && self.sizes@[i].0@ == path].1)
        } else {
            None
        }
    }

    /// The unread bytes of a file now `current` bytes long: from where reading stopped (0 for
    /// an unknown file) to `current`, when it grew past that point.
    pub open spec fn pending(&self, path: Seq<char>, current: u64) -> Option<(u64, u64)> {
        let last = match self.size_of(path) {
            Some(s) => s,
            None => 0u64,
        };
        if current <= last {
            None
        } else {
            Some((last, current))
        }
    }

    /// The poll interval in milliseconds.
    pub closed spec fn interval(&self) -> u64 {
        self.poll_interval_ms
    }

    /// Each path has one recorded size.
    pub closed spec fn wf(&self) -> bool {
        forall|i: int, j: int|
            0 <= i < j < self.sizes@.len() ==> self.sizes@[i].0@ != self.sizes@[j].0@
    }

    /// A watcher of nothing yet.
    pub fn new(poll_interval_ms: u64) -> (w: Self)
        ensures
            w.wf(),
            w.targets().len() == 0,
            w.scan_dirs().len() == 0,
            forall|p: Seq<char>| w.size_of(p) is None,
            w.interval() == poll_interval_ms,
    {
        CtxWatcher {
            targets: Vec::new(),
            scan_dirs: Vec::new(),
            sizes: Vec::new(),
            poll_interval_ms,
        }
    }

    /// The index of `path` among the recorded sizes.
    fn find(&self, path: &String) -> (i: Option<usize>)
        requires
            self.wf(),
        ensures
            i matches Some(k) ==> k < self.sizes@.len() && self.sizes@[k as int].0@ == path@,
            i is None ==> forall|k: int| 0 <= k < self.sizes@.len() ==> self.sizes@[k].0@ != path@,
    {
        let mut k: usize = 0;
        while k < self.sizes.len()
            invariant
                k <= self.sizes@.len(),
                forall|j: int| 0 <= j < k ==> self.sizes@[j].0@ != path@,
            decreases self.sizes@.len() - k,
        {
            if self.sizes[k].0 == *path {
                return Some(k);
            }
            k = k + 1;
        }
        None
    }

    /// Records that `path` has been read up to `size` bytes.
    fn set_size(&mut self, path: String, size: u64)
        requires
            old(self).wf(),
        ensures
            final(self).wf(),
            final(self).size_of(path@) == Some(size),
            forall|p: Seq<char>| p != path@ ==> final(self).size_of(p) == old(self).size_of(p),
            final(self).targets() == old(self).targets(),
            final(self).scan_dirs() == old(self).scan_dirs(),
            final(self).interval() == old(self).interval(),
    {
        let ghost p0 = path@;
        match self.find(&path) {
            Some(k) => {
                self.sizes.set(k, (path, size));
                proof {
                    assert(self.sizes@[k as int].0@ == p0);
                    assert forall|p: Seq<char>| p != p0 implies self.size_of(p) == old(self).size_of(p) by {
                        if exists|i: int| 0 <= i < self.sizes@.len() && self.sizes@[i].0@ == p {
                            let i = choose|i: int| 0 <= i < self.sizes@.len() && self.sizes@[i].0@ == p;
                            assert(old(self).sizes@[i].0@ == p);
                        }
                        if exists|i: int| 0 <= i < old(self).sizes@.len() && old(self).sizes@[i].0@ == p {
                            let i = choose|i: int| 0 <= i < old(self).sizes@.len() && old(self).sizes@[i].0@ == p;
                            assert(self.sizes@[i].0@ == p);
                        }
                    }
                }
            },
            None => {
                self.sizes.push((path, size));
                proof {
                    let n = self.sizes@.len() - 1;
                    assert(self.sizes@[n].0@ == p0);
                    assert forall|p: Seq<char>| p != p0 implies self.size_of(p) == old(self).size_of(p) by {
                        if exists|i: int| 0 <= i < self.sizes@.len() && self.sizes@[i].0@ == p {
                            let i = choose|i: int| 0 <= i < self.sizes@.len() && self.sizes@[i].0@ == p;
                            assert(old(self).sizes@[i].0@ == p);
                        }
                        if exists|i: int| 0 <= i < old(self).sizes@.len() && old(self).sizes@[i].0@ == p {
                            let i = choose|i: int| 0 <= i < old(self).sizes@.len() && old(self).sizes@[i].0@ == p;
                            assert(self.sizes@[i].0@ == p);
                        }
                    }
                }
            },
        }
        assert(self.targets@ == old(self).targets@);
    }

    /// Watches `path` for layer `layer`, starting at its current size (existing content is not
    /// reported).
    pub fn watch(&mut self, layer: usize, path: String, current_size: u64)
        requires
            old(self).wf(),
        ensures
            final(self).wf(),
            final(self).targets() == old(self).targets().push((layer, path@)),
            final(self).size_of(path@) == Some(current_size),
            forall|p: Seq<char>| p != path@ ==> final(self).size_of(p) == old(self).size_of(p),
            final(self).scan_dirs() == old(self).scan_dirs(),
    {
        let ghost p0 = path@;
        let copy = path.clone();
        self.set_size(copy, current_size);
        let ghost before = self.targets@;
        let ghost mid = *self;
        self.targets.push((layer, path));
        assert(self.sizes@ == mid.sizes@);
        assert(forall|p: Seq<char>| self.size_of(p) == mid.size_of(p));
        assert(self.targets() =~= old(self).targets().push((layer, p0))) by {
            assert(self.targets@ == before.push((layer, path)));
        }
    }

    /// Scans directory `dir` for new context files of layer `layer`.
    pub fn watch_dir(&mut self, layer: usize, dir: String)
        ensures
            final(self).scan_dirs() == old(self).scan_dirs().push((layer, dir@)),
            final(self).targets() == old(self).targets(),
            forall|p: Seq<char>| final(self).size_of(p) == old(self).size_of(p),
            old(self).wf() ==> final(self).wf(),
    {
        let ghost d0 = dir@;
        let ghost before = self.scan_dirs@;
        self.scan_dirs.push((layer, dir));
        assert(self.sizes@ == old(self).sizes@);
        assert(forall|p: Seq<char>| self.size_of(p) == old(self).size_of(p));
        assert(self.scan_dirs() =~= old(self).scan_dirs().push((layer, d0)));
    }

    /// A file found in a scanned directory: a `.ctx` file not yet known is watched from its
    /// start when it is small (under 8 KiB, so its first content is reported), from its current
    /// size otherwise. Returns whether it was added.
    pub fn discover(&mut self, layer: usize, path: String, current_size: u64) -> (added: bool)
        requires
            old(self).wf(),
        ensures
            final(self).wf(),
            added == (ends_with(path@, ".ctx"@) && old(self).size_of(path@) is None),
            added ==> final(self).targets() == old(self).targets().push((layer, path@))
                && final(self).size_of(path@) == Some(
                if current_size < SMALL_FILE_BYTES {
                    0u64
                } else {
                    current_size
                },
            ),
            !added ==> final(self).targets() == old(self).targets() && final(self).size_of(path@)
                == old(self).size_of(path@),
            forall|p: Seq<char>| p != path@ ==> final(self).size_of(p) == old(self).size_of(p),
    {
        let is_ctx = str_ends_with(path.as_str(), ".ctx");
        let known = self.find(&path).is_some();
        proof {
            if old(self).size_of(path@) is None {
            } else {
                let i = choose|i: int| 0 <= i < self.sizes@.len() && self.sizes@[i].0@ == path@;
            }
        }
        if !is_ctx || known {
            return false;
        }
        let start = if current_size < SMALL_FILE_BYTES {
            0
        } else {
            current_size
        };
        self.watch(layer, path, start);
        true
    }

    /// How a watched file changed: `Some((from, to))` when it grew past what was read (unknown
    /// files count as read to 0), `None` otherwise.
    pub fn growth(&self, path: &String, current_size: u64) -> (g: Option<(u64, u64)>)
        requires
            self.wf(),
        ensures
            g == self.pending(path@, current_size),
    {
        let last = match self.find(path) {
            Some(k) => self.sizes[k].1,
            None => 0,
        };
        proof {
            if self.size_of(path@) is Some {
                let i = choose|i: int| 0 <= i < self.sizes@.len() && self.sizes@[i].0@ == path@;
            }
        }
        if current_size <= last {
            None
        } else {
            Some((last, current_size))
        }
    }

    /// Takes in the text appended to a watched file (now `total_size` bytes): blank text is
    /// skipped silently; otherwise a change is reported. Either way the file counts as read up
    /// to `total_size`.
    pub fn record_delta(&mut self, layer: usize, path: String, delta: String, total_size: u64) -> (c:
        Option<CtxChange>)
        requires
            old(self).wf(),
        ensures
            final(self).wf(),
            final(self).size_of(path@) == Some(total_size),
            forall|p: Seq<char>| p != path@ ==> final(self).size_of(p) == old(self).size_of(p),
            final(self).targets() == old(self).targets(),
            trim_ws(delta@).len() == 0 ==> c is None,
            trim_ws(delta@).len() > 0 ==> (c matches Some(ch) && ch.layer == layer && ch.path@
                == path@ && ch.delta@ == delta@ && ch.total_size == total_size),
    {
        let trimmed = trim_chars(chars_of(delta.as_str()).as_slice());
        let key = path.clone();
        self.set_size(key, total_size);
        if trimmed.len() == 0 {
            None
        } else {
            Some(CtxChange { layer, path, delta, total_size })
        }
    }
}

/// Only new bytes are passed on: once a file is recorded as read up to `read` bytes, nothing is
/// pending at that size or below, and a larger size leaves exactly the bytes after `read`.
pub proof fn lemma_only_new_bytes(w: CtxWatcher, path: Seq<char>, read: u64, current: u64)
    requires
        w.size_of(path) == Some(read),
    ensures
        current <= read ==> w.pending(path, current) is None,
        current > read ==> w.pending(path, current) == Some((read, current)),
{
}

/// Whether the poll round `counter` also scans for new files (every fourth round).
pub fn is_scan_round(counter: u32) -> (b: bool)
    ensures
        b == (counter % 4 == 0),
{
    counter % 4 == 0
}

} // verus!
