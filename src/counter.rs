//! The per-source record of expected and discovered hard links.
use vstd::prelude::*;

verus! {

/// Identity of a storage object: the device and the object's number on it.
#[derive(Clone, Copy, Debug, PartialEq, Eq, Structural)]
pub struct StorageId {
    pub device: u64,
    pub inode: u64,
}

/// Mathematical model of a [`SourceCounter`].
pub struct CounterModel {
    /// The source's own path.
    pub path: Seq<char>,
    /// The storage object that the source refers to.
    pub storage: StorageId,
    /// How many paths besides `path` refer to `storage`.
    pub expected: nat,
    /// The other paths found so far, each once.
    pub found: Seq<Seq<char>>,
}

impl CounterModel {
    /// Consistency of a record: no path found twice, and never the source's
    /// own path.
    pub open spec fn wf(self) -> bool {
        &&& self.found.no_duplicates()
        &&& !self.found.contains(self.path)
    }

    /// How many other links are still to be found; below zero when more
    /// paths of the storage object were found than it has other links.
    pub open spec fn remaining(self) -> int {
        self.expected - self.found.len()
    }

    /// Whether exactly the expected number of other links has been found.
    pub open spec fn complete(self) -> bool {
        self.found.len() == self.expected
    }

    /// The record after `p` was reported as a path of the same storage object:
    /// it is taken unless it is the source itself or already known.
    pub open spec fn add_link(self, p: Seq<char>) -> CounterModel {
        if p == self.path || self.found.contains(p) {
            self
        } else {
            CounterModel { found: self.found.push(p), ..self }
        }
    }
}

/// Adding a path keeps a record consistent and leaves its source, storage
/// object and expected count as they were.
pub proof fn lemma_add_link_wf(c: CounterModel, p: Seq<char>)
    requires
        c.wf(),
    ensures
        c.add_link(p).wf(),
        c.add_link(p).path == c.path,
        c.add_link(p).storage == c.storage,
        c.add_link(p).expected == c.expected,
{
    let d = c.add_link(p);
    if d != c {
        assert forall|i: int, j: int|
            0 <= i < d.found.len() && 0 <= j < d.found.len() && i != j implies d.found[i]
            != d.found[j] by {
            if i < c.found.len() && j < c.found.len() {
            } else if i == c.found.len() as int {
                assert(c.found.contains(c.found[j]));
            } else {
                assert(c.found.contains(c.found[i]));
            }
        }
        assert(!d.found.contains(d.path)) by {
            if d.found.contains(d.path) {
                let k = choose|k: int| 0 <= k < d.found.len() && d.found[k] == d.path;
                if k < c.found.len() {
                    assert(c.found.contains(c.path));
                }
            }
        }
    }
}

/// Hard-link bookkeeping for one declared source file.
pub struct SourceCounter {
    path: String,
    storage: StorageId,
    num_other_links: u64,
    paths_other_links: Vec<String>,
}

/// The views of a vector of strings.
pub open spec fn string_views(v: Seq<String>) -> Seq<Seq<char>> {
    v.map_values(|s: String| s@)
}

impl View for SourceCounter {
    type V = CounterModel;

    closed spec fn view(&self) -> CounterModel {
        CounterModel {
            path: self.path@,
            storage: self.storage,
            expected: self.num_other_links as nat,
            found: string_views(self.paths_other_links@),
        }
    }
}

impl SourceCounter {
    /// A record with nothing found yet.
    pub fn new(path: String, storage: StorageId, num_other_links: u64) -> (r: Self)
        ensures
            r@ == (CounterModel {
                path: path@,
                storage,
                expected: num_other_links as nat,
                found: Seq::empty(),
            }),
            r@.wf(),
    {
        let r = SourceCounter { path, storage, num_other_links, paths_other_links: Vec::new() };
        assert(r@.found =~= Seq::<Seq<char>>::empty());
        r
    }

    /// A record built from a stat of the source: the other links are all
    /// links but the source itself.
    pub fn new_by_stat(path: String, storage: StorageId, link_count: u64) -> (r: Self)
        ensures
            r@ == (CounterModel {
                path: path@,
                storage,
                expected: if link_count == 0 { 0 } else { (link_count - 1) as nat },
                found: Seq::empty(),
            }),
            r@.wf(),
    {
        let others: u64 = if link_count == 0 { 0 } else { link_count - 1 };
        SourceCounter::new(path, storage, others)
    }

    pub fn path(&self) -> (r: &String)
        ensures
            r@ == self@.path,
    {
        &self.path
    }

    pub fn storage(&self) -> (r: StorageId)
        ensures
            r == self@.storage,
    {
        self.storage
    }

    pub fn num_other_links(&self) -> (r: u64)
        ensures
            r == self@.expected,
    {
        self.num_other_links
    }

    /// The other links found so far.
    pub fn paths_other_links(&self) -> (r: &Vec<String>)
        ensures
            string_views(r@) == self@.found,
    {
        &self.paths_other_links
    }

    /// How many other links are still to be found.
    pub fn get_remaning_other_links(&self) -> (r: u64)
        requires
            self@.found.len() <= self@.expected,
        ensures
            r == self@.remaining(),
    {
        self.num_other_links - self.paths_other_links.len() as u64
    }

    /// Whether `path` is already among the other links found.
    fn is_known(&self, path: &String) -> (r: bool)
        ensures
            r == self@.found.contains(path@),
    {
        let mut i: usize = 0;
        while i < self.paths_other_links.len()
            invariant
                i <= self.paths_other_links@.len(),
                forall|j: int| 0 <= j < i ==> self@.found[j] != path@,
            decreases self.paths_other_links@.len() - i,
        {
            if self.paths_other_links[i] == *path {
                assert(self@.found[i as int] == path@);
                return true;
            }
            i += 1;
        }
        false
    }

    /// Records `path` as a further link of the source, unless it is the
    /// source itself or already recorded.
    pub fn add_path_other_link(&mut self, path: String)
        requires
            old(self)@.wf(),
        ensures
            final(self)@ == old(self)@.add_link(path@),
            final(self)@.wf(),
    {
        if self.path == path || self.is_known(&path) {
            return;
        }
        let ghost before = self@;
        let ghost p = path@;
        self.paths_other_links.push(path);
        proof {
            lemma_add_link_wf(before, p);
            assert(self@.found =~= before.found.push(p));
        }
    }

    /// Whether exactly the expected number of other links has been found:
    /// not when some are missing, nor when more paths turned up.
    pub fn is_all_links_found(&self) -> (r: bool)
        ensures
            r == self@.complete(),
    {
        self.paths_other_links.len() as u64 == self.num_other_links
    }
}

} // verus!
