//! The storage-id-keyed set of link records, its construction from the
//! declared sources, link discovery and the completeness gate.
use vstd::prelude::*;

use crate::counter::{lemma_add_link_wf, CounterModel, SourceCounter, StorageId};

verus! {

/// What a stat reports a path to be.
#[derive(Clone, Copy, Debug, PartialEq, Eq, Structural)]
pub enum FileKind {
    File,
    Directory,
    Other,
}

/// The part of a stat that the relocation logic reads.
#[derive(Clone, Copy, Debug, PartialEq, Eq, Structural)]
pub struct SourceStat {
    pub storage: StorageId,
    pub link_count: u64,
    pub kind: FileKind,
}

/// A source path named by the caller, with its stat.
pub struct DeclaredSource {
    pub path: String,
    pub stat: SourceStat,
}

/// A path that the search pattern matched, with the storage object it refers to.
pub struct FoundPath {
    pub path: String,
    pub storage: StorageId,
}

/// Why a declared source cannot be relocated; the number is its position
/// among the declared sources.
#[derive(Clone, Copy, Debug, PartialEq, Eq, Structural)]
pub enum SourceError {
    Directory(usize),
    NotRegularFile(usize),
}

/// Why a batch cannot go on to relocation.
#[derive(Clone, Copy, Debug, PartialEq, Eq, Structural)]
pub enum PrepareError {
    Source(SourceError),
    IncompleteDiscovery,
}

/// The storage ids of a sequence of records.
pub open spec fn ids_of(s: Seq<CounterModel>) -> Seq<StorageId> {
    s.map_values(|c: CounterModel| c.storage)
}

/// Every record is consistent, and no two share a storage id.
pub open spec fn inventory_wf(s: Seq<CounterModel>) -> bool {
    &&& forall|i: int| 0 <= i < s.len() ==> (#[trigger] s[i]).wf()
    &&& ids_of(s).no_duplicates()
}

/// `s` after adding `c`: a record with the same storage id is replaced in
/// place, otherwise `c` is appended.
pub open spec fn insert_counter(s: Seq<CounterModel>, c: CounterModel) -> Seq<CounterModel> {
    if ids_of(s).contains(c.storage) {
        s.map_values(|e: CounterModel| if e.storage == c.storage { c } else { e })
    } else {
        s.push(c)
    }
}

/// `s` after the path `p` was found to refer to storage object `id`.
pub open spec fn record_match(s: Seq<CounterModel>, p: Seq<char>, id: StorageId) -> Seq<
    CounterModel,
> {
    s.map_values(|e: CounterModel| if e.storage == id { e.add_link(p) } else { e })
}

/// `s` after every match of `m`, in order.
pub open spec fn record_all(s: Seq<CounterModel>, m: Seq<FoundPath>) -> Seq<CounterModel>
    decreases m.len(),
{
    if m.len() == 0 {
        s
    } else {
        record_match(record_all(s, m.drop_last()), m.last().path@, m.last().storage)
    }
}

/// Every record has found all its other links.
pub open spec fn all_complete(s: Seq<CounterModel>) -> bool {
    forall|i: int| 0 <= i < s.len() ==> (#[trigger] s[i]).complete()
}

/// The record that a declared source starts with.
pub open spec fn counter_of(d: DeclaredSource) -> CounterModel {
    CounterModel {
        path: d.path@,
        storage: d.stat.storage,
        expected: if d.stat.link_count == 0 { 0 } else { (d.stat.link_count - 1) as nat },
        found: Seq::empty(),
    }
}

/// The records for the declared sources `ds`, or the error of the first one
/// that is not a regular file.
pub open spec fn build_spec(ds: Seq<DeclaredSource>) -> Result<Seq<CounterModel>, SourceError>
    decreases ds.len(),
{
    if ds.len() == 0 {
        Ok(Seq::empty())
    } else {
        match build_spec(ds.drop_last()) {
            Err(e) => Err(e),
            Ok(s) => match ds.last().stat.kind {
                FileKind::File => Ok(insert_counter(s, counter_of(ds.last()))),
                FileKind::Directory => Err(SourceError::Directory((ds.len() - 1) as usize)),
                FileKind::Other => Err(SourceError::NotRegularFile((ds.len() - 1) as usize)),
            },
        }
    }
}

/// The outcome of preparing a batch: the records after discovery, provided
/// every source is a regular file and every link was found.
pub open spec fn prepare_spec(ds: Seq<DeclaredSource>, m: Seq<FoundPath>) -> Result<
    Seq<CounterModel>,
    PrepareError,
> {
    match build_spec(ds) {
        Err(e) => Err(PrepareError::Source(e)),
        Ok(s) => if all_complete(record_all(s, m)) {
            Ok(record_all(s, m))
        } else {
            Err(PrepareError::IncompleteDiscovery)
        },
    }
}

pub proof fn lemma_record_match_wf(s: Seq<CounterModel>, p: Seq<char>, id: StorageId)
    requires
        inventory_wf(s),
    ensures
        inventory_wf(record_match(s, p, id)),
        ids_of(record_match(s, p, id)) == ids_of(s),
        record_match(s, p, id).len() == s.len(),
{
    let r = record_match(s, p, id);
    assert forall|i: int| 0 <= i < r.len() implies (#[trigger] r[i]).wf() by {
        lemma_add_link_wf(s[i], p);
    }
    assert forall|i: int| 0 <= i < r.len() implies (#[trigger] ids_of(r)[i]) == ids_of(s)[i] by {
        lemma_add_link_wf(s[i], p);
    }
    assert(ids_of(r) =~= ids_of(s));
}

pub proof fn lemma_record_all_wf(s: Seq<CounterModel>, m: Seq<FoundPath>)
    requires
        inventory_wf(s),
    ensures
        inventory_wf(record_all(s, m)),
        ids_of(record_all(s, m)) == ids_of(s),
        record_all(s, m).len() == s.len(),
    decreases m.len(),
{
    if m.len() > 0 {
        lemma_record_all_wf(s, m.drop_last());
        lemma_record_match_wf(record_all(s, m.drop_last()), m.last().path@, m.last().storage);
    }
}

/// The link records of a batch, at most one per storage object.
pub struct Inventory {
    counters: Vec<SourceCounter>,
}

impl View for Inventory {
    type V = Seq<CounterModel>;

    closed spec fn view(&self) -> Seq<CounterModel> {
        self.counters@.map_values(|c: SourceCounter| c@)
    }
}

impl Inventory {
    pub fn new() -> (r: Self)
        ensures
            r@ == Seq::<CounterModel>::empty(),
            inventory_wf(r@),
    {
        let r = Inventory { counters: Vec::new() };
        assert(r@ =~= Seq::<CounterModel>::empty());
        assert(ids_of(r@) =~= Seq::<StorageId>::empty());
        r
    }

    /// The number of records.
    pub fn len(&self) -> (r: usize)
        ensures
            r == self@.len(),
    {
        self.counters.len()
    }

    /// The position of the record for `storage`, if there is one.
    fn position(&self, storage: StorageId) -> (r: Option<usize>)
        ensures
            match r {
                Some(i) => i < self@.len() && self@[i as int].storage == storage,
                None => !ids_of(self@).contains(storage),
            },
    {
        let mut i: usize = 0;
        while i < self.counters.len()
            invariant
                i <= self@.len(),
                self@.len() == self.counters@.len(),
                forall|j: int| 0 <= j < i ==> self@[j].storage != storage,
            decreases self.counters@.len() - i,
        {
            if self.counters[i].storage() == storage {
                return Some(i);
            }
            i += 1;
        }
        assert(!ids_of(self@).contains(storage)) by {
            if ids_of(self@).contains(storage) {
                let k = choose|k: int| 0 <= k < ids_of(self@).len() && ids_of(self@)[k] == storage;
                assert(self@[k].storage == storage);
            }
        }
        None
    }

    /// Puts `c` in place of the record at `i`.
    fn replace_at(&mut self, i: usize, c: SourceCounter)
        requires
            i < old(self)@.len(),
        ensures
            final(self)@ == old(self)@.update(i as int, c@),
    {
        let ghost before = self.counters@;
        let _ = self.counters.remove(i);
        self.counters.insert(i, c);
        assert(self.counters@ =~= before.update(i as int, c));
        assert(self@ =~= old(self)@.update(i as int, c@));
    }

    /// Adds the record `c`; a record of the same storage object is replaced.
    pub fn insert(&mut self, c: SourceCounter)
        requires
            inventory_wf(old(self)@),
            c@.wf(),
        ensures
            final(self)@ == insert_counter(old(self)@, c@),
            inventory_wf(final(self)@),
    {
        let ghost s = self@;
        let ghost cm = c@;
        match self.position(c.storage()) {
            Some(i) => {
                self.replace_at(i, c);
                proof {
                    let t = s.map_values(|e: CounterModel| if e.storage == cm.storage { cm } else { e });
                    assert(ids_of(s)[i as int] == cm.storage);
                    assert forall|j: int| 0 <= j < s.len() && j != i implies s[j].storage != cm.storage by {
                        assert(ids_of(s)[j] != ids_of(s)[i as int]);
                    }
                    assert(self@ =~= t);
                    assert(ids_of(self@) =~= ids_of(s));
                }
            },
            None => {
                self.counters.push(c);
                proof {
                    assert(self@ =~= s.push(cm));
                    assert(ids_of(self@) =~= ids_of(s).push(cm.storage));
                }
            },
        }
    }

    /// Records that `path` refers to the storage object `storage`.
    pub fn record_match(&mut self, path: String, storage: StorageId)
        requires
            inventory_wf(old(self)@),
        ensures
            final(self)@ == record_match(old(self)@, path@, storage),
            inventory_wf(final(self)@),
    {
        let ghost s = self@;
        proof {
            lemma_record_match_wf(s, path@, storage);
        }
        match self.position(storage) {
            Some(i) => {
                let mut c = self.counters.remove(i);
                proof {
                    assert(c@ == s[i as int]);
                }
                c.add_path_other_link(path);
                self.counters.insert(i, c);
                proof {
                    assert forall|j: int| 0 <= j < s.len() && j != i implies s[j].storage != storage by {
                        assert(ids_of(s)[j] != ids_of(s)[i as int]);
                    }
                    assert(self@ =~= record_match(s, path@, storage));
                }
            },
            None => {
                proof {
                    assert forall|j: int| 0 <= j < s.len() implies s[j].storage != storage by {
                        assert(ids_of(s)[j] == s[j].storage);
                    }
                    assert(self@ =~= record_match(s, path@, storage));
                }
            },
        }
    }

    /// Whether every record has found all its other links.
    pub fn is_complete(&self) -> (r: bool)
        requires
            inventory_wf(self@),
        ensures
            r == all_complete(self@),
    {
        let mut i: usize = 0;
        while i < self.counters.len()
            invariant
                i <= self@.len(),
                self@.len() == self.counters@.len(),
                inventory_wf(self@),
                forall|j: int| 0 <= j < i ==> (#[trigger] self@[j]).complete(),
            decreases self.counters@.len() - i,
        {
            assert(self@[i as int].wf());
            if !self.counters[i].is_all_links_found() {
                return false;
            }
            i += 1;
        }
        true
    }

    /// Hands out the records, in order.
    pub fn into_counters(self) -> (r: Vec<SourceCounter>)
        ensures
            r@.map_values(|c: SourceCounter| c@) == self@,
    {
        self.counters
    }
}

/// Builds one record per declared source, or reports the first source that
/// is a directory or otherwise not a regular file. A later source of the same
/// storage object replaces the earlier record.
pub fn build_inventory(sources: &Vec<DeclaredSource>) -> (r: Result<Inventory, SourceError>)
    ensures
        match r {
            Ok(inv) => build_spec(sources@) == Ok::<Seq<CounterModel>, SourceError>(inv@)
                && inventory_wf(inv@),
            Err(e) => build_spec(sources@) == Err::<Seq<CounterModel>, SourceError>(e),
        },
{
    let mut inv = Inventory::new();
    let mut i: usize = 0;
    while i < sources.len()
        invariant
            i <= sources@.len(),
            build_spec(sources@.subrange(0, i as int)) == Ok::<Seq<CounterModel>, SourceError>(
                inv@,
            ),
            inventory_wf(inv@),
        decreases sources@.len() - i,
    {
        let d = &sources[i];
        assert(sources@.subrange(0, i + 1).drop_last() =~= sources@.subrange(0, i as int));
        assert(sources@.subrange(0, i + 1).last() == sources@[i as int]);
        match d.stat.kind {
            FileKind::File => {},
            FileKind::Directory => {
                proof {
                    lemma_build_error_stays(sources@, i as int + 1);
                }
                return Err(SourceError::Directory(i));
            },
            FileKind::Other => {
                proof {
                    lemma_build_error_stays(sources@, i as int + 1);
                }
                return Err(SourceError::NotRegularFile(i));
            },
        }
        let c = SourceCounter::new_by_stat(d.path.clone(), d.stat.storage, d.stat.link_count);
        inv.insert(c);
        i += 1;
    }
    assert(sources@.subrange(0, sources@.len() as int) =~= sources@);
    Ok(inv)
}

/// Once building a prefix of the sources fails, building the whole fails
/// with the same error.
proof fn lemma_build_error_stays(ds: Seq<DeclaredSource>, n: int)
    requires
        0 <= n <= ds.len(),
        build_spec(ds.subrange(0, n)) is Err,
    ensures
        build_spec(ds) == build_spec(ds.subrange(0, n)),
    decreases ds.len() - n,
{
    if n < ds.len() {
        assert(ds.subrange(0, n + 1).drop_last() =~= ds.subrange(0, n));
        lemma_build_error_stays(ds, n + 1);
    } else {
        assert(ds.subrange(0, n) =~= ds);
    }
}

/// Attributes each match to the record of its storage object, in order.
pub fn search_and_count(counters: Inventory, matches: &Vec<FoundPath>) -> (r: Inventory)
    requires
        inventory_wf(counters@),
    ensures
        r@ == record_all(counters@, matches@),
        inventory_wf(r@),
{
    let mut inv = counters;
    let mut i: usize = 0;
    while i < matches.len()
        invariant
            i <= matches@.len(),
            inv@ == record_all(counters@, matches@.subrange(0, i as int)),
            inventory_wf(inv@),
        decreases matches@.len() - i,
    {
        let m = &matches[i];
        assert(matches@.subrange(0, i + 1).drop_last() =~= matches@.subrange(0, i as int));
        inv.record_match(m.path.clone(), m.storage);
        i += 1;
    }
    assert(matches@.subrange(0, matches@.len() as int) =~= matches@);
    inv
}

/// Builds the records of the declared sources, attributes the matches, and
/// lets the batch through only if every source's links were all found.
pub fn prepare(sources: &Vec<DeclaredSource>, matches: &Vec<FoundPath>) -> (r: Result<
    Inventory,
    PrepareError,
>)
    ensures
        match r {
            Ok(inv) => prepare_spec(sources@, matches@) == Ok::<Seq<CounterModel>, PrepareError>(
                inv@,
            ) && inventory_wf(inv@),
            Err(e) => prepare_spec(sources@, matches@) == Err::<Seq<CounterModel>, PrepareError>(
                e,
            ),
        },
{
    match build_inventory(sources) {
        Err(e) => Err(PrepareError::Source(e)),
        Ok(inv) => {
            let found = search_and_count(inv, matches);
            if found.is_complete() {
                Ok(found)
            } else {
                Err(PrepareError::IncompleteDiscovery)
            }
        },
    }
}

} // verus!
