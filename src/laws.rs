//! Properties of link discovery and of the completeness gate, over whole
//! batches and whole sequences of matches.
use vstd::prelude::*;

use crate::counter::{lemma_add_link_wf, CounterModel, StorageId};
use crate::inventory::{
    all_complete, build_spec, counter_of, ids_of, insert_counter, inventory_wf,
    lemma_record_all_wf, lemma_record_match_wf, prepare_spec, record_all, record_match,
    DeclaredSource, FoundPath, PrepareError,
};

verus! {

/// One record after every match of `m`, in order: only the matches of its
/// own storage object touch it.
pub open spec fn discover(c: CounterModel, m: Seq<FoundPath>) -> CounterModel
    decreases m.len(),
{
    if m.len() == 0 {
        c
    } else if m.last().storage == c.storage {
        discover(c, m.drop_last()).add_link(m.last().path@)
    } else {
        discover(c, m.drop_last())
    }
}

/// The distinct paths of `m` that refer to the storage object of `c`, other
/// than the source path of `c`.
pub open spec fn other_matches(c: CounterModel, m: Seq<FoundPath>) -> Set<Seq<char>>
    decreases m.len(),
{
    if m.len() == 0 {
        Set::empty()
    } else if m.last().storage == c.storage && m.last().path@ != c.path {
        other_matches(c, m.drop_last()).insert(m.last().path@)
    } else {
        other_matches(c, m.drop_last())
    }
}

proof fn lemma_discover_keeps(c: CounterModel, m: Seq<FoundPath>)
    requires
        c.wf(),
    ensures
        discover(c, m).wf(),
        discover(c, m).path == c.path,
        discover(c, m).storage == c.storage,
        discover(c, m).expected == c.expected,
    decreases m.len(),
{
    if m.len() > 0 {
        lemma_discover_keeps(c, m.drop_last());
        lemma_add_link_wf(discover(c, m.drop_last()), m.last().path@);
    }
}

proof fn lemma_record_all_entry(s: Seq<CounterModel>, m: Seq<FoundPath>, i: int)
    requires
        inventory_wf(s),
        0 <= i < s.len(),
    ensures
        record_all(s, m).len() == s.len(),
        record_all(s, m)[i] == discover(s[i], m),
    decreases m.len(),
{
    lemma_record_all_wf(s, m);
    if m.len() > 0 {
        lemma_record_all_entry(s, m.drop_last(), i);
        lemma_discover_keeps(s[i], m.drop_last());
    }
}

proof fn lemma_other_matches_finite(c: CounterModel, m: Seq<FoundPath>)
    ensures
        other_matches(c, m).finite(),
    decreases m.len(),
{
    if m.len() > 0 {
        lemma_other_matches_finite(c, m.drop_last());
    }
}

/// The matches of `m` that refer to storage object `id`, in order.
pub open spec fn matches_of(m: Seq<FoundPath>, id: StorageId) -> Seq<FoundPath> {
    m.filter(|f: FoundPath| f.storage == id)
}

proof fn lemma_discover_union(c: CounterModel, m: Seq<FoundPath>)
    requires
        c.wf(),
    ensures
        discover(c, m).found.to_set() == c.found.to_set().union(other_matches(c, m)),
    decreases m.len(),
{
    if m.len() == 0 {
        assert(c.found.to_set().union(Set::empty()) =~= c.found.to_set());
    } else {
        let m0 = m.drop_last();
        let d = discover(c, m0);
        let p = m.last().path@;
        lemma_discover_union(c, m0);
        lemma_discover_keeps(c, m0);
        if m.last().storage == c.storage && p != c.path {
            if d.found.contains(p) {
                assert(d.found.to_set().contains(p));
                assert(c.found.to_set().union(other_matches(c, m)) =~= d.found.to_set());
            } else {
                d.found.lemma_push_to_set_commute(p);
                assert(c.found.to_set().union(other_matches(c, m)) =~= d.found.to_set().insert(
                    p,
                ));
            }
        }
    }
}

proof fn lemma_discover_filter(c: CounterModel, m: Seq<FoundPath>)
    ensures
        discover(c, m) == discover(c, matches_of(m, c.storage)),
    decreases m.len(),
{
    reveal(Seq::filter);
    if m.len() > 0 {
        let f = matches_of(m, c.storage);
        let f0 = matches_of(m.drop_last(), c.storage);
        lemma_discover_filter(c, m.drop_last());
        if m.last().storage == c.storage {
            assert(f == f0.push(m.last()));
            assert(f.drop_last() =~= f0);
        } else {
            assert(f == f0);
        }
    }
}

/// The records built from the declared sources are consistent, have
/// distinct storage ids, and have found nothing yet.
proof fn lemma_build_fresh(ds: Seq<DeclaredSource>)
    requires
        build_spec(ds) is Ok,
    ensures
        inventory_wf(build_spec(ds)->Ok_0),
        forall|i: int|
            0 <= i < build_spec(ds)->Ok_0.len() ==> (#[trigger] build_spec(ds)->Ok_0[i]).found.len()
                == 0,
    decreases ds.len(),
{
    if ds.len() > 0 {
        let s = build_spec(ds.drop_last())->Ok_0;
        lemma_build_fresh(ds.drop_last());
        let c = counter_of(ds.last());
        assert(c.found.len() == 0);
        assert(c.wf());
        let t = insert_counter(s, c);
        if ids_of(s).contains(c.storage) {
            assert(ids_of(t) =~= ids_of(s));
        } else {
            assert(ids_of(t) =~= ids_of(s).push(c.storage));
        }
    }
}

/// Discovery adds to each record exactly the distinct matched paths of its
/// storage object other than its source path, each once, and keeps its
/// source, storage object and expected count.
pub proof fn lemma_discovery_adds_every_match(s: Seq<CounterModel>, m: Seq<FoundPath>, i: int)
    requires
        inventory_wf(s),
        0 <= i < s.len(),
    ensures
        record_all(s, m).len() == s.len(),
        record_all(s, m)[i].path == s[i].path,
        record_all(s, m)[i].storage == s[i].storage,
        record_all(s, m)[i].expected == s[i].expected,
        record_all(s, m)[i].found.no_duplicates(),
        record_all(s, m)[i].found.to_set() == s[i].found.to_set().union(other_matches(s[i], m)),
{
    lemma_record_all_entry(s, m, i);
    lemma_discover_keeps(s[i], m);
    lemma_discover_union(s[i], m);
}

/// A record that starts empty ends with exactly the distinct matched other
/// paths of its storage object, and is complete exactly when their number is
/// its number of other links.
pub proof fn lemma_fresh_discovery(s: Seq<CounterModel>, m: Seq<FoundPath>, i: int)
    requires
        inventory_wf(s),
        0 <= i < s.len(),
        s[i].found.len() == 0,
    ensures
        record_all(s, m)[i].found.to_set() == other_matches(s[i], m),
        record_all(s, m)[i].found.len() == other_matches(s[i], m).len(),
        record_all(s, m)[i].complete() <==> other_matches(s[i], m).len() == s[i].expected,
{
    lemma_discovery_adds_every_match(s, m, i);
    assert(s[i].found.to_set() =~= Set::<Seq<char>>::empty());
    assert(Set::<Seq<char>>::empty().union(other_matches(s[i], m)) =~= other_matches(s[i], m));
    record_all(s, m)[i].found.unique_seq_to_set();
}

/// A path reported twice in a row is recorded as once: recording a match is
/// idempotent; the record of its storage object then holds it exactly once,
/// unless it is the source path, and has grown by at most one path.
pub proof fn lemma_duplicate_match(s: Seq<CounterModel>, p: Seq<char>, id: StorageId)
    requires
        inventory_wf(s),
    ensures
        record_match(record_match(s, p, id), p, id) == record_match(s, p, id),
        forall|i: int|
            0 <= i < s.len() ==> {
                let r = #[trigger] record_match(s, p, id)[i];
                &&& r.found.no_duplicates()
                &&& r.found.len() <= s[i].found.len() + 1
                &&& (s[i].storage == id && p != s[i].path ==> r.found.contains(p))
            },
{
    let r = record_match(s, p, id);
    lemma_record_match_wf(s, p, id);
    assert forall|i: int| 0 <= i < s.len() implies (#[trigger] record_match(r, p, id)[i]) == r[i]
        && r[i].found.len() <= s[i].found.len() + 1
        && (s[i].storage == id && p != s[i].path ==> r[i].found.contains(p)) by {
        lemma_add_link_wf(s[i], p);
        if s[i].storage == id {
            let c = s[i];
            if !(p == c.path || c.found.contains(p)) {
                assert(c.add_link(p).found[c.found.len() as int] == p);
                assert(c.add_link(p).found.contains(p));
            }
        }
    }
    assert(record_match(r, p, id) =~= r);
    assert forall|i: int| 0 <= i < s.len() implies (#[trigger] record_match(s, p, id)[i]).found.no_duplicates() by {
        assert(r[i].wf());
    }
}

/// A match of a source's own path never counts: it leaves that source's
/// record, and so its remaining count, as it was, and after any matches no
/// record holds its own source path among the other links.
pub proof fn lemma_self_never_found(s: Seq<CounterModel>, m: Seq<FoundPath>, i: int)
    requires
        inventory_wf(s),
        0 <= i < s.len(),
    ensures
        record_match(s, s[i].path, s[i].storage)[i] == s[i],
        !record_all(s, m)[i].found.contains(s[i].path),
        !other_matches(s[i], m).contains(s[i].path),
{
    lemma_record_all_entry(s, m, i);
    lemma_discover_keeps(s[i], m);
    lemma_discover_union(s[i], m);
    if other_matches(s[i], m).contains(s[i].path) {
        assert(record_all(s, m)[i].found.to_set().contains(s[i].path));
    }
}

/// Sources of a batch are discovered independently: each record ends as it
/// would if it were the only one, whatever the other records are.
pub proof fn lemma_independent_sources(s: Seq<CounterModel>, m: Seq<FoundPath>, i: int)
    requires
        inventory_wf(s),
        0 <= i < s.len(),
    ensures
        record_all(s, m)[i] == record_all(seq![s[i]], m)[0],
{
    let one = seq![s[i]];
    assert(ids_of(one) =~= seq![s[i].storage]);
    assert(inventory_wf(one));
    lemma_record_all_entry(s, m, i);
    lemma_record_all_entry(one, m, 0);
}

/// A record depends only on the matches of its own storage object: two
/// match sequences that agree on those give it the same end state, whatever
/// matches of other storage objects were added or left out.
pub proof fn lemma_other_storage_matches_irrelevant(
    s: Seq<CounterModel>,
    m1: Seq<FoundPath>,
    m2: Seq<FoundPath>,
    i: int,
)
    requires
        inventory_wf(s),
        0 <= i < s.len(),
        matches_of(m1, s[i].storage) == matches_of(m2, s[i].storage),
    ensures
        record_all(s, m1)[i] == record_all(s, m2)[i],
{
    lemma_record_all_entry(s, m1, i);
    lemma_record_all_entry(s, m2, i);
    lemma_discover_filter(s[i], m1);
    lemma_discover_filter(s[i], m2);
}

/// A batch with a source whose distinct matched other paths are not exactly
/// as many as its other links, fewer or more, is stopped before any
/// relocation.
pub proof fn lemma_incomplete_discovery_fails(ds: Seq<DeclaredSource>, m: Seq<FoundPath>, i: int)
    requires
        build_spec(ds) is Ok,
        0 <= i < build_spec(ds)->Ok_0.len(),
        other_matches(build_spec(ds)->Ok_0[i], m).len() != build_spec(ds)->Ok_0[i].expected,
    ensures
        prepare_spec(ds, m) == Err::<Seq<CounterModel>, PrepareError>(
            PrepareError::IncompleteDiscovery,
        ),
{
    let s = build_spec(ds)->Ok_0;
    lemma_build_fresh(ds);
    assert(s[i].found.len() == 0);
    lemma_record_all_wf(s, m);
    lemma_fresh_discovery(s, m, i);
    assert(!record_all(s, m)[i].complete());
    assert(!all_complete(record_all(s, m)));
}

/// When the matches hold every other link of every source, the batch is
/// complete, and each record lists its source path and all other matched
/// paths of its storage object, each once: the paths that its relocation
/// replaces by symbolic links.
pub proof fn lemma_full_coverage(ds: Seq<DeclaredSource>, m: Seq<FoundPath>)
    requires
        build_spec(ds) is Ok,
        forall|i: int|
            0 <= i < build_spec(ds)->Ok_0.len() ==> (#[trigger] other_matches(
                build_spec(ds)->Ok_0[i],
                m,
            )).len() == build_spec(ds)->Ok_0[i].expected,
    ensures
        prepare_spec(ds, m) is Ok,
        forall|i: int|
            0 <= i < build_spec(ds)->Ok_0.len() ==> {
                let c = build_spec(ds)->Ok_0[i];
                let f = #[trigger] (prepare_spec(ds, m)->Ok_0[i]);
                &&& f.complete()
                &&& f.path == c.path
                &&& (seq![c.path] + f.found).no_duplicates()
                &&& (seq![c.path] + f.found).to_set() == other_matches(c, m).insert(c.path)
            },
{
    let s = build_spec(ds)->Ok_0;
    lemma_build_fresh(ds);
    let r = record_all(s, m);
    lemma_record_all_wf(s, m);
    assert forall|i: int| 0 <= i < s.len() implies {
        &&& (#[trigger] r[i]).complete()
        &&& r[i].path == s[i].path
        &&& (seq![s[i].path] + r[i].found).no_duplicates()
        &&& (seq![s[i].path] + r[i].found).to_set() == other_matches(s[i], m).insert(s[i].path)
    } by {
        let c = s[i];
        assert(other_matches(c, m).len() == c.expected);
        lemma_fresh_discovery(s, m, i);
        lemma_discovery_adds_every_match(s, m, i);
        let d = r[i];
        assert(!d.found.contains(c.path)) by {
            lemma_self_never_found(s, m, i);
        }
        let all = seq![c.path] + d.found;
        assert forall|a: int, b: int| 0 <= a < all.len() && 0 <= b < all.len() && a != b implies all[a]
            != all[b] by {
            if a == 0 {
                assert(d.found.contains(all[b]));
            } else if b == 0 {
                assert(d.found.contains(all[a]));
            }
        }
        assert forall|p: Seq<char>| all.to_set().contains(p) <==> d.found.to_set().insert(c.path).contains(p) by {
            if all.to_set().contains(p) {
                let k = choose|k: int| 0 <= k < all.len() && all[k] == p;
                if k > 0 {
                    assert(d.found[k - 1] == p);
                }
            }
            if d.found.to_set().contains(p) && p != c.path {
                let k = choose|k: int| 0 <= k < d.found.len() && d.found[k] == p;
                assert(all[k + 1] == p);
            }
            if p == c.path {
                assert(all[0] == p);
            }
        }
        assert(all.to_set() =~= d.found.to_set().insert(c.path));
    }
    assert(all_complete(r));
}

} // verus!
