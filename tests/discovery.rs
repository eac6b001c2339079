use hardmove::counter::{SourceCounter, StorageId};
use hardmove::inventory::{
    build_inventory, prepare, search_and_count, DeclaredSource, FileKind, FoundPath, Inventory,
    PrepareError, SourceError, SourceStat,
};

fn id(inode: u64) -> StorageId {
    StorageId { device: 1, inode }
}

fn file(path: &str, inode: u64, link_count: u64) -> DeclaredSource {
    DeclaredSource {
        path: path.to_string(),
        stat: SourceStat { storage: id(inode), link_count, kind: FileKind::File },
    }
}

fn found(path: &str, inode: u64) -> FoundPath {
    FoundPath { path: path.to_string(), storage: id(inode) }
}

fn found_paths(c: &SourceCounter) -> Vec<String> {
    c.paths_other_links().clone()
}

#[test]
fn counter_starts_empty() {
    let c = SourceCounter::new("a.txt".to_string(), id(7), 2);
    assert_eq!(c.path(), "a.txt");
    assert_eq!(c.storage(), id(7));
    assert_eq!(c.num_other_links(), 2);
    assert_eq!(c.get_remaning_other_links(), 2);
    assert!(!c.is_all_links_found());
    assert!(c.paths_other_links().is_empty());
}

#[test]
fn counter_by_stat_excludes_the_source_itself() {
    let c = SourceCounter::new_by_stat("a.txt".to_string(), id(7), 3);
    assert_eq!(c.num_other_links(), 2);
    let single = SourceCounter::new_by_stat("b.txt".to_string(), id(8), 1);
    assert_eq!(single.num_other_links(), 0);
    assert!(single.is_all_links_found());
    let none = SourceCounter::new_by_stat("c.txt".to_string(), id(9), 0);
    assert_eq!(none.num_other_links(), 0);
}

#[test]
fn counter_adds_each_path_once() {
    let mut c = SourceCounter::new("a.txt".to_string(), id(7), 2);
    c.add_path_other_link("b.txt".to_string());
    c.add_path_other_link("b.txt".to_string());
    assert_eq!(found_paths(&c), vec!["b.txt".to_string()]);
    assert_eq!(c.get_remaning_other_links(), 1);
    c.add_path_other_link("c.txt".to_string());
    assert_eq!(c.get_remaning_other_links(), 0);
    assert!(c.is_all_links_found());
}

#[test]
fn counter_ignores_its_own_path() {
    let mut c = SourceCounter::new("a.txt".to_string(), id(7), 1);
    c.add_path_other_link("a.txt".to_string());
    assert!(c.paths_other_links().is_empty());
    assert_eq!(c.get_remaning_other_links(), 1);
}

#[test]
fn counter_keeps_paths_beyond_expected() {
    let mut c = SourceCounter::new("a.txt".to_string(), id(7), 1);
    c.add_path_other_link("b.txt".to_string());
    c.add_path_other_link("c.txt".to_string());
    assert_eq!(found_paths(&c), vec!["b.txt".to_string(), "c.txt".to_string()]);
    assert!(!c.is_all_links_found());
}

#[test]
fn counter_result_ignores_insertion_order() {
    let mut first = SourceCounter::new("a.txt".to_string(), id(7), 1);
    first.add_path_other_link("b.txt".to_string());
    first.add_path_other_link("c.txt".to_string());
    let mut second = SourceCounter::new("a.txt".to_string(), id(7), 1);
    second.add_path_other_link("c.txt".to_string());
    second.add_path_other_link("b.txt".to_string());
    let mut a = found_paths(&first);
    let mut b = found_paths(&second);
    a.sort();
    b.sort();
    assert_eq!(a, b);
    assert_eq!(first.is_all_links_found(), second.is_all_links_found());
}

#[test]
fn counter_with_no_other_links_still_records_a_match() {
    let mut c = SourceCounter::new("a.txt".to_string(), id(7), 0);
    c.add_path_other_link("b.txt".to_string());
    assert_eq!(found_paths(&c), vec!["b.txt".to_string()]);
    assert!(!c.is_all_links_found());
}

#[test]
fn surplus_match_fails_closed() {
    let sources = vec![file("./a.txt", 5, 3)];
    let matches = vec![found("a.txt", 5), found("b.txt", 5), found("c.txt", 5)];
    assert!(matches!(prepare(&sources, &matches), Err(PrepareError::IncompleteDiscovery)));
}

#[test]
fn repeated_match_after_others_is_kept_once() {
    let mut inv = Inventory::new();
    inv.insert(SourceCounter::new("a.txt".to_string(), id(5), 1));
    let matches = vec![found("c.txt", 5), found("b.txt", 5), found("b.txt", 5)];
    let counters = search_and_count(inv, &matches).into_counters();
    assert_eq!(found_paths(&counters[0]), vec!["c.txt".to_string(), "b.txt".to_string()]);
    assert!(!counters[0].is_all_links_found());
}

#[test]
fn build_rejects_a_directory() {
    let mut dir = file("d", 3, 2);
    dir.stat.kind = FileKind::Directory;
    let sources = vec![file("a.txt", 1, 1), dir];
    assert!(matches!(build_inventory(&sources), Err(SourceError::Directory(1))));
}

#[test]
fn build_rejects_a_non_regular_file() {
    let mut other = file("fifo", 3, 1);
    other.stat.kind = FileKind::Other;
    let mut dir = file("d", 4, 2);
    dir.stat.kind = FileKind::Directory;
    let sources = vec![other, dir];
    assert!(matches!(build_inventory(&sources), Err(SourceError::NotRegularFile(0))));
}

#[test]
fn build_keeps_the_later_source_of_one_storage_object() {
    let sources = vec![file("a.txt", 1, 2), file("x.txt", 2, 1), file("b.txt", 1, 2)];
    let inv = match build_inventory(&sources) {
        Ok(inv) => inv,
        Err(_) => panic!("all sources are files"),
    };
    assert_eq!(inv.len(), 2);
    let counters = inv.into_counters();
    assert_eq!(counters[0].path(), "b.txt");
    assert_eq!(counters[1].path(), "x.txt");
}

#[test]
fn full_coverage_completes_discovery() {
    let sources = vec![file("a.txt", 5, 3)];
    let matches = vec![found("a.txt", 5), found("b.txt", 5), found("c.txt", 5)];
    let inv = match prepare(&sources, &matches) {
        Ok(inv) => inv,
        Err(_) => panic!("every link was matched"),
    };
    let counters = inv.into_counters();
    assert_eq!(counters.len(), 1);
    assert_eq!(found_paths(&counters[0]), vec!["b.txt".to_string(), "c.txt".to_string()]);
    assert!(counters[0].is_all_links_found());
}

#[test]
fn missing_link_fails_closed() {
    let sources = vec![file("a.txt", 5, 3)];
    let matches = vec![found("a.txt", 5), found("b.txt", 5)];
    assert!(matches!(prepare(&sources, &matches), Err(PrepareError::IncompleteDiscovery)));
}

#[test]
fn source_error_comes_before_discovery() {
    let mut dir = file("d", 5, 2);
    dir.stat.kind = FileKind::Directory;
    let sources = vec![dir];
    let matches = vec![];
    assert!(matches!(
        prepare(&sources, &matches),
        Err(PrepareError::Source(SourceError::Directory(0)))
    ));
}

#[test]
fn repeated_match_is_recorded_once() {
    let mut inv = Inventory::new();
    inv.insert(SourceCounter::new("a.txt".to_string(), id(5), 2));
    let matches = vec![found("b.txt", 5), found("b.txt", 5), found("b.txt", 5)];
    let inv = search_and_count(inv, &matches);
    let counters = inv.into_counters();
    assert_eq!(found_paths(&counters[0]), vec!["b.txt".to_string()]);
    assert_eq!(counters[0].get_remaning_other_links(), 1);
}

#[test]
fn own_path_never_counts() {
    let sources = vec![file("a.txt", 5, 2)];
    let matches = vec![found("a.txt", 5), found("a.txt", 5)];
    assert!(matches!(prepare(&sources, &matches), Err(PrepareError::IncompleteDiscovery)));
    let mut inv = Inventory::new();
    inv.insert(SourceCounter::new("a.txt".to_string(), id(5), 1));
    let counters = search_and_count(inv, &matches).into_counters();
    assert!(counters[0].paths_other_links().is_empty());
}

#[test]
fn matches_of_other_storage_are_ignored() {
    let sources = vec![file("a.txt", 5, 2)];
    let matches = vec![found("z.txt", 6), found("b.txt", 5)];
    let counters = match prepare(&sources, &matches) {
        Ok(inv) => inv.into_counters(),
        Err(_) => panic!("b.txt is the one other link"),
    };
    assert_eq!(found_paths(&counters[0]), vec!["b.txt".to_string()]);
}

#[test]
fn batch_sources_are_independent() {
    let sources = vec![file("a.txt", 5, 2), file("x.txt", 9, 3)];
    let matches = vec![found("y.txt", 9), found("b.txt", 5), found("z.txt", 9)];
    let counters = match prepare(&sources, &matches) {
        Ok(inv) => inv.into_counters(),
        Err(_) => panic!("both sources are complete"),
    };
    assert_eq!(found_paths(&counters[0]), vec!["b.txt".to_string()]);
    assert_eq!(found_paths(&counters[1]), vec!["y.txt".to_string(), "z.txt".to_string()]);

    let short = vec![found("y.txt", 9), found("b.txt", 5)];
    let mut inv = Inventory::new();
    inv.insert(SourceCounter::new("a.txt".to_string(), id(5), 1));
    inv.insert(SourceCounter::new("x.txt".to_string(), id(9), 2));
    let counters = search_and_count(inv, &short).into_counters();
    assert!(counters[0].is_all_links_found());
    assert_eq!(counters[1].get_remaning_other_links(), 1);
}

#[test]
fn single_link_source_needs_no_matches() {
    let sources = vec![file("a.txt", 5, 1)];
    let matches = vec![];
    assert!(prepare(&sources, &matches).is_ok());
}
