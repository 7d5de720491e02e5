use dwatch::config::JobConfig;
use dwatch::detect::is_watched;
use dwatch::entry::FileEntry;
use dwatch::job::Job;

fn job_watching(filetypes: Option<Vec<&str>>) -> Job {
    Job::from_config(JobConfig {
        dir: "src".to_string(),
        filetypes: filetypes.map(|list| list.into_iter().map(String::from).collect()),
        scripts: None,
        servers: None,
        delay: None,
    })
}

fn file(path: &str, extension: &str, modified: i128) -> Option<FileEntry> {
    Some(FileEntry::new(path, extension, Some(modified)))
}

#[test]
fn new_entry_holds_what_it_was_given() {
    let entry = FileEntry::new("src/main.rs", "rs", Some(17));
    assert_eq!(entry.path, "src/main.rs");
    assert_eq!(entry.extension, "rs");
    assert_eq!(entry.modified, Some(17));
}

#[test]
fn first_scan_of_unseen_files_is_an_update() {
    let mut job = job_watching(None);
    assert!(job.updated(&vec![file("src/a.rs", "rs", 10), file("src/b.rs", "rs", 20)]));
    assert_eq!(job.last_modified("src/a.rs"), Some(10));
    assert_eq!(job.last_modified("src/b.rs"), Some(20));
}

#[test]
fn one_unseen_file_among_known_ones_is_an_update() {
    let mut job = job_watching(None);
    assert!(job.updated(&vec![file("src/a.rs", "rs", 10)]));
    assert!(job.updated(&vec![file("src/a.rs", "rs", 10), file("src/new.rs", "rs", 10)]));
}

#[test]
fn empty_walk_is_no_update() {
    let mut job = job_watching(None);
    assert!(!job.updated(&vec![]));
    assert_eq!(job.last_modified("src/a.rs"), None);
}

#[test]
fn unchanged_time_is_no_update() {
    let mut job = job_watching(None);
    let walk = vec![file("src/a.rs", "rs", 10), file("src/b.rs", "rs", 20)];
    assert!(job.updated(&walk));
    assert!(!job.updated(&walk));
    assert_eq!(job.last_modified("src/a.rs"), Some(10));
    assert_eq!(job.last_modified("src/b.rs"), Some(20));
}

#[test]
fn later_time_is_an_update() {
    let mut job = job_watching(None);
    assert!(job.updated(&vec![file("src/a.rs", "rs", 10), file("src/b.rs", "rs", 20)]));
    assert!(job.updated(&vec![file("src/a.rs", "rs", 10), file("src/b.rs", "rs", 21)]));
    assert_eq!(job.last_modified("src/b.rs"), Some(21));
}

#[test]
fn earlier_time_is_an_update() {
    let mut job = job_watching(None);
    assert!(job.updated(&vec![file("src/a.rs", "rs", 10)]));
    assert!(job.updated(&vec![file("src/a.rs", "rs", -5)]));
    assert_eq!(job.last_modified("src/a.rs"), Some(-5));
    assert!(!job.updated(&vec![file("src/a.rs", "rs", -5)]));
}

#[test]
fn unlisted_extension_is_never_counted() {
    let mut job = job_watching(Some(vec!["go"]));
    assert!(!job.updated(&vec![file("src/a.rs", "rs", 10)]));
    assert!(!job.updated(&vec![file("src/a.rs", "rs", 11)]));
    assert_eq!(job.last_modified("src/a.rs"), None);
}

#[test]
fn listed_extension_is_counted_beside_unlisted_ones() {
    let mut job = job_watching(Some(vec!["go", "mod"]));
    assert!(job.updated(&vec![file("src/a.rs", "rs", 10), file("src/go.mod", "mod", 10)]));
    assert_eq!(job.last_modified("src/go.mod"), Some(10));
    assert_eq!(job.last_modified("src/a.rs"), None);
    assert!(!job.updated(&vec![file("src/a.rs", "rs", 99), file("src/go.mod", "mod", 10)]));
}

#[test]
fn extension_match_is_exact() {
    let mut job = job_watching(Some(vec!["go"]));
    assert!(!job.updated(&vec![
        file("src/a.GO", "GO", 1),
        file("src/b.golang", "golang", 1),
        file("src/c", "", 1),
        file("src/d..go", ".go", 1),
    ]));
}

#[test]
fn listed_dot_is_part_of_the_extension() {
    let mut job = job_watching(Some(vec![".go"]));
    assert!(!job.updated(&vec![file("src/a.go", "go", 1)]));
    assert!(job.updated(&vec![file("src/b..go", ".go", 1)]));
}

#[test]
fn empty_list_watches_nothing() {
    let mut job = job_watching(Some(vec![]));
    assert!(!job.updated(&vec![file("src/a.rs", "rs", 10), file("src/b", "", 10)]));
}

#[test]
fn list_with_empty_extension_watches_files_without_one() {
    let mut job = job_watching(Some(vec![""]));
    assert!(job.updated(&vec![file("src/Makefile", "", 10)]));
}

#[test]
fn without_list_every_extension_is_watched() {
    let mut job = job_watching(None);
    assert!(job.updated(&vec![file("src/a.rs", "rs", 10)]));
    assert!(job.updated(&vec![file("src/a.rs", "rs", 10), file("src/Makefile", "", 10)]));
    assert!(job.updated(&vec![file("src/weird.x y", "x y", 10)]));
}

#[test]
fn failed_entries_are_passed_over() {
    let mut job = job_watching(None);
    assert!(!job.updated(&vec![None, None]));
    assert!(job.updated(&vec![None, file("src/a.rs", "rs", 10), None]));
    assert!(!job.updated(&vec![None, file("src/a.rs", "rs", 10)]));
}

#[test]
fn unreadable_time_is_passed_over() {
    let mut job = job_watching(None);
    assert!(!job.updated(&vec![Some(FileEntry::new("src/a.rs", "rs", None))]));
    assert_eq!(job.last_modified("src/a.rs"), None);
    assert!(job.updated(&vec![file("src/a.rs", "rs", 10)]));
    assert!(!job.updated(&vec![Some(FileEntry::new("src/a.rs", "rs", None))]));
    assert_eq!(job.last_modified("src/a.rs"), Some(10));
}

#[test]
fn history_keeps_files_that_are_gone() {
    let mut job = job_watching(None);
    assert!(job.updated(&vec![file("src/a.rs", "rs", 10), file("src/b.rs", "rs", 20)]));
    assert!(!job.updated(&vec![file("src/a.rs", "rs", 10)]));
    assert_eq!(job.last_modified("src/b.rs"), Some(20));
    assert!(!job.updated(&vec![file("src/a.rs", "rs", 10), file("src/b.rs", "rs", 20)]));
}

#[test]
fn path_seen_twice_in_one_walk_keeps_the_last_time() {
    let mut job = job_watching(None);
    let walk = vec![file("src/a.rs", "rs", 1), file("src/a.rs", "rs", 2)];
    assert!(job.updated(&walk));
    assert_eq!(job.last_modified("src/a.rs"), Some(2));
    assert!(job.updated(&walk));
}

#[test]
fn is_watched_follows_the_list() {
    let list = Some(vec!["go".to_string(), "rs".to_string()]);
    assert!(is_watched(&list, &"go".to_string()));
    assert!(is_watched(&list, &"rs".to_string()));
    assert!(!is_watched(&list, &"r".to_string()));
    assert!(!is_watched(&list, &"".to_string()));
    assert!(is_watched(&None, &"anything".to_string()));
    assert!(!is_watched(&Some(vec![]), &"go".to_string()));
}
