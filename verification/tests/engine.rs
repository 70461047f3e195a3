use rusync::errors::to_io_error;
use rusync::paths::PathError;
use rusync::paths::RelativePath;
use rusync::paths::SyncPath;
use rusync::paths::destination_path;
use rusync::paths::parent_of;
use rusync::paths::relative_path;
use rusync::progress::CopyProgress;
use rusync::progress::copy_bytes;
use rusync::session::FileCheck;
use rusync::session::Syncer;
use rusync::stale::Mtime;
use rusync::stale::needs_copy;

fn path_of(parts: &[&str]) -> SyncPath {
    SyncPath { components: parts.iter().map(|s| s.to_string()).collect() }
}

fn rel_of(parts: &[&str]) -> RelativePath {
    RelativePath { components: parts.iter().map(|s| s.to_string()).collect() }
}

fn mtime(secs: u64) -> Mtime {
    Mtime { secs, nanos: 0 }
}

#[test]
fn relative_path_strips_root_prefix() {
    let root = path_of(&["home", "src"]);
    let entry = path_of(&["home", "src", "sub", "file.txt"]);
    let rel = relative_path(&root, &entry).unwrap();
    assert_eq!(rel, rel_of(&["sub", "file.txt"]));
}

#[test]
fn relative_path_rejects_entry_outside_root() {
    let root = path_of(&["home", "src"]);
    let foreign = path_of(&["home", "other", "file.txt"]);
    assert_eq!(relative_path(&root, &foreign), Err(PathError::NotRelative));
    let shorter = path_of(&["home"]);
    assert_eq!(relative_path(&root, &shorter), Err(PathError::NotRelative));
}

#[test]
fn relative_path_of_root_itself_is_empty() {
    let root = path_of(&["home", "src"]);
    let rel = relative_path(&root, &root).unwrap();
    assert_eq!(rel, rel_of(&[]));
}

#[test]
fn destination_path_joins_root_and_relative() {
    let dest_root = path_of(&["backup"]);
    let rel = rel_of(&["sub", "file.txt"]);
    let dest = destination_path(&dest_root, &rel);
    assert_eq!(dest, path_of(&["backup", "sub", "file.txt"]));
}

#[test]
fn destination_of_relative_reproduces_the_entry() {
    let root = path_of(&["home", "src"]);
    let entry = path_of(&["home", "src", "a", "b", "c.txt"]);
    let rel = relative_path(&root, &entry).unwrap();
    assert_eq!(destination_path(&root, &rel), entry);
}

#[test]
fn parent_of_drops_the_last_component() {
    let rel = rel_of(&["sub", "deeper", "file.txt"]);
    assert_eq!(parent_of(&rel).unwrap(), rel_of(&["sub", "deeper"]));
    let flat = rel_of(&["file.txt"]);
    assert_eq!(parent_of(&flat).unwrap(), rel_of(&[]));
}

#[test]
fn parent_of_empty_relative_path_fails() {
    assert_eq!(parent_of(&rel_of(&[])), Err(PathError::NoParent));
}

#[test]
fn needs_copy_when_destination_is_missing() {
    assert!(needs_copy(mtime(10), None));
}

#[test]
fn equal_timestamps_are_up_to_date() {
    assert!(!needs_copy(mtime(10), Some(mtime(10))));
    let t = Mtime { secs: 10, nanos: 500 };
    assert!(!needs_copy(t, Some(t)));
}

#[test]
fn newer_source_needs_copy() {
    assert!(needs_copy(mtime(20), Some(mtime(10))));
    assert!(needs_copy(Mtime { secs: 10, nanos: 2 }, Some(Mtime { secs: 10, nanos: 1 })));
}

#[test]
fn newer_destination_needs_no_copy() {
    assert!(!needs_copy(mtime(10), Some(mtime(20))));
    assert!(!needs_copy(Mtime { secs: 10, nanos: 1 }, Some(Mtime { secs: 10, nanos: 2 })));
}

#[test]
fn progress_reports_whole_percentages() {
    let mut progress = CopyProgress::new(200);
    assert_eq!(progress.record_chunk(50), 25);
    assert_eq!(progress.record_chunk(50), 50);
    assert_eq!(progress.record_chunk(100), 100);
}

#[test]
fn progress_rounds_down() {
    let mut progress = CopyProgress::new(3);
    assert_eq!(progress.record_chunk(1), 33);
    assert_eq!(progress.record_chunk(1), 66);
    assert_eq!(progress.record_chunk(1), 100);
}

#[test]
fn zero_length_copy_reports_full_at_once() {
    let progress = CopyProgress::new(0);
    assert_eq!(progress.current_percent(), 100);
    let copied = copy_bytes(&Vec::new());
    assert!(copied.is_empty());
}

#[test]
fn copy_bytes_preserves_content() {
    let content: Vec<u8> = (0u32..250_000).map(|i| (i % 251) as u8).collect();
    assert_eq!(copy_bytes(&content), content);
}

#[test]
fn new_syncer_starts_with_zeroed_counters() {
    let syncer = Syncer::new(path_of(&["S"]), path_of(&["D"]));
    assert_eq!(syncer.checked, 0);
    assert_eq!(syncer.copied, 0);
    assert_eq!(syncer.source, path_of(&["S"]));
    assert_eq!(syncer.destination, path_of(&["D"]));
}

#[test]
fn check_file_counts_and_decides() {
    let mut syncer = Syncer::new(path_of(&["S"]), path_of(&["D"]));
    assert!(syncer.check_file(FileCheck { src_mtime: mtime(10), dest_mtime: None }));
    assert_eq!(syncer.checked, 1);
    assert_eq!(syncer.copied, 1);
    assert!(!syncer.check_file(FileCheck { src_mtime: mtime(10), dest_mtime: Some(mtime(10)) }));
    assert_eq!(syncer.checked, 2);
    assert_eq!(syncer.copied, 1);
    assert_eq!(syncer.up_to_date(), 1);
}

#[test]
fn check_files_counts_exactly_the_stale_ones() {
    let mut syncer = Syncer::new(path_of(&["S"]), path_of(&["D"]));
    let checks = vec![
        FileCheck { src_mtime: mtime(10), dest_mtime: None },
        FileCheck { src_mtime: mtime(10), dest_mtime: Some(mtime(10)) },
        FileCheck { src_mtime: mtime(30), dest_mtime: Some(mtime(20)) },
        FileCheck { src_mtime: mtime(10), dest_mtime: Some(mtime(20)) },
    ];
    syncer.check_files(&checks);
    assert_eq!(syncer.checked, 4);
    assert_eq!(syncer.copied, 2);
    assert_eq!(syncer.up_to_date(), 2);
}

#[test]
fn plan_file_maps_under_the_destination_root() {
    let syncer = Syncer::new(path_of(&["S"]), path_of(&["D"]));
    let plan = syncer.plan_file(&path_of(&["S", "sub", "b.txt"])).unwrap();
    assert_eq!(plan.rel, rel_of(&["sub", "b.txt"]));
    assert_eq!(plan.dir_to_create, path_of(&["D", "sub"]));
    assert_eq!(plan.dest, path_of(&["D", "sub", "b.txt"]));
}

#[test]
fn plan_file_rejects_a_foreign_entry() {
    let syncer = Syncer::new(path_of(&["S"]), path_of(&["D"]));
    let r = syncer.plan_file(&path_of(&["T", "a.txt"]));
    assert_eq!(r, Err(PathError::NotRelative));
}

#[test]
fn plan_file_rejects_the_root_itself() {
    let syncer = Syncer::new(path_of(&["S"]), path_of(&["D"]));
    let r = syncer.plan_file(&path_of(&["S"]));
    assert_eq!(r, Err(PathError::NoParent));
}

#[test]
fn orphan_destination_is_never_a_copy_target() {
    let syncer = Syncer::new(path_of(&["S"]), path_of(&["D"]));
    let orphan = path_of(&["D", "orphan.txt"]);
    let entries = [path_of(&["S", "a.txt"]), path_of(&["S", "sub", "b.txt"])];
    for entry in &entries {
        let plan = syncer.plan_file(entry).unwrap();
        assert_ne!(plan.dest, orphan);
    }
}

#[test]
fn scenario_full_sync_then_touch_one() {
    let source = path_of(&["S"]);
    let destination = path_of(&["D"]);

    // First run: empty destination, both files are new.
    let mut first = Syncer::new(source.clone(), destination.clone());
    let plan_a = first.plan_file(&path_of(&["S", "a.txt"])).unwrap();
    let plan_b = first.plan_file(&path_of(&["S", "sub", "b.txt"])).unwrap();
    assert_eq!(plan_a.dest, path_of(&["D", "a.txt"]));
    assert_eq!(plan_b.dest, path_of(&["D", "sub", "b.txt"]));
    first.check_files(&vec![
        FileCheck { src_mtime: mtime(10), dest_mtime: None },
        FileCheck { src_mtime: mtime(10), dest_mtime: None },
    ]);
    let stats = first.stats();
    assert_eq!(stats.checked, 2);
    assert_eq!(stats.copied, 2);

    // Second run: nothing changed, destination timestamps match the source.
    let mut second = Syncer::new(source.clone(), destination.clone());
    second.check_files(&vec![
        FileCheck { src_mtime: mtime(10), dest_mtime: Some(mtime(10)) },
        FileCheck { src_mtime: mtime(10), dest_mtime: Some(mtime(10)) },
    ]);
    assert_eq!(second.checked, 2);
    assert_eq!(second.copied, 0);

    // Third run: a.txt was touched to mtime 20; only it is copied.
    let mut third = Syncer::new(source, destination);
    let copied_a = third.check_file(FileCheck {
        src_mtime: mtime(20),
        dest_mtime: Some(mtime(10)),
    });
    let copied_b = third.check_file(FileCheck {
        src_mtime: mtime(10),
        dest_mtime: Some(mtime(10)),
    });
    assert!(copied_a);
    assert!(!copied_b);
    assert_eq!(third.checked, 2);
    assert_eq!(third.copied, 1);
    assert_eq!(third.up_to_date(), 1);
}

#[test]
fn to_io_error_carries_the_message() {
    let err = to_io_error("Could not get relative path".to_string());
    assert_eq!(err.kind(), std::io::ErrorKind::Other);
    assert!(format!("{}", err).contains("Could not get relative path"));
}
