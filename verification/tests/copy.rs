use gesture_backup::copy::{
    check_extension, copy_dir, copy_dir_recursive, copy_root_of, count_files_and_size,
    is_selected, CopyError, CopyJob, DestinationState, Operation, Progress, SourceEntry, Summary,
};

fn strings(items: &[&str]) -> Vec<String> {
    items.iter().map(|s| s.to_string()).collect()
}

fn file(path: &[&str], size: u64) -> SourceEntry {
    SourceEntry { path: strings(path), size, is_directory: false }
}

fn directory(path: &[&str]) -> SourceEntry {
    SourceEntry { path: strings(path), size: 0, is_directory: true }
}

fn create(path: &[&str]) -> Operation {
    Operation::CreateDirectory { path: strings(path) }
}

fn copy(source: &[&str], target: &[&str], size: u64) -> Operation {
    Operation::CopyFile { source: strings(source), target: strings(target), size }
}

/// `a.txt` (10 bytes), `b.jpg` (20 bytes), `sub/c.txt` (5 bytes).
fn sample() -> Vec<SourceEntry> {
    vec![file(&["a.txt"], 10), file(&["b.jpg"], 20), directory(&["sub"]), file(&["sub", "c.txt"], 5)]
}

#[test]
fn extension_is_what_follows_the_last_dot() {
    assert!(check_extension("a.txt", &strings(&["txt"])));
    assert!(check_extension("a.tar.gz", &strings(&["gz"])));
    assert!(!check_extension("a.tar.gz", &strings(&["tar.gz"])));
    assert!(!check_extension("a.tar.gz", &strings(&["tar"])));
    assert!(check_extension("a.txt", &strings(&["jpg", "txt"])));
    assert!(!check_extension("a.txt", &strings(&["jpg", "png"])));
    assert!(!check_extension("a.txt", &strings(&[])));
}

#[test]
fn extension_match_is_exact() {
    assert!(!check_extension("a.TXT", &strings(&["txt"])));
    assert!(!check_extension("a.txt", &strings(&["tx"])));
    assert!(!check_extension("a.txt", &strings(&["txtx"])));
    assert!(!check_extension("a.txt", &strings(&[".txt"])));
    assert!(!check_extension("atxt", &strings(&["txt"])));
}

#[test]
fn names_without_extension() {
    assert!(!check_extension("README", &strings(&["README", ""])));
    assert!(!check_extension(".bashrc", &strings(&["bashrc", ""])));
    assert!(!check_extension("..", &strings(&[""])));
    assert!(!check_extension("", &strings(&[""])));
    assert!(check_extension("a.", &strings(&[""])));
    assert!(check_extension("...", &strings(&[""])));
    assert!(check_extension(".a.b", &strings(&["b"])));
}

#[test]
fn extension_agrees_with_std_path() {
    let names = ["a.txt", "a.tar.gz", ".bashrc", "README", "a.", "...", ".a.b", "..", "x.y.z", ".."];
    for name in names {
        let expected = std::path::Path::new(name).extension().and_then(|e| e.to_str());
        for candidate in ["txt", "gz", "bashrc", "", "b", "z", "y.z"] {
            assert_eq!(
                check_extension(name, &strings(&[candidate])),
                expected == Some(candidate),
                "{name} {candidate}"
            );
        }
    }
}

#[test]
fn empty_filter_selects_every_file() {
    assert!(is_selected(&file(&["README"], 1), &strings(&[])));
    assert!(is_selected(&file(&["a.txt"], 1), &strings(&[])));
    assert!(!is_selected(&directory(&["sub.txt"]), &strings(&[])));
    assert!(!is_selected(&directory(&["sub.txt"]), &strings(&["txt"])));
    assert!(is_selected(&file(&["sub", "a.txt"], 1), &strings(&["txt"])));
    assert!(!is_selected(&file(&["sub.txt", "a"], 1), &strings(&["txt"])));
    assert!(!is_selected(&file(&[], 1), &strings(&["txt"])));
}

#[test]
fn count_adds_up_the_selected_files() {
    assert_eq!(count_files_and_size(&sample(), &strings(&["txt"])), (2, 15));
    assert_eq!(count_files_and_size(&sample(), &strings(&[])), (3, 35));
    assert_eq!(count_files_and_size(&sample(), &strings(&["jpg", "txt"])), (3, 35));
    assert_eq!(count_files_and_size(&sample(), &strings(&["png"])), (0, 0));
    assert_eq!(count_files_and_size(&Vec::new(), &strings(&[])), (0, 0));
}

#[test]
fn count_stops_at_the_largest_number() {
    let entries = vec![file(&["a"], u64::MAX), file(&["b"], 1), file(&["c"], 7)];
    assert_eq!(count_files_and_size(&entries, &strings(&[])), (3, u64::MAX));
    let entries = vec![file(&["a"], u64::MAX - 1), file(&["b"], 1)];
    assert_eq!(count_files_and_size(&entries, &strings(&[])), (2, u64::MAX));
}

#[test]
fn mirror_follows_the_listing() {
    assert_eq!(
        copy_dir_recursive(&sample(), &strings(&["backup"]), &strings(&["txt"])),
        vec![
            copy(&["a.txt"], &["backup", "a.txt"], 10),
            create(&["backup", "sub"]),
            copy(&["sub", "c.txt"], &["backup", "sub", "c.txt"], 5),
        ]
    );
    assert_eq!(copy_dir_recursive(&Vec::new(), &strings(&[]), &strings(&[])), Vec::new());
}

#[test]
fn scenario_with_txt_filter() {
    let plan = copy_dir(Some(&sample()), Some(1_000), DestinationState::Empty, &strings(&["txt"]))
        .expect("the copy fits");
    assert_eq!(
        plan.operations(),
        &vec![
            copy(&["a.txt"], &["a.txt"], 10),
            create(&["sub"]),
            copy(&["sub", "c.txt"], &["sub", "c.txt"], 5),
        ]
    );
    assert_eq!(plan.total_files(), 2);
    assert_eq!(plan.total_bytes(), 15);
    let jpg = strings(&["b.jpg"]);
    assert!(plan.operations().iter().all(|operation| match operation {
        Operation::CopyFile { source, target, .. } => *source != jpg && *target != jpg,
        Operation::CreateDirectory { path } => *path != jpg,
    }));
}

#[test]
fn empty_filter_copies_every_file_to_its_path() {
    let plan = copy_dir(Some(&sample()), Some(35), DestinationState::Empty, &strings(&[]))
        .expect("the copy fits");
    assert_eq!(
        plan.operations(),
        &vec![
            copy(&["a.txt"], &["a.txt"], 10),
            copy(&["b.jpg"], &["b.jpg"], 20),
            create(&["sub"]),
            copy(&["sub", "c.txt"], &["sub", "c.txt"], 5),
        ]
    );
    assert_eq!((plan.total_files(), plan.total_bytes()), (3, 35));
}

#[test]
fn filter_without_match_copies_nothing() {
    let plan = copy_dir(Some(&sample()), Some(0), DestinationState::Empty, &strings(&["png"]))
        .expect("nothing needs no space");
    assert_eq!(plan.operations(), &vec![create(&["sub"])]);
    assert_eq!((plan.total_files(), plan.total_bytes()), (0, 0));
}

#[test]
fn filter_reaches_files_at_any_depth() {
    let entries = vec![
        directory(&["a"]),
        directory(&["a", "b"]),
        directory(&["a", "b", "c"]),
        file(&["a", "b", "c", "deep.txt"], 3),
        file(&["a", "b", "c", "deep.text"], 4),
    ];
    let plan = copy_dir(Some(&entries), Some(3), DestinationState::Empty, &strings(&["txt"]))
        .expect("the copy fits");
    assert_eq!(
        plan.operations(),
        &vec![
            create(&["a"]),
            create(&["a", "b"]),
            create(&["a", "b", "c"]),
            copy(&["a", "b", "c", "deep.txt"], &["a", "b", "c", "deep.txt"], 3),
        ]
    );
}

#[test]
fn too_little_space_refuses_the_copy() {
    let result = copy_dir(Some(&sample()), Some(14), DestinationState::Empty, &strings(&["txt"]));
    assert_eq!(result.err(), Some(CopyError::InsufficientSpace { required: 15, available: 14 }));
    let result = copy_dir(Some(&sample()), Some(34), DestinationState::Occupied, &strings(&[]));
    assert_eq!(result.err(), Some(CopyError::InsufficientSpace { required: 35, available: 34 }));
    assert!(copy_dir(Some(&sample()), Some(15), DestinationState::Empty, &strings(&["txt"])).is_ok());
}

#[test]
fn need_beyond_the_largest_number_refuses_the_copy() {
    let entries = vec![file(&["a"], u64::MAX), file(&["b"], 1)];
    let result = copy_dir(Some(&entries), Some(u64::MAX), DestinationState::Empty, &strings(&[]));
    assert_eq!(
        result.err(),
        Some(CopyError::InsufficientSpace { required: u64::MAX, available: u64::MAX })
    );
    let entries = vec![file(&["a"], u64::MAX)];
    assert!(copy_dir(Some(&entries), Some(u64::MAX), DestinationState::Empty, &strings(&[])).is_ok());
}

#[test]
fn missing_source_refuses_the_copy() {
    let result = copy_dir(None, Some(1_000), DestinationState::Empty, &strings(&[]));
    assert_eq!(result.err(), Some(CopyError::SourceNotFound));
    let result = copy_dir(None, None, DestinationState::Missing, &strings(&["txt"]));
    assert_eq!(result.err(), Some(CopyError::SourceNotFound));
}

#[test]
fn missing_volume_refuses_the_copy() {
    let result = copy_dir(Some(&sample()), None, DestinationState::Empty, &strings(&[]));
    assert_eq!(result.err(), Some(CopyError::DestinationUnavailable));
}

#[test]
fn occupied_destination_gets_a_backup_directory() {
    let plan = copy_dir(Some(&sample()), Some(1_000), DestinationState::Occupied, &strings(&["txt"]))
        .expect("the copy fits");
    assert_eq!(
        plan.operations(),
        &vec![
            create(&["backup"]),
            copy(&["a.txt"], &["backup", "a.txt"], 10),
            create(&["backup", "sub"]),
            copy(&["sub", "c.txt"], &["backup", "sub", "c.txt"], 5),
        ]
    );
    for operation in plan.operations() {
        let written = match operation {
            Operation::CopyFile { target, .. } => target,
            Operation::CreateDirectory { path } => path,
        };
        assert_eq!(written[0], "backup");
    }
}

#[test]
fn missing_destination_is_made_first() {
    let plan = copy_dir(Some(&sample()), Some(1_000), DestinationState::Missing, &strings(&["jpg"]))
        .expect("the copy fits");
    assert_eq!(
        plan.operations(),
        &vec![create(&[]), copy(&["b.jpg"], &["b.jpg"], 20), create(&["sub"])]
    );
}

#[test]
fn job_counts_what_has_been_copied() {
    let plan = copy_dir(Some(&sample()), Some(1_000), DestinationState::Occupied, &strings(&["txt"]))
        .expect("the copy fits");
    let mut job = CopyJob::new("/home/me".to_string(), "/mnt/usb".to_string(), plan, 1_000);
    assert_eq!(job.source_root(), "/home/me");
    assert_eq!(job.destination_root(), "/mnt/usb");
    assert_eq!(job.progress(), Progress { done: 0, copied_files: 0, copied_bytes: 0 });
    let expected = [(1, 0, 0), (2, 1, 10), (3, 1, 10), (4, 2, 15)];
    for (done, copied_files, copied_bytes) in expected {
        assert_eq!(job.next_operation(), Some(&job.plan().operations()[done - 1]));
        job.complete_operation();
        assert_eq!(job.progress(), Progress { done, copied_files, copied_bytes });
    }
    assert_eq!(job.next_operation(), None);
    job.complete_operation();
    assert_eq!(job.progress(), Progress { done: 4, copied_files: 2, copied_bytes: 15 });
    assert_eq!(job.progress().copied_bytes, job.plan().total_bytes());
    assert_eq!(job.progress().copied_files, job.plan().total_files());
}

#[test]
fn summary_gives_bytes_and_elapsed_time() {
    let plan = copy_dir(Some(&sample()), Some(1_000), DestinationState::Empty, &strings(&[]))
        .expect("the copy fits");
    let mut job = CopyJob::new(String::new(), String::new(), plan, 1_000);
    job.complete_operation();
    job.complete_operation();
    assert_eq!(job.summary(4_500), Summary { bytes_copied: 30, files_copied: 2, elapsed: 3_500 });
    assert_eq!(job.summary(1_000), Summary { bytes_copied: 30, files_copied: 2, elapsed: 0 });
    assert_eq!(job.summary(999), Summary { bytes_copied: 30, files_copied: 2, elapsed: 0 });
}

#[test]
fn record_holds_bytes_and_milliseconds() {
    let summary = Summary { bytes_copied: 15, files_copied: 2, elapsed: 3_500 };
    assert_eq!(summary.record(), "15 bytes\n3500 millis\n");
    let summary = Summary { bytes_copied: 0, files_copied: 0, elapsed: 0 };
    assert_eq!(summary.record(), "0 bytes\n0 millis\n");
    let summary = Summary { bytes_copied: u64::MAX, files_copied: 1, elapsed: 1 };
    assert_eq!(summary.record(), "18446744073709551615 bytes\n1 millis\n");
}

#[test]
fn copy_root_is_the_destination_or_its_backup_directory() {
    assert_eq!(copy_root_of(DestinationState::Missing), Vec::<String>::new());
    assert_eq!(copy_root_of(DestinationState::Empty), Vec::<String>::new());
    assert_eq!(copy_root_of(DestinationState::Occupied), strings(&["backup"]));
}
