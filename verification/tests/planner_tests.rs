use ncm_importer::{FileMeta, ImportParams, SyncError, is_excluded, plan_sync};

fn params(excludes: Vec<&str>) -> ImportParams {
    ImportParams {
        input_path: "/src".to_string(),
        output_path: "/dst".to_string(),
        exclude_dirs: excludes.into_iter().map(|s| s.to_string()).collect(),
        thread_count: 2,
    }
}

fn meta(rel: &str, size: u64, mtime: u64) -> FileMeta {
    FileMeta { rel_path: rel.to_string(), size, mtime }
}

#[test]
fn rejects_non_directory_input() {
    let r = plan_sync(&params(vec![]), false, &vec![], &vec![]);
    assert!(matches!(r, Err(SyncError::InvalidInput)));
}

#[test]
fn empty_exclusions_empty_destination_plans_every_file() {
    // One task per regular file under the source root.
    let sources = vec![
        meta("a.txt", 10, 100),
        meta("dir/b.flac", 20, 200),
        meta("dir/sub/c.ncm", 30, 300),
    ];
    let tasks = plan_sync(&params(vec![]), true, &sources, &vec![]).unwrap();
    assert_eq!(tasks.len(), 3);
    assert_eq!(tasks[0].input, "/src/a.txt");
    assert_eq!(tasks[0].output, "/dst/a.txt");
    assert!(!tasks[0].is_ncm);
    assert_eq!(tasks[1].input, "/src/dir/b.flac");
    assert!(!tasks[1].is_ncm);
    assert_eq!(tasks[2].input, "/src/dir/sub/c.ncm");
    assert_eq!(tasks[2].output, "/dst/dir/sub/c.ncm");
    assert!(tasks[2].is_ncm);
}

#[test]
fn identical_destination_plans_nothing() {
    // Three plain files, unchanged against a pre-populated destination.
    let sources = vec![
        meta("a.txt", 10, 100),
        meta("b.txt", 20, 200),
        meta("sub/c.txt", 30, 300),
    ];
    let dests = vec![
        meta("a.txt", 10, 100),
        meta("b.txt", 20, 200),
        meta("sub/c.txt", 30, 300),
    ];
    let tasks = plan_sync(&params(vec![]), true, &sources, &dests).unwrap();
    assert_eq!(tasks.len(), 0);
}

#[test]
fn replanning_after_gaining_destination_files_is_a_subset() {
    // First run: empty destination, both files planned.  Second run: the
    // destination gained an exact copy of one file; what remains planned is
    // a strict subset of the first plan.
    let sources = vec![meta("a.txt", 10, 100), meta("b.txt", 20, 200)];
    let first = plan_sync(&params(vec![]), true, &sources, &vec![]).unwrap();
    assert_eq!(first.len(), 2);
    let dests = vec![meta("a.txt", 10, 100)];
    let second = plan_sync(&params(vec![]), true, &sources, &dests).unwrap();
    assert_eq!(second.len(), 1);
    for t in &second {
        assert!(first.iter().any(|f| f.input == t.input && f.output == t.output));
    }
}

#[test]
fn size_mismatch_is_replanned() {
    let sources = vec![meta("a.txt", 10, 100)];
    let dests = vec![meta("a.txt", 11, 100)];
    let tasks = plan_sync(&params(vec![]), true, &sources, &dests).unwrap();
    assert_eq!(tasks.len(), 1);
}

#[test]
fn mtime_tolerance_is_one_second() {
    let sources = vec![meta("a.txt", 10, 100)];
    // One second of drift in either direction still counts as unchanged.
    let within = plan_sync(&params(vec![]), true, &sources, &vec![meta("a.txt", 10, 101)]).unwrap();
    assert_eq!(within.len(), 0);
    let within2 = plan_sync(&params(vec![]), true, &sources, &vec![meta("a.txt", 10, 99)]).unwrap();
    assert_eq!(within2.len(), 0);
    // Two seconds is a change.
    let beyond = plan_sync(&params(vec![]), true, &sources, &vec![meta("a.txt", 10, 102)]).unwrap();
    assert_eq!(beyond.len(), 1);
}

#[test]
fn exclusion_prefix_drops_files() {
    let sources = vec![meta("keep/a.txt", 1, 1), meta("skip/b.txt", 2, 2)];
    let tasks = plan_sync(&params(vec!["skip"]), true, &sources, &vec![]).unwrap();
    assert_eq!(tasks.len(), 1);
    assert_eq!(tasks[0].input, "/src/keep/a.txt");
}

#[test]
fn empty_exclusion_pattern_is_ignored() {
    let sources = vec![meta("a.txt", 1, 1)];
    let tasks = plan_sync(&params(vec![""]), true, &sources, &vec![]).unwrap();
    assert_eq!(tasks.len(), 1);
}

#[test]
fn is_excluded_matches_nonempty_prefixes_only() {
    let pats = vec!["music/".to_string(), "".to_string()];
    assert!(is_excluded(&"music/a.mp3".to_string(), &pats));
    assert!(!is_excluded(&"musi".to_string(), &pats));
    assert!(!is_excluded(&"other/a.mp3".to_string(), &pats));
}

#[test]
fn ncm_extension_is_case_insensitive() {
    let sources = vec![
        meta("a.NCM", 1, 1),
        meta("b.NcM", 1, 1),
        meta("c.ncmx", 1, 1),
        meta("ncm", 1, 1),
        meta(".ncm", 1, 1),
    ];
    let tasks = plan_sync(&params(vec![]), true, &sources, &vec![]).unwrap();
    assert_eq!(tasks.len(), 5);
    assert!(tasks[0].is_ncm);
    assert!(tasks[1].is_ncm);
    assert!(!tasks[2].is_ncm);
    // A bare name and a dotfile have no extension.
    assert!(!tasks[3].is_ncm);
    assert!(!tasks[4].is_ncm);
}

#[test]
fn dot_in_directory_name_is_not_an_extension() {
    // The extension is read from the file name alone, so a dotted
    // directory never makes a plain file look decode-required.
    let sources = vec![meta("some.ncm/readme", 1, 1), meta("some.dir/track.ncm", 1, 1)];
    let tasks = plan_sync(&params(vec![]), true, &sources, &vec![]).unwrap();
    assert_eq!(tasks.len(), 2);
    assert!(!tasks[0].is_ncm);
    assert!(tasks[1].is_ncm);
}

#[test]
fn decoded_output_already_present_skips_container() {
    // The predicted output (same stem, a common audio extension, same
    // directory) exists and is newer: the container is not replanned.
    let sources = vec![meta("album/song.ncm", 50, 100)];
    let dests = vec![meta("album/song.mp3", 999, 150)];
    let tasks = plan_sync(&params(vec![]), true, &sources, &dests).unwrap();
    assert_eq!(tasks.len(), 0);
}

#[test]
fn stale_decoded_output_is_replanned() {
    // The predicted output is more than a second older than the container.
    let sources = vec![meta("album/song.ncm", 50, 100)];
    let dests = vec![meta("album/song.mp3", 999, 98)];
    let tasks = plan_sync(&params(vec![]), true, &sources, &dests).unwrap();
    assert_eq!(tasks.len(), 1);
    assert!(tasks[0].is_ncm);
}

#[test]
fn slightly_older_decoded_output_still_counts() {
    // Exactly one second older lies within the tolerance.
    let sources = vec![meta("album/song.ncm", 50, 100)];
    let dests = vec![meta("album/song.flac", 999, 99)];
    let tasks = plan_sync(&params(vec![]), true, &sources, &dests).unwrap();
    assert_eq!(tasks.len(), 0);
}

#[test]
fn container_at_source_root_probes_root_outputs() {
    let sources = vec![meta("song.ncm", 50, 100)];
    let dests = vec![meta("song.wav", 1, 200)];
    let tasks = plan_sync(&params(vec![]), true, &sources, &dests).unwrap();
    assert_eq!(tasks.len(), 0);
}

#[test]
fn unrelated_destination_audio_does_not_skip_container() {
    let sources = vec![meta("album/song.ncm", 50, 100)];
    let dests = vec![meta("album/other.mp3", 1, 200)];
    let tasks = plan_sync(&params(vec![]), true, &sources, &dests).unwrap();
    assert_eq!(tasks.len(), 1);
}
