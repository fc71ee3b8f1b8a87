use ncm_importer::{
    FileMeta, FileTask, Fraction, ImportParams, ImportStatus, ImportTaskManager, MAX_TRACKED_JOBS,
    ProjectRun, ProjectStatus, Stage, StageDetail, SyncError, run_job, run_multi_job,
    worker_for_task,
};

fn task(input: &str, is_ncm: bool) -> FileTask {
    FileTask { input: input.to_string(), output: format!("/dst{}", input), is_ncm }
}

fn project(id: &str, name: &str, input_path: &str) -> ncm_importer::Project {
    ncm_importer::Project {
        id: id.to_string(),
        name: name.to_string(),
        input_path: input_path.to_string(),
        exclude_patterns: vec![],
    }
}

#[test]
fn single_file_job_runs_to_completion() {
    // One 100-byte file, one worker: after execution the job is finished,
    // one file is processed, and worker 0 sits at full progress.
    let mut st = ImportStatus::new_single("job".to_string(), 1, 1);
    assert_eq!(st.stage, Stage::Scanning);
    let tasks = vec![task("/src/a.txt", false)];
    run_job(&mut st, &tasks, &vec![100], &vec![true], 1);
    assert_eq!(st.stage, Stage::Finished);
    assert_eq!(st.processed_files, 1);
    assert_eq!(st.total_files, 1);
    assert_eq!(st.progress, Fraction::one());
    assert_eq!(st.threads.len(), 1);
    assert_eq!(st.threads[0].progress, Fraction::one());
    assert!(st.threads[0].current_file.is_none());
    assert_eq!(st.threads[0].processed_size, 100);
}

#[test]
fn failed_decode_leaves_slot_at_zero_and_counter_unchanged() {
    // The native adapter reported failure: the worker's slot ends the task
    // at zero progress, the processed counter stands still, and the job
    // still reaches the finished stage.
    let mut st = ImportStatus::new_single("job".to_string(), 1, 1);
    st.on_file_begin(0, "/src/a.ncm".to_string(), 500);
    assert_eq!(st.stage, Stage::Copying);
    assert_eq!(st.threads[0].current_file.as_deref(), Some("/src/a.ncm"));
    assert_eq!(st.threads[0].current_size, 500);
    st.on_file_done(0, false, 500);
    assert_eq!(st.threads[0].progress, Fraction::zero());
    assert_eq!(st.threads[0].processed_size, 0);
    assert_eq!(st.processed_files, 0);
    st.on_job_finished();
    assert_eq!(st.stage, Stage::Finished);
    assert_eq!(st.processed_files, 0);
}

#[test]
fn failures_are_dropped_from_the_accounting() {
    // After the job finishes, processed + failed does not add back up to
    // the total: there is no failure counter at all, the failed file is
    // simply missing from the processed count.
    let mut st = ImportStatus::new_single("job".to_string(), 2, 2);
    let tasks = vec![task("/src/a.txt", false), task("/src/b.txt", false)];
    run_job(&mut st, &tasks, &vec![10, 20], &vec![true, false], 2);
    assert_eq!(st.stage, Stage::Finished);
    assert_eq!(st.total_files, 2);
    assert_eq!(st.processed_files, 1);
    assert_ne!(st.processed_files, st.total_files);
}

#[test]
fn progress_counts_successes_against_the_total() {
    let mut st = ImportStatus::new_single("job".to_string(), 2, 4);
    let tasks = vec![
        task("/src/a", false),
        task("/src/b", false),
        task("/src/c", false),
        task("/src/d", false),
    ];
    run_job(&mut st, &tasks, &vec![1, 2, 3, 4], &vec![true, true, false, true], 2);
    assert_eq!(st.processed_files, 3);
    assert_eq!(st.total_files, 4);
    assert_eq!(st.progress, Fraction::one());
    assert!(matches!(st.current_stage_detail, StageDetail::Copying { processed: 3, total: 4 }));
}

#[test]
fn strides_cover_every_task_exactly_once() {
    // threadCount = 3 over 10 tasks: the strides {k, k+3, k+6, ...}
    // partition the indices 0..10.
    let t = 3usize;
    let m = 10usize;
    let mut claimed = vec![0usize; m];
    for k in 0..t {
        let mut idx = k;
        while idx < m {
            claimed[idx] += 1;
            assert_eq!(worker_for_task(idx, t), k);
            idx += t;
        }
    }
    for c in claimed {
        assert_eq!(c, 1);
    }
}

#[test]
fn empty_job_still_finishes() {
    let mut st = ImportStatus::new_single("job".to_string(), 4, 0);
    run_job(&mut st, &vec![], &vec![], &vec![], 4);
    assert_eq!(st.stage, Stage::Finished);
    assert_eq!(st.processed_files, 0);
    assert_eq!(st.progress, Fraction::one());
}

#[test]
fn multi_project_run_marks_each_project() {
    // Project A has two plain files and runs clean; project B's source
    // path does not exist, so its plan step fails.  The job completes with
    // A completed, B failed, and the global stage finished.
    let projects = vec![project("ida", "A", "/srcA"), project("idb", "B", "/does-not-exist")];
    let mut st = ImportStatus::new_multi("job".to_string(), 2, &projects);
    assert_eq!(st.project_progress.len(), 2);
    assert_eq!(st.project_progress[0].status, ProjectStatus::Waiting);
    let runs = vec![
        ProjectRun::Planned {
            tasks: vec![task("/srcA/a.txt", false), task("/srcA/b.txt", false)],
            sizes: vec![10, 20],
            outcomes: vec![true, true],
        },
        ProjectRun::PlanFailed,
    ];
    run_multi_job(&mut st, &runs, 2);
    assert_eq!(st.stage, Stage::Finished);
    assert_eq!(st.project_progress[0].status, ProjectStatus::Completed);
    assert_eq!(st.project_progress[0].progress, Fraction::one());
    assert_eq!(st.project_progress[0].total_files, 2);
    assert_eq!(st.project_progress[0].processed_files, 2);
    assert_eq!(st.project_progress[1].status, ProjectStatus::Failed);
    assert_eq!(st.project_progress[1].processed_files, 0);
    assert_eq!(st.total_files, 2);
    assert_eq!(st.processed_files, 2);
    assert!(st.current_project.is_none());
    assert!(matches!(st.current_stage_detail, StageDetail::Done));
}

#[test]
fn multi_project_failure_does_not_abort_later_projects() {
    let projects = vec![project("id1", "bad", "/nope"), project("id2", "good", "/src")];
    let mut st = ImportStatus::new_multi("job".to_string(), 1, &projects);
    let runs = vec![
        ProjectRun::PlanFailed,
        ProjectRun::Planned {
            tasks: vec![task("/src/x", false)],
            sizes: vec![7],
            outcomes: vec![true],
        },
    ];
    run_multi_job(&mut st, &runs, 1);
    assert_eq!(st.project_progress[0].status, ProjectStatus::Failed);
    assert_eq!(st.project_progress[1].status, ProjectStatus::Completed);
    assert_eq!(st.stage, Stage::Finished);
    assert_eq!(st.processed_files, 1);
}

#[test]
fn start_task_plans_and_registers() {
    let mut mgr = ImportTaskManager::new();
    let params = ImportParams {
        input_path: "/src".to_string(),
        output_path: "/dst".to_string(),
        exclude_dirs: vec![],
        thread_count: 2,
    };
    let sources = vec![FileMeta { rel_path: "a.txt".to_string(), size: 5, mtime: 1 }];
    let (id, tasks) = mgr.start_task(&params, true, &sources, &vec![]).unwrap();
    assert_eq!(id.len(), 36);
    assert_eq!(tasks.len(), 1);
    let st = mgr.get_status(&id).unwrap();
    assert_eq!(st.stage, Stage::Scanning);
    assert_eq!(st.total_files, 1);
    assert_eq!(st.processed_files, 0);
    assert_eq!(st.threads.len(), 2);
    assert_eq!(st.task_id, id);
}

#[test]
fn start_task_rejects_bad_root_and_registers_nothing() {
    let mut mgr = ImportTaskManager::new();
    let params = ImportParams {
        input_path: "/missing".to_string(),
        output_path: "/dst".to_string(),
        exclude_dirs: vec![],
        thread_count: 1,
    };
    let r = mgr.start_task(&params, false, &vec![], &vec![]);
    assert!(matches!(r, Err(SyncError::InvalidInput)));
}

#[test]
fn unknown_job_id_has_no_status() {
    let mgr = ImportTaskManager::new();
    assert!(mgr.get_status(&"nope".to_string()).is_none());
}

#[test]
fn manager_events_update_the_registered_job() {
    let mut mgr = ImportTaskManager::new();
    let params = ImportParams {
        input_path: "/src".to_string(),
        output_path: "/dst".to_string(),
        exclude_dirs: vec![],
        thread_count: 1,
    };
    let sources = vec![FileMeta { rel_path: "a.txt".to_string(), size: 5, mtime: 1 }];
    let (id, _tasks) = mgr.start_task(&params, true, &sources, &vec![]).unwrap();
    mgr.file_begin(&id, 0, "/src/a.txt".to_string(), 5);
    assert_eq!(mgr.get_status(&id).unwrap().stage, Stage::Copying);
    mgr.file_done(&id, 0, true, 5);
    assert_eq!(mgr.get_status(&id).unwrap().processed_files, 1);
    mgr.job_finished(&id);
    let st = mgr.get_status(&id).unwrap();
    assert_eq!(st.stage, Stage::Finished);
    assert_eq!(st.threads[0].progress, Fraction::one());
    // Events for unknown jobs fall on the floor.
    mgr.file_done(&"unknown".to_string(), 0, true, 5);
    assert_eq!(mgr.get_status(&id).unwrap().processed_files, 1);
}

#[test]
fn multi_project_job_through_the_manager() {
    let mut mgr = ImportTaskManager::new();
    let projects = vec![project("ida", "A", "/srcA"), project("idb", "B", "/srcB")];
    let id = mgr.start_multi_project_task(&projects, 1);
    assert_eq!(id.len(), 36);
    assert!(matches!(
        mgr.get_status(&id).unwrap().current_stage_detail,
        StageDetail::Preparing
    ));
    mgr.project_start(&id, 0, "A".to_string());
    assert_eq!(mgr.get_status(&id).unwrap().current_project.as_deref(), Some("A"));
    mgr.project_planned(&id, 0, 1);
    assert_eq!(mgr.get_status(&id).unwrap().total_files, 1);
    mgr.file_begin(&id, 0, "/srcA/a.txt".to_string(), 9);
    mgr.project_file_done(&id, 0, 0, true, 9);
    let st = mgr.get_status(&id).unwrap();
    assert_eq!(st.processed_files, 1);
    assert_eq!(st.project_progress[0].processed_files, 1);
    mgr.project_completed(&id, 0);
    mgr.project_start(&id, 1, "B".to_string());
    mgr.project_plan_failed(&id, 1);
    mgr.multi_finished(&id);
    let st = mgr.get_status(&id).unwrap();
    assert_eq!(st.stage, Stage::Finished);
    assert_eq!(st.project_progress[0].status, ProjectStatus::Completed);
    assert_eq!(st.project_progress[1].status, ProjectStatus::Failed);
}

#[test]
fn registry_evicts_the_oldest_beyond_the_cap() {
    let mut mgr = ImportTaskManager::new();
    let first = mgr.start_multi_project_task(&vec![], 1);
    for _ in 0..MAX_TRACKED_JOBS {
        mgr.start_multi_project_task(&vec![], 1);
    }
    // The cap was exceeded by one: the oldest entry is gone.
    assert!(mgr.get_status(&first).is_none());
}

#[test]
fn fractions_are_exact_and_clamped() {
    assert_eq!(Fraction::of(1, 2), Fraction { num: 1, den: 2 });
    assert_eq!(Fraction::of(0, 0), Fraction { num: 0, den: 1 });
    assert_eq!(Fraction::of(5, 3), Fraction { num: 3, den: 3 });
    assert!(Fraction::of(5, 3).is_one());
    assert!(!Fraction::of(1, 2).is_one());
    assert_eq!(Fraction::zero(), Fraction { num: 0, den: 1 });
    assert_eq!(Fraction::one(), Fraction { num: 1, den: 1 });
}
