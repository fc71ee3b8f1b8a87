//! Verified core of a music-library synchronizer.
//!
//! The library plans which files under a source tree need to be copied or
//! decoded into a destination library, and tracks the progress of a worker
//! pool that carries the plan out.  All decisions — exclusion rules, the
//! rsync-style skip comparison, task classification, worker striding, and
//! every progress-state transition — are verified here; the surrounding
//! process (filesystem walks, the native decoder, the async runtime, and the
//! observer that receives snapshots) lives outside and feeds this library
//! plain values.

mod decoder;
mod errors;
mod fraction;
mod ids;
mod paths;
mod planner;
mod progress;
mod settings;
mod task_manager;

pub use decoder::{
    DecodeResult, DecodeResultRaw, decode_result_from_raw, task_failure_kind,
    validate_decode_paths,
};
pub use errors::SyncError;
pub use fraction::Fraction;
pub use planner::{FileMeta, FileTask, FileTaskModel, ImportParams, is_excluded, plan_sync};
pub use progress::{
    ImportStatus, ImportStatusModel, ProjectProgress, ProjectProgressModel, ProjectStatus, Stage,
    StageDetail, StageDetailModel, ThreadProgress, ThreadProgressModel,
};
pub use settings::{
    AppSettings, AppSettingsModel, FileInfo, Project, ProjectModel, create_project,
    default_max_threads, delete_project, select_projects, set_exclude_patterns, set_library_path,
    set_max_threads, update_project, update_settings,
};
pub use task_manager::{
    ImportTaskManager, MAX_TRACKED_JOBS, ProjectRun, lemma_strides_partition, run_job,
    run_multi_job, spec_count_true, spec_stride_set, worker_for_task,
};
