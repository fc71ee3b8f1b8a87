//! Job status: the externally visible progress aggregate and its
//! transitions.
//!
//! An [`ImportStatus`] is the full snapshot an observer sees: the job's
//! stage, one progress slot per worker, per-project progress in
//! multi-project mode, and the file counters.  Every mutation of a status is
//! one of the transition methods here, each specified exactly against the
//! mathematical model [`ImportStatusModel`]; the surrounding process decides
//! only *when* to fire a transition, never *what* it does.

use vstd::prelude::*;

use crate::fraction::Fraction;
use crate::settings::{Project, ProjectModel};

verus! {

/// The coarse phase of a job.
#[derive(Clone, Copy, Debug, PartialEq, Eq, Structural)]
pub enum Stage {
    Scanning,
    Copying,
    Finished,
}

/// The lifecycle of one project inside a multi-project job.  A project only
/// ever moves waiting → processing → completed or failed.
#[derive(Clone, Copy, Debug, PartialEq, Eq, Structural)]
pub enum ProjectStatus {
    Waiting,
    Processing,
    Completed,
    Failed,
}

/// The structured form of the human-readable stage line; observers render
/// it themselves.
#[derive(Clone, Debug, PartialEq)]
pub enum StageDetail {
    Preparing,
    Scanning { total: usize },
    Copying { processed: usize, total: usize },
    ProcessingProject { name: String },
    Done,
}

/// The mathematical shadow of a [`StageDetail`].
#[verifier::ext_equal]
pub enum StageDetailModel {
    Preparing,
    Scanning { total: usize },
    Copying { processed: usize, total: usize },
    ProcessingProject { name: Seq<char> },
    Done,
}

impl View for StageDetail {
    type V = StageDetailModel;

    open spec fn view(&self) -> StageDetailModel {
        match self {
            StageDetail::Preparing => StageDetailModel::Preparing,
            StageDetail::Scanning { total } => StageDetailModel::Scanning { total: *total },
            StageDetail::Copying { processed, total } => StageDetailModel::Copying {
                processed: *processed,
                total: *total,
            },
            StageDetail::ProcessingProject { name } => StageDetailModel::ProcessingProject {
                name: name@,
            },
            StageDetail::Done => StageDetailModel::Done,
        }
    }
}

/// One worker slot's progress.
#[derive(Clone, Debug)]
pub struct ThreadProgress {
    pub thread_id: usize,
    pub current_file: Option<String>,
    pub current_size: u64,
    pub processed_size: u64,
    pub progress: Fraction,
}

/// The mathematical shadow of a [`ThreadProgress`].
#[verifier::ext_equal]
pub struct ThreadProgressModel {
    pub thread_id: usize,
    pub current_file: Option<Seq<char>>,
    pub current_size: u64,
    pub processed_size: u64,
    pub progress: Fraction,
}

impl View for ThreadProgress {
    type V = ThreadProgressModel;

    open spec fn view(&self) -> ThreadProgressModel {
        ThreadProgressModel {
            thread_id: self.thread_id,
            current_file: self.current_file.deep_view(),
            current_size: self.current_size,
            processed_size: self.processed_size,
            progress: self.progress,
        }
    }
}

impl DeepView for ThreadProgress {
    type V = ThreadProgressModel;

    open spec fn deep_view(&self) -> ThreadProgressModel {
        self.view()
    }
}

/// One project's progress inside a multi-project job.
#[derive(Clone, Debug)]
pub struct ProjectProgress {
    pub project_id: String,
    pub project_name: String,
    pub progress: Fraction,
    pub status: ProjectStatus,
    pub total_files: usize,
    pub processed_files: usize,
}

/// The mathematical shadow of a [`ProjectProgress`].
#[verifier::ext_equal]
pub struct ProjectProgressModel {
    pub project_id: Seq<char>,
    pub project_name: Seq<char>,
    pub progress: Fraction,
    pub status: ProjectStatus,
    pub total_files: usize,
    pub processed_files: usize,
}

impl View for ProjectProgress {
    type V = ProjectProgressModel;

    open spec fn view(&self) -> ProjectProgressModel {
        ProjectProgressModel {
            project_id: self.project_id@,
            project_name: self.project_name@,
            progress: self.progress,
            status: self.status,
            total_files: self.total_files,
            processed_files: self.processed_files,
        }
    }
}

impl DeepView for ProjectProgress {
    type V = ProjectProgressModel;

    open spec fn deep_view(&self) -> ProjectProgressModel {
        self.view()
    }
}

/// The externally visible snapshot of one job.
#[derive(Clone, Debug)]
pub struct ImportStatus {
    pub task_id: String,
    pub stage: Stage,
    pub progress: Fraction,
    pub threads: Vec<ThreadProgress>,
    pub current_project: Option<String>,
    pub project_progress: Vec<ProjectProgress>,
    pub current_stage_detail: StageDetail,
    pub total_files: usize,
    pub processed_files: usize,
}

/// The mathematical shadow of an [`ImportStatus`].
#[verifier::ext_equal]
pub struct ImportStatusModel {
    pub task_id: Seq<char>,
    pub stage: Stage,
    pub progress: Fraction,
    pub threads: Seq<ThreadProgressModel>,
    pub current_project: Option<Seq<char>>,
    pub projects: Seq<ProjectProgressModel>,
    pub detail: StageDetailModel,
    pub total_files: usize,
    pub processed_files: usize,
}

impl View for ImportStatus {
    type V = ImportStatusModel;

    open spec fn view(&self) -> ImportStatusModel {
        ImportStatusModel {
            task_id: self.task_id@,
            stage: self.stage,
            progress: self.progress,
            threads: self.threads.deep_view(),
            current_project: self.current_project.deep_view(),
            projects: self.project_progress.deep_view(),
            detail: self.current_stage_detail@,
            total_files: self.total_files,
            processed_files: self.processed_files,
        }
    }
}

impl DeepView for ImportStatus {
    type V = ImportStatusModel;

    open spec fn deep_view(&self) -> ImportStatusModel {
        self.view()
    }
}

impl ImportStatusModel {
    /// A worker slot before it has touched any file.
    pub open spec fn spec_idle_slot(k: int) -> ThreadProgressModel {
        ThreadProgressModel {
            thread_id: k as usize,
            current_file: None,
            current_size: 0,
            processed_size: 0,
            progress: Fraction::spec_zero(),
        }
    }

    /// A project's progress entry before its turn comes.
    pub open spec fn spec_waiting_project(p: ProjectModel) -> ProjectProgressModel {
        ProjectProgressModel {
            project_id: p.id,
            project_name: p.name,
            progress: Fraction::spec_zero(),
            status: ProjectStatus::Waiting,
            total_files: 0,
            processed_files: 0,
        }
    }

    /// The freshly registered status of a single-source job.
    pub open spec fn spec_new_single(
        task_id: Seq<char>,
        thread_count: int,
        total_files: usize,
    ) -> ImportStatusModel {
        ImportStatusModel {
            task_id,
            stage: Stage::Scanning,
            progress: Fraction::spec_zero(),
            threads: Seq::new(thread_count as nat, |k: int| Self::spec_idle_slot(k)),
            current_project: None,
            projects: Seq::empty(),
            detail: StageDetailModel::Scanning { total: total_files },
            total_files,
            processed_files: 0,
        }
    }

    /// The freshly registered status of a multi-project job.
    pub open spec fn spec_new_multi(
        task_id: Seq<char>,
        thread_count: int,
        projects: Seq<ProjectModel>,
    ) -> ImportStatusModel {
        ImportStatusModel {
            task_id,
            stage: Stage::Scanning,
            progress: Fraction::spec_zero(),
            threads: Seq::new(thread_count as nat, |k: int| Self::spec_idle_slot(k)),
            current_project: None,
            projects: Seq::new(projects.len(), |k: int| Self::spec_waiting_project(projects[k])),
            detail: StageDetailModel::Preparing,
            total_files: 0,
            processed_files: 0,
        }
    }

    /// A worker starts on a file: the job is copying, and the worker's slot
    /// shows the file with zero progress.  A slot index beyond the pool
    /// leaves the slots untouched.
    pub open spec fn spec_file_begin(
        self,
        thread_id: int,
        file: Seq<char>,
        size: u64,
    ) -> ImportStatusModel {
        let base = ImportStatusModel { stage: Stage::Copying, ..self };
        if 0 <= thread_id < self.threads.len() {
            ImportStatusModel {
                threads: self.threads.update(
                    thread_id,
                    ThreadProgressModel {
                        thread_id: thread_id as usize,
                        current_file: Some(file),
                        current_size: size,
                        processed_size: 0,
                        progress: Fraction::spec_zero(),
                    },
                ),
                ..base
            }
        } else {
            base
        }
    }

    /// A worker finished a file in a single-source job.  On success the
    /// slot fills, the job-wide counter and ratio advance and the stage
    /// line records them; on failure the slot drops to zero and the
    /// counters stand still — the file is gone from the accounting.
    pub open spec fn spec_file_done(
        self,
        thread_id: int,
        success: bool,
        size: u64,
    ) -> ImportStatusModel {
        if 0 <= thread_id < self.threads.len() {
            let slot = self.threads[thread_id];
            if success {
                let p = (self.processed_files + 1) as usize;
                ImportStatusModel {
                    threads: self.threads.update(
                        thread_id,
                        ThreadProgressModel {
                            processed_size: size,
                            progress: Fraction::spec_one(),
                            ..slot
                        },
                    ),
                    processed_files: p,
                    progress: Fraction::spec_of(p as int, self.total_files as int),
                    detail: StageDetailModel::Copying { processed: p, total: self.total_files },
                    ..self
                }
            } else {
                ImportStatusModel {
                    threads: self.threads.update(
                        thread_id,
                        ThreadProgressModel {
                            processed_size: 0,
                            progress: Fraction::spec_zero(),
                            ..slot
                        },
                    ),
                    ..self
                }
            }
        } else {
            self
        }
    }

    /// A single-source job ran out of work: the stage is finished, the
    /// ratio is full, and every slot is cleared to full progress with no
    /// current file.
    pub open spec fn spec_job_finished(self) -> ImportStatusModel {
        ImportStatusModel {
            stage: Stage::Finished,
            progress: Fraction::spec_one(),
            threads: Seq::new(
                self.threads.len(),
                |k: int| ThreadProgressModel {
                    current_file: None,
                    progress: Fraction::spec_one(),
                    ..self.threads[k]
                },
            ),
            ..self
        }
    }

    /// A multi-project job turns to its next project.
    pub open spec fn spec_project_start(self, project_idx: int, name: Seq<char>) -> ImportStatusModel {
        let base = ImportStatusModel {
            current_project: Some(name),
            detail: StageDetailModel::ProcessingProject { name },
            ..self
        };
        if 0 <= project_idx < self.projects.len() {
            ImportStatusModel {
                projects: self.projects.update(
                    project_idx,
                    ProjectProgressModel {
                        status: ProjectStatus::Processing,
                        ..self.projects[project_idx]
                    },
                ),
                ..base
            }
        } else {
            base
        }
    }

    /// A project's plan arrived: its task count joins the job-wide total.
    pub open spec fn spec_project_planned(self, project_idx: int, n_tasks: usize) -> ImportStatusModel {
        let base = ImportStatusModel {
            total_files: (self.total_files + n_tasks) as usize,
            ..self
        };
        if 0 <= project_idx < self.projects.len() {
            ImportStatusModel {
                projects: self.projects.update(
                    project_idx,
                    ProjectProgressModel { total_files: n_tasks, ..self.projects[project_idx] },
                ),
                ..base
            }
        } else {
            base
        }
    }

    /// A project's plan step failed: the project is marked failed and the
    /// job moves on — one bad project never aborts the whole run.
    pub open spec fn spec_project_plan_failed(self, project_idx: int) -> ImportStatusModel {
        if 0 <= project_idx < self.projects.len() {
            ImportStatusModel {
                projects: self.projects.update(
                    project_idx,
                    ProjectProgressModel {
                        status: ProjectStatus::Failed,
                        ..self.projects[project_idx]
                    },
                ),
                ..self
            }
        } else {
            self
        }
    }

    /// A worker finished a file of project `project_idx` in a multi-project
    /// job: like [`Self::spec_file_done`], but the project's own counter
    /// and ratio advance as well.
    pub open spec fn spec_project_file_done(
        self,
        project_idx: int,
        thread_id: int,
        success: bool,
        size: u64,
    ) -> ImportStatusModel {
        let with_counters = if success {
            let gp = (self.processed_files + 1) as usize;
            let projects2 = if 0 <= project_idx < self.projects.len() {
                let p = self.projects[project_idx];
                let pp = (p.processed_files + 1) as usize;
                self.projects.update(
                    project_idx,
                    ProjectProgressModel {
                        processed_files: pp,
                        progress: Fraction::spec_of(pp as int, p.total_files as int),
                        ..p
                    },
                )
            } else {
                self.projects
            };
            ImportStatusModel {
                projects: projects2,
                processed_files: gp,
                progress: Fraction::spec_of(gp as int, self.total_files as int),
                detail: StageDetailModel::Copying { processed: gp, total: self.total_files },
                ..self
            }
        } else {
            self
        };
        if 0 <= thread_id < self.threads.len() {
            let slot = self.threads[thread_id];
            let new_slot = if success {
                ThreadProgressModel { processed_size: size, progress: Fraction::spec_one(), ..slot }
            } else {
                ThreadProgressModel { processed_size: 0, progress: Fraction::spec_zero(), ..slot }
            };
            ImportStatusModel {
                threads: with_counters.threads.update(thread_id, new_slot),
                ..with_counters
            }
        } else {
            with_counters
        }
    }

    /// All workers of one project returned: the project is completed and
    /// its ratio full.
    pub open spec fn spec_project_completed(self, project_idx: int) -> ImportStatusModel {
        if 0 <= project_idx < self.projects.len() {
            ImportStatusModel {
                projects: self.projects.update(
                    project_idx,
                    ProjectProgressModel {
                        status: ProjectStatus::Completed,
                        progress: Fraction::spec_one(),
                        ..self.projects[project_idx]
                    },
                ),
                ..self
            }
        } else {
            self
        }
    }

    /// Every project of a multi-project job has been driven: the job is
    /// finished, the ratio full, the stage line done, and every slot
    /// cleared.
    pub open spec fn spec_multi_finished(self) -> ImportStatusModel {
        ImportStatusModel {
            stage: Stage::Finished,
            progress: Fraction::spec_one(),
            current_project: None,
            detail: StageDetailModel::Done,
            threads: Seq::new(
                self.threads.len(),
                |k: int| ThreadProgressModel {
                    current_file: None,
                    progress: Fraction::spec_one(),
                    ..self.threads[k]
                },
            ),
            ..self
        }
    }
}

/// A vector with one idle worker slot per worker.
fn idle_slots(thread_count: usize) -> (r: Vec<ThreadProgress>)
    ensures
        r.deep_view() == Seq::new(
            thread_count as nat,
            |k: int| ImportStatusModel::spec_idle_slot(k),
        ),
{
    let mut threads: Vec<ThreadProgress> = Vec::new();
    let mut k: usize = 0;
    while k < thread_count
        invariant
            k <= thread_count,
            threads@.len() == k,
            forall|j: int|
                0 <= j < k ==> threads.deep_view()[j] == ImportStatusModel::spec_idle_slot(j),
        decreases thread_count - k,
    {
        threads.push(
            ThreadProgress {
                thread_id: k,
                current_file: None,
                current_size: 0,
                processed_size: 0,
                progress: Fraction::zero(),
            },
        );
        k = k + 1;
    }
    proof {
        assert(threads.deep_view() =~~= Seq::new(
            thread_count as nat,
            |k: int| ImportStatusModel::spec_idle_slot(k),
        ));
    }
    threads
}

impl ImportStatus {
    /// The freshly registered status of a single-source job: scanning, no
    /// progress, one idle slot per worker.
    pub fn new_single(task_id: String, thread_count: usize, total_files: usize) -> (r: ImportStatus)
        ensures
            r@ == ImportStatusModel::spec_new_single(task_id@, thread_count as int, total_files),
    {
        let r = ImportStatus {
            task_id,
            stage: Stage::Scanning,
            progress: Fraction::zero(),
            threads: idle_slots(thread_count),
            current_project: None,
            project_progress: Vec::new(),
            current_stage_detail: StageDetail::Scanning { total: total_files },
            total_files,
            processed_files: 0,
        };
        proof {
            assert(r@ =~~= ImportStatusModel::spec_new_single(
                r.task_id@,
                thread_count as int,
                total_files,
            ));
        }
        r
    }

    /// The freshly registered status of a multi-project job: scanning, no
    /// progress, one idle slot per worker, one waiting entry per project.
    pub fn new_multi(task_id: String, thread_count: usize, projects: &Vec<Project>) -> (r:
        ImportStatus)
        ensures
            r@ == ImportStatusModel::spec_new_multi(
                task_id@,
                thread_count as int,
                projects.deep_view(),
            ),
    {
        let mut pp: Vec<ProjectProgress> = Vec::new();
        let n = projects.len();
        let mut i: usize = 0;
        while i < n
            invariant
                i <= n,
                n == projects@.len(),
                pp@.len() == i,
                forall|j: int|
                    0 <= j < i ==> (#[trigger] pp@[j])@ == ImportStatusModel::spec_waiting_project(
                        projects@[j]@,
                    ),
            decreases n - i,
        {
            let p = &projects[i];
            let ghost pp_before = pp@;
            pp.push(
                ProjectProgress {
                    project_id: p.id.clone(),
                    project_name: p.name.clone(),
                    progress: Fraction::zero(),
                    status: ProjectStatus::Waiting,
                    total_files: 0,
                    processed_files: 0,
                },
            );
            proof {
                assert(pp@[i as int]@ =~~= ImportStatusModel::spec_waiting_project(
                    projects@[i as int]@,
                ));
                assert(forall|j: int| 0 <= j < i ==> pp@[j] == pp_before[j]);
            }
            i = i + 1;
        }
        let r = ImportStatus {
            task_id,
            stage: Stage::Scanning,
            progress: Fraction::zero(),
            threads: idle_slots(thread_count),
            current_project: None,
            project_progress: pp,
            current_stage_detail: StageDetail::Preparing,
            total_files: 0,
            processed_files: 0,
        };
        proof {
            assert(r@ =~~= ImportStatusModel::spec_new_multi(
                r.task_id@,
                thread_count as int,
                projects.deep_view(),
            ));
        }
        r
    }

    /// A worker starts on a file.
    pub fn on_file_begin(&mut self, thread_id: usize, file: String, size: u64)
        ensures
            final(self)@ == old(self)@.spec_file_begin(thread_id as int, file@, size),
    {
        let ghost pre = *self;
        let ghost file_view = file@;
        self.stage = Stage::Copying;
        if thread_id < self.threads.len() {
            self.threads[thread_id] = ThreadProgress {
                thread_id,
                current_file: Some(file),
                current_size: size,
                processed_size: 0,
                progress: Fraction::zero(),
            };
        }
        proof {
            assert(self@ =~~= pre@.spec_file_begin(thread_id as int, file_view, size));
        }
    }

    /// A worker finished a file in a single-source job.
    pub fn on_file_done(&mut self, thread_id: usize, success: bool, size: u64)
        requires
            success ==> old(self).processed_files < old(self).total_files,
        ensures
            final(self)@ == old(self)@.spec_file_done(thread_id as int, success, size),
    {
        let ghost pre = *self;
        if thread_id < self.threads.len() {
            let slot = &self.threads[thread_id];
            if success {
                let new_slot = ThreadProgress {
                    thread_id: slot.thread_id,
                    current_file: match &slot.current_file {
                        Some(s) => Some(s.clone()),
                        None => None,
                    },
                    current_size: slot.current_size,
                    processed_size: size,
                    progress: Fraction::one(),
                };
                self.threads[thread_id] = new_slot;
                self.processed_files = self.processed_files + 1;
                self.progress = Fraction::of(self.processed_files, self.total_files);
                self.current_stage_detail = StageDetail::Copying {
                    processed: self.processed_files,
                    total: self.total_files,
                };
            } else {
                let new_slot = ThreadProgress {
                    thread_id: slot.thread_id,
                    current_file: match &slot.current_file {
                        Some(s) => Some(s.clone()),
                        None => None,
                    },
                    current_size: slot.current_size,
                    processed_size: 0,
                    progress: Fraction::zero(),
                };
                self.threads[thread_id] = new_slot;
            }
        }
        proof {
            assert(self@ =~~= pre@.spec_file_done(thread_id as int, success, size));
        }
    }

    /// Clear every slot to full progress with no current file.
    fn clear_slots(&mut self)
        ensures
            final(self)@ == (ImportStatusModel {
                threads: Seq::new(
                    old(self)@.threads.len(),
                    |k: int| ThreadProgressModel {
                        current_file: None,
                        progress: Fraction::spec_one(),
                        ..old(self)@.threads[k]
                    },
                ),
                ..old(self)@
            }),
    {
        let ghost pre = *self;
        let n = self.threads.len();
        let mut k: usize = 0;
        while k < n
            invariant
                k <= n,
                n == self.threads@.len(),
                n == pre.threads@.len(),
                self.task_id == pre.task_id,
                self.stage == pre.stage,
                self.progress == pre.progress,
                self.current_project == pre.current_project,
                self.project_progress == pre.project_progress,
                self.current_stage_detail == pre.current_stage_detail,
                self.total_files == pre.total_files,
                self.processed_files == pre.processed_files,
                forall|j: int|
                    0 <= j < k ==> (#[trigger] self.threads@[j])@ == (ThreadProgressModel {
                        current_file: None,
                        progress: Fraction::spec_one(),
                        ..pre.threads@[j]@
                    }),
                forall|j: int| k <= j < n ==> self.threads@[j] == pre.threads@[j],
            decreases n - k,
        {
            let slot = &self.threads[k];
            let new_slot = ThreadProgress {
                thread_id: slot.thread_id,
                current_file: None,
                current_size: slot.current_size,
                processed_size: slot.processed_size,
                progress: Fraction::one(),
            };
            let ghost threads_before = self.threads@;
            self.threads[k] = new_slot;
            proof {
                assert(threads_before[k as int] == pre.threads@[k as int]);
                assert(self.threads@[k as int]@ =~~= (ThreadProgressModel {
                    current_file: None,
                    progress: Fraction::spec_one(),
                    ..pre.threads@[k as int]@
                }));
                assert(forall|j: int|
                    0 <= j < n && j != k ==> self.threads@[j] == threads_before[j]);
            }
            k = k + 1;
        }
        proof {
            assert(self@ =~~= (ImportStatusModel {
                threads: Seq::new(
                    pre@.threads.len(),
                    |k: int| ThreadProgressModel {
                        current_file: None,
                        progress: Fraction::spec_one(),
                        ..pre@.threads[k]
                    },
                ),
                ..pre@
            }));
        }
    }

    /// A single-source job ran out of work.
    pub fn on_job_finished(&mut self)
        ensures
            final(self)@ == old(self)@.spec_job_finished(),
    {
        let ghost pre = *self;
        self.stage = Stage::Finished;
        self.progress = Fraction::one();
        self.clear_slots();
        proof {
            assert(self@ =~~= pre@.spec_job_finished());
        }
    }

    /// A multi-project job turns to its next project.
    pub fn on_project_start(&mut self, project_idx: usize, name: String)
        ensures
            final(self)@ == old(self)@.spec_project_start(project_idx as int, name@),
    {
        let ghost pre = *self;
        let ghost name_view = name@;
        self.current_project = Some(name.clone());
        self.current_stage_detail = StageDetail::ProcessingProject { name };
        if project_idx < self.project_progress.len() {
            let p = &self.project_progress[project_idx];
            let new_p = ProjectProgress {
                project_id: p.project_id.clone(),
                project_name: p.project_name.clone(),
                progress: p.progress,
                status: ProjectStatus::Processing,
                total_files: p.total_files,
                processed_files: p.processed_files,
            };
            self.project_progress[project_idx] = new_p;
        }
        proof {
            assert(self@ =~~= pre@.spec_project_start(project_idx as int, name_view));
        }
    }

    /// A project's plan arrived.
    pub fn on_project_planned(&mut self, project_idx: usize, n_tasks: usize)
        requires
            old(self).total_files + n_tasks <= usize::MAX,
        ensures
            final(self)@ == old(self)@.spec_project_planned(project_idx as int, n_tasks),
    {
        let ghost pre = *self;
        self.total_files = self.total_files + n_tasks;
        if project_idx < self.project_progress.len() {
            let p = &self.project_progress[project_idx];
            let new_p = ProjectProgress {
                project_id: p.project_id.clone(),
                project_name: p.project_name.clone(),
                progress: p.progress,
                status: p.status,
                total_files: n_tasks,
                processed_files: p.processed_files,
            };
            self.project_progress[project_idx] = new_p;
        }
        proof {
            assert(self@ =~~= pre@.spec_project_planned(project_idx as int, n_tasks));
        }
    }

    /// A project's plan step failed.
    pub fn on_project_plan_failed(&mut self, project_idx: usize)
        ensures
            final(self)@ == old(self)@.spec_project_plan_failed(project_idx as int),
    {
        let ghost pre = *self;
        if project_idx < self.project_progress.len() {
            let p = &self.project_progress[project_idx];
            let new_p = ProjectProgress {
                project_id: p.project_id.clone(),
                project_name: p.project_name.clone(),
                progress: p.progress,
                status: ProjectStatus::Failed,
                total_files: p.total_files,
                processed_files: p.processed_files,
            };
            self.project_progress[project_idx] = new_p;
        }
        proof {
            assert(self@ =~~= pre@.spec_project_plan_failed(project_idx as int));
        }
    }

    /// A worker finished a file of one project in a multi-project job.
    pub fn on_project_file_done(
        &mut self,
        project_idx: usize,
        thread_id: usize,
        success: bool,
        size: u64,
    )
        requires
            success ==> old(self).processed_files < old(self).total_files,
            success && project_idx < old(self).project_progress@.len()
                ==> old(self)@.projects[project_idx as int].processed_files < old(
                self,
            )@.projects[project_idx as int].total_files,
        ensures
            final(self)@ == old(self)@.spec_project_file_done(
                project_idx as int,
                thread_id as int,
                success,
                size,
            ),
    {
        let ghost pre = *self;
        if success {
            if project_idx < self.project_progress.len() {
                let p = &self.project_progress[project_idx];
                let new_p = ProjectProgress {
                    project_id: p.project_id.clone(),
                    project_name: p.project_name.clone(),
                    progress: Fraction::of(p.processed_files + 1, p.total_files),
                    status: p.status,
                    total_files: p.total_files,
                    processed_files: p.processed_files + 1,
                };
                self.project_progress[project_idx] = new_p;
            }
            self.processed_files = self.processed_files + 1;
            self.progress = Fraction::of(self.processed_files, self.total_files);
            self.current_stage_detail = StageDetail::Copying {
                processed: self.processed_files,
                total: self.total_files,
            };
        }
        if thread_id < self.threads.len() {
            let slot = &self.threads[thread_id];
            let new_slot = if success {
                ThreadProgress {
                    thread_id: slot.thread_id,
                    current_file: match &slot.current_file {
                        Some(s) => Some(s.clone()),
                        None => None,
                    },
                    current_size: slot.current_size,
                    processed_size: size,
                    progress: Fraction::one(),
                }
            } else {
                ThreadProgress {
                    thread_id: slot.thread_id,
                    current_file: match &slot.current_file {
                        Some(s) => Some(s.clone()),
                        None => None,
                    },
                    current_size: slot.current_size,
                    processed_size: 0,
                    progress: Fraction::zero(),
                }
            };
            self.threads[thread_id] = new_slot;
        }
        proof {
            assert(self@ =~~= pre@.spec_project_file_done(
                project_idx as int,
                thread_id as int,
                success,
                size,
            ));
        }
    }

    /// All workers of one project returned.
    pub fn on_project_completed(&mut self, project_idx: usize)
        ensures
            final(self)@ == old(self)@.spec_project_completed(project_idx as int),
    {
        let ghost pre = *self;
        if project_idx < self.project_progress.len() {
            let p = &self.project_progress[project_idx];
            let new_p = ProjectProgress {
                project_id: p.project_id.clone(),
                project_name: p.project_name.clone(),
                progress: Fraction::one(),
                status: ProjectStatus::Completed,
                total_files: p.total_files,
                processed_files: p.processed_files,
            };
            self.project_progress[project_idx] = new_p;
        }
        proof {
            assert(self@ =~~= pre@.spec_project_completed(project_idx as int));
        }
    }

    /// Every project of a multi-project job has been driven.
    pub fn on_multi_finished(&mut self)
        ensures
            final(self)@ == old(self)@.spec_multi_finished(),
    {
        let ghost pre = *self;
        self.stage = Stage::Finished;
        self.progress = Fraction::one();
        self.current_project = None;
        self.current_stage_detail = StageDetail::Done;
        self.clear_slots();
        proof {
            assert(self@ =~~= pre@.spec_multi_finished());
        }
    }
}

} // verus!
