//! The task manager: the job registry and the execution pipeline.
//!
//! The manager owns a registry of job statuses keyed by opaque job
//! identifiers.  `start_task` plans a job and registers its initial status;
//! `start_multi_project_task` registers a sequential multi-project job;
//! `get_status` looks a job up.  The surrounding process wraps one manager
//! in a reader/writer lock, spawns the workers, and reports events through
//! the per-event methods (`file_begin`, `file_done`, and their project
//! counterparts), each of which applies exactly one
//! [`ImportStatus`](crate::progress::ImportStatus) transition to the job it
//! names; `run_job` and `run_multi_job` are the sequential embodiment of
//! that pipeline, verified end to end against the task outcomes they are
//! handed.
//!
//! The registry would otherwise grow for the life of the process, so it
//! keeps at most [`MAX_TRACKED_JOBS`] entries and evicts the oldest when a
//! new job arrives beyond that.

use vstd::prelude::*;
use vstd::arithmetic::div_mod::lemma_mod_bound;

use crate::errors::SyncError;
use crate::fraction::Fraction;
use crate::ids::fresh_uuid_string;
use crate::planner::{FileMeta, FileTask, ImportParams, plan_sync, spec_plan};
use crate::progress::{ImportStatus, ImportStatusModel, ProjectProgressModel, ProjectStatus, Stage, StageDetailModel, ThreadProgressModel};
use crate::settings::Project;

verus! {

/// How many finished or running jobs the registry keeps before evicting
/// the oldest.
pub const MAX_TRACKED_JOBS: usize = 1024;

/// First registered job with the given identifier, if any.
pub open spec fn spec_find_job(jobs: Seq<ImportStatusModel>, id: Seq<char>) -> Option<int>
    decreases jobs.len(),
{
    if jobs.len() == 0 {
        None
    } else if jobs[0].task_id == id {
        Some(0int)
    } else {
        match spec_find_job(jobs.drop_first(), id) {
            Some(i) => Some(i + 1),
            None => None,
        }
    }
}

/// The status registered under the given identifier, if any.
pub open spec fn spec_get_status(jobs: Seq<ImportStatusModel>, id: Seq<char>) -> Option<
    ImportStatusModel,
> {
    match spec_find_job(jobs, id) {
        Some(i) => Some(jobs[i]),
        None => None,
    }
}

/// What `spec_find_job` returns: the first index whose id matches, or
/// nothing when no index matches.
pub proof fn lemma_find_job_characterization(jobs: Seq<ImportStatusModel>, id: Seq<char>)
    ensures
        match spec_find_job(jobs, id) {
            Some(i) => 0 <= i < jobs.len() && jobs[i].task_id == id && forall|j: int|
                0 <= j < i ==> jobs[j].task_id != id,
            None => forall|j: int| 0 <= j < jobs.len() ==> jobs[j].task_id != id,
        },
    decreases jobs.len(),
{
    if jobs.len() > 0 && jobs[0].task_id != id {
        lemma_find_job_characterization(jobs.drop_first(), id);
        assert(forall|j: int| 1 <= j < jobs.len() ==> jobs[j] == jobs.drop_first()[j - 1]);
    }
}

/// A first match at index `i` pins `spec_find_job` down.
pub proof fn lemma_find_job_at(jobs: Seq<ImportStatusModel>, id: Seq<char>, i: int)
    requires
        0 <= i < jobs.len(),
        jobs[i].task_id == id,
        forall|j: int| 0 <= j < i ==> jobs[j].task_id != id,
    ensures
        spec_find_job(jobs, id) == Some(i),
{
    lemma_find_job_characterization(jobs, id);
    match spec_find_job(jobs, id) {
        Some(i0) => {
            if i0 < i {
                assert(jobs[i0].task_id != id);
            } else if i0 > i {
                assert(jobs[i].task_id != id);
            }
        },
        None => {
            assert(jobs[i].task_id != id);
        },
    }
}

/// The job registry.
pub struct ImportTaskManager {
    jobs: Vec<ImportStatus>,
}

impl View for ImportTaskManager {
    type V = Seq<ImportStatusModel>;

    closed spec fn view(&self) -> Seq<ImportStatusModel> {
        self.jobs.deep_view()
    }
}

impl Default for ImportTaskManager {
    /// A registry that tracks no job yet.
    fn default() -> (r: ImportTaskManager)
        ensures
            r@.len() == 0,
    {
        let r = ImportTaskManager { jobs: Vec::new() };
        proof {
            assert(r@ =~= Seq::<ImportStatusModel>::empty());
        }
        r
    }
}

impl ImportTaskManager {
    /// A registry that tracks no job yet.
    pub fn new() -> (r: ImportTaskManager)
        ensures
            r@.len() == 0,
    {
        Self::default()
    }

    /// The registry index of the job with this identifier.
    fn find_job_index(&self, task_id: &String) -> (r: Option<usize>)
        ensures
            match r {
                Some(i) => i < self@.len() && spec_find_job(self@, task_id@) == Some(i as int),
                None => spec_find_job(self@, task_id@) is None,
            },
    {
        let n = self.jobs.len();
        let mut i: usize = 0;
        while i < n
            invariant
                i <= n,
                n == self.jobs@.len(),
                forall|j: int| 0 <= j < i ==> (#[trigger] self.jobs@[j])@.task_id != task_id@,
            decreases n - i,
        {
            if self.jobs[i].task_id == *task_id {
                proof {
                    lemma_find_job_at(self@, task_id@, i as int);
                }
                return Some(i);
            }
            i = i + 1;
        }
        proof {
            lemma_find_job_characterization(self@, task_id@);
            if spec_find_job(self@, task_id@) is Some {
                let i0 = spec_find_job(self@, task_id@)->0;
                assert(self@[i0].task_id != task_id@);
            }
        }
        None
    }

    /// Look a job's status up.
    pub fn get_status(&self, task_id: &String) -> (r: Option<&ImportStatus>)
        ensures
            match r {
                Some(st) => spec_get_status(self@, task_id@) == Some(st@),
                None => spec_get_status(self@, task_id@) is None,
            },
    {
        match self.find_job_index(task_id) {
            Some(i) => Some(&self.jobs[i]),
            None => None,
        }
    }

    /// Report to the registered job that a worker started on a file; an
    /// unknown identifier changes nothing.
    pub fn file_begin(&mut self, task_id: &String, thread_id: usize, file: String, size: u64)
        ensures
            match spec_find_job(old(self)@, task_id@) {
                Some(i) => final(self)@ == old(self)@.update(
                    i,
                    old(self)@[i].spec_file_begin(thread_id as int, file@, size),
                ),
                None => final(self)@ == old(self)@,
            },
    {
        let ghost pre = self@;
        let ghost fv = file@;
        match self.find_job_index(task_id) {
            Some(i) => {
                let job = &mut self.jobs[i];
                job.on_file_begin(thread_id, file, size);
                proof {
                    assert(self@ =~= pre.update(
                        i as int,
                        pre[i as int].spec_file_begin(thread_id as int, fv, size),
                    ));
                }
            },
            None => {
                proof {
                    assert(self@ =~= pre);
                }
            },
        }
    }

    /// Report to the registered job that a worker finished a file of a
    /// single-source job.  An unknown identifier changes nothing; so does a
    /// success that would push the counter past the total, which a
    /// well-driven job never produces.
    pub fn file_done(&mut self, task_id: &String, thread_id: usize, success: bool, size: u64)
        ensures
            match spec_find_job(old(self)@, task_id@) {
                Some(i) => if !success || old(self)@[i].processed_files < old(
                    self,
                )@[i].total_files {
                    final(self)@ == old(self)@.update(
                        i,
                        old(self)@[i].spec_file_done(thread_id as int, success, size),
                    )
                } else {
                    final(self)@ == old(self)@
                },
                None => final(self)@ == old(self)@,
            },
    {
        let ghost pre = self@;
        match self.find_job_index(task_id) {
            Some(i) => {
                let job = &mut self.jobs[i];
                if !success || job.processed_files < job.total_files {
                    job.on_file_done(thread_id, success, size);
                    proof {
                        assert(self@ =~= pre.update(
                            i as int,
                            pre[i as int].spec_file_done(thread_id as int, success, size),
                        ));
                    }
                } else {
                    proof {
                        assert(self@ =~= pre);
                    }
                }
            },
            None => {
                proof {
                    assert(self@ =~= pre);
                }
            },
        }
    }

    /// Report to the registered job that all its workers returned.
    pub fn job_finished(&mut self, task_id: &String)
        ensures
            match spec_find_job(old(self)@, task_id@) {
                Some(i) => final(self)@ == old(self)@.update(
                    i,
                    old(self)@[i].spec_job_finished(),
                ),
                None => final(self)@ == old(self)@,
            },
    {
        let ghost pre = self@;
        match self.find_job_index(task_id) {
            Some(i) => {
                let job = &mut self.jobs[i];
                job.on_job_finished();
                proof {
                    assert(self@ =~= pre.update(i as int, pre[i as int].spec_job_finished()));
                }
            },
            None => {
                proof {
                    assert(self@ =~= pre);
                }
            },
        }
    }

    /// Report to the registered job that a multi-project run turned to its
    /// next project.
    pub fn project_start(&mut self, task_id: &String, project_idx: usize, name: String)
        ensures
            match spec_find_job(old(self)@, task_id@) {
                Some(i) => final(self)@ == old(self)@.update(
                    i,
                    old(self)@[i].spec_project_start(project_idx as int, name@),
                ),
                None => final(self)@ == old(self)@,
            },
    {
        let ghost pre = self@;
        let ghost nv = name@;
        match self.find_job_index(task_id) {
            Some(i) => {
                let job = &mut self.jobs[i];
                job.on_project_start(project_idx, name);
                proof {
                    assert(self@ =~= pre.update(
                        i as int,
                        pre[i as int].spec_project_start(project_idx as int, nv),
                    ));
                }
            },
            None => {
                proof {
                    assert(self@ =~= pre);
                }
            },
        }
    }

    /// Report a project's plan to the registered job.  A task count that
    /// would overflow the job-wide total changes nothing; a well-driven job
    /// never produces one.
    pub fn project_planned(&mut self, task_id: &String, project_idx: usize, n_tasks: usize)
        ensures
            match spec_find_job(old(self)@, task_id@) {
                Some(i) => if old(self)@[i].total_files + n_tasks <= usize::MAX {
                    final(self)@ == old(self)@.update(
                        i,
                        old(self)@[i].spec_project_planned(project_idx as int, n_tasks),
                    )
                } else {
                    final(self)@ == old(self)@
                },
                None => final(self)@ == old(self)@,
            },
    {
        let ghost pre = self@;
        match self.find_job_index(task_id) {
            Some(i) => {
                let job = &mut self.jobs[i];
                if job.total_files <= usize::MAX - n_tasks {
                    job.on_project_planned(project_idx, n_tasks);
                    proof {
                        assert(self@ =~= pre.update(
                            i as int,
                            pre[i as int].spec_project_planned(project_idx as int, n_tasks),
                        ));
                    }
                } else {
                    proof {
                        assert(self@ =~= pre);
                    }
                }
            },
            None => {
                proof {
                    assert(self@ =~= pre);
                }
            },
        }
    }

    /// Report to the registered job that a project's plan step failed.
    pub fn project_plan_failed(&mut self, task_id: &String, project_idx: usize)
        ensures
            match spec_find_job(old(self)@, task_id@) {
                Some(i) => final(self)@ == old(self)@.update(
                    i,
                    old(self)@[i].spec_project_plan_failed(project_idx as int),
                ),
                None => final(self)@ == old(self)@,
            },
    {
        let ghost pre = self@;
        match self.find_job_index(task_id) {
            Some(i) => {
                let job = &mut self.jobs[i];
                job.on_project_plan_failed(project_idx);
                proof {
                    assert(self@ =~= pre.update(
                        i as int,
                        pre[i as int].spec_project_plan_failed(project_idx as int),
                    ));
                }
            },
            None => {
                proof {
                    assert(self@ =~= pre);
                }
            },
        }
    }

    /// Report to the registered job that a worker finished a file of one
    /// project in a multi-project run.  A success that would push a counter
    /// past its total changes nothing; a well-driven job never produces
    /// one.
    pub fn project_file_done(
        &mut self,
        task_id: &String,
        project_idx: usize,
        thread_id: usize,
        success: bool,
        size: u64,
    )
        ensures
            match spec_find_job(old(self)@, task_id@) {
                Some(i) => if !success || (old(self)@[i].processed_files < old(
                    self,
                )@[i].total_files && (project_idx >= old(self)@[i].projects.len() || old(
                    self,
                )@[i].projects[project_idx as int].processed_files < old(
                    self,
                )@[i].projects[project_idx as int].total_files)) {
                    final(self)@ == old(self)@.update(
                        i,
                        old(self)@[i].spec_project_file_done(
                            project_idx as int,
                            thread_id as int,
                            success,
                            size,
                        ),
                    )
                } else {
                    final(self)@ == old(self)@
                },
                None => final(self)@ == old(self)@,
            },
    {
        let ghost pre = self@;
        match self.find_job_index(task_id) {
            Some(i) => {
                let job = &mut self.jobs[i];
                let global_ok = job.processed_files < job.total_files;
                let project_ok = if project_idx < job.project_progress.len() {
                    let p = &job.project_progress[project_idx];
                    p.processed_files < p.total_files
                } else {
                    true
                };
                if !success || (global_ok && project_ok) {
                    job.on_project_file_done(project_idx, thread_id, success, size);
                    proof {
                        assert(self@ =~= pre.update(
                            i as int,
                            pre[i as int].spec_project_file_done(
                                project_idx as int,
                                thread_id as int,
                                success,
                                size,
                            ),
                        ));
                    }
                } else {
                    proof {
                        assert(self@ =~= pre);
                    }
                }
            },
            None => {
                proof {
                    assert(self@ =~= pre);
                }
            },
        }
    }

    /// Report to the registered job that all workers of one project
    /// returned.
    pub fn project_completed(&mut self, task_id: &String, project_idx: usize)
        ensures
            match spec_find_job(old(self)@, task_id@) {
                Some(i) => final(self)@ == old(self)@.update(
                    i,
                    old(self)@[i].spec_project_completed(project_idx as int),
                ),
                None => final(self)@ == old(self)@,
            },
    {
        let ghost pre = self@;
        match self.find_job_index(task_id) {
            Some(i) => {
                let job = &mut self.jobs[i];
                job.on_project_completed(project_idx);
                proof {
                    assert(self@ =~= pre.update(
                        i as int,
                        pre[i as int].spec_project_completed(project_idx as int),
                    ));
                }
            },
            None => {
                proof {
                    assert(self@ =~= pre);
                }
            },
        }
    }

    /// Report to the registered job that every project of a multi-project
    /// run has been driven.
    pub fn multi_finished(&mut self, task_id: &String)
        ensures
            match spec_find_job(old(self)@, task_id@) {
                Some(i) => final(self)@ == old(self)@.update(
                    i,
                    old(self)@[i].spec_multi_finished(),
                ),
                None => final(self)@ == old(self)@,
            },
    {
        let ghost pre = self@;
        match self.find_job_index(task_id) {
            Some(i) => {
                let job = &mut self.jobs[i];
                job.on_multi_finished();
                proof {
                    assert(self@ =~= pre.update(i as int, pre[i as int].spec_multi_finished()));
                }
            },
            None => {
                proof {
                    assert(self@ =~= pre);
                }
            },
        }
    }

    /// Put a status into the registry: replace the entry with the same
    /// identifier if one exists, append otherwise, evicting the oldest
    /// entry when the registry is full.
    fn register_job(&mut self, status: ImportStatus)
        ensures
            match spec_find_job(old(self)@, status@.task_id) {
                Some(i) => final(self)@ == old(self)@.update(i, status@),
                None => if old(self)@.len() < MAX_TRACKED_JOBS {
                    final(self)@ == old(self)@.push(status@)
                } else {
                    final(self)@ == old(self)@.subrange(1, old(self)@.len() as int).push(status@)
                },
            },
    {
        let ghost pre = self@;
        let ghost stm = status@;
        match self.find_job_index(&status.task_id) {
            Some(i) => {
                self.jobs[i] = status;
                proof {
                    assert(self@ =~= pre.update(i as int, stm));
                }
            },
            None => {
                if self.jobs.len() >= MAX_TRACKED_JOBS {
                    self.jobs.remove(0);
                    proof {
                        assert(self.jobs.deep_view() =~= pre.subrange(1, pre.len() as int));
                    }
                }
                let ghost mid = self@;
                self.jobs.push(status);
                proof {
                    assert(self@ =~= mid.push(stm));
                }
            },
        }
    }

    /// After registering a fresh status, the registry answers for its id.
    proof fn lemma_registered_found(pre: Seq<ImportStatusModel>, post: Seq<ImportStatusModel>, stm: ImportStatusModel)
        requires
            match spec_find_job(pre, stm.task_id) {
                Some(i) => post == pre.update(i, stm),
                None => if pre.len() < MAX_TRACKED_JOBS {
                    post == pre.push(stm)
                } else {
                    post == pre.subrange(1, pre.len() as int).push(stm)
                },
            },
        ensures
            spec_get_status(post, stm.task_id) == Some(stm),
    {
        lemma_find_job_characterization(pre, stm.task_id);
        match spec_find_job(pre, stm.task_id) {
            Some(i) => {
                lemma_find_job_at(post, stm.task_id, i);
            },
            None => {
                if pre.len() < MAX_TRACKED_JOBS {
                    lemma_find_job_at(post, stm.task_id, pre.len() as int);
                } else {
                    assert(forall|j: int|
                        0 <= j < post.len() - 1 ==> post[j] == pre[j + 1]);
                    lemma_find_job_at(post, stm.task_id, pre.len() - 1);
                }
            },
        }
    }

    /// Plan a synchronization job and register it.  On success the job's
    /// identifier and its task list come back: the status starts in the
    /// scanning stage with one idle slot per requested worker, and the
    /// caller executes the tasks, reporting each through the status
    /// transitions.  A source root that is not a directory rejects the
    /// request and registers nothing.
    pub fn start_task(
        &mut self,
        params: &ImportParams,
        input_is_dir: bool,
        source_files: &Vec<FileMeta>,
        dest_files: &Vec<FileMeta>,
    ) -> (r: Result<(String, Vec<FileTask>), SyncError>)
        ensures
            match r {
                Ok(id_tasks) => {
                    &&& input_is_dir
                    &&& id_tasks.0@.len() == 36
                    &&& id_tasks.1.deep_view() == spec_plan(
                        params.input_path@,
                        params.output_path@,
                        params.exclude_dirs.deep_view(),
                        source_files@,
                        dest_files@,
                    )
                    &&& spec_get_status(final(self)@, id_tasks.0@) == Some(
                        ImportStatusModel::spec_new_single(
                            id_tasks.0@,
                            params.thread_count as int,
                            id_tasks.1@.len() as usize,
                        ),
                    )
                },
                Err(e) => {
                    &&& !input_is_dir
                    &&& e == SyncError::InvalidInput
                    &&& final(self)@ == old(self)@
                },
            },
    {
        let ghost pre = self@;
        let tasks = match plan_sync(params, input_is_dir, source_files, dest_files) {
            Ok(t) => t,
            Err(e) => {
                return Err(e);
            },
        };
        let id = fresh_uuid_string();
        let status = ImportStatus::new_single(id.clone(), params.thread_count, tasks.len());
        let ghost stm = status@;
        self.register_job(status);
        proof {
            Self::lemma_registered_found(pre, self@, stm);
        }
        Ok((id, tasks))
    }

    /// Register a multi-project job: one waiting progress entry per
    /// project, to be driven strictly in sequence by the caller through the
    /// status transitions.
    pub fn start_multi_project_task(&mut self, projects: &Vec<Project>, thread_count: usize) -> (id:
        String)
        ensures
            id@.len() == 36,
            spec_get_status(final(self)@, id@) == Some(
                ImportStatusModel::spec_new_multi(id@, thread_count as int, projects.deep_view()),
            ),
    {
        let ghost pre = self@;
        let id = fresh_uuid_string();
        let status = ImportStatus::new_multi(id.clone(), thread_count, projects);
        let ghost stm = status@;
        self.register_job(status);
        proof {
            Self::lemma_registered_found(pre, self@, stm);
        }
        id
    }
}

/// How many of the outcomes report success.
pub open spec fn spec_count_true(s: Seq<bool>) -> int
    decreases s.len(),
{
    if s.len() == 0 {
        0
    } else {
        spec_count_true(s.drop_last()) + if s.last() {
            1int
        } else {
            0int
        }
    }
}

/// A success count never exceeds the number of outcomes.
pub proof fn lemma_count_true_bounds(s: Seq<bool>)
    ensures
        0 <= spec_count_true(s) <= s.len(),
    decreases s.len(),
{
    if s.len() > 0 {
        lemma_count_true_bounds(s.drop_last());
    }
}

/// The set of task indices worker `k` claims under static index-striping
/// with `t` workers over `m` tasks: `{k, k+t, k+2t, …}` capped at `m`.
pub open spec fn spec_stride_set(k: int, t: int, m: int) -> Set<int> {
    Set::new(|i: int| 0 <= i < m && i % t == k)
}

/// The strides partition the work: every task index lies in the stride of
/// exactly one worker — the one it is dispatched to — and no stride holds
/// an index outside the task range.
pub proof fn lemma_strides_partition(t: int, m: int)
    requires
        1 <= t,
        0 <= m,
    ensures
        forall|i: int|
            0 <= i < m ==> spec_stride_set(#[trigger] (i % t), t, m).contains(i) && 0 <= i % t < t,
        forall|k: int, i: int|
            #[trigger] spec_stride_set(k, t, m).contains(i) ==> 0 <= i < m && i % t == k,
        forall|k1: int, k2: int, i: int|
            spec_stride_set(k1, t, m).contains(i) && spec_stride_set(k2, t, m).contains(i)
                ==> k1 == k2,
{
    assert forall|i: int| 0 <= i < m implies spec_stride_set(#[trigger] (i % t), t, m).contains(i)
        && 0 <= i % t < t by {
        lemma_mod_bound(i, t);
    }
}

/// The worker that task `index` is dispatched to.
pub fn worker_for_task(index: usize, thread_count: usize) -> (k: usize)
    requires
        thread_count >= 1,
    ensures
        k == index as int % thread_count as int,
        k < thread_count,
        spec_stride_set(k as int, thread_count as int, index as int + 1).contains(index as int),
{
    proof {
        lemma_mod_bound(index as int, thread_count as int);
    }
    index % thread_count
}

/// Drive one planned job to the end, sequentially: for each task, in index
/// order, the dispatched worker's slot opens on the file and closes with
/// its outcome; then the job finishes.  The final status counts exactly the
/// successful tasks — failures are dropped from the accounting, which is
/// why the processed counter can fall short of the total even though the
/// job finishes.
pub fn run_job(
    status: &mut ImportStatus,
    tasks: &Vec<FileTask>,
    sizes: &Vec<u64>,
    outcomes: &Vec<bool>,
    thread_count: usize,
)
    requires
        thread_count >= 1,
        sizes@.len() == tasks@.len(),
        outcomes@.len() == tasks@.len(),
        old(status)@.threads.len() == thread_count,
        old(status).total_files == tasks@.len(),
        old(status).processed_files == 0,
    ensures
        final(status)@.stage == Stage::Finished,
        final(status)@.processed_files == spec_count_true(outcomes@),
        final(status)@.processed_files <= final(status)@.total_files,
        final(status)@.total_files == tasks@.len(),
        final(status)@.progress == Fraction::spec_one(),
        final(status)@.threads.len() == thread_count,
        forall|k: int|
            0 <= k < thread_count ==> (#[trigger] final(status)@.threads[k]).progress
                == Fraction::spec_one() && final(status)@.threads[k].current_file is None,
        final(status)@.task_id == old(status)@.task_id,
        final(status)@.projects == old(status)@.projects,
        final(status)@.current_project == old(status)@.current_project,
        spec_count_true(outcomes@) > 0 ==> final(status)@.detail == (StageDetailModel::Copying {
            processed: spec_count_true(outcomes@) as usize,
            total: tasks@.len() as usize,
        }),
        spec_count_true(outcomes@) == 0 ==> final(status)@.detail == old(status)@.detail,
{
    let ghost pre = *status;
    let m = tasks.len();
    proof {
        assert(outcomes@.take(0) =~= Seq::<bool>::empty());
    }
    let mut i: usize = 0;
    while i < m
        invariant
            i <= m,
            m == tasks@.len(),
            m == sizes@.len(),
            m == outcomes@.len(),
            thread_count >= 1,
            status@.threads.len() == thread_count,
            status@.total_files == m,
            status@.processed_files == spec_count_true(outcomes@.take(i as int)),
            status@.task_id == pre@.task_id,
            status@.projects == pre@.projects,
            status@.current_project == pre@.current_project,
            spec_count_true(outcomes@.take(i as int)) > 0 ==> status@.detail
                == (StageDetailModel::Copying {
                processed: spec_count_true(outcomes@.take(i as int)) as usize,
                total: m,
            }),
            spec_count_true(outcomes@.take(i as int)) == 0 ==> status@.detail == pre@.detail,
        decreases m - i,
    {
        proof {
            assert(outcomes@.take(i + 1).drop_last() =~= outcomes@.take(i as int));
            assert(outcomes@.take(i + 1).last() == outcomes@[i as int]);
            lemma_count_true_bounds(outcomes@.take(i as int));
        }
        let t = &tasks[i];
        let size = sizes[i];
        let outcome = outcomes[i];
        let tid = worker_for_task(i, thread_count);
        status.on_file_begin(tid, t.input.clone(), size);
        status.on_file_done(tid, outcome, size);
        i = i + 1;
    }
    proof {
        assert(outcomes@.take(m as int) =~= outcomes@);
        lemma_count_true_bounds(outcomes@);
    }
    status.on_job_finished();
}

/// What the driver of one project of a multi-project job was handed: either
/// its plan step failed, or it was planned and every task ran with the
/// recorded size and outcome.
pub enum ProjectRun {
    PlanFailed,
    Planned { tasks: Vec<FileTask>, sizes: Vec<u64>, outcomes: Vec<bool> },
}

impl ProjectRun {
    /// Whether the listing lengths agree.
    pub open spec fn wf(self) -> bool {
        match self {
            ProjectRun::PlanFailed => true,
            ProjectRun::Planned { tasks, sizes, outcomes } => sizes@.len() == tasks@.len()
                && outcomes@.len() == tasks@.len(),
        }
    }

    /// How many tasks this project contributed to the job-wide total.
    pub open spec fn spec_total(self) -> int {
        match self {
            ProjectRun::PlanFailed => 0,
            ProjectRun::Planned { tasks, .. } => tasks@.len() as int,
        }
    }

    /// How many of this project's tasks succeeded.
    pub open spec fn spec_success(self) -> int {
        match self {
            ProjectRun::PlanFailed => 0,
            ProjectRun::Planned { outcomes, .. } => spec_count_true(outcomes@),
        }
    }
}

/// The final progress entry of one project, given what its driver was
/// handed and the entry it started from: failed when its plan failed,
/// completed with full progress and its own counts otherwise.
pub open spec fn spec_project_final(
    run: ProjectRun,
    before: ProjectProgressModel,
) -> ProjectProgressModel {
    match run {
        ProjectRun::PlanFailed => ProjectProgressModel {
            status: ProjectStatus::Failed,
            ..before
        },
        ProjectRun::Planned { tasks, sizes, outcomes } => ProjectProgressModel {
            status: ProjectStatus::Completed,
            progress: Fraction::spec_one(),
            total_files: tasks@.len() as usize,
            processed_files: spec_count_true(outcomes@) as usize,
            ..before
        },
    }
}

/// Sum of the projects' task counts.
pub open spec fn spec_run_total(runs: Seq<ProjectRun>) -> int
    decreases runs.len(),
{
    if runs.len() == 0 {
        0
    } else {
        spec_run_total(runs.drop_last()) + runs.last().spec_total()
    }
}

/// Sum of the projects' success counts.
pub open spec fn spec_run_success(runs: Seq<ProjectRun>) -> int
    decreases runs.len(),
{
    if runs.len() == 0 {
        0
    } else {
        spec_run_success(runs.drop_last()) + runs.last().spec_success()
    }
}

/// Successes never outnumber tasks, and a prefix never outnumbers the
/// whole.
pub proof fn lemma_run_sums(runs: Seq<ProjectRun>)
    requires
        forall|k: int| 0 <= k < runs.len() ==> (#[trigger] runs[k]).wf(),
    ensures
        0 <= spec_run_success(runs) <= spec_run_total(runs),
        forall|p: int|
            0 <= p <= runs.len() ==> spec_run_total(#[trigger] runs.take(p)) <= spec_run_total(runs)
                && 0 <= spec_run_success(runs.take(p)) <= spec_run_total(runs.take(p)),
    decreases runs.len(),
{
    if runs.len() > 0 {
        assert(forall|k: int|
            0 <= k < runs.len() - 1 ==> runs.drop_last()[k] == runs[k]);
        lemma_run_sums(runs.drop_last());
        assert(runs[runs.len() - 1].wf());
        match runs.last() {
            ProjectRun::PlanFailed => {},
            ProjectRun::Planned { tasks, sizes, outcomes } => {
                lemma_count_true_bounds(outcomes@);
            },
        }
        assert forall|p: int|
            0 <= p <= runs.len() implies spec_run_total(#[trigger] runs.take(p)) <= spec_run_total(
            runs,
        ) && 0 <= spec_run_success(runs.take(p)) <= spec_run_total(runs.take(p)) by {
            if p == runs.len() {
                assert(runs.take(p) =~= runs);
            } else {
                assert(runs.drop_last().take(p) =~= runs.take(p));
                assert(spec_run_total(runs.drop_last().take(p)) <= spec_run_total(
                    runs.drop_last(),
                ));
            }
        }
    }
}

/// Drive a whole multi-project job to the end, sequentially: each project
/// in turn is marked processing, then either marked failed (when its plan
/// step failed) or executed like a single job while both its own and the
/// job-wide counters advance; at the end the job is finished.  A failed
/// project never aborts the run: the remaining projects are still driven
/// and the job still finishes.
pub fn run_multi_job(status: &mut ImportStatus, runs: &Vec<ProjectRun>, thread_count: usize)
    requires
        thread_count >= 1,
        old(status)@.threads.len() == thread_count,
        old(status)@.projects.len() == runs@.len(),
        old(status).total_files == 0,
        old(status).processed_files == 0,
        forall|k: int|
            0 <= k < runs@.len() ==> (#[trigger] old(status)@.projects[k]).total_files == 0 && old(
                status,
            )@.projects[k].processed_files == 0,
        forall|k: int| 0 <= k < runs@.len() ==> (#[trigger] runs@[k]).wf(),
        spec_run_total(runs@) <= usize::MAX,
    ensures
        final(status)@.stage == Stage::Finished,
        final(status)@.progress == Fraction::spec_one(),
        final(status)@.detail == StageDetailModel::Done,
        final(status)@.current_project is None,
        final(status)@.total_files == spec_run_total(runs@),
        final(status)@.processed_files == spec_run_success(runs@),
        final(status)@.processed_files <= final(status)@.total_files,
        final(status)@.threads.len() == thread_count,
        forall|k: int|
            0 <= k < thread_count ==> (#[trigger] final(status)@.threads[k]).progress
                == Fraction::spec_one() && final(status)@.threads[k].current_file is None,
        final(status)@.projects.len() == runs@.len(),
        forall|k: int|
            0 <= k < runs@.len() ==> final(status)@.projects[k] == spec_project_final(
                runs@[k],
                old(status)@.projects[k],
            ),
        final(status)@.task_id == old(status)@.task_id,
{
    let ghost pre = *status;
    let r_count = runs.len();
    proof {
        assert(runs@.take(0) =~= Seq::<ProjectRun>::empty());
        lemma_run_sums(runs@);
    }
    let mut p: usize = 0;
    while p < r_count
        invariant
            p <= r_count,
            r_count == runs@.len(),
            thread_count >= 1,
            status@.threads.len() == thread_count,
            status@.projects.len() == r_count,
            status@.total_files == spec_run_total(runs@.take(p as int)),
            status@.processed_files == spec_run_success(runs@.take(p as int)),
            status@.task_id == pre@.task_id,
            forall|k: int|
                0 <= k < p ==> status@.projects[k] == spec_project_final(
                    #[trigger] runs@[k],
                    pre@.projects[k],
                ),
            forall|k: int| p <= k < r_count ==> status@.projects[k] == pre@.projects[k],
            forall|k: int|
                0 <= k < r_count ==> (#[trigger] pre@.projects[k]).total_files == 0
                    && pre@.projects[k].processed_files == 0,
            forall|k: int| 0 <= k < r_count ==> (#[trigger] runs@[k]).wf(),
            spec_run_total(runs@) <= usize::MAX,
        decreases r_count - p,
    {
        proof {
            assert(runs@.take(p + 1).drop_last() =~= runs@.take(p as int));
            assert(runs@.take(p + 1).last() == runs@[p as int]);
            lemma_run_sums(runs@);
        }
        let ghost loop_pre = *status;
        let name = {
            proof {
                assert(status.project_progress@.len() == r_count);
            }
            status.project_progress[p].project_name.clone()
        };
        status.on_project_start(p, name);
        match &runs[p] {
            ProjectRun::PlanFailed => {
                status.on_project_plan_failed(p);
            },
            ProjectRun::Planned { tasks, sizes, outcomes } => {
                let m = tasks.len();
                proof {
                    assert(runs@[p as int].spec_total() == m);
                    assert(spec_run_total(runs@.take(p + 1)) <= spec_run_total(runs@));
                }
                status.on_project_planned(p, m);
                proof {
                    assert(outcomes@.take(0) =~= Seq::<bool>::empty());
                }
                let mut i: usize = 0;
                while i < m
                    invariant
                        i <= m,
                        m == tasks@.len(),
                        m == sizes@.len(),
                        m == outcomes@.len(),
                        thread_count >= 1,
                        p < r_count,
                        r_count == runs@.len(),
                        status@.threads.len() == thread_count,
                        status@.projects.len() == r_count,
                        status@.total_files == spec_run_total(runs@.take(p as int)) + m,
                        status@.processed_files == spec_run_success(runs@.take(p as int))
                            + spec_count_true(outcomes@.take(i as int)),
                        status@.task_id == loop_pre@.task_id,
                        status@.projects[p as int].project_id
                            == loop_pre@.projects[p as int].project_id,
                        status@.projects[p as int].project_name
                            == loop_pre@.projects[p as int].project_name,
                        status@.projects[p as int].status == ProjectStatus::Processing,
                        status@.projects[p as int].total_files == m,
                        status@.projects[p as int].processed_files == spec_count_true(
                            outcomes@.take(i as int),
                        ),
                        forall|k: int|
                            0 <= k < r_count && k != p ==> status@.projects[k]
                                == loop_pre@.projects[k],
                        spec_run_success(runs@.take(p as int)) <= spec_run_total(
                            runs@.take(p as int),
                        ),
                    decreases m - i,
                {
                    proof {
                        assert(outcomes@.take(i + 1).drop_last() =~= outcomes@.take(i as int));
                        assert(outcomes@.take(i + 1).last() == outcomes@[i as int]);
                        lemma_count_true_bounds(outcomes@.take(i as int));
                    }
                    let t = &tasks[i];
                    let size = sizes[i];
                    let outcome = outcomes[i];
                    let tid = worker_for_task(i, thread_count);
                    status.on_file_begin(tid, t.input.clone(), size);
                    status.on_project_file_done(p, tid, outcome, size);
                    i = i + 1;
                }
                proof {
                    assert(outcomes@.take(m as int) =~= outcomes@);
                }
                status.on_project_completed(p);
            },
        }
        proof {
            assert(status@.projects[p as int] =~= spec_project_final(
                runs@[p as int],
                pre@.projects[p as int],
            ));
            assert(forall|k: int|
                0 <= k < r_count && k != p ==> status@.projects[k]
                    == loop_pre@.projects[k]);
        }
        p = p + 1;
    }
    proof {
        assert(runs@.take(r_count as int) =~= runs@);
    }
    status.on_multi_finished();
}

} // verus!
