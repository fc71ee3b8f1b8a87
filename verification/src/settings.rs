//! Projects, application settings, and the pure parts of the configuration
//! commands.
//!
//! Persistence — reading and writing the settings file — happens outside the
//! library; these functions carry the decision logic of each command and
//! state exactly how the settings change.

use vstd::prelude::*;

use crate::errors::SyncError;
use crate::ids::fresh_uuid_string;

verus! {

/// A named source path plus its exclusion rules, synchronizable on its own
/// or as one step of a multi-project job.
#[derive(Clone, Debug)]
pub struct Project {
    pub id: String,
    pub name: String,
    pub input_path: String,
    pub exclude_patterns: Vec<String>,
}

/// The mathematical shadow of a [`Project`].
#[verifier::ext_equal]
pub struct ProjectModel {
    pub id: Seq<char>,
    pub name: Seq<char>,
    pub input_path: Seq<char>,
    pub exclude_patterns: Seq<Seq<char>>,
}

impl View for Project {
    type V = ProjectModel;

    open spec fn view(&self) -> ProjectModel {
        ProjectModel {
            id: self.id@,
            name: self.name@,
            input_path: self.input_path@,
            exclude_patterns: self.exclude_patterns.deep_view(),
        }
    }
}

impl DeepView for Project {
    type V = ProjectModel;

    open spec fn deep_view(&self) -> ProjectModel {
        self.view()
    }
}

/// One entry of the destination library's file listing, with whatever tag
/// metadata could be read from it.  The listing itself — walking the
/// library and reading tags — happens outside the library; this is the
/// shape it hands back.
#[derive(Clone, Debug)]
pub struct FileInfo {
    pub path: String,
    pub name: String,
    pub size: u64,
    pub artist: Option<String>,
    pub album: Option<String>,
    pub duration: Option<u64>,
}

/// The application's persisted settings.
#[derive(Clone, Debug)]
pub struct AppSettings {
    pub library_path: Option<String>,
    pub max_threads: usize,
    pub exclude_patterns: Vec<String>,
    pub last_input_path: Option<String>,
    pub last_output_path: Option<String>,
    pub projects: Vec<Project>,
}

/// The mathematical shadow of [`AppSettings`].
#[verifier::ext_equal]
pub struct AppSettingsModel {
    pub library_path: Option<Seq<char>>,
    pub max_threads: usize,
    pub exclude_patterns: Seq<Seq<char>>,
    pub last_input_path: Option<Seq<char>>,
    pub last_output_path: Option<Seq<char>>,
    pub projects: Seq<ProjectModel>,
}

impl View for AppSettings {
    type V = AppSettingsModel;

    open spec fn view(&self) -> AppSettingsModel {
        AppSettingsModel {
            library_path: self.library_path.deep_view(),
            max_threads: self.max_threads,
            exclude_patterns: self.exclude_patterns.deep_view(),
            last_input_path: self.last_input_path.deep_view(),
            last_output_path: self.last_output_path.deep_view(),
            projects: self.projects.deep_view(),
        }
    }
}

impl Default for AppSettings {
    /// Fresh settings: no library path, no patterns, no projects, and the
    /// thread-count fallback used when the machine's parallelism is unknown.
    fn default() -> (r: AppSettings)
        ensures
            r@.library_path is None,
            r@.max_threads == 4,
            r@.exclude_patterns.len() == 0,
            r@.last_input_path is None,
            r@.last_output_path is None,
            r@.projects.len() == 0,
    {
        AppSettings {
            library_path: None,
            max_threads: 4,
            exclude_patterns: Vec::new(),
            last_input_path: None,
            last_output_path: None,
            projects: Vec::new(),
        }
    }
}

/// The default worker count, given the machine's available parallelism when
/// it could be determined: that parallelism, the fallback of 4 otherwise,
/// and at least 1 in every case.
pub fn default_max_threads(available: Option<usize>) -> (r: usize)
    ensures
        r == (match available {
            Some(n) => if n >= 1 { n } else { 1 },
            None => 4usize,
        }),
        r >= 1,
{
    match available {
        Some(n) => if n >= 1 {
            n
        } else {
            1
        },
        None => 4,
    }
}

/// A copy of a vector of strings, element for element.
fn clone_string_vec(v: &Vec<String>) -> (r: Vec<String>)
    ensures
        r.deep_view() == v.deep_view(),
{
    let mut r: Vec<String> = Vec::new();
    let n = v.len();
    let mut i: usize = 0;
    while i < n
        invariant
            i <= n,
            n == v@.len(),
            r@.len() == i,
            forall|j: int| 0 <= j < i ==> r@[j] == v@[j],
        decreases n - i,
    {
        r.push(v[i].clone());
        i = i + 1;
    }
    proof {
        assert(r.deep_view() =~= v.deep_view());
    }
    r
}

/// A copy of a project, field for field.
fn clone_project(p: &Project) -> (r: Project)
    ensures
        r@ == p@,
{
    let r = Project {
        id: p.id.clone(),
        name: p.name.clone(),
        input_path: p.input_path.clone(),
        exclude_patterns: clone_string_vec(&p.exclude_patterns),
    };
    proof {
        assert(r@ =~= p@);
    }
    r
}

/// Point the library at a destination root.
pub fn set_library_path(settings: &mut AppSettings, path: String)
    ensures
        final(settings)@ == (AppSettingsModel { library_path: Some(path@), ..old(settings)@ }),
{
    let ghost pre = *settings;
    settings.library_path = Some(path);
    proof {
        assert(settings@ =~= (AppSettingsModel { library_path: settings@.library_path, ..pre@ }));
    }
}

/// Replace the global exclusion patterns.
pub fn set_exclude_patterns(settings: &mut AppSettings, patterns: Vec<String>)
    ensures
        final(settings)@ == (AppSettingsModel {
            exclude_patterns: patterns.deep_view(),
            ..old(settings)@
        }),
{
    let ghost pre = *settings;
    let ghost pats = patterns.deep_view();
    settings.exclude_patterns = patterns;
    proof {
        assert(settings@ =~= (AppSettingsModel { exclude_patterns: pats, ..pre@ }));
    }
}

/// Set the default worker count; zero is rejected and changes nothing.
pub fn set_max_threads(settings: &mut AppSettings, threads: usize) -> (r: Result<(), SyncError>)
    ensures
        threads == 0 ==> r == Err::<(), SyncError>(SyncError::InvalidInput) && *final(settings)
            == *old(settings),
        threads >= 1 ==> r == Ok::<(), SyncError>(()) && final(settings)@ == (AppSettingsModel {
            max_threads: threads,
            ..old(settings)@
        }),
{
    if threads == 0 {
        return Err(SyncError::InvalidInput);
    }
    let ghost pre = *settings;
    settings.max_threads = threads;
    proof {
        assert(settings@ =~= (AppSettingsModel { max_threads: threads, ..pre@ }));
    }
    Ok(())
}

/// Merge a partial update into the settings: optional fields replace the
/// stored ones only when present, a zero thread count and an empty pattern
/// list are ignored, and the project list is never touched by this command.
pub fn update_settings(settings: &mut AppSettings, update: AppSettings)
    ensures
        final(settings)@ == (AppSettingsModel {
            library_path: if update@.library_path is Some {
                update@.library_path
            } else {
                old(settings)@.library_path
            },
            max_threads: if update.max_threads > 0 {
                update@.max_threads
            } else {
                old(settings)@.max_threads
            },
            exclude_patterns: if update@.exclude_patterns.len() > 0 {
                update@.exclude_patterns
            } else {
                old(settings)@.exclude_patterns
            },
            last_input_path: if update@.last_input_path is Some {
                update@.last_input_path
            } else {
                old(settings)@.last_input_path
            },
            last_output_path: if update@.last_output_path is Some {
                update@.last_output_path
            } else {
                old(settings)@.last_output_path
            },
            projects: old(settings)@.projects,
        }),
{
    let ghost pre = *settings;
    let ghost up = update@;
    let AppSettings {
        library_path: u_library,
        max_threads: u_threads,
        exclude_patterns: u_patterns,
        last_input_path: u_last_in,
        last_output_path: u_last_out,
        projects: _,
    } = update;
    if let Some(lp) = u_library {
        settings.library_path = Some(lp);
    }
    if u_threads > 0 {
        settings.max_threads = u_threads;
    }
    if u_patterns.len() > 0 {
        settings.exclude_patterns = u_patterns;
    }
    if let Some(ip) = u_last_in {
        settings.last_input_path = Some(ip);
    }
    if let Some(op) = u_last_out {
        settings.last_output_path = Some(op);
    }
    proof {
        assert(settings@ =~= (AppSettingsModel {
            library_path: if up.library_path is Some {
                up.library_path
            } else {
                pre@.library_path
            },
            max_threads: if up.max_threads > 0 {
                up.max_threads
            } else {
                pre@.max_threads
            },
            exclude_patterns: if up.exclude_patterns.len() > 0 {
                up.exclude_patterns
            } else {
                pre@.exclude_patterns
            },
            last_input_path: if up.last_input_path is Some {
                up.last_input_path
            } else {
                pre@.last_input_path
            },
            last_output_path: if up.last_output_path is Some {
                up.last_output_path
            } else {
                pre@.last_output_path
            },
            projects: pre@.projects,
        }));
    }
}

/// First project with the given identifier, if any.
pub open spec fn spec_find_project(projects: Seq<ProjectModel>, id: Seq<char>) -> Option<int>
    decreases projects.len(),
{
    if projects.len() == 0 {
        None
    } else if projects[0].id == id {
        Some(0int)
    } else {
        match spec_find_project(projects.drop_first(), id) {
            Some(i) => Some(i + 1),
            None => None,
        }
    }
}

/// What `spec_find_project` returns: the first index whose id matches, or
/// nothing when no index matches.
pub proof fn lemma_find_project_characterization(projects: Seq<ProjectModel>, id: Seq<char>)
    ensures
        match spec_find_project(projects, id) {
            Some(i) => 0 <= i < projects.len() && projects[i].id == id && forall|j: int|
                0 <= j < i ==> projects[j].id != id,
            None => forall|j: int| 0 <= j < projects.len() ==> projects[j].id != id,
        },
    decreases projects.len(),
{
    if projects.len() > 0 && projects[0].id != id {
        lemma_find_project_characterization(projects.drop_first(), id);
        assert(forall|j: int| 1 <= j < projects.len() ==> projects[j] == projects.drop_first()[j - 1]);
    }
}

/// Register a new project under a fresh identifier and return it.
pub fn create_project(
    settings: &mut AppSettings,
    name: String,
    input_path: String,
    exclude_patterns: Vec<String>,
) -> (r: Project)
    ensures
        r@.id.len() == 36,
        r@.name == name@,
        r@.input_path == input_path@,
        r@.exclude_patterns == exclude_patterns.deep_view(),
        final(settings)@ == (AppSettingsModel {
            projects: old(settings)@.projects.push(r@),
            ..old(settings)@
        }),
{
    let ghost pre = *settings;
    let id = fresh_uuid_string();
    let project = Project { id, name, input_path, exclude_patterns };
    let stored = clone_project(&project);
    settings.projects.push(stored);
    proof {
        assert(settings@ =~= (AppSettingsModel { projects: pre@.projects.push(project@), ..pre@ }));
    }
    project
}

/// The projects that survive deleting the given identifier, in stored order.
pub open spec fn spec_retained_projects(
    projects: Seq<ProjectModel>,
    id: Seq<char>,
) -> Seq<ProjectModel> {
    projects.filter(|p: ProjectModel| p.id != id)
}

proof fn lemma_retained_step(s: Seq<ProjectModel>, x: ProjectModel, id: Seq<char>)
    ensures
        spec_retained_projects(s.push(x), id) == (if x.id != id {
            spec_retained_projects(s, id).push(x)
        } else {
            spec_retained_projects(s, id)
        }),
{
    reveal(Seq::filter);
    assert(s.push(x).drop_last() =~= s);
    assert(s.push(x).last() == x);
}

/// Drop every project with the given identifier.
pub fn delete_project(settings: &mut AppSettings, project_id: &String)
    ensures
        final(settings)@ == (AppSettingsModel {
            projects: spec_retained_projects(old(settings)@.projects, project_id@),
            ..old(settings)@
        }),
{
    let ghost pre = *settings;
    let mut kept: Vec<Project> = Vec::new();
    let n = settings.projects.len();
    proof {
        reveal(Seq::filter);
        assert(pre@.projects.take(0) =~= Seq::<ProjectModel>::empty());
        assert(kept.deep_view() =~= spec_retained_projects(pre@.projects.take(0), project_id@));
    }
    let mut i: usize = 0;
    while i < n
        invariant
            i <= n,
            n == settings.projects@.len(),
            *settings == pre,
            kept.deep_view() == spec_retained_projects(pre@.projects.take(i as int), project_id@),
        decreases n - i,
    {
        proof {
            assert(pre@.projects.take(i + 1) =~= pre@.projects.take(i as int).push(
                pre@.projects[i as int],
            ));
            lemma_retained_step(pre@.projects.take(i as int), pre@.projects[i as int], project_id@);
        }
        let p = &settings.projects[i];
        proof {
            assert(pre@.projects[i as int] == p@);
        }
        if !(p.id == *project_id) {
            let ghost before = kept.deep_view();
            kept.push(clone_project(p));
            proof {
                assert(kept.deep_view() =~= before.push(p@));
            }
        }
        i = i + 1;
    }
    proof {
        assert(pre@.projects.take(n as int) =~= pre@.projects);
    }
    settings.projects = kept;
    proof {
        assert(settings@ =~= (AppSettingsModel {
            projects: spec_retained_projects(pre@.projects, project_id@),
            ..pre@
        }));
    }
}

/// The merged form of one project after a partial update.
pub open spec fn spec_apply_project_update(
    p: ProjectModel,
    name: Option<Seq<char>>,
    input_path: Option<Seq<char>>,
    exclude_patterns: Option<Seq<Seq<char>>>,
) -> ProjectModel {
    ProjectModel {
        id: p.id,
        name: match name {
            Some(n) => n,
            None => p.name,
        },
        input_path: match input_path {
            Some(x) => x,
            None => p.input_path,
        },
        exclude_patterns: match exclude_patterns {
            Some(e) => e,
            None => p.exclude_patterns,
        },
    }
}

/// Update the first project with the given identifier, field by field; an
/// unknown identifier is rejected and changes nothing.
pub fn update_project(
    settings: &mut AppSettings,
    project_id: &String,
    name: Option<String>,
    input_path: Option<String>,
    exclude_patterns: Option<Vec<String>>,
) -> (r: Result<(), SyncError>)
    ensures
        match spec_find_project(old(settings)@.projects, project_id@) {
            Some(i) => r == Ok::<(), SyncError>(()) && final(settings)@ == (AppSettingsModel {
                projects: old(settings)@.projects.update(
                    i,
                    spec_apply_project_update(
                        old(settings)@.projects[i],
                        name.deep_view(),
                        input_path.deep_view(),
                        exclude_patterns.deep_view(),
                    ),
                ),
                ..old(settings)@
            }),
            None => r == Err::<(), SyncError>(SyncError::InvalidInput) && *final(settings) == *old(
                settings,
            ),
        },
{
    let ghost pre = *settings;
    proof {
        lemma_find_project_characterization(pre@.projects, project_id@);
    }
    let n = settings.projects.len();
    let mut i: usize = 0;
    while i < n
        invariant
            i <= n,
            n == settings.projects@.len(),
            *settings == pre,
            pre == *old(settings),
            forall|j: int| 0 <= j < i ==> pre@.projects[j].id != project_id@,
        decreases n - i,
    {
        if settings.projects[i].id == *project_id {
            proof {
                lemma_find_project_characterization(pre@.projects, project_id@);
                assert(spec_find_project(pre@.projects, project_id@) == Some(i as int));
            }
            let p_ref = &settings.projects[i];
            let new_p = Project {
                id: p_ref.id.clone(),
                name: match name {
                    Some(nm) => nm,
                    None => p_ref.name.clone(),
                },
                input_path: match input_path {
                    Some(x) => x,
                    None => p_ref.input_path.clone(),
                },
                exclude_patterns: match exclude_patterns {
                    Some(e) => e,
                    None => clone_string_vec(&p_ref.exclude_patterns),
                },
            };
            settings.projects[i] = new_p;
            proof {
                assert(settings@ =~= (AppSettingsModel {
                    projects: pre@.projects.update(
                        i as int,
                        spec_apply_project_update(
                            pre@.projects[i as int],
                            name.deep_view(),
                            input_path.deep_view(),
                            exclude_patterns.deep_view(),
                        ),
                    ),
                    ..pre@
                }));
            }
            return Ok(());
        }
        i = i + 1;
    }
    proof {
        lemma_find_project_characterization(pre@.projects, project_id@);
        assert(spec_find_project(pre@.projects, project_id@) is None);
    }
    Err(SyncError::InvalidInput)
}

/// Whether an identifier occurs in a list of requested identifiers.
pub open spec fn spec_id_selected(id: Seq<char>, ids: Seq<Seq<char>>) -> bool {
    exists|i: int| 0 <= i < ids.len() && ids[i] == id
}

/// The projects a request selects, in stored order.
pub open spec fn spec_selected_projects(
    projects: Seq<ProjectModel>,
    ids: Seq<Seq<char>>,
) -> Seq<ProjectModel> {
    projects.filter(|p: ProjectModel| spec_id_selected(p.id, ids))
}

proof fn lemma_selected_step(s: Seq<ProjectModel>, x: ProjectModel, ids: Seq<Seq<char>>)
    ensures
        spec_selected_projects(s.push(x), ids) == (if spec_id_selected(x.id, ids) {
            spec_selected_projects(s, ids).push(x)
        } else {
            spec_selected_projects(s, ids)
        }),
{
    reveal(Seq::filter);
    assert(s.push(x).drop_last() =~= s);
    assert(s.push(x).last() == x);
}

/// Whether `id` occurs in `ids`.
fn id_in_list(id: &String, ids: &Vec<String>) -> (r: bool)
    ensures
        r == spec_id_selected(id@, ids.deep_view()),
{
    let n = ids.len();
    let mut i: usize = 0;
    while i < n
        invariant
            i <= n,
            n == ids@.len(),
            forall|j: int| 0 <= j < i ==> ids.deep_view()[j] != id@,
        decreases n - i,
    {
        proof {
            assert(ids.deep_view()[i as int] == ids@[i as int]@);
        }
        if ids[i] == *id {
            return true;
        }
        i = i + 1;
    }
    false
}

/// Resolve an import request: the projects it names, in stored order, and
/// the destination root.  Fails when no library path is configured or when
/// the request selects no project.
pub fn select_projects(settings: &AppSettings, project_ids: &Vec<String>) -> (r: Result<
    (Vec<Project>, String),
    SyncError,
>)
    ensures
        match r {
            Ok(sel_out) => {
                &&& settings@.library_path == Some(sel_out.1@)
                &&& sel_out.0.deep_view() == spec_selected_projects(
                    settings@.projects,
                    project_ids.deep_view(),
                )
                &&& sel_out.0@.len() > 0
            },
            Err(e) => e == SyncError::InvalidInput && (settings@.library_path is None
                || spec_selected_projects(settings@.projects, project_ids.deep_view()).len() == 0),
        },
{
    let ghost ids = project_ids.deep_view();
    let output = match &settings.library_path {
        Some(lp) => lp.clone(),
        None => {
            return Err(SyncError::InvalidInput);
        },
    };
    let mut sel: Vec<Project> = Vec::new();
    let n = settings.projects.len();
    proof {
        reveal(Seq::filter);
        assert(settings@.projects.take(0) =~= Seq::<ProjectModel>::empty());
        assert(sel.deep_view() =~= spec_selected_projects(settings@.projects.take(0), ids));
    }
    let mut i: usize = 0;
    while i < n
        invariant
            i <= n,
            n == settings.projects@.len(),
            sel.deep_view() == spec_selected_projects(settings@.projects.take(i as int), ids),
            ids == project_ids.deep_view(),
        decreases n - i,
    {
        proof {
            assert(settings@.projects.take(i + 1) =~= settings@.projects.take(i as int).push(
                settings@.projects[i as int],
            ));
            lemma_selected_step(settings@.projects.take(i as int), settings@.projects[i as int], ids);
        }
        let p = &settings.projects[i];
        proof {
            assert(settings@.projects[i as int] == p@);
        }
        if id_in_list(&p.id, project_ids) {
            let ghost before = sel.deep_view();
            sel.push(clone_project(p));
            proof {
                assert(sel.deep_view() =~= before.push(p@));
            }
        }
        i = i + 1;
    }
    proof {
        assert(settings@.projects.take(n as int) =~= settings@.projects);
    }
    if sel.len() == 0 {
        return Err(SyncError::InvalidInput);
    }
    Ok((sel, output))
}

} // verus!
