use ncm_importer::{
    AppSettings, SyncError, create_project, default_max_threads, delete_project, select_projects,
    set_exclude_patterns, set_library_path, set_max_threads, update_project, update_settings,
};

#[test]
fn default_thread_count_prefers_the_machine() {
    assert_eq!(default_max_threads(Some(8)), 8);
    assert_eq!(default_max_threads(Some(1)), 1);
    assert_eq!(default_max_threads(Some(0)), 1);
    assert_eq!(default_max_threads(None), 4);
}

#[test]
fn default_settings_are_empty() {
    let s = AppSettings::default();
    assert!(s.library_path.is_none());
    assert_eq!(s.max_threads, 4);
    assert!(s.exclude_patterns.is_empty());
    assert!(s.last_input_path.is_none());
    assert!(s.last_output_path.is_none());
    assert!(s.projects.is_empty());
}

#[test]
fn library_path_and_patterns_can_be_set() {
    let mut s = AppSettings::default();
    set_library_path(&mut s, "/music".to_string());
    assert_eq!(s.library_path.as_deref(), Some("/music"));
    set_exclude_patterns(&mut s, vec!["tmp/".to_string()]);
    assert_eq!(s.exclude_patterns, vec!["tmp/".to_string()]);
}

#[test]
fn zero_threads_are_rejected() {
    let mut s = AppSettings::default();
    assert!(matches!(set_max_threads(&mut s, 0), Err(SyncError::InvalidInput)));
    assert_eq!(s.max_threads, 4);
    assert!(set_max_threads(&mut s, 6).is_ok());
    assert_eq!(s.max_threads, 6);
}

#[test]
fn update_merges_only_what_is_present() {
    let mut s = AppSettings::default();
    set_library_path(&mut s, "/music".to_string());
    let update = AppSettings {
        library_path: None,
        max_threads: 0,
        exclude_patterns: vec![],
        last_input_path: Some("/in".to_string()),
        last_output_path: None,
        projects: vec![],
    };
    update_settings(&mut s, update);
    // Absent fields, a zero thread count and an empty pattern list leave
    // the stored values alone.
    assert_eq!(s.library_path.as_deref(), Some("/music"));
    assert_eq!(s.max_threads, 4);
    assert!(s.exclude_patterns.is_empty());
    assert_eq!(s.last_input_path.as_deref(), Some("/in"));
    assert!(s.last_output_path.is_none());
}

#[test]
fn update_replaces_what_is_present() {
    let mut s = AppSettings::default();
    let update = AppSettings {
        library_path: Some("/lib".to_string()),
        max_threads: 9,
        exclude_patterns: vec!["x/".to_string()],
        last_input_path: None,
        last_output_path: Some("/out".to_string()),
        projects: vec![],
    };
    update_settings(&mut s, update);
    assert_eq!(s.library_path.as_deref(), Some("/lib"));
    assert_eq!(s.max_threads, 9);
    assert_eq!(s.exclude_patterns, vec!["x/".to_string()]);
    assert_eq!(s.last_output_path.as_deref(), Some("/out"));
}

#[test]
fn projects_are_created_with_fresh_ids() {
    let mut s = AppSettings::default();
    let p = create_project(&mut s, "My music".to_string(), "/in".to_string(), vec![]);
    assert_eq!(p.id.len(), 36);
    assert_eq!(p.name, "My music");
    assert_eq!(p.input_path, "/in");
    assert_eq!(s.projects.len(), 1);
    assert_eq!(s.projects[0].id, p.id);
    assert_eq!(s.projects[0].name, "My music");
}

#[test]
fn deleting_a_project_keeps_the_rest() {
    let mut s = AppSettings::default();
    let a = create_project(&mut s, "A".to_string(), "/a".to_string(), vec![]);
    let b = create_project(&mut s, "B".to_string(), "/b".to_string(), vec![]);
    delete_project(&mut s, &a.id);
    assert_eq!(s.projects.len(), 1);
    assert_eq!(s.projects[0].id, b.id);
    // Deleting an unknown id changes nothing.
    delete_project(&mut s, &"missing".to_string());
    assert_eq!(s.projects.len(), 1);
}

#[test]
fn updating_a_project_touches_only_given_fields() {
    let mut s = AppSettings::default();
    let p = create_project(&mut s, "A".to_string(), "/a".to_string(), vec!["x".to_string()]);
    let r = update_project(&mut s, &p.id, Some("Renamed".to_string()), None, None);
    assert!(r.is_ok());
    assert_eq!(s.projects[0].name, "Renamed");
    assert_eq!(s.projects[0].input_path, "/a");
    assert_eq!(s.projects[0].exclude_patterns, vec!["x".to_string()]);
    let r2 = update_project(&mut s, &p.id, None, Some("/new".to_string()), Some(vec![]));
    assert!(r2.is_ok());
    assert_eq!(s.projects[0].input_path, "/new");
    assert!(s.projects[0].exclude_patterns.is_empty());
}

#[test]
fn updating_an_unknown_project_fails() {
    let mut s = AppSettings::default();
    let r = update_project(&mut s, &"missing".to_string(), Some("x".to_string()), None, None);
    assert!(matches!(r, Err(SyncError::InvalidInput)));
}

#[test]
fn selecting_projects_needs_a_library_path() {
    let mut s = AppSettings::default();
    let p = create_project(&mut s, "A".to_string(), "/a".to_string(), vec![]);
    let r = select_projects(&s, &vec![p.id.clone()]);
    assert!(matches!(r, Err(SyncError::InvalidInput)));
}

#[test]
fn selecting_no_known_project_fails() {
    let mut s = AppSettings::default();
    set_library_path(&mut s, "/music".to_string());
    create_project(&mut s, "A".to_string(), "/a".to_string(), vec![]);
    let r = select_projects(&s, &vec!["missing".to_string()]);
    assert!(matches!(r, Err(SyncError::InvalidInput)));
}

#[test]
fn selection_keeps_stored_order() {
    let mut s = AppSettings::default();
    set_library_path(&mut s, "/music".to_string());
    let a = create_project(&mut s, "A".to_string(), "/a".to_string(), vec![]);
    let _b = create_project(&mut s, "B".to_string(), "/b".to_string(), vec![]);
    let c = create_project(&mut s, "C".to_string(), "/c".to_string(), vec![]);
    let (sel, out) = select_projects(&s, &vec![c.id.clone(), a.id.clone()]).unwrap();
    assert_eq!(out, "/music");
    assert_eq!(sel.len(), 2);
    assert_eq!(sel[0].name, "A");
    assert_eq!(sel[1].name, "C");
}
