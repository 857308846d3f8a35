use rung::angular::{Project, ProjectEntry, ProjectType, WorkspaceConfig};

fn project(project_type: ProjectType) -> Project {
    Project {
        project_type,
        cli: None,
        prefix: None,
        root: None,
        source_root: None,
    }
}

fn entry(name: &str, project_type: ProjectType) -> ProjectEntry {
    ProjectEntry {
        name: name.to_string(),
        project: project(project_type),
    }
}

fn config(entries: Vec<ProjectEntry>) -> WorkspaceConfig {
    WorkspaceConfig {
        schema: None,
        version: 1,
        new_project_root: None,
        default_project: None,
        projects: Some(entries),
        cli: None,
    }
}

#[test]
fn lists_projects_by_type() {
    let config = config(vec![
        entry("app1", ProjectType::Application),
        entry("lib1", ProjectType::Library),
        entry("app2", ProjectType::Application),
    ]);

    assert_eq!(
        vec!["app1".to_string(), "app2".to_string()],
        rung::angular::projects_by_type(&config, ProjectType::Application)
    );
    assert_eq!(
        vec!["lib1".to_string()],
        rung::angular::projects_by_type(&config, ProjectType::Library)
    );
}

#[test]
fn lists_no_projects_of_absent_type() {
    let config = config(vec![entry("app1", ProjectType::Application)]);

    assert_eq!(
        0,
        rung::angular::projects_by_type(&config, ProjectType::Library).len()
    );
}
