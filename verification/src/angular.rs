//! Angular workspace configuration: the manifest's data model and queries
//! over its projects.

use vstd::prelude::*;

verus! {

/// Types of the workspace projects.
#[derive(PartialEq, Eq, Structural, Clone, Copy, Debug)]
pub enum ProjectType {
    Application,
    Library,
}

/// Types of the supported package managers.
#[derive(PartialEq, Eq, Structural, Clone, Copy, Debug)]
pub enum PackageManager {
    Npm,
    Cnpm,
    Yarn,
    Pnpm,
}

/// Angular CLI console warnings.
#[derive(Clone, Debug)]
pub struct CliWarnings {
    /// Show a warning when the global version is newer than the local one.
    pub version_mismatch: bool,
}

/// Angular CLI options.
#[derive(Clone, Debug)]
pub struct CliOptions {
    /// The default schematics collection to use.
    pub default_collection: Option<String>,
    /// Which package manager tool to use.
    pub package_manager: Option<PackageManager>,
    /// Control CLI specific console warnings.
    pub warnings: Option<CliWarnings>,
}

/// A workspace project.
#[derive(Clone, Debug)]
pub struct Project {
    /// Project type.
    pub project_type: ProjectType,
    pub cli: Option<CliOptions>,
    /// The prefix to apply to generated selectors.
    pub prefix: Option<String>,
    /// Root of the project files.
    pub root: Option<String>,
    /// The root of the source files, assets and index.html file structure.
    pub source_root: Option<String>,
}

/// A named project of the workspace, in manifest order.
#[derive(Clone, Debug)]
pub struct ProjectEntry {
    pub name: String,
    pub project: Project,
}

/// The workspace configuration file.
#[derive(Clone, Debug)]
pub struct WorkspaceConfig {
    pub schema: Option<String>,
    /// File format version.
    pub version: u32,
    /// Path where new projects will be created.
    pub new_project_root: Option<String>,
    /// Default project name used in commands.
    pub default_project: Option<String>,
    pub projects: Option<Vec<ProjectEntry>>,
    pub cli: Option<CliOptions>,
}

/// The names of the entries of the given project type, in order.
pub open spec fn names_of_type(entries: Seq<ProjectEntry>, project_type: ProjectType) -> Seq<
    Seq<char>,
>
    decreases entries.len(),
{
    if entries.len() == 0 {
        Seq::empty()
    } else {
        names_of_type(entries.drop_last(), project_type) + if entries.last().project.project_type
            == project_type {
            seq![entries.last().name@]
        } else {
            Seq::empty()
        }
    }
}

/// Returns the names of the workspace projects of the given type, in
/// manifest order.
pub fn projects_by_type(config: &WorkspaceConfig, project_type: ProjectType) -> (r: Vec<String>)
    requires
        config.projects is Some,
    ensures
        r.deep_view() == names_of_type(config.projects->Some_0@, project_type),
{
    let entries = config.projects.as_ref().unwrap();
    let mut r: Vec<String> = Vec::new();
    let mut i: usize = 0;
    proof {
        assert(r.deep_view() =~= names_of_type(entries@.take(0), project_type));
    }
    while i < entries.len()
        invariant
            i <= entries@.len(),
            r.deep_view() == names_of_type(entries@.take(i as int), project_type),
        decreases entries@.len() - i,
    {
        proof {
            assert(entries@.take(i + 1).drop_last() =~= entries@.take(i as int));
            assert(entries@.take(i + 1).last() == entries@[i as int]);
        }
        if entries[i].project.project_type == project_type {
            let ghost old_r = r.deep_view();
            r.push(entries[i].name.clone());
            proof {
                assert(r.deep_view() =~= old_r + seq![entries@[i as int].name@]);
            }
        } else {
            proof {
                assert(names_of_type(entries@.take(i + 1), project_type) =~= names_of_type(
                    entries@.take(i as int),
                    project_type,
                ));
            }
        }
        i = i + 1;
    }
    proof {
        assert(entries@.take(entries@.len() as int) =~= entries@);
    }
    r
}

} // verus!
