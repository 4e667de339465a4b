use vstd::prelude::*;
use crate::migration_type::{inferred_type, MigrationType};
use crate::migrator::Migrator;
use crate::ordering::{inferred_version, timestamp_shaped, MigrationOrdering};
use crate::text::{file_name, padded, spec_file_name};

verus! {

/// A script file that is to be created.
#[derive(Debug)]
pub struct MigrationFile {
    /// The file's name inside the migration source.
    pub name: String,
    /// The kind of script, which gives the file its first content.
    pub migration_type: MigrationType,
}

/// The mathematical value of a [`MigrationFile`].
pub ghost struct MigrationFileView {
    pub name: Seq<char>,
    pub migration_type: MigrationType,
}

impl View for MigrationFile {
    type V = MigrationFileView;

    open spec fn view(&self) -> MigrationFileView {
        MigrationFileView { name: self.name@, migration_type: self.migration_type }
    }
}

/// The values of a sequence of files.
pub open spec fn file_views(files: Seq<MigrationFile>) -> Seq<MigrationFileView> {
    Seq::new(files.len(), |i: int| files[i]@)
}

/// The file of one kind for a new migration.
pub open spec fn new_file(
    prefix: Seq<char>,
    description: Seq<char>,
    migration_type: MigrationType,
) -> MigrationFileView {
    MigrationFileView {
        name: spec_file_name(prefix, description, migration_type.spec_suffix()),
        migration_type,
    }
}

/// The files of a new migration: an "up" and a "down" file with one prefix
/// where the migration is reversible, and a single file where it is not.
pub open spec fn new_files(
    prefix: Seq<char>,
    description: Seq<char>,
    migration_type: MigrationType,
) -> Seq<MigrationFileView> {
    if migration_type.reversible() {
        seq![
            new_file(prefix, description, MigrationType::ReversibleUp),
            new_file(prefix, description, MigrationType::ReversibleDown),
        ]
    } else {
        seq![new_file(prefix, description, MigrationType::Simple)]
    }
}

fn create_file(file_prefix: &str, description: &str, migration_type: MigrationType) -> (f:
    MigrationFile)
    ensures
        f@ == new_file(file_prefix@, description@, migration_type),
{
    MigrationFile {
        name: file_name(file_prefix, description, migration_type.suffix()),
        migration_type,
    }
}

/// The files of a new migration of the given kind under the given ordering.
pub fn files_for(description: &str, migration_type: MigrationType, ordering: &MigrationOrdering) -> (files:
    Vec<MigrationFile>)
    ensures
        file_views(files@) == new_files(ordering.prefix(), description@, migration_type),
{
    let file_prefix = ordering.file_prefix();
    let mut files: Vec<MigrationFile> = Vec::new();
    if migration_type.is_reversible() {
        files.push(create_file(file_prefix, description, MigrationType::ReversibleUp));
        files.push(create_file(file_prefix, description, MigrationType::ReversibleDown));
    } else {
        files.push(create_file(file_prefix, description, MigrationType::Simple));
    }
    proof {
        assert(file_views(files@) =~= new_files(ordering.prefix(), description@, migration_type));
    }
    files
}

/// The files of the next migration of a catalog.
///
/// Their kind is that of the catalog's first script, and in an empty catalog
/// the kind that `reversible` asks for. Their prefix is the next number in
/// sequence where a flag or the catalog asks for it, and else the time that
/// the system clock shows now.
pub fn add(
    migrator: &Migrator,
    description: &str,
    reversible: bool,
    sequential: bool,
    timestamp: bool,
) -> (files: Vec<MigrationFile>)
    requires
        !(sequential && timestamp),
        inferred_version(sequential, timestamp, migrator@) is Some ==> inferred_version(
            sequential,
            timestamp,
            migrator@,
        )->0 <= i64::MAX,
    ensures
        exists|prefix: Seq<char>|
            {
                &&& #[trigger] new_files(
                    prefix,
                    description@,
                    inferred_type(migrator@, reversible),
                ) == file_views(files@)
                &&& inferred_version(sequential, timestamp, migrator@) is Some ==> prefix
                    == padded(inferred_version(sequential, timestamp, migrator@)->0, 4)
                &&& inferred_version(sequential, timestamp, migrator@) is None
                    ==> timestamp_shaped(prefix)
            },
{
    let migration_type = MigrationType::infer(migrator, reversible);
    let ordering = MigrationOrdering::infer(sequential, timestamp, migrator);
    let files = files_for(description, migration_type, &ordering);
    proof {
        assert(new_files(ordering.prefix(), description@, inferred_type(migrator@, reversible))
            == file_views(files@));
    }
    files
}

/// Why a build script is not written.
#[derive(Clone, Copy, Debug, PartialEq, Eq, Structural)]
pub enum BuildScriptError {
    /// The working directory is not the root of a Cargo project.
    NotProjectRoot,
    /// A build script exists and is not to be overwritten.
    AlreadyExists,
}

/// Whether a build script may be written: only in the root of a project, and
/// over an existing one only by force.
pub fn build_script_check(in_project_root: bool, script_exists: bool, force: bool) -> (r: Result<
    (),
    BuildScriptError,
>)
    ensures
        r == (if !in_project_root {
            Err::<(), BuildScriptError>(BuildScriptError::NotProjectRoot)
        } else if script_exists && !force {
            Err(BuildScriptError::AlreadyExists)
        } else {
            Ok(())
        }),
{
    if !in_project_root {
        Err(BuildScriptError::NotProjectRoot)
    } else if script_exists && !force {
        Err(BuildScriptError::AlreadyExists)
    } else {
        Ok(())
    }
}

} // verus!
