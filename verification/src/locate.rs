//! The location resolver: derives the configuration and data directories
//! from the fixed application identity, once per run. Whether the
//! directories exist is the application's filesystem concern; the rule that
//! absence of either triggers creation of both lives here.

use vstd::prelude::*;

use crate::errors::Error;

verus! {

#[verifier::external_type_specification]
#[verifier::external_body]
pub struct ExProjectDirs(directories::ProjectDirs);

/// Relies on `directories::ProjectDirs::from`: the platform's directory
/// conventions for an application identity, `None` when the platform cannot
/// supply any. The result depends on the machine's environment, so nothing
/// further is assumed of it.
#[verifier::external_body]
fn project_dirs_from(qualifier: &str, organization: &str, application: &str) -> (r: Option<
    directories::ProjectDirs,
>) {
    directories::ProjectDirs::from(qualifier, organization, application)
}

/// Relies on `directories::ProjectDirs::config_dir`: the configuration
/// directory of the project, converted to a string. Environment-dependent,
/// so nothing is assumed of its value.
#[verifier::external_body]
fn config_dir_of(dirs: &directories::ProjectDirs) -> (r: String) {
    dirs.config_dir().to_string_lossy().into_owned()
}

/// Relies on `directories::ProjectDirs::data_dir`: the data directory of the
/// project, converted to a string. Environment-dependent, so nothing is
/// assumed of its value.
#[verifier::external_body]
fn data_dir_of(dirs: &directories::ProjectDirs) -> (r: String) {
    dirs.data_dir().to_string_lossy().into_owned()
}

/// The resolved location pair. Resolved once per run and never re-resolved;
/// both directories must exist before anything reads from them.
pub struct Locations {
    pub config_dir: String,
    pub data_dir: String,
}

/// Resolves the location pair from the fixed application identity. Fails
/// with `DirectoryResolution` exactly when the platform supplies no
/// conventions for it.
pub fn resolve() -> (r: Result<Locations, Error>)
    ensures
        r matches Err(e) ==> e == Error::DirectoryResolution,
{
    match project_dirs_from("com.github", "needlesslygrim", "Gondolin") {
        None => Err(Error::DirectoryResolution),
        Some(dirs) => {
            let config_dir = config_dir_of(&dirs);
            let data_dir = data_dir_of(&dirs);
            Ok(Locations { config_dir, data_dir })
        },
    }
}

/// Whether the directory pair must be created: absence of either triggers
/// creation of both, keeping the pair in lockstep rather than partially
/// initialized.
pub fn needs_creation(config_exists: bool, data_exists: bool) -> (r: bool)
    ensures
        r == !(config_exists && data_exists),
{
    !config_exists || !data_exists
}

} // verus!
