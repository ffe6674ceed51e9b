//! The platform's directories for the tool's config file. Each record keeps
//! the config location it was found for, and the joined file keeps the name
//! that was joined; only the wrappers here create them.
use vstd::prelude::*;
use vstd::string::*;
use crate::config::ConfigLocation;

verus! {

#[verifier::external_type_specification]
#[verifier::external_body]
pub struct ExProjectDirs(directories::ProjectDirs);

#[verifier::external_type_specification]
#[verifier::external_body]
pub struct ExPathBuf(std::path::PathBuf);

/// A project's platform directories, with the location they were found for.
pub struct FoundDirs {
    location: ConfigLocation,
    dirs: directories::ProjectDirs,
}

impl FoundDirs {
    /// The location these directories were found for.
    pub closed spec fn location(self) -> ConfigLocation {
        self.location
    }

    /// The name of the config file at this location.
    pub fn file_name(&self) -> (r: String)
        ensures
            r@ == self.location().file_name@,
    {
        self.location.file_name.clone()
    }
}

/// A project's config directory, with the location it belongs to.
pub struct ConfigDir {
    location: ConfigLocation,
    dir: std::path::PathBuf,
}

impl ConfigDir {
    pub closed spec fn location(self) -> ConfigLocation {
        self.location
    }
}

/// A file in a project's config directory: the location it belongs to, the
/// file name that was joined to the directory, and the resulting path.
pub struct ConfigFile {
    location: ConfigLocation,
    file_name: String,
    path: std::path::PathBuf,
}

impl ConfigFile {
    pub closed spec fn location(self) -> ConfigLocation {
        self.location
    }

    pub closed spec fn file_name(self) -> String {
        self.file_name
    }

    /// The file's path.
    pub fn into_path(self) -> std::path::PathBuf {
        self.path
    }
}

/// `directories::ProjectDirs::from` with the location's qualifier,
/// organization and application: the platform's directories for that project,
/// when the platform has a home directory, kept with the location. Whether
/// there are any depends on the environment; nothing is claimed of that.
#[verifier::external_body]
pub fn project_dirs(location: ConfigLocation) -> (r: Option<FoundDirs>)
    ensures
        r matches Some(d) ==> d.location() == location,
{
    match directories::ProjectDirs::from(
        location.qualifier.as_str(),
        location.organization.as_str(),
        location.application.as_str(),
    ) {
        Some(dirs) => Some(FoundDirs { location, dirs }),
        None => None,
    }
}

/// `directories::ProjectDirs::config_dir`: the project's config directory,
/// kept with the location it was found for.
#[verifier::external_body]
pub fn project_config_dir(found: FoundDirs) -> (r: ConfigDir)
    ensures
        r.location() == found.location(),
{
    let FoundDirs { location, dirs } = found;
    let dir = dirs.config_dir().to_path_buf();
    ConfigDir { location, dir }
}

/// `std::path::Path::join`: the file `name` inside the config directory,
/// recording the location and the name joined.
#[verifier::external_body]
pub fn path_join(dir: ConfigDir, name: String) -> (r: ConfigFile)
    ensures
        r.location() == dir.location(),
        r.file_name() == name,
{
    let ConfigDir { location, dir } = dir;
    let path = dir.join(name.as_str());
    ConfigFile { location, file_name: name, path }
}

} // verus!
