//! What the command handlers ask of the file system, as a trait the
//! surrounding program implements; and the reading of the active version
//! from a host configuration given as lines.
use vstd::prelude::*;

use crate::compat_tool_app::{AppConfigError, ApplicationConfig};
use crate::data::ManagedVersion;
use crate::tag::TagKind;
use crate::version::Version;

verus! {

/// A file-system failure, carried as its message.
#[derive(Debug)]
pub struct CmdError {
    message: String,
}

impl CmdError {
    /// The message carried.
    pub closed spec fn spec_message(&self) -> Seq<char> {
        self.message@
    }

    /// An error carrying the given message.
    pub fn new(message: &str) -> (r: CmdError)
        ensures
            r.spec_message() == message@,
    {
        CmdError { message: message.to_owned() }
    }

    /// An error carrying the given message.
    pub fn from_string(message: String) -> (r: CmdError)
        ensures
            r.spec_message() == message@,
    {
        CmdError { message }
    }

    /// The message a terminal user reads.
    pub fn to_string(&self) -> (r: String)
        ensures
            r@ == self.spec_message(),
    {
        self.message.clone()
    }
}

/// The file-system work of the commands: extracting, moving, removing and
/// patching on disk.  The surrounding program implements it; nothing is
/// assumed of what an implementation does.
pub trait FilesystemManager {
    /// Extracts the downloaded archive of a version into the tool
    /// directory and returns the managed form with its directory name.
    fn setup_version(&self, version: Version, compressed_tar: &Vec<u8>) -> Result<
        ManagedVersion,
        CmdError,
    >;

    /// Removes a managed version's directory.
    fn remove_version(&self, version: &ManagedVersion) -> Result<(), CmdError>;

    /// The paths of the entries of a directory.
    fn paths_for_directory_items(&self, path: &str) -> Result<Vec<String>, CmdError>;

    /// Moves an existing directory under management.
    fn migrate_folder(&self, version: Version, source_path: &str) -> Result<
        ManagedVersion,
        CmdError,
    >;

    /// Makes the version the active one in its host application's
    /// configuration, backing the file up first.
    fn apply_to_app_config(&self, version: &ManagedVersion) -> Result<(), CmdError>;

    /// Copies the user settings of one Proton version to another.
    fn copy_user_settings(&self, src_version: &ManagedVersion, dst_version: &ManagedVersion)
        -> Result<(), CmdError>;
}

/// The directory name of the version a host configuration, given as its
/// lines, currently makes active: the file's recorded active value, read
/// exactly when the attribute can be located.
pub fn in_use_compat_tool_dir_name(lines: Vec<String>, kind: TagKind) -> (r: Result<
    String,
    AppConfigError,
>)
    ensures
        ({
            let lv = crate::config::lines_view(lines@);
            match kind {
                TagKind::Proton => match r {
                    Ok(s) => crate::config::steam_read_ok(lv) && s@
                        == crate::config::steam_active_value(lv),
                    Err(e) => !crate::config::steam_read_ok(lv) && e is Steam,
                },
                TagKind::Wine { .. } => match r {
                    Ok(s) => crate::config::lutris_read_ok(lv) && s@
                        == crate::config::lutris_active_value(lv),
                    Err(e) => !crate::config::lutris_read_ok(lv) && e is Lutris,
                },
            }
        }),
{
    match ApplicationConfig::create_copy(kind, lines) {
        Ok(c) => Ok(c.version_dir_name().clone()),
        Err(e) => Err(e),
    }
}

} // verus!
