//! The terminal commands themselves: each one takes its input, drives the
//! release resolver, the registry and the file-system collaborator, and
//! produces display lines for the surrounding program to print.
use vstd::prelude::*;

use crate::archive::checksums_match;
use crate::command_input::{
    AddCommandInput, ApplyCommandInput, CheckCommandInput, CleanCommandInput, CleanDryRunInput,
    CopyUserSettingsCommandInput, GivenVersion, ListCommandInput, MigrationCommandInput,
    RemoveCommandInput,
};
use crate::compat_tool_app::ApplicationConfig;
use crate::data::{
    before_of, first_match, in_range_of, latest_idx, mv_key_eq, ManagedVersion, ManagedVersions,
};
use crate::download::{DownloadRequest, GeDownload, GithubError};
use crate::filesystem::{CmdError, FilesystemManager};
use crate::tag::{Tag, TagKind};
use crate::version::{Version, Versioned};

verus! {

/// Newly added versions beside all managed versions, the new ones
/// included.
#[derive(Debug)]
pub struct NewAndManagedVersions {
    pub new_versions: ManagedVersions,
    pub managed_versions: ManagedVersions,
}

impl NewAndManagedVersions {
    /// The pair of new and all versions.
    pub fn new(new_versions: ManagedVersions, managed_versions: ManagedVersions) -> (r:
        NewAndManagedVersions)
        ensures
            r.new_versions == new_versions,
            r.managed_versions == managed_versions,
    {
        NewAndManagedVersions { new_versions, managed_versions }
    }

    /// The outcome of adding one version.
    pub fn single_add(added_version: ManagedVersion, managed_versions: ManagedVersions) -> (r:
        NewAndManagedVersions)
        ensures
            r.new_versions.spec_versions() == seq![added_version],
            r.managed_versions == managed_versions,
    {
        let mut items: Vec<ManagedVersion> = Vec::new();
        items.push(added_version);
        proof {
            assert(items@ =~= seq![added_version]);
        }
        NewAndManagedVersions {
            new_versions: ManagedVersions::new(items),
            managed_versions,
        }
    }
}

/// Removed versions beside all managed versions, the removed ones
/// excluded.
#[derive(Debug)]
pub struct RemovedAndManagedVersions {
    pub removed_versions: ManagedVersions,
    pub managed_versions: ManagedVersions,
}

impl RemovedAndManagedVersions {
    /// The pair of removed and remaining versions.
    pub fn new(removed_versions: ManagedVersions, managed_versions: ManagedVersions) -> (r:
        RemovedAndManagedVersions)
        ensures
            r.removed_versions == removed_versions,
            r.managed_versions == managed_versions,
    {
        RemovedAndManagedVersions { removed_versions, managed_versions }
    }

    /// The outcome of removing one version.
    pub fn single_remove(removed_version: ManagedVersion, managed_versions: ManagedVersions) -> (r:
        RemovedAndManagedVersions)
        ensures
            r.removed_versions.spec_versions() == seq![removed_version],
            r.managed_versions == managed_versions,
    {
        let mut items: Vec<ManagedVersion> = Vec::new();
        items.push(removed_version);
        proof {
            assert(items@ =~= seq![removed_version]);
        }
        RemovedAndManagedVersions {
            removed_versions: ManagedVersions::new(items),
            managed_versions,
        }
    }
}

/// The part of a list input that listing managed versions reads.
#[derive(Debug)]
pub struct ListManagedVersionsInput {
    pub in_use_directory_name: Option<String>,
    pub newest: bool,
    pub tag_kind: TagKind,
    pub application_name: String,
    pub managed_versions: ManagedVersions,
}

impl ListManagedVersionsInput {
    /// A managed-version listing input from its parts.
    pub fn new(
        in_use_directory_name: Option<String>,
        newest: bool,
        tag_kind: TagKind,
        application_name: String,
        managed_versions: ManagedVersions,
    ) -> (r: ListManagedVersionsInput) {
        ListManagedVersionsInput {
            in_use_directory_name,
            newest,
            tag_kind,
            application_name,
            managed_versions,
        }
    }

    /// The listing input a list input carries.
    pub fn from(input: ListCommandInput) -> (r: ListManagedVersionsInput) {
        ListManagedVersionsInput {
            in_use_directory_name: input.in_use_directory_name,
            newest: input.newest,
            tag_kind: input.tag_kind,
            application_name: input.application_name,
            managed_versions: input.managed_versions,
        }
    }
}

/// The part of a list input that listing the tool directory reads.
#[derive(Debug)]
pub struct ListAppCompatToolsDirectory {
    pub kind: TagKind,
    pub app_name: String,
    pub app_compat_tool_dir: String,
    pub in_use_directory_name: Option<String>,
}

impl ListAppCompatToolsDirectory {
    /// A directory listing input from its parts.
    pub fn new(
        kind: TagKind,
        app_name: String,
        app_compat_tool_dir: String,
        in_use_directory_name: Option<String>,
    ) -> (r: ListAppCompatToolsDirectory) {
        ListAppCompatToolsDirectory { kind, app_name, app_compat_tool_dir, in_use_directory_name }
    }

    /// The directory listing input a list input carries.
    pub fn from(input: ListCommandInput) -> (r: ListAppCompatToolsDirectory) {
        ListAppCompatToolsDirectory {
            kind: input.tag_kind,
            app_name: input.application_name,
            app_compat_tool_dir: input.app_compat_tool_dir,
            in_use_directory_name: input.in_use_directory_name,
        }
    }
}

/// The managed versions sorted by raw tag, newest first: a simple
/// insertion sort under the reversed tag order.
fn sort_versions_desc(items: Vec<ManagedVersion>) -> (r: Vec<ManagedVersion>)
    ensures
        r@.len() == items@.len(),
{
    let mut out: Vec<ManagedVersion> = Vec::new();
    let mut i: usize = 0;
    while i < items.len()
        invariant
            i <= items@.len(),
            out@.len() == i,
        decreases items@.len() - i,
    {
        let item = items[i].clone();
        let mut j: usize = 0;
        while j < out.len()
            invariant
                j <= out@.len(),
            decreases out@.len() - j,
        {
            let o = Tag::compare_value(out[j].tag(), item.tag());
            if matches!(o, core::cmp::Ordering::Less) {
                break;
            }
            j = j + 1;
        }
        out.insert(j, item);
        i = i + 1;
    }
    out
}

/// Strings sorted in reverse lexicographic order, by insertion.
fn sort_strings_desc(items: Vec<String>) -> (r: Vec<String>)
    ensures
        r@.len() == items@.len(),
{
    let mut out: Vec<String> = Vec::new();
    let mut i: usize = 0;
    while i < items.len()
        invariant
            i <= items@.len(),
            out@.len() == i,
        decreases items@.len() - i,
    {
        let item = items[i].clone();
        let mut j: usize = 0;
        while j < out.len()
            invariant
                j <= out@.len(),
            decreases out@.len() - j,
        {
            let o = crate::text::lex_cmp_str(out[j].as_str(), item.as_str());
            if matches!(o, core::cmp::Ordering::Less) {
                break;
            }
            j = j + 1;
        }
        out.insert(j, item);
        i = i + 1;
    }
    out
}

/// Whether the bounds of a clean pass cannot select anything: a cutoff
/// without a derivable version, a missing bound, an underivable bound, or
/// a start after the end.
pub open spec fn clean_selection_err(
    before: Option<Version>,
    start: Option<Version>,
    end: Option<Version>,
) -> bool {
    match before {
        Some(c) => c.spec_tag().spec_semver() is None,
        None => match (start, end) {
            (Some(s), Some(e)) => s.spec_tag().spec_semver() is None
                || e.spec_tag().spec_semver() is None || crate::text::lex_cmp(
                s.spec_tag().spec_semver()->0,
                e.spec_tag().spec_semver()->0,
            ) == core::cmp::Ordering::Greater,
            _ => true,
        },
    }
}

/// Every removed entry carries the key of some selected entry.
pub open spec fn all_keys_selected(removed: Seq<ManagedVersion>, sel: Seq<ManagedVersion>) -> bool {
    forall|j: int|
        0 <= j < removed.len() ==> exists|i2: int|
            0 <= i2 < sel.len() && mv_key_eq(#[trigger] removed[j], sel[i2])
}

/// The entries a clean pass selects for removal: those before the cutoff,
/// or those in the inclusive range.
pub open spec fn clean_selection(
    before: Option<Version>,
    start: Option<Version>,
    end: Option<Version>,
    vs: Seq<ManagedVersion>,
) -> Seq<ManagedVersion> {
    match before {
        Some(c) => before_of(vs, c.spec_kind(), c.spec_tag().spec_semver()->0),
        None => in_range_of(
            vs,
            start->0.spec_kind(),
            start->0.spec_tag().spec_semver()->0,
            end->0.spec_tag().spec_semver()->0,
        ),
    }
}

/// One display line of a listed version: its tag, with the in-use mark
/// when its directory is the active one.
fn list_line(version: &ManagedVersion, in_use: &Option<String>, app_name: &str) -> (r: String) {
    let mut line = String::new();
    line.append("* ");
    line.append(version.tag().value().as_str());
    match in_use {
        Some(dir) => {
            if crate::text::str_eq(dir.as_str(), version.directory_name()) {
                line.append(" - In use by ");
                line.append(app_name);
            }
        },
        None => {},
    }
    line
}

/// Ties the commands together: resolves releases through the downloader
/// and touches disk through the file-system collaborator, both injected.
pub struct CommandHandler<'a, D: GeDownload, F: FilesystemManager> {
    ge_downloader: &'a D,
    fs_mng: &'a F,
}

impl<'a, D: GeDownload, F: FilesystemManager> CommandHandler<'a, D, F> {
    /// A handler over the given collaborators.
    pub fn new(ge_downloader: &'a D, fs_mng: &'a F) -> (r: CommandHandler<'a, D, F>) {
        CommandHandler { ge_downloader, fs_mng }
    }

    /// The display lines listing managed versions: a heading, then one
    /// line per version, newest tag first.
    fn list_managed_versions(
        &self,
        stdout: &mut Vec<String>,
        stderr: &mut Vec<String>,
        input: ListManagedVersionsInput,
    ) {
        let ListManagedVersionsInput {
            in_use_directory_name,
            newest,
            tag_kind,
            application_name,
            managed_versions,
        } = input;
        if in_use_directory_name.is_none() {
            let mut warn = application_name.clone();
            warn.append(" config not found - \"In use\" information can not be provided");
            stderr.push(warn);
        }
        let shown: Vec<ManagedVersion> = if newest {
            managed_versions.latest_versions()
        } else {
            let mut copy: Vec<ManagedVersion> = Vec::new();
            let all = managed_versions.vec_ref();
            let mut i: usize = 0;
            while i < all.len()
                decreases all@.len() - i,
            {
                let c = all[i].clone();
                copy.push(c);
                i = i + 1;
            }
            copy
        };
        if shown.len() > 0 {
            let mut heading = tag_kind.compatibility_tool_name();
            heading.append(":");
            stdout.push(heading);
            let sorted = sort_versions_desc(shown);
            let mut i: usize = 0;
            while i < sorted.len()
                decreases sorted@.len() - i,
            {
                let line = list_line(&sorted[i], &in_use_directory_name, application_name.as_str());
                stdout.push(line);
                i = i + 1;
            }
        } else {
            stdout.push("No versions installed".to_owned());
        }
    }

    /// The display lines listing the host application's tool directory.
    fn list_app_compat_tool_directory(
        &self,
        stdout: &mut Vec<String>,
        input: ListAppCompatToolsDirectory,
    ) -> (r: Result<(), CmdError>) {
        let ListAppCompatToolsDirectory { kind, app_name, app_compat_tool_dir, in_use_directory_name } =
            input;
        let mut heading = kind.compatibility_tool_name();
        heading.append(":");
        stdout.push(heading);
        let paths = match self.fs_mng.paths_for_directory_items(app_compat_tool_dir.as_str()) {
            Ok(p) => p,
            Err(e) => {
                return Err(e);
            },
        };
        let sorted = sort_strings_desc(paths);
        let mut i: usize = 0;
        while i < sorted.len()
            decreases sorted@.len() - i,
        {
            let mut line = "* ".to_owned();
            line.append(sorted[i].as_str());
            match &in_use_directory_name {
                Some(dir) => {
                    let chars = crate::text::chars_vec(sorted[i].as_str());
                    let dir_chars = crate::text::chars_vec(dir.as_str());
                    if crate::text::contains_chars(&chars, &dir_chars) && dir_chars.len() > 0 {
                        line.append(" - In use by ");
                        line.append(app_name.as_str());
                    }
                },
                None => {},
            }
            stdout.push(line);
            i = i + 1;
        }
        Ok(())
    }

    /// Lists either the managed versions or the tool directory, as the
    /// input asks.
    pub fn list_versions(
        &self,
        stdout: &mut Vec<String>,
        stderr: &mut Vec<String>,
        input: ListCommandInput,
    ) -> (r: Result<(), CmdError>) {
        if input.file_system {
            self.list_app_compat_tool_directory(stdout, ListAppCompatToolsDirectory::from(input))
        } else {
            self.list_managed_versions(stdout, stderr, ListManagedVersionsInput::from(input));
            Ok(())
        }
    }

    /// Adds a version: resolves the tag, downloads the release, verifies
    /// its checksum unless skipped, extracts it and records it.  A version
    /// already managed is reported with the existing entry and an
    /// unchanged registry, not downloaded again; otherwise a success adds
    /// exactly the one new entry, and a failure of any step adds nothing.
    pub fn add(&self, stdout: &mut Vec<String>, input: AddCommandInput) -> (r: Result<
        NewAndManagedVersions,
        CmdError,
    >)
        ensures
            ({
                let vs = input.managed_versions.spec_versions();
                &&& (match input.version {
                    GivenVersion::Explicit { version: v } => first_match(
                        vs,
                        v.spec_tag().spec_value(),
                        v.spec_kind(),
                    ) is Some ==> r is Ok,
                    GivenVersion::Latest { .. } => true,
                })
                &&& (r matches Ok(o) ==> {
                    let stored = o.new_versions.spec_versions()[0];
                    let fm = first_match(vs, stored.spec_tag().spec_value(), stored.spec_kind());
                    &&& o.new_versions.spec_versions().len() == 1
                    &&& ((o.managed_versions.spec_versions() == vs && fm is Some && stored
                        == vs[fm->0]) || o.managed_versions.spec_versions() == vs.push(stored))
                })
            }),
    {
        let skip_checksum = input.skip_checksum;
        let mut managed_versions = input.managed_versions;
        let version = input.version;
        let version: Version = match version {
            GivenVersion::Explicit { version } => version,
            GivenVersion::Latest { kind } => {
                match self.ge_downloader.fetch_release(None, kind) {
                    Ok(release) => Version::new(None, release.tag_name.as_str(), kind),
                    Err(_) => {
                        return Err(
                            CmdError::new("Could not get latest tag for tagless \"add\" operation."),
                        );
                    },
                }
            },
        };
        let ghost vs = managed_versions.spec_versions();
        match managed_versions.find_version(&version) {
            Some(existing) => {
                proof {
                    crate::data::lemma_first_match_props(
                        vs,
                        version.spec_tag().spec_value(),
                        version.spec_kind(),
                        0,
                    );
                    assert(first_match(
                        vs,
                        existing.spec_tag().spec_value(),
                        existing.spec_kind(),
                    ) == first_match(vs, version.spec_tag().spec_value(), version.spec_kind()));
                }
                let mut line = "Version ".to_owned();
                line.append(existing.tag().value().as_str());
                line.append(" (");
                line.append(existing.kind().str().as_str());
                line.append(") is already managed");
                stdout.push(line);
                return Ok(NewAndManagedVersions::single_add(existing, managed_versions));
            },
            None => {},
        }
        let request = DownloadRequest::new(
            Some(version.tag().value().clone()),
            *version.kind(),
            skip_checksum,
        );
        let assets = match self.ge_downloader.download_release(request) {
            Ok(a) => a,
            Err(e) => {
                return Err(CmdError::from_string(e.to_string()));
            },
        };
        if skip_checksum {
            stdout.push("Skipping checksum comparison".to_owned());
        } else {
            let expected: String = match assets.checksum {
                Some(c) => c.checksum,
                None => String::new(),
            };
            let matched = checksums_match(
                assets.compressed_tar.compressed_content.as_slice(),
                expected.as_str().as_bytes(),
            );
            if !matched {
                return Err(
                    CmdError::new(
                        "Checksum comparison failed: Checksum generated from downloaded archive does not match downloaded expected checksum",
                    ),
                );
            }
            stdout.push("Performing checksum comparison: Checksums match".to_owned());
        }
        let managed = match self.fs_mng.setup_version(
            version,
            &assets.compressed_tar.compressed_content,
        ) {
            Ok(m) => m,
            Err(_) => {
                return Err(CmdError::new("Could not add version"));
            },
        };
        let stored = managed_versions.add(managed);
        proof {
            assert(managed_versions.spec_versions() == vs.push(stored));
        }
        Ok(NewAndManagedVersions::single_add(stored, managed_versions))
    }

    /// Removes one version from disk, unless forgetting, and from the
    /// registry; the active version cannot be removed, and a failure of
    /// any step leaves the registry unchanged.
    fn remove_version(
        &self,
        app_config: &Option<ApplicationConfig>,
        version: &ManagedVersion,
        managed_versions: &mut ManagedVersions,
        forget: bool,
    ) -> (r: Result<ManagedVersion, CmdError>)
        ensures
            ({
                let vs = old(managed_versions).spec_versions();
                let in_use = match app_config {
                    Some(cfg) => cfg.spec_dir_name() == version.spec_directory_name(),
                    None => false,
                };
                let fm = first_match(vs, version.spec_tag().spec_value(), version.spec_kind());
                &&& (in_use ==> r is Err)
                &&& (forget && !in_use && fm is Some ==> r is Ok)
                &&& (r matches Ok(m) ==> !in_use && fm is Some && m == vs[fm->0]
                    && final(managed_versions).spec_versions() == vs.remove(fm->0))
                &&& (r is Err ==> final(managed_versions).spec_versions() == vs)
            }),
    {
        let in_use: bool = match app_config {
            Some(cfg) => cfg.check_if_version_is_in_use(version),
            None => false,
        };
        if in_use {
            let mut msg = version.kind().compatibility_tool_name();
            msg.append(" version is in use. Apply a different version first to make removal possible");
            return Err(CmdError::from_string(msg));
        }
        if !forget {
            match self.fs_mng.remove_version(version) {
                Ok(()) => {},
                Err(e) => {
                    return Err(e);
                },
            }
        }
        match managed_versions.remove(version) {
            Some(removed) => Ok(removed),
            None => {
                let mut msg = "Can not remove version: Version ".to_owned();
                msg.append(version.tag().value().as_str());
                msg.append(" does not exist");
                Err(CmdError::from_string(msg))
            },
        }
    }

    /// Removes the version the input names, against the host
    /// application's configuration as already read; a missing
    /// configuration only forfeits the in-use check.  The active version
    /// is refused; removing a managed inactive version while forgetting
    /// always succeeds; a success takes exactly the named entry out and
    /// keeps every other entry in order.
    pub fn remove(&self, input: RemoveCommandInput, app_config: Option<ApplicationConfig>) -> (r:
        Result<RemovedAndManagedVersions, CmdError>)
        ensures
            ({
                let vs = input.managed_versions.spec_versions();
                let v = input.version_to_remove;
                let in_use = match app_config {
                    Some(cfg) => cfg.spec_dir_name() == v.spec_directory_name(),
                    None => false,
                };
                let fm = first_match(vs, v.spec_tag().spec_value(), v.spec_kind());
                &&& (in_use ==> r is Err)
                &&& (input.forget && !in_use && fm is Some ==> r is Ok)
                &&& (r matches Ok(o) ==> !in_use && fm is Some
                    && o.removed_versions.spec_versions() == seq![vs[fm->0]]
                    && o.managed_versions.spec_versions() == vs.remove(fm->0))
            }),
    {
        let mut managed_versions = input.managed_versions;
        let version_to_remove = input.version_to_remove;
        let forget = input.forget;
        match self.remove_version(&app_config, &version_to_remove, &mut managed_versions, forget) {
            Ok(removed) => {
                let outcome = RemovedAndManagedVersions::single_remove(removed, managed_versions);
                proof {
                    assert(outcome.removed_versions.spec_versions() =~= seq![removed]);
                }
                Ok(outcome)
            },
            Err(e) => Err(e),
        }
    }

    /// Reports the latest remote release of one kind, or of every kind.
    pub fn check(
        &self,
        stdout: &mut Vec<String>,
        stderr: &mut Vec<String>,
        input: CheckCommandInput,
    ) {
        match input.kind {
            Some(kind) => {
                match self.ge_downloader.fetch_release(None, kind) {
                    Ok(release) => {
                        let mut line = "The latest version of ".to_owned();
                        line.append(kind.compatibility_tool_name().as_str());
                        line.append(" is \"");
                        line.append(release.tag_name.as_str());
                        line.append("\"");
                        stdout.push(line);
                    },
                    Err(e) => {
                        let mut line = "Could not fetch latest release from Github: ".to_owned();
                        line.append(e.to_string().as_str());
                        stderr.push(line);
                    },
                }
            },
            None => {
                stdout.push("These are the latest releases.".to_owned());
                stdout.push(String::new());
                let kinds = TagKind::values();
                let mut i: usize = 0;
                while i < kinds.len()
                    decreases kinds@.len() - i,
                {
                    let kind = kinds[i];
                    match self.ge_downloader.fetch_release(None, kind) {
                        Ok(release) => {
                            let mut line = kind.compatibility_tool_name();
                            line.append(": ");
                            line.append(release.tag_name.as_str());
                            stdout.push(line);
                        },
                        Err(e) => {
                            let mut line = kind.compatibility_tool_name();
                            line.append(" - Could not fetch release information from GitHub: ");
                            line.append(e.to_string().as_str());
                            stderr.push(line);
                        },
                    }
                    i = i + 1;
                }
            },
        }
    }

    /// Takes an existing directory under management as the given version;
    /// a version already managed is refused, and a success records
    /// exactly the one migrated entry.
    pub fn migrate(&self, input: MigrationCommandInput) -> (r: Result<
        NewAndManagedVersions,
        CmdError,
    >)
        ensures
            ({
                let vs = input.managed_versions.spec_versions();
                let fm = first_match(
                    vs,
                    input.version.spec_tag().spec_value(),
                    input.version.spec_kind(),
                );
                &&& (fm is Some ==> r is Err)
                &&& (r matches Ok(o) ==> fm is None && o.new_versions.spec_versions().len() == 1
                    && o.managed_versions.spec_versions() == vs.push(
                    o.new_versions.spec_versions()[0],
                ))
            }),
    {
        let source_path = input.source_path;
        let version = input.version;
        let mut managed_versions = input.managed_versions;
        if managed_versions.find_version(&version).is_some() {
            return Err(CmdError::new("Given version to migrate already exists as a managed version"));
        }
        let migrated = match self.fs_mng.migrate_folder(version, source_path.as_str()) {
            Ok(m) => m,
            Err(_) => {
                return Err(CmdError::new("Could not migrate directory"));
            },
        };
        let stored = managed_versions.add(migrated);
        proof {
            assert(managed_versions.spec_versions()
                == input.managed_versions.spec_versions().push(stored));
        }
        Ok(NewAndManagedVersions::single_add(stored, managed_versions))
    }

    /// Makes a managed version the active one in its host application's
    /// configuration: the named version, which must be managed, or the
    /// latest managed one of the kind, which must exist.
    pub fn apply(&self, stdout: &mut Vec<String>, input: ApplyCommandInput) -> (r: Result<
        (),
        CmdError,
    >)
        ensures
            ({
                let vs = input.managed_versions.spec_versions();
                match input.version {
                    GivenVersion::Explicit { version: v } => first_match(
                        vs,
                        v.spec_tag().spec_value(),
                        v.spec_kind(),
                    ) is None ==> r is Err,
                    GivenVersion::Latest { kind } => latest_idx(vs, kind) is None ==> r is Err,
                }
            }),
    {
        let ApplyCommandInput { version, managed_versions } = input;
        let version: ManagedVersion = match version {
            GivenVersion::Explicit { version } => {
                match managed_versions.find_version(&version) {
                    Some(v) => v,
                    None => {
                        return Err(CmdError::new("Given version is not managed"));
                    },
                }
            },
            GivenVersion::Latest { kind } => {
                match managed_versions.find_latest_by_kind(&kind) {
                    Some(v) => v,
                    None => {
                        return Err(CmdError::new("No managed versions exist"));
                    },
                }
            },
        };
        stdout.push(crate::message::modifying_config(&version));
        match self.fs_mng.apply_to_app_config(&version) {
            Ok(()) => {},
            Err(_) => {
                return Err(CmdError::new("Could not modify app config"));
            },
        }
        stdout.push(crate::message::modify_config_success(version.kind()).to_owned());
        Ok(())
    }

    /// Copies the user settings of one managed Proton version to another.
    pub fn copy_user_settings(
        &self,
        stdout: &mut Vec<String>,
        input: CopyUserSettingsCommandInput,
    ) -> (r: Result<(), CmdError>) {
        let CopyUserSettingsCommandInput { src_version, dst_version } = input;
        match self.fs_mng.copy_user_settings(&src_version, &dst_version) {
            Ok(()) => {},
            Err(e) => {
                return Err(e);
            },
        }
        let mut line = "Copied user_settings.py from ".to_owned();
        line.append(src_version.tag().value().as_str());
        line.append(" (");
        line.append(src_version.kind().str().as_str());
        line.append(") to ");
        line.append(dst_version.tag().value().as_str());
        line.append(" (");
        line.append(dst_version.kind().str().as_str());
        line.append(")");
        stdout.push(line);
        Ok(())
    }

    /// The versions a clean pass would remove: those before the cutoff,
    /// or those in the inclusive range; malformed bounds are the only
    /// error.
    fn get_versions_for_clean(
        &self,
        before: &Option<Version>,
        start: &Option<Version>,
        end: &Option<Version>,
        managed_versions: &ManagedVersions,
    ) -> (r: Result<ManagedVersions, CmdError>)
        ensures
            (r is Err) == clean_selection_err(*before, *start, *end),
            r matches Ok(list) ==> list.spec_versions() == clean_selection(
                *before,
                *start,
                *end,
                managed_versions.spec_versions(),
            ),
    {
        match before {
            Some(cutoff) => {
                match managed_versions.versions_before(cutoff) {
                    Ok(list) => Ok(list),
                    Err(_) => Err(CmdError::new("The cutoff version has no derivable version")),
                }
            },
            None => {
                match (start, end) {
                    (Some(s), Some(e)) => {
                        match managed_versions.versions_in_range(s, e) {
                            Ok(list) => Ok(list),
                            Err(_) => Err(
                                CmdError::new("The given version range cannot be ordered"),
                            ),
                        }
                    },
                    _ => Err(CmdError::new("No cutoff and no full range was given")),
                }
            },
        }
    }

    /// Removes every version before the cutoff or in the range; versions
    /// that fail to remove stay managed and are reported.  Malformed
    /// bounds are the only error; a success moves each removed entry out
    /// of the registry, every removed entry carries the key of a selected
    /// one, and no entry is lost.
    pub fn clean(&self, stderr: &mut Vec<String>, input: CleanCommandInput) -> (r: Result<
        RemovedAndManagedVersions,
        CmdError,
    >)
        ensures
            (r is Err) == clean_selection_err(
                input.remove_before_version,
                input.start_version,
                input.end_version,
            ),
            ({
                let vs = input.managed_versions.spec_versions();
                let sel = clean_selection(
                    input.remove_before_version,
                    input.start_version,
                    input.end_version,
                    vs,
                );
                r matches Ok(o) ==> {
                    &&& o.removed_versions.spec_versions().len()
                        + o.managed_versions.spec_versions().len() == vs.len()
                    &&& o.removed_versions.spec_versions().len() <= sel.len()
                    &&& all_keys_selected(o.removed_versions.spec_versions(), sel)
                }
            }),
    {
        let remove_before_version = input.remove_before_version;
        let start_version = input.start_version;
        let end_version = input.end_version;
        let mut managed_versions = input.managed_versions;
        let app_config = input.app_config;
        let forget = input.forget;
        let to_remove = match self.get_versions_for_clean(
            &remove_before_version,
            &start_version,
            &end_version,
            &managed_versions,
        ) {
            Ok(list) => list,
            Err(e) => {
                return Err(e);
            },
        };
        let cfg = Some(app_config);
        let mut removed: Vec<ManagedVersion> = Vec::new();
        let items = to_remove.vec_ref();
        let ghost vs = input.managed_versions.spec_versions();
        let ghost sel = clean_selection(
            input.remove_before_version,
            input.start_version,
            input.end_version,
            vs,
        );
        let mut i: usize = 0;
        while i < items.len()
            invariant
                i <= items@.len(),
                items@ == sel,
                removed@.len() + managed_versions.spec_versions().len() == vs.len(),
                removed@.len() <= i,
                all_keys_selected(removed@, sel),
            decreases items@.len() - i,
        {
            let version = items[i].clone();
            let ghost pre = managed_versions.spec_versions();
            match self.remove_version(&cfg, &version, &mut managed_versions, forget) {
                Ok(r) => {
                    proof {
                        crate::data::lemma_first_match_props(
                            pre,
                            version.spec_tag().spec_value(),
                            version.spec_kind(),
                            0,
                        );
                    }
                    let ghost old_removed = removed@;
                    removed.push(r);
                    proof {
                        assert(mv_key_eq(r, sel[i as int]));
                        assert forall|j: int| 0 <= j < removed@.len() implies exists|i2: int|
                            0 <= i2 < sel.len() && mv_key_eq(#[trigger] removed@[j], sel[i2]) by {
                            if j < old_removed.len() {
                                assert(removed@[j] == old_removed[j]);
                            } else {
                                assert(mv_key_eq(removed@[j], sel[i as int]));
                            }
                        }
                        assert(all_keys_selected(removed@, sel));
                    }
                },
                Err(e) => {
                    let mut line = "Failed to remove the version ".to_owned();
                    line.append(version.tag().value().as_str());
                    line.append(":");
                    stderr.push(line);
                    let mut detail = "\t".to_owned();
                    detail.append(e.to_string().as_str());
                    stderr.push(detail);
                },
            }
            i = i + 1;
        }
        let outcome = RemovedAndManagedVersions::new(ManagedVersions::new(removed), managed_versions);
        proof {
            assert(outcome.removed_versions.spec_versions() == removed@);
            assert(all_keys_selected(outcome.removed_versions.spec_versions(), sel));
        }
        Ok(outcome)
    }

    /// The lines a clean pass would print without removing anything;
    /// malformed bounds are the only error.
    pub fn clean_dry_run(&self, stdout: &mut Vec<String>, input: CleanDryRunInput) -> (r: Result<
        (),
        CmdError,
    >)
        ensures
            (r is Err) == clean_selection_err(
                input.remove_before_version,
                input.start_version,
                input.end_version,
            ),
    {
        let remove_before_version = input.remove_before_version;
        let start_version = input.start_version;
        let end_version = input.end_version;
        let managed_versions = input.managed_versions;
        let to_remove = match self.get_versions_for_clean(
            &remove_before_version,
            &start_version,
            &end_version,
            &managed_versions,
        ) {
            Ok(list) => list,
            Err(e) => {
                return Err(e);
            },
        };
        stdout.push("DRY-RUN - The following versions would be removed:".to_owned());
        let mut items: Vec<ManagedVersion> = Vec::new();
        let all = to_remove.vec_ref();
        let mut i: usize = 0;
        while i < all.len()
            decreases all@.len() - i,
        {
            let c = all[i].clone();
            items.push(c);
            i = i + 1;
        }
        let sorted = sort_versions_desc(items);
        let mut j: usize = 0;
        while j < sorted.len()
            decreases sorted@.len() - j,
        {
            let mut line = "* ".to_owned();
            line.append(sorted[j].tag().value().as_str());
            stdout.push(line);
            j = j + 1;
        }
        Ok(())
    }
}

} // verus!
