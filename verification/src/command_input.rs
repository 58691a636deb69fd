//! The inputs of the terminal commands, built from matched arguments and
//! the loaded registry; everything the command handlers work on is plain
//! values from here on.
use vstd::prelude::*;

use crate::cli::ArgMatches;
use crate::compat_tool_app::ApplicationConfig;
use crate::data::{ManagedVersion, ManagedVersions};
use crate::tag::{Tag, TagKind, WineTagKind};
use crate::version::{Version, Versioned};

verus! {

/// The host application governing a kind.
pub fn application_name(kind: &TagKind) -> (r: String)
    ensures
        match kind {
            TagKind::Proton => r@ == "Steam"@,
            TagKind::Wine { .. } => r@ == "Lutris"@,
        },
{
    match kind {
        TagKind::Proton => "Steam".to_owned(),
        TagKind::Wine { .. } => "Lutris".to_owned(),
    }
}

/// A failure to build a command's input.
#[derive(Debug)]
pub enum InputError {
    NoVersionProvided,
    VersionNotManaged,
    SourceVersionNotFound,
    DestinationVersionNotFound,
    TagRequired,
}

impl InputError {
    /// The message a terminal user reads.
    pub fn to_string(&self) -> (r: String)
        ensures
            match self {
                InputError::NoVersionProvided => r@
                    == "No version provided! - A version is required for removal"@,
                InputError::VersionNotManaged => r@ == "Given version is not managed"@,
                InputError::SourceVersionNotFound => r@
                    == "Given source Proton version does not exist"@,
                InputError::DestinationVersionNotFound => r@
                    == "Given destination Proton version does not exist"@,
                InputError::TagRequired => r@
                    == "Could not create tag information from provided argument"@,
            },
    {
        match self {
            InputError::NoVersionProvided => "No version provided! - A version is required for removal".to_owned(),
            InputError::VersionNotManaged => "Given version is not managed".to_owned(),
            InputError::SourceVersionNotFound => "Given source Proton version does not exist".to_owned(),
            InputError::DestinationVersionNotFound => "Given destination Proton version does not exist".to_owned(),
            InputError::TagRequired => "Could not create tag information from provided argument".to_owned(),
        }
    }
}

/// The tool-kind argument that was given, with its optional tag value.
#[derive(Debug)]
pub struct TagArg {
    pub tag: Option<Tag>,
    pub kind: TagKind,
}

impl TagArg {
    /// A tag argument of the given tag and kind.
    pub fn new(tag: Option<Tag>, kind: TagKind) -> (r: TagArg)
        ensures
            r.tag == tag,
            r.kind == kind,
    {
        TagArg { tag, kind }
    }

    /// The raw tag string, if a tag was given.
    pub fn value(&self) -> (r: Option<&String>) {
        match &self.tag {
            Some(t) => Some(t.value()),
            None => None,
        }
    }

    /// The version the argument names; only for arguments carrying a tag.
    pub fn version(&self) -> (v: Version)
        requires
            self.tag is Some,
        ensures
            v.spec_tag() == self.tag->0,
            v.spec_kind() == self.kind,
            v.spec_label() is None,
    {
        match &self.tag {
            Some(t) => Version::with_tag(None, t.clone(), self.kind),
            None => Version::with_tag(None, Tag::default(), self.kind),
        }
    }

    /// The tag argument present in the matches: the first of the
    /// proton, wine and lol arguments that appeared.
    pub fn try_from(matches: &ArgMatches) -> (r: Result<TagArg, ()>) {
        if matches.is_present("proton") {
            match matches.value_of("proton") {
                Some(t) => Ok(TagArg::new(Some(Tag::new(t)), TagKind::Proton)),
                None => Ok(TagArg::new(None, TagKind::Proton)),
            }
        } else if matches.is_present("wine") {
            match matches.value_of("wine") {
                Some(t) => Ok(TagArg::new(Some(Tag::new(t)), TagKind::wine())),
                None => Ok(TagArg::new(None, TagKind::wine())),
            }
        } else if matches.is_present("lol") {
            match matches.value_of("lol") {
                Some(t) => Ok(TagArg::new(Some(Tag::new(t)), TagKind::lol())),
                None => Ok(TagArg::new(None, TagKind::lol())),
            }
        } else {
            Err(())
        }
    }
}

/// A version as the user names one: a tag of a kind, or the latest of a
/// kind.
#[derive(Debug)]
pub enum GivenVersion {
    Explicit { version: Version },
    Latest { kind: TagKind },
}

impl PartialEq for GivenVersion {
    /// Given versions are equal when both are the same tag of the same
    /// kind, or the latest of the same kind.
    fn eq(&self, other: &GivenVersion) -> (r: bool) {
        match (self, other) {
            (GivenVersion::Explicit { version: a }, GivenVersion::Explicit { version: b }) => *a
                == *b,
            (GivenVersion::Latest { kind: a }, GivenVersion::Latest { kind: b }) => *a == *b,
            _ => false,
        }
    }
}

impl Eq for GivenVersion {}

impl vstd::std_specs::cmp::PartialEqSpecImpl for GivenVersion {
    open spec fn obeys_eq_spec() -> bool {
        true
    }

    open spec fn eq_spec(&self, other: &GivenVersion) -> bool {
        match (self, other) {
            (GivenVersion::Explicit { version: a }, GivenVersion::Explicit { version: b }) => a.spec_tag().spec_value()
                == b.spec_tag().spec_value() && a.spec_kind() == b.spec_kind()
                && crate::version::opt_label_view(a.spec_label()) == crate::version::opt_label_view(
                b.spec_label(),
            ),
            (GivenVersion::Latest { kind: a }, GivenVersion::Latest { kind: b }) => a == b,
            _ => false,
        }
    }
}

/// What the list command looks up per kind outside the core: the config
/// file's active directory name and the tool directory.
#[derive(Debug)]
pub struct ListLookup {
    pub kind: TagKind,
    pub in_use_directory_name: Option<String>,
    pub app_compat_tool_dir: String,
}

/// The input of the list command for one kind.
#[derive(Debug)]
pub struct ListCommandInput {
    pub tag_kind: TagKind,
    pub newest: bool,
    pub in_use_directory_name: Option<String>,
    pub managed_versions: ManagedVersions,
    pub application_name: String,
    pub file_system: bool,
    pub app_compat_tool_dir: String,
}

impl ListCommandInput {
    /// A list input from its parts.
    pub fn new(
        tag_kind: TagKind,
        newest: bool,
        in_use_directory_name: Option<String>,
        managed_versions: ManagedVersions,
        application_name: String,
        file_system: bool,
        app_compat_tool_dir: String,
    ) -> (r: ListCommandInput)
        ensures
            r.tag_kind == tag_kind,
            r.newest == newest,
            r.file_system == file_system,
    {
        ListCommandInput {
            tag_kind,
            newest,
            in_use_directory_name,
            managed_versions,
            application_name,
            file_system,
            app_compat_tool_dir,
        }
    }

    /// One list input per listed kind: the kind the tag argument names,
    /// or Proton and Wine without one; each takes the registry entries of
    /// its kind and the looked-up state of its host application.
    pub fn create_from(
        matches: &ArgMatches,
        managed_versions: ManagedVersions,
        lookups: &Vec<ListLookup>,
    ) -> (r: Vec<ListCommandInput>) {
        let sub = match matches.subcommand_matches("list") {
            Some(m) => m,
            None => {
                return Vec::new();
            },
        };
        let tag_kind: Option<TagKind> = match TagArg::try_from(sub) {
            Ok(t) => Some(t.kind),
            Err(_) => None,
        };
        let file_system = sub.is_present("file-system");
        let newest = sub.is_present("newest");
        let mut kinds: Vec<TagKind> = Vec::new();
        kinds.push(TagKind::Proton);
        kinds.push(TagKind::Wine { kind: WineTagKind::WineGe });
        let mut out: Vec<ListCommandInput> = Vec::new();
        let mut i: usize = 0;
        while i < kinds.len()
            decreases kinds@.len() - i,
        {
            let kind = kinds[i];
            let listed: bool = match tag_kind {
                Some(k) => k == kind,
                None => true,
            };
            if listed {
                let mut in_use: Option<String> = None;
                let mut dir: String = String::new();
                let mut j: usize = 0;
                while j < lookups.len()
                    decreases lookups@.len() - j,
                {
                    if lookups[j].kind == kind {
                        in_use = match &lookups[j].in_use_directory_name {
                            Some(d) => Some(d.clone()),
                            None => None,
                        };
                        dir = lookups[j].app_compat_tool_dir.clone();
                        j = lookups.len();
                    } else {
                        j = j + 1;
                    }
                }
                let mut filtered: Vec<ManagedVersion> = Vec::new();
                let all = managed_versions.vec_ref();
                let mut v: usize = 0;
                while v < all.len()
                    decreases all@.len() - v,
                {
                    if *all[v].kind() == kind {
                        let c = all[v].clone();
                        filtered.push(c);
                    }
                    v = v + 1;
                }
                out.push(
                    ListCommandInput::new(
                        kind,
                        newest,
                        in_use,
                        ManagedVersions::new(filtered),
                        application_name(&kind),
                        file_system,
                        dir,
                    ),
                );
            }
            i = i + 1;
        }
        out
    }
}

/// The input of the add command.
#[derive(Debug)]
pub struct AddCommandInput {
    pub version: GivenVersion,
    pub skip_checksum: bool,
    pub managed_versions: ManagedVersions,
}

impl AddCommandInput {
    /// An add input from its parts.
    pub fn new(version: GivenVersion, skip_checksum: bool, managed_versions: ManagedVersions)
        -> (r: AddCommandInput)
        ensures
            r.skip_checksum == skip_checksum,
    {
        AddCommandInput { version, skip_checksum, managed_versions }
    }

    /// The add input the matches describe: an explicit tag, or the latest
    /// of the named kind.
    pub fn create_from(matches: &ArgMatches, managed_versions: ManagedVersions) -> (r:
        AddCommandInput) {
        let sub = match matches.subcommand_matches("add") {
            Some(m) => m,
            None => {
                return AddCommandInput::new(
                    GivenVersion::Latest { kind: TagKind::Proton },
                    false,
                    managed_versions,
                );
            },
        };
        let skip_checksum = sub.is_present("skip-checksum");
        let version = match TagArg::try_from(sub) {
            Ok(tag_arg) => match tag_arg.tag {
                Some(tag) => GivenVersion::Explicit {
                    version: Version::with_tag(None, tag, tag_arg.kind),
                },
                None => GivenVersion::Latest { kind: tag_arg.kind },
            },
            Err(_) => GivenVersion::Latest { kind: TagKind::Proton },
        };
        AddCommandInput::new(version, skip_checksum, managed_versions)
    }

    /// Whether the add command also applies the version.
    pub fn apply_present(matches: &ArgMatches) -> (r: bool) {
        match matches.subcommand_matches("add") {
            Some(m) => m.is_present("apply"),
            None => false,
        }
    }
}

/// The input of the remove command.
#[derive(Debug)]
pub struct RemoveCommandInput {
    pub managed_versions: ManagedVersions,
    pub version_to_remove: ManagedVersion,
    pub app_config_path: String,
    pub forget: bool,
}

impl RemoveCommandInput {
    /// A remove input from its parts.
    pub fn new(
        managed_versions: ManagedVersions,
        version_to_remove: ManagedVersion,
        app_config_path: String,
        forget: bool,
    ) -> (r: RemoveCommandInput)
        ensures
            r.forget == forget,
            r.app_config_path@ == app_config_path@,
    {
        RemoveCommandInput { managed_versions, version_to_remove, app_config_path, forget }
    }

    /// The remove input the matches describe; the named version must be
    /// managed, and a tag must have been given.
    pub fn create_from(
        matches: &ArgMatches,
        managed_versions: ManagedVersions,
        app_config_path: String,
    ) -> (r: Result<RemoveCommandInput, InputError>) {
        let sub = match matches.subcommand_matches("remove") {
            Some(m) => m,
            None => {
                return Err(InputError::TagRequired);
            },
        };
        let tag_arg = match TagArg::try_from(sub) {
            Ok(t) => t,
            Err(_) => {
                return Err(InputError::TagRequired);
            },
        };
        if tag_arg.tag.is_none() {
            return Err(InputError::NoVersionProvided);
        }
        let forget = sub.is_present("forget");
        let version = match managed_versions.find_version(&tag_arg.version()) {
            Some(v) => v,
            None => {
                return Err(InputError::VersionNotManaged);
            },
        };
        Ok(RemoveCommandInput::new(managed_versions, version, app_config_path, forget))
    }

    /// The kind the remove command's tag argument names.
    pub fn tag_kind_from_matches(matches: &ArgMatches) -> (r: Option<TagKind>) {
        match matches.subcommand_matches("remove") {
            Some(m) => match TagArg::try_from(m) {
                Ok(t) => Some(t.kind),
                Err(_) => None,
            },
            None => None,
        }
    }
}

/// The input of the check command.
#[derive(Debug)]
pub struct CheckCommandInput {
    pub kind: Option<TagKind>,
}

impl CheckCommandInput {
    /// A check input for the given kind, or for all kinds.
    pub fn new(kind: Option<TagKind>) -> (r: CheckCommandInput)
        ensures
            r.kind == kind,
    {
        CheckCommandInput { kind }
    }

    /// The check input the matches describe.
    pub fn from(matches: ArgMatches) -> (r: CheckCommandInput) {
        match matches.subcommand_matches("check") {
            Some(m) => {
                if m.is_present("tag-args") {
                    match TagArg::try_from(m) {
                        Ok(t) => CheckCommandInput::new(Some(t.kind)),
                        Err(_) => CheckCommandInput::new(None),
                    }
                } else {
                    CheckCommandInput::new(None)
                }
            },
            None => CheckCommandInput::new(None),
        }
    }
}

impl Default for CheckCommandInput {
    /// The check input asking about every kind.
    fn default() -> (r: Self)
        ensures
            r.kind is None,
    {
        CheckCommandInput::new(None)
    }
}

/// The input of the migrate command.
#[derive(Debug)]
pub struct MigrationCommandInput {
    pub source_path: String,
    pub version: Version,
    pub managed_versions: ManagedVersions,
}

impl MigrationCommandInput {
    /// A migration input from its parts.
    pub fn new(source_path: String, version: Version, managed_versions: ManagedVersions) -> (r:
        MigrationCommandInput)
        ensures
            r.source_path@ == source_path@,
    {
        MigrationCommandInput { source_path, version, managed_versions }
    }

    /// The migration input the matches describe.
    pub fn create_from(matches: &ArgMatches, managed_versions: ManagedVersions) -> (r: Result<
        MigrationCommandInput,
        InputError,
    >) {
        let sub = match matches.subcommand_matches("migrate") {
            Some(m) => m,
            None => {
                return Err(InputError::TagRequired);
            },
        };
        let tag_arg = match TagArg::try_from(sub) {
            Ok(t) => t,
            Err(_) => {
                return Err(InputError::TagRequired);
            },
        };
        if tag_arg.tag.is_none() {
            return Err(InputError::NoVersionProvided);
        }
        let source_path = match sub.value_of("source") {
            Some(p) => p.to_owned(),
            None => String::new(),
        };
        Ok(MigrationCommandInput::new(source_path, tag_arg.version(), managed_versions))
    }
}

/// The input of the apply command.
#[derive(Debug)]
pub struct ApplyCommandInput {
    pub version: GivenVersion,
    pub managed_versions: ManagedVersions,
}

impl ApplyCommandInput {
    /// An apply input from its parts.
    pub fn new(version: GivenVersion, managed_versions: ManagedVersions) -> (r: ApplyCommandInput) {
        ApplyCommandInput { version, managed_versions }
    }

    /// The apply input the matches describe.
    pub fn create_from(matches: &ArgMatches, managed_versions: ManagedVersions) -> (r:
        ApplyCommandInput) {
        let sub = match matches.subcommand_matches("apply") {
            Some(m) => m,
            None => {
                return ApplyCommandInput::new(
                    GivenVersion::Latest { kind: TagKind::Proton },
                    managed_versions,
                );
            },
        };
        let version = match TagArg::try_from(sub) {
            Ok(tag_arg) => match tag_arg.tag {
                Some(tag) => GivenVersion::Explicit {
                    version: Version::with_tag(None, tag, tag_arg.kind),
                },
                None => GivenVersion::Latest { kind: tag_arg.kind },
            },
            Err(_) => GivenVersion::Latest { kind: TagKind::Proton },
        };
        ApplyCommandInput::new(version, managed_versions)
    }
}

/// The input of the user-settings copy command.
#[derive(Debug)]
pub struct CopyUserSettingsCommandInput {
    pub src_version: ManagedVersion,
    pub dst_version: ManagedVersion,
}

impl CopyUserSettingsCommandInput {
    /// A copy input from its parts.
    pub fn new(src_version: ManagedVersion, dst_version: ManagedVersion) -> (r:
        CopyUserSettingsCommandInput) {
        CopyUserSettingsCommandInput { src_version, dst_version }
    }

    /// The copy input the matches describe: both tags must name managed
    /// Proton versions, since only Proton carries user settings.
    pub fn create_from(matches: &ArgMatches, managed_versions: &ManagedVersions) -> (r: Result<
        CopyUserSettingsCommandInput,
        InputError,
    >) {
        let sub = match matches.subcommand_matches("user-settings") {
            Some(m) => m,
            None => {
                return Err(InputError::TagRequired);
            },
        };
        let copy = match sub.subcommand_matches("copy") {
            Some(m) => m,
            None => {
                return Err(InputError::TagRequired);
            },
        };
        let src_tag = match copy.value_of("source") {
            Some(t) => t,
            None => "",
        };
        let dst_tag = match copy.value_of("destination") {
            Some(t) => t,
            None => "",
        };
        let src_version = match managed_versions.find_version(
            &Version::new(None, src_tag, TagKind::Proton),
        ) {
            Some(v) => v,
            None => {
                return Err(InputError::SourceVersionNotFound);
            },
        };
        let dst_version = match managed_versions.find_version(
            &Version::new(None, dst_tag, TagKind::Proton),
        ) {
            Some(v) => v,
            None => {
                return Err(InputError::DestinationVersionNotFound);
            },
        };
        Ok(CopyUserSettingsCommandInput::new(src_version, dst_version))
    }
}

/// The kind the clean command's tag argument names.
pub fn tag_kind(matches: &ArgMatches) -> (r: Option<TagKind>) {
    match TagArg::try_from(matches) {
        Ok(t) => Some(t.kind),
        Err(_) => None,
    }
}

/// The version named as the range start, if one was.
pub fn start(matches: &ArgMatches, kind: TagKind) -> (r: Option<Version>) {
    match matches.value_of("start") {
        Some(t) => Some(Version::new(None, t, kind)),
        None => None,
    }
}

/// The version named as the range end, if one was.
pub fn end(matches: &ArgMatches, kind: TagKind) -> (r: Option<Version>) {
    match matches.value_of("end") {
        Some(t) => Some(Version::new(None, t, kind)),
        None => None,
    }
}

/// The version named as the cutoff, if one was.
pub fn before(matches: &ArgMatches, kind: TagKind) -> (r: Option<Version>) {
    match matches.value_of("before") {
        Some(t) => Some(Version::new(None, t, kind)),
        None => None,
    }
}

/// The input of the clean command.
#[derive(Debug)]
pub struct CleanCommandInput {
    pub remove_before_version: Option<Version>,
    pub start_version: Option<Version>,
    pub end_version: Option<Version>,
    pub managed_versions: ManagedVersions,
    pub app_config: ApplicationConfig,
    pub forget: bool,
}

impl CleanCommandInput {
    /// A clean input from its parts.
    pub fn new(
        remove_before_version: Option<Version>,
        start_version: Option<Version>,
        end_version: Option<Version>,
        managed_versions: ManagedVersions,
        app_config: ApplicationConfig,
        forget: bool,
    ) -> (r: CleanCommandInput)
        ensures
            r.forget == forget,
    {
        CleanCommandInput {
            remove_before_version,
            start_version,
            end_version,
            managed_versions,
            app_config,
            forget,
        }
    }

    /// The clean input the matches describe, against the host
    /// application's configuration as already read.
    pub fn create_from(
        matches: &ArgMatches,
        managed_versions: ManagedVersions,
        app_config: ApplicationConfig,
    ) -> (r: Result<CleanCommandInput, InputError>) {
        let sub = match matches.subcommand_matches("clean") {
            Some(m) => m,
            None => {
                return Err(InputError::TagRequired);
            },
        };
        let kind = match tag_kind(sub) {
            Some(k) => k,
            None => {
                return Err(InputError::TagRequired);
            },
        };
        let before_v = before(sub, kind);
        let start_v = start(sub, kind);
        let end_v = end(sub, kind);
        let forget = sub.is_present("forget");
        Ok(
            CleanCommandInput::new(
                before_v,
                start_v,
                end_v,
                managed_versions,
                app_config,
                forget,
            ),
        )
    }

    /// The kind the clean command's tag argument names.
    pub fn tag_kind_from_matches(matches: &ArgMatches) -> (r: Option<TagKind>) {
        match matches.subcommand_matches("clean") {
            Some(m) => tag_kind(m),
            None => None,
        }
    }
}

/// The input of a clean dry run: what would be removed.
#[derive(Debug)]
pub struct CleanDryRunInput {
    pub remove_before_version: Option<Version>,
    pub start_version: Option<Version>,
    pub end_version: Option<Version>,
    pub managed_versions: ManagedVersions,
}

impl CleanDryRunInput {
    /// A dry-run input from its parts.
    pub fn new(
        remove_before_version: Option<Version>,
        start_version: Option<Version>,
        end_version: Option<Version>,
        managed_versions: ManagedVersions,
    ) -> (r: CleanDryRunInput) {
        CleanDryRunInput { remove_before_version, start_version, end_version, managed_versions }
    }

    /// The dry-run input the matches describe.
    pub fn create_from(matches: &ArgMatches, managed_versions: &ManagedVersions) -> (r: Result<
        CleanDryRunInput,
        InputError,
    >) {
        let sub = match matches.subcommand_matches("clean") {
            Some(m) => m,
            None => {
                return Err(InputError::TagRequired);
            },
        };
        let kind = match tag_kind(sub) {
            Some(k) => k,
            None => {
                return Err(InputError::TagRequired);
            },
        };
        let before_v = before(sub, kind);
        let start_v = start(sub, kind);
        let end_v = end(sub, kind);
        Ok(CleanDryRunInput::new(before_v, start_v, end_v, managed_versions.clone()))
    }

    /// Whether the clean command only shows what would be removed.
    pub fn is_dry_run(matches: &ArgMatches) -> (r: bool) {
        match matches.subcommand_matches("clean") {
            Some(m) => m.is_present("dry-run"),
            None => false,
        }
    }
}

} // verus!
