//! The argument shapes of the older command line, kept for the commands
//! that still take them: plain bundles of the matched tag argument and
//! flags.
use vstd::prelude::*;

use crate::cli::ArgMatches;
use crate::command_input::TagArg;
use crate::tag::{Tag, TagKind};

verus! {

/// The arguments of the list command.
#[derive(Debug)]
pub struct ListArgs {
    pub kind: Option<TagKind>,
    pub newest: bool,
}

impl ListArgs {
    /// List arguments from their parts.
    pub fn new(kind: Option<TagKind>, newest: bool) -> (r: ListArgs)
        ensures
            r.kind == kind,
            r.newest == newest,
    {
        ListArgs { kind, newest }
    }

    /// The list arguments the matches describe.
    pub fn from(matches: ArgMatches) -> (r: ListArgs) {
        match matches.subcommand_matches("list") {
            Some(m) => {
                let newest = m.is_present("newest");
                let kind: Option<TagKind> = match TagArg::try_from(m) {
                    Ok(t) => Some(t.kind),
                    Err(_) => None,
                };
                ListArgs::new(kind, newest)
            },
            None => ListArgs::new(None, false),
        }
    }
}

/// The arguments of the add command.
#[derive(Debug)]
pub struct AddArgs {
    pub tag_arg: TagArg,
    pub skip_checksum: bool,
    pub update_config: bool,
}

impl AddArgs {
    /// Add arguments from their parts.
    pub fn new(tag: TagArg, skip_checksum: bool, update_config: bool) -> (r: AddArgs)
        ensures
            r.skip_checksum == skip_checksum,
            r.update_config == update_config,
    {
        AddArgs { tag_arg: tag, skip_checksum, update_config }
    }

    /// The add arguments the matches describe.
    pub fn from(matches: ArgMatches) -> (r: AddArgs) {
        match matches.subcommand_matches("add") {
            Some(m) => {
                let tag = match TagArg::try_from(m) {
                    Ok(t) => t,
                    Err(_) => TagArg::new(None, TagKind::Proton),
                };
                let skip_checksum = m.is_present("skip-checksum");
                let update_config = m.is_present("update-config");
                AddArgs::new(tag, skip_checksum, update_config)
            },
            None => AddArgs::new(TagArg::new(None, TagKind::Proton), false, false),
        }
    }
}

/// The arguments of the remove command.
#[derive(Debug)]
pub struct RemoveArgs {
    pub tag_arg: TagArg,
}

impl RemoveArgs {
    /// Remove arguments from their part.
    pub fn new(tag_arg: TagArg) -> (r: RemoveArgs) {
        RemoveArgs { tag_arg }
    }

    /// The remove arguments the matches describe.
    pub fn from(matches: ArgMatches) -> (r: RemoveArgs) {
        match matches.subcommand_matches("remove") {
            Some(m) => {
                let tag_arg = match TagArg::try_from(m) {
                    Ok(t) => t,
                    Err(_) => TagArg::new(None, TagKind::Proton),
                };
                RemoveArgs::new(tag_arg)
            },
            None => RemoveArgs::new(TagArg::new(None, TagKind::Proton)),
        }
    }
}

/// The arguments of the check command.
#[derive(Debug)]
pub struct CheckArgs {
    pub kind: Option<TagKind>,
}

impl CheckArgs {
    /// Check arguments from their part.
    pub fn new(kind: Option<TagKind>) -> (r: CheckArgs)
        ensures
            r.kind == kind,
    {
        CheckArgs { kind }
    }

    /// The check arguments the matches describe.
    pub fn from(matches: ArgMatches) -> (r: CheckArgs) {
        match matches.subcommand_matches("check") {
            Some(m) => {
                if m.is_present("tag-args") {
                    match TagArg::try_from(m) {
                        Ok(t) => CheckArgs::new(Some(t.kind)),
                        Err(_) => CheckArgs::new(None),
                    }
                } else {
                    CheckArgs::new(None)
                }
            },
            None => CheckArgs::new(None),
        }
    }
}

impl Default for CheckArgs {
    /// The check arguments asking about every kind.
    fn default() -> (r: Self)
        ensures
            r.kind is None,
    {
        CheckArgs::new(None)
    }
}

/// The arguments of the migrate command.
#[derive(Debug)]
pub struct MigrationArgs {
    pub tag_arg: TagArg,
    pub source_path: String,
}

impl MigrationArgs {
    /// Migration arguments from their parts.
    pub fn new(tag_arg: TagArg, source_path: &str) -> (r: MigrationArgs)
        ensures
            r.source_path@ == source_path@,
    {
        MigrationArgs { tag_arg, source_path: source_path.to_owned() }
    }

    /// The migration arguments the matches describe.
    pub fn from(matches: ArgMatches) -> (r: MigrationArgs) {
        match matches.subcommand_matches("migrate") {
            Some(m) => {
                let tag_arg = match TagArg::try_from(m) {
                    Ok(t) => t,
                    Err(_) => TagArg::new(None, TagKind::Proton),
                };
                let source_path = match m.value_of("source") {
                    Some(p) => p.to_owned(),
                    None => String::new(),
                };
                MigrationArgs { tag_arg, source_path }
            },
            None => MigrationArgs::new(TagArg::new(None, TagKind::Proton), ""),
        }
    }
}

/// The arguments of the apply command.
#[derive(Debug)]
pub struct ApplyArgs {
    pub tag_arg: TagArg,
}

impl ApplyArgs {
    /// Apply arguments from their part.
    pub fn new(tag_arg: TagArg) -> (r: ApplyArgs) {
        ApplyArgs { tag_arg }
    }

    /// The apply arguments the matches describe.
    pub fn from(matches: ArgMatches) -> (r: ApplyArgs) {
        match matches.subcommand_matches("apply") {
            Some(m) => {
                let tag_arg = match TagArg::try_from(m) {
                    Ok(t) => t,
                    Err(_) => TagArg::new(None, TagKind::Proton),
                };
                ApplyArgs::new(tag_arg)
            },
            None => ApplyArgs::new(TagArg::new(None, TagKind::Proton)),
        }
    }
}

/// The arguments of the user-settings copy command.
#[derive(Debug)]
pub struct CopyUserSettingsArgs {
    pub src_tag: Tag,
    pub dst_tag: Tag,
}

impl CopyUserSettingsArgs {
    /// Copy arguments from their tags.
    pub fn new(src_tag: &str, dst_tag: &str) -> (r: CopyUserSettingsArgs)
        ensures
            r.src_tag.spec_value() == src_tag@,
            r.dst_tag.spec_value() == dst_tag@,
    {
        CopyUserSettingsArgs { src_tag: Tag::new(src_tag), dst_tag: Tag::new(dst_tag) }
    }

    /// The copy arguments the matches describe.
    pub fn from(matches: ArgMatches) -> (r: CopyUserSettingsArgs) {
        match matches.subcommand_matches("user-settings") {
            Some(us) => {
                match us.subcommand_matches("copy") {
                    Some(m) => {
                        let src = match m.value_of("source") {
                            Some(s) => s.to_owned(),
                            None => String::new(),
                        };
                        let dst = match m.value_of("destination") {
                            Some(d) => d.to_owned(),
                            None => String::new(),
                        };
                        CopyUserSettingsArgs {
                            src_tag: Tag::new(src.as_str()),
                            dst_tag: Tag::new(dst.as_str()),
                        }
                    },
                    None => CopyUserSettingsArgs::new("", ""),
                }
            },
            None => CopyUserSettingsArgs::new("", ""),
        }
    }
}

impl Default for CopyUserSettingsArgs {
    /// The copy arguments of two empty tags.
    fn default() -> (r: Self) {
        CopyUserSettingsArgs::new("", "")
    }
}

/// The arguments of the forget command.
#[derive(Debug)]
pub struct ForgetArgs {
    pub tag_arg: TagArg,
}

impl ForgetArgs {
    /// Forget arguments from their part.
    pub fn new(tag_arg: TagArg) -> (r: ForgetArgs) {
        ForgetArgs { tag_arg }
    }

    /// The forget arguments the matches describe.
    pub fn from(matches: ArgMatches) -> (r: ForgetArgs) {
        match matches.subcommand_matches("forget") {
            Some(m) => {
                let tag_arg = match TagArg::try_from(m) {
                    Ok(t) => t,
                    Err(_) => TagArg::new(None, TagKind::Proton),
                };
                ForgetArgs::new(tag_arg)
            },
            None => ForgetArgs::new(TagArg::new(None, TagKind::Proton)),
        }
    }
}

} // verus!
