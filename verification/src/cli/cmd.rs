//! Builders for the subcommands of the command line.
use vstd::prelude::*;

use crate::cli::{arg, before_and_start_end, start_end_range, tag_args, CommandSpec};

verus! {

/// The list command: which versions are managed, or what lies in the
/// host application's tool directory.
pub fn list() -> (r: CommandSpec)
    ensures
        r.name@ == "list"@,
{
    let mut c = CommandSpec::new("list");
    c.args.push(arg::flag("proton", 'p', "List GE Proton versions", 1));
    c.args.push(arg::flag("wine", 'w', "List Wine GE versions", 1));
    c.args.push(arg::flag("lol", 'l', "List Wine GE LoL versions", 1));
    c.args.push(arg::newest("List the latest versions for each tag kind.", 2));
    c.args.push(
        arg::file_system("List content of Steam compatibility tools or Lutris runners folder", 2),
    );
    c
}

/// The add command: download, verify, extract and manage a version.
pub fn add() -> (r: CommandSpec)
    ensures
        r.name@ == "add"@,
{
    let mut c = CommandSpec::new("add");
    c.args.push(arg::with_value("proton", 'p', "Download a GE Proton version", 0, 1));
    c.args.push(arg::with_value("wine", 'w', "Download a Wine GE version", 0, 1));
    c.args.push(arg::with_value("lol", 'l', "Download a Wine GE LoL version", 0, 1));
    c.args.push(
        arg::skip_checksum(
            "Skip downloading the checksum and comparing it to the downloaded release.",
            2,
        ),
    );
    c.args.push(
        arg::apply("Set the Steam or Lutris compatibility tool version after successfully adding it.", 2),
    );
    c.args.push(
        arg::update_config("Update the Steam or Lutris config after successfully adding.", 2),
    );
    c.groups.push(tag_args(true));
    c
}

/// The remove command: delete a managed version.
pub fn remove() -> (r: CommandSpec)
    ensures
        r.name@ == "remove"@,
{
    let mut c = CommandSpec::new("remove");
    c.aliases.push("rm".to_owned());
    c.args.push(arg::with_value("proton", 'p', "Remove a GE Proton version", 1, 1));
    c.args.push(arg::with_value("wine", 'w', "Remove a Wine GE version", 1, 1));
    c.args.push(arg::with_value("lol", 'l', "Remove a Wine GE LoL version", 1, 1));
    c.args.push(
        arg::forget("Do not remove the versions from the file system, only forget them", 2),
    );
    c.groups.push(tag_args(true));
    c
}

/// The check command: what the latest remote releases are.
pub fn check() -> (r: CommandSpec)
    ensures
        r.name@ == "check"@,
{
    let mut c = CommandSpec::new("check");
    c.aliases.push("ck".to_owned());
    c.args.push(arg::flag("proton", 'p', "Check for the latest GE Proton version", 1));
    c.args.push(arg::flag("wine", 'w', "Check for the latest Wine GE version", 1));
    c.args.push(arg::flag("lol", 'l', "Check for the latest Wine GE LoL version", 1));
    c.groups.push(tag_args(false));
    c
}

/// The migrate command: take an existing directory under management.
pub fn migrate() -> (r: CommandSpec)
    ensures
        r.name@ == "migrate"@,
{
    let mut c = CommandSpec::new("migrate");
    c.aliases.push("mg".to_owned());
    c.args.push(arg::with_value("proton", 'p', "Migrate a GE Proton version", 1, 1));
    c.args.push(arg::with_value("wine", 'w', "Migrate a Wine GE version", 1, 1));
    c.args.push(arg::with_value("lol", 'l', "Migrate a Wine GE LoL version", 1, 1));
    c.args.push(
        arg::source("Path to a directory containing a Wine GE or Proton GE version.", 1),
    );
    c.groups.push(tag_args(true));
    c
}

/// The apply command: make a managed version the active one.
pub fn apply() -> (r: CommandSpec)
    ensures
        r.name@ == "apply"@,
{
    let mut c = CommandSpec::new("apply");
    c.args.push(arg::with_value("proton", 'p', "Apply a GE Proton version for Steam", 1, 1));
    c.args.push(arg::with_value("wine", 'w', "Apply a Wine GE version for Lutris", 1, 1));
    c.args.push(arg::with_value("lol", 'l', "Apply a Wine GE LoL version for Lutris", 1, 1));
    c.groups.push(tag_args(true));
    c
}

/// The user-settings command with its copy subcommand.
pub fn user_settings() -> (r: CommandSpec)
    ensures
        r.name@ == "user-settings"@,
{
    let mut c = CommandSpec::new("user-settings");
    c.aliases.push("us".to_owned());
    c.subcommand_required = true;
    let mut copy = CommandSpec::new("copy");
    copy.args.push(arg::source("Source tag where to copy the user_settings.py from.", 1));
    copy.args.push(arg::destination("Destination tag where to copy the user_settings.py to.", 1));
    c.subcommands.push(copy);
    c
}

/// The clean command: remove several versions at once.
pub fn clean() -> (r: CommandSpec)
    ensures
        r.name@ == "clean"@,
{
    let mut c = CommandSpec::new("clean");
    c.args.push(arg::flag("proton", 'p', "Consider following tags as GE Proton tags", 1));
    c.args.push(arg::flag("wine", 'w', "Consider following tags as Wine GE tags", 1));
    c.args.push(arg::flag("lol", 'l', "Consider following tags as Wine GE (LoL) tags", 1));
    c.args.push(arg::before("Remove all versions before this tag", 2));
    c.args.push(arg::start("Sets the start tag for range removal", 2));
    c.args.push(arg::end("Sets the end tag for range removal", 2));
    c.args.push(
        arg::forget("Do not remove the versions from the file system, only forget them", 3),
    );
    c.args.push(arg::dry_run("Do not perform any actions, only show affected versions", 3));
    c.groups.push(tag_args(true));
    c.groups.push(start_end_range(false));
    c.groups.push(before_and_start_end(true));
    c
}

/// The forget command: stop managing a version without touching files.
pub fn forget() -> (r: CommandSpec)
    ensures
        r.name@ == "forget"@,
{
    let mut c = CommandSpec::new("forget");
    c.args.push(arg::with_value("proton", 'p', "Forget a GE Proton version", 1, 1));
    c.args.push(arg::with_value("wine", 'w', "Forget a Wine GE version", 1, 1));
    c.args.push(arg::with_value("lol", 'l', "Forget a Wine GE LoL version", 1, 1));
    c.groups.push(tag_args(true));
    c
}

} // verus!
