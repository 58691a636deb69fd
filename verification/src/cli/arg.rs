//! Builders for the single arguments of the command line.
use vstd::prelude::*;

use crate::cli::ArgSpec;

verus! {

/// A tool-kind flag taking no value.
pub fn flag(name: &str, short: char, help_text: &str, display_order: usize) -> (r: ArgSpec)
    ensures
        r.name@ == name@,
        r.short == Some(short),
        !r.takes_value,
        !r.required,
{
    ArgSpec {
        name: name.to_owned(),
        short: Some(short),
        takes_value: false,
        requires_value: false,
        required: false,
        help: help_text.to_owned(),
        display_order,
    }
}

/// A tool-kind argument taking a tag value; with a minimum of one value
/// the bare argument is refused.
pub fn with_value(name: &str, short: char, help_text: &str, min_value: usize, display_order: usize)
    -> (r: ArgSpec)
    ensures
        r.name@ == name@,
        r.short == Some(short),
        r.takes_value,
        r.requires_value == (min_value >= 1),
        !r.required,
{
    ArgSpec {
        name: name.to_owned(),
        short: Some(short),
        takes_value: true,
        requires_value: min_value >= 1,
        required: false,
        help: help_text.to_owned(),
        display_order,
    }
}

/// The flag listing only the latest version of each kind.
pub fn newest(help_text: &str, display_order: usize) -> (r: ArgSpec)
    ensures
        r.name@ == "newest"@,
{
    flag("newest", 'n', help_text, display_order)
}

/// The flag that skips checksum verification.
pub fn skip_checksum(help_text: &str, display_order: usize) -> (r: ArgSpec)
    ensures
        r.name@ == "skip-checksum"@,
{
    ArgSpec {
        name: "skip-checksum".to_owned(),
        short: None,
        takes_value: false,
        requires_value: false,
        required: false,
        help: help_text.to_owned(),
        display_order,
    }
}

/// The flag applying the added version right away.
pub fn apply(help_text: &str, display_order: usize) -> (r: ArgSpec)
    ensures
        r.name@ == "apply"@,
{
    ArgSpec {
        name: "apply".to_owned(),
        short: None,
        takes_value: false,
        requires_value: false,
        required: false,
        help: help_text.to_owned(),
        display_order,
    }
}

/// The flag updating the host configuration after adding.
pub fn update_config(help_text: &str, display_order: usize) -> (r: ArgSpec)
    ensures
        r.name@ == "update-config"@,
{
    ArgSpec {
        name: "update-config".to_owned(),
        short: None,
        takes_value: false,
        requires_value: false,
        required: false,
        help: help_text.to_owned(),
        display_order,
    }
}

/// The flag listing the tool directory of the host application.
pub fn file_system(help_text: &str, display_order: usize) -> (r: ArgSpec)
    ensures
        r.name@ == "file-system"@,
{
    flag("file-system", 'f', help_text, display_order)
}

/// The cutoff argument of the clean command.
pub fn before(help_text: &str, display_order: usize) -> (r: ArgSpec)
    ensures
        r.name@ == "before"@,
{
    with_value("before", 'b', help_text, 1, display_order)
}

/// The range start of the clean command.
pub fn start(help_text: &str, display_order: usize) -> (r: ArgSpec)
    ensures
        r.name@ == "start"@,
{
    with_value("start", 's', help_text, 1, display_order)
}

/// The range end of the clean command.
pub fn end(help_text: &str, display_order: usize) -> (r: ArgSpec)
    ensures
        r.name@ == "end"@,
{
    with_value("end", 'e', help_text, 1, display_order)
}

/// The flag that only forgets versions instead of deleting them.
pub fn forget(help_text: &str, display_order: usize) -> (r: ArgSpec)
    ensures
        r.name@ == "forget"@,
{
    flag("forget", 'f', help_text, display_order)
}

/// The flag that only shows what would be removed.
pub fn dry_run(help_text: &str, display_order: usize) -> (r: ArgSpec)
    ensures
        r.name@ == "dry-run"@,
{
    ArgSpec {
        name: "dry-run".to_owned(),
        short: None,
        takes_value: false,
        requires_value: false,
        required: false,
        help: help_text.to_owned(),
        display_order,
    }
}

/// The required source of a copy or migration.
pub fn source(help_text: &str, display_order: usize) -> (r: ArgSpec)
    ensures
        r.name@ == "source"@,
        r.required,
{
    ArgSpec {
        name: "source".to_owned(),
        short: Some('s'),
        takes_value: true,
        requires_value: true,
        required: true,
        help: help_text.to_owned(),
        display_order,
    }
}

/// The required destination of a copy.
pub fn destination(help_text: &str, display_order: usize) -> (r: ArgSpec)
    ensures
        r.name@ == "destination"@,
        r.required,
{
    ArgSpec {
        name: "destination".to_owned(),
        short: Some('d'),
        takes_value: true,
        requires_value: true,
        required: true,
        help: help_text.to_owned(),
        display_order,
    }
}

} // verus!
