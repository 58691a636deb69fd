//! The display strings of the apply command.
use vstd::prelude::*;

use crate::tag::TagKind;
use crate::version::Versioned;

verus! {

/// The line announcing that the host configuration is being modified to
/// use a version.
pub fn modifying_config<V: Versioned>(version: &V) -> (r: String)
    ensures
        match version.spec_kind() {
            TagKind::Proton => r@ == "Modifying Steam configuration to use "@
                + version.spec_tag().spec_value(),
            TagKind::Wine { .. } => r@ == "Modifying Lutris configuration to use "@
                + version.spec_tag().spec_value(),
        },
{
    let mut line: String = match version.kind() {
        TagKind::Proton => "Modifying Steam configuration to use ".to_owned(),
        TagKind::Wine { .. } => "Modifying Lutris configuration to use ".to_owned(),
    };
    line.append(version.tag().value().as_str());
    line
}

/// The line reporting a successful configuration change, with what the
/// user should do next.
pub fn modify_config_success(kind: &TagKind) -> (r: &'static str)
    ensures
        match kind {
            TagKind::Proton => r@
                == "Successfully modified Steam config: Restart Steam for the change to take effect"@,
            TagKind::Wine { .. } => r@
                == "Successfully modified Lutris config: Lutris should be restarted for the new settings to take effect."@,
        },
{
    match kind {
        TagKind::Proton => "Successfully modified Steam config: Restart Steam for the change to take effect",
        TagKind::Wine { .. } => "Successfully modified Lutris config: Lutris should be restarted for the new settings to take effect.",
    }
}

} // verus!
