//! The host application's view of its active compatibility tool: which
//! kind it governs and the directory name it currently designates.
use vstd::prelude::*;

use crate::config::{
    lines_view, lutris_active_value, lutris_read_ok, steam_active_value, steam_read_ok,
    LutrisConfig, LutrisConfigError, SteamConfig, SteamConfigError,
};
use crate::data::ManagedVersion;
use crate::tag::{TagKind, WineTagKind};
use crate::text::{chars_vec, contains_chars, contains_seq, lower_seq, str_eq};
use crate::version::Versioned;

verus! {

/// The error of reading a host application's configuration.
#[derive(Debug)]
pub enum AppConfigError {
    Steam(SteamConfigError),
    Lutris(LutrisConfigError),
}

/// A host application's configuration, reduced to what the core needs:
/// the governed tool kind and the directory name of the active version.
#[derive(Debug)]
pub struct ApplicationConfig {
    kind: TagKind,
    version_dir_name: String,
}

impl ApplicationConfig {
    /// The governed tool kind.
    pub closed spec fn spec_kind(&self) -> TagKind {
        self.kind
    }

    /// The active version's directory name.
    pub closed spec fn spec_dir_name(&self) -> Seq<char> {
        self.version_dir_name@
    }

    /// A configuration naming the given directory for the given kind.
    pub fn new(kind: TagKind, version_dir_name: String) -> (c: ApplicationConfig)
        ensures
            c.spec_kind() == kind,
            c.spec_dir_name() == version_dir_name@,
    {
        ApplicationConfig { kind, version_dir_name }
    }

    /// The governed tool kind.
    pub fn kind(&self) -> (k: TagKind)
        ensures
            k == self.spec_kind(),
    {
        self.kind
    }

    /// The active version's directory name.
    pub fn version_dir_name(&self) -> (r: &String)
        ensures
            r@ == self.spec_dir_name(),
    {
        &self.version_dir_name
    }

    /// Reads the configuration of the application governing `kind` from
    /// its lines: Steam's file for Proton, Lutris's runner file for the
    /// Wine family.  The recorded directory name is the file's active
    /// value; for Lutris the sub-variant is told from that value, the
    /// `LoL` build by the marker in its (case-folded) directory name.
    pub fn create_copy(kind: TagKind, lines: Vec<String>) -> (r: Result<
        ApplicationConfig,
        AppConfigError,
    >)
        ensures
            ({
                let lv = lines_view(lines@);
                match kind {
                    TagKind::Proton => match r {
                        Ok(c) => steam_read_ok(lv) && c.spec_kind() == TagKind::Proton
                            && c.spec_dir_name() == steam_active_value(lv),
                        Err(e) => !steam_read_ok(lv) && e is Steam,
                    },
                    TagKind::Wine { .. } => match r {
                        Ok(c) => lutris_read_ok(lv) && c.spec_dir_name() == lutris_active_value(
                            lv,
                        ) && c.spec_kind() == (if contains_seq(
                            lower_seq(lutris_active_value(lv)),
                            seq!['l', 'o', 'l'],
                        ) {
                            TagKind::Wine { kind: WineTagKind::LolWineGe }
                        } else {
                            TagKind::Wine { kind: WineTagKind::WineGe }
                        }),
                        Err(e) => !lutris_read_ok(lv) && e is Lutris,
                    },
                }
            }),
    {
        match kind {
            TagKind::Proton => {
                match SteamConfig::create_copy(lines) {
                    Ok(c) => Ok(ApplicationConfig::new(TagKind::Proton, c.proton_version())),
                    Err(e) => Err(AppConfigError::Steam(e)),
                }
            },
            TagKind::Wine { .. } => {
                match LutrisConfig::create_copy(lines) {
                    Ok(c) => {
                        let value = c.wine_version();
                        let chars = chars_vec(value.as_str());
                        let lowered = crate::text::lower_chars(&chars);
                        let mut pat: Vec<char> = Vec::new();
                        pat.push('l');
                        pat.push('o');
                        pat.push('l');
                        proof {
                            assert(pat@ =~= seq!['l', 'o', 'l']);
                        }
                        let wine_kind: TagKind = if contains_chars(&lowered, &pat) {
                            TagKind::Wine { kind: WineTagKind::LolWineGe }
                        } else {
                            TagKind::Wine { kind: WineTagKind::WineGe }
                        };
                        Ok(ApplicationConfig::new(wine_kind, value))
                    },
                    Err(e) => Err(AppConfigError::Lutris(e)),
                }
            },
        }
    }

    /// Whether the managed version is the one the configuration makes
    /// active: exact equality of directory names.
    pub fn check_if_version_is_in_use(&self, version: &ManagedVersion) -> (r: bool)
        ensures
            r == (self.spec_dir_name() == version.spec_directory_name()),
    {
        str_eq(self.version_dir_name.as_str(), version.directory_name())
    }
}

impl Clone for ApplicationConfig {
    /// An identical copy.
    fn clone(&self) -> (r: Self)
        ensures
            r == *self,
    {
        ApplicationConfig { kind: self.kind, version_dir_name: self.version_dir_name.clone() }
    }
}

impl PartialEq for ApplicationConfig {
    /// Configurations are equal when kind and directory name are.
    fn eq(&self, other: &ApplicationConfig) -> (r: bool) {
        self.kind == other.kind && str_eq(
            self.version_dir_name.as_str(),
            other.version_dir_name.as_str(),
        )
    }
}

impl Eq for ApplicationConfig {}

impl vstd::std_specs::cmp::PartialEqSpecImpl for ApplicationConfig {
    open spec fn obeys_eq_spec() -> bool {
        true
    }

    open spec fn eq_spec(&self, other: &ApplicationConfig) -> bool {
        self.spec_kind() == other.spec_kind() && self.spec_dir_name() == other.spec_dir_name()
    }
}

/// A configuration file format that can say which version is active.
pub trait AppConfig {
    /// The directory name the implementation would report.
    spec fn spec_dir(&self) -> Seq<char>;

    /// Whether the recorded value span is still within its line.
    spec fn readable(&self) -> bool;

    /// The active version's directory name.
    fn version_dir_name(&self) -> (r: String)
        requires
            self.readable(),
        ensures
            r@ == self.spec_dir(),
    ;

    /// The tool kind the configuration governs.
    fn kind(&self) -> TagKind
        requires
            self.readable(),
    ;
}

impl AppConfig for SteamConfig {
    closed spec fn spec_dir(&self) -> Seq<char> {
        self.spec_line().subrange(self.spec_start(), self.spec_end())
    }

    closed spec fn readable(&self) -> bool {
        self.spec_start() <= self.spec_end() <= self.spec_line().len()
    }

    fn version_dir_name(&self) -> (r: String) {
        self.proton_version()
    }

    /// Steam governs Proton.
    fn kind(&self) -> TagKind {
        TagKind::Proton
    }
}

impl AppConfig for LutrisConfig {
    closed spec fn spec_dir(&self) -> Seq<char> {
        self.spec_line().subrange(self.spec_start(), self.spec_end())
    }

    closed spec fn readable(&self) -> bool {
        self.spec_start() <= self.spec_end() <= self.spec_line().len()
    }

    fn version_dir_name(&self) -> (r: String) {
        self.wine_version()
    }

    /// Lutris governs the Wine family; a version whose directory name
    /// holds `lol` in any case is the LoL build.
    fn kind(&self) -> TagKind {
        let name = self.wine_version();
        let chars = chars_vec(name.as_str());
        let lowered = crate::text::lower_chars(&chars);
        let mut pat: Vec<char> = Vec::new();
        pat.push('l');
        pat.push('o');
        pat.push('l');
        if contains_chars(&lowered, &pat) {
            TagKind::Wine { kind: WineTagKind::LolWineGe }
        } else {
            TagKind::Wine { kind: WineTagKind::WineGe }
        }
    }
}

} // verus!
