//! The command-line grammar of the tool, as data, and its matcher.
//!
//! A command holds its arguments, argument groups and subcommands; matching
//! a token list against it yields the presence and values of arguments, or
//! the first rule the tokens break: an unknown name, a missing required
//! argument or value, or two arguments of an exclusive group.
use vstd::prelude::*;

use crate::text::str_eq;

pub mod arg;
pub mod cmd;

verus! {

/// Why a token list does not match the grammar.
#[derive(Debug, PartialEq, Eq, Structural, Clone, Copy)]
pub enum ErrorKind {
    InvalidSubcommand,
    MissingSubcommand,
    UnknownArgument,
    MissingRequiredArgument,
    ArgumentConflict,
    EmptyValue,
}

/// A rejection, carrying which rule was broken.
#[derive(Debug)]
pub struct CliError {
    kind: ErrorKind,
}

impl CliError {
    /// The kind carried.
    pub closed spec fn spec_kind(&self) -> ErrorKind {
        self.kind
    }

    /// A rejection of the given kind.
    pub fn new(kind: ErrorKind) -> (r: CliError)
        ensures
            r.spec_kind() == kind,
    {
        CliError { kind }
    }

    /// Which rule the tokens broke.
    pub fn kind(&self) -> (k: ErrorKind)
        ensures
            k == self.spec_kind(),
    {
        self.kind
    }
}

/// One argument: its name doubles as its long form; an argument that
/// takes a value may demand one.
#[derive(Debug)]
pub struct ArgSpec {
    pub name: String,
    pub short: Option<char>,
    pub takes_value: bool,
    pub requires_value: bool,
    pub required: bool,
    pub help: String,
    pub display_order: usize,
}

/// A named set of arguments: required means at least one member must
/// appear; a group that is not multiple admits at most one; a present
/// member may demand the whole of `requires_all` and forbid
/// `conflicts_with`.
#[derive(Debug)]
pub struct ArgGroupSpec {
    pub name: String,
    pub args: Vec<String>,
    pub required: bool,
    pub multiple: bool,
    pub requires_all: Vec<String>,
    pub conflicts_with: Vec<String>,
}

/// A command: its arguments, groups and subcommands.
#[derive(Debug)]
pub struct CommandSpec {
    pub name: String,
    pub aliases: Vec<String>,
    pub args: Vec<ArgSpec>,
    pub groups: Vec<ArgGroupSpec>,
    pub subcommands: Vec<CommandSpec>,
    pub subcommand_required: bool,
}

/// Whether a name stands in the list.
pub open spec fn has_name(names: Seq<String>, name: Seq<char>) -> bool {
    exists|i: int| 0 <= i < names.len() && (#[trigger] names[i])@ == name
}

/// Whether the list holds the given name.
fn contains_name(names: &Vec<String>, name: &str) -> (r: bool)
    ensures
        r == has_name(names@, name@),
{
    let mut i: usize = 0;
    while i < names.len()
        invariant
            i <= names@.len(),
            forall|j: int| 0 <= j < i ==> (#[trigger] names@[j])@ != name@,
        decreases names@.len() - i,
    {
        if str_eq(names[i].as_str(), name) {
            return true;
        }
        i = i + 1;
    }
    false
}

/// What matching yields: which arguments appeared, their values, and the
/// matched subcommand.
#[derive(Debug)]
pub struct ArgMatches {
    present: Vec<String>,
    values: Vec<(String, String)>,
    sub_name: Option<String>,
    sub: Option<Box<ArgMatches>>,
}

impl ArgMatches {
    /// The names of the arguments and groups that appeared.
    pub closed spec fn spec_present(&self) -> Seq<String> {
        self.present@
    }

    /// The empty match.
    pub fn empty() -> ArgMatches {
        ArgMatches { present: Vec::new(), values: Vec::new(), sub_name: None, sub: None }
    }

    /// Whether the argument or group of the given name appeared.
    pub fn is_present(&self, name: &str) -> (r: bool)
        ensures
            r == has_name(self.spec_present(), name@),
    {
        contains_name(&self.present, name)
    }

    /// The value given for the argument, if one was.
    pub fn value_of(&self, name: &str) -> (r: Option<&str>) {
        let mut i: usize = 0;
        while i < self.values.len()
            decreases self.values@.len() - i,
        {
            if str_eq(self.values[i].0.as_str(), name) {
                return Some(self.values[i].1.as_str());
            }
            i = i + 1;
        }
        None
    }

    /// The matches of the named subcommand, if it was the one given.
    pub fn subcommand_matches(&self, name: &str) -> (r: Option<&ArgMatches>) {
        match (&self.sub_name, &self.sub) {
            (Some(n), Some(m)) => {
                if str_eq(n.as_str(), name) {
                    Some(&**m)
                } else {
                    None
                }
            },
            _ => None,
        }
    }

    /// The name of the subcommand that was given.
    pub fn subcommand_name(&self) -> (r: Option<&String>) {
        self.sub_name.as_ref()
    }
}

/// The index of the argument a token names: `--name` by name, `-x` by
/// short form.
fn find_arg(args: &Vec<ArgSpec>, token: &Vec<char>) -> (r: Option<usize>)
    ensures
        r matches Some(i) ==> i < args@.len(),
{
    if token.len() >= 2 && token[0] == '-' && token[1] == '-' {
        let mut i: usize = 0;
        while i < args.len()
            decreases args@.len() - i,
        {
            let name_chars = crate::text::chars_vec(args[i].name.as_str());
            let mut long: Vec<char> = Vec::new();
            long.push('-');
            long.push('-');
            crate::tag::extend_chars(&mut long, &name_chars);
            let o = crate::text::lex_cmp_chars(&long, token);
            if matches!(o, core::cmp::Ordering::Equal) {
                return Some(i);
            }
            i = i + 1;
        }
        None
    } else if token.len() == 2 && token[0] == '-' {
        let c: char = token[1];
        let mut i: usize = 0;
        while i < args.len()
            decreases args@.len() - i,
        {
            match args[i].short {
                Some(s) => {
                    if s == c {
                        return Some(i);
                    }
                },
                None => {},
            }
            i = i + 1;
        }
        None
    } else {
        None
    }
}

/// The index of the subcommand a token names, by name or alias.
fn find_subcommand(subs: &Vec<CommandSpec>, token: &str) -> (r: Option<usize>)
    ensures
        r matches Some(i) ==> i < subs@.len(),
{
    let mut i: usize = 0;
    while i < subs.len()
        decreases subs@.len() - i,
    {
        if str_eq(subs[i].name.as_str(), token) {
            return Some(i);
        }
        let mut a: usize = 0;
        while a < subs[i].aliases.len()
            invariant
                i < subs@.len(),
            decreases subs@[i as int].aliases@.len() - a,
        {
            if str_eq(subs[i].aliases[a].as_str(), token) {
                return Some(i);
            }
            a = a + 1;
        }
        i = i + 1;
    }
    None
}

/// Holds the matched presences against the command's groups and required
/// arguments: exclusive-group and conflict violations first, then missing
/// required groups, companions and arguments.
fn check_rules(spec: &CommandSpec, present: &Vec<String>) -> (r: Option<ErrorKind>) {
    let mut g: usize = 0;
    while g < spec.groups.len()
        decreases spec.groups@.len() - g,
    {
        let group = &spec.groups[g];
        let mut count: usize = 0;
        let mut m: usize = 0;
        while m < group.args.len()
            invariant
                count <= m,
            decreases group.args@.len() - m,
        {
            if contains_name(present, group.args[m].as_str()) {
                count = count + 1;
            }
            m = m + 1;
        }
        if count >= 2 && !group.multiple {
            return Some(ErrorKind::ArgumentConflict);
        }
        if count >= 1 {
            let mut c: usize = 0;
            while c < group.conflicts_with.len()
                decreases group.conflicts_with@.len() - c,
            {
                if contains_name(present, group.conflicts_with[c].as_str()) {
                    return Some(ErrorKind::ArgumentConflict);
                }
                c = c + 1;
            }
        }
        g = g + 1;
    }
    let mut g2: usize = 0;
    while g2 < spec.groups.len()
        decreases spec.groups@.len() - g2,
    {
        let group = &spec.groups[g2];
        let mut count: usize = 0;
        let mut m: usize = 0;
        while m < group.args.len()
            invariant
                count <= m,
            decreases group.args@.len() - m,
        {
            if contains_name(present, group.args[m].as_str()) {
                count = count + 1;
            }
            m = m + 1;
        }
        if count == 0 && group.required {
            return Some(ErrorKind::MissingRequiredArgument);
        }
        if count >= 1 {
            let mut q: usize = 0;
            while q < group.requires_all.len()
                decreases group.requires_all@.len() - q,
            {
                if !contains_name(present, group.requires_all[q].as_str()) {
                    return Some(ErrorKind::MissingRequiredArgument);
                }
                q = q + 1;
            }
        }
        g2 = g2 + 1;
    }
    let mut a: usize = 0;
    while a < spec.args.len()
        decreases spec.args@.len() - a,
    {
        if spec.args[a].required && !contains_name(present, spec.args[a].name.as_str()) {
            return Some(ErrorKind::MissingRequiredArgument);
        }
        a = a + 1;
    }
    None
}

/// Adds to the presences the name of every group with a present member,
/// so that a group's name answers `is_present` like an argument's.
fn add_group_presences(spec: &CommandSpec, present: &mut Vec<String>) {
    let mut g: usize = 0;
    while g < spec.groups.len()
        decreases spec.groups@.len() - g,
    {
        let group = &spec.groups[g];
        let mut any: bool = false;
        let mut m: usize = 0;
        while m < group.args.len()
            decreases group.args@.len() - m,
        {
            if contains_name(present, group.args[m].as_str()) {
                any = true;
            }
            m = m + 1;
        }
        if any {
            let n = group.name.clone();
            present.push(n);
        }
        g = g + 1;
    }
}

/// Matches the tokens from `from` on against one command level; an inner
/// subcommand, when the command has any and a bare token names one, takes
/// the rest of the tokens.
fn match_level(spec: &CommandSpec, tokens: &Vec<String>, from: usize, depth: usize) -> (r: Result<
    ArgMatches,
    CliError,
>)
    decreases depth,
{
    let mut present: Vec<String> = Vec::new();
    let mut values: Vec<(String, String)> = Vec::new();
    let mut sub_name: Option<String> = None;
    let mut sub: Option<Box<ArgMatches>> = None;
    let mut i: usize = from;
    while i < tokens.len()
        invariant
            from <= i,
        decreases tokens@.len() - i,
    {
        let tok_chars = crate::text::chars_vec(tokens[i].as_str());
        let starts_dash: bool = tok_chars.len() >= 1 && tok_chars[0] == '-';
        if !starts_dash && spec.subcommands.len() > 0 {
            match find_subcommand(&spec.subcommands, tokens[i].as_str()) {
                Some(s) => {
                    if depth == 0 {
                        return Err(CliError::new(ErrorKind::InvalidSubcommand));
                    }
                    match match_level(&spec.subcommands[s], tokens, i + 1, depth - 1) {
                        Ok(m) => {
                            sub_name = Some(spec.subcommands[s].name.clone());
                            sub = Some(Box::new(m));
                            i = tokens.len();
                        },
                        Err(e) => {
                            return Err(e);
                        },
                    }
                },
                None => {
                    return Err(CliError::new(ErrorKind::InvalidSubcommand));
                },
            }
        } else {
            match find_arg(&spec.args, &tok_chars) {
                Some(a) => {
                    let name = spec.args[a].name.clone();
                    if spec.args[a].takes_value {
                        let mut took: bool = false;
                        if i + 1 < tokens.len() {
                            let next_chars = crate::text::chars_vec(tokens[i + 1].as_str());
                            let next_dash: bool = next_chars.len() >= 1 && next_chars[0] == '-';
                            if !next_dash {
                                let v = tokens[i + 1].clone();
                                values.push((name.clone(), v));
                                took = true;
                            }
                        }
                        if !took && spec.args[a].requires_value {
                            return Err(CliError::new(ErrorKind::EmptyValue));
                        }
                        present.push(name);
                        if took {
                            i = i + 2;
                        } else {
                            i = i + 1;
                        }
                    } else {
                        present.push(name);
                        i = i + 1;
                    }
                },
                None => {
                    return Err(CliError::new(ErrorKind::UnknownArgument));
                },
            }
        }
    }
    if spec.subcommand_required && sub_name.is_none() && spec.subcommands.len() > 0 {
        return Err(CliError::new(ErrorKind::MissingSubcommand));
    }
    match check_rules(spec, &present) {
        Some(kind) => Err(CliError::new(kind)),
        None => {
            add_group_presences(spec, &mut present);
            Ok(ArgMatches { present, values, sub_name, sub })
        },
    }
}

impl CommandSpec {
    /// A command of the given name, with nothing else.
    pub fn new(name: &str) -> (r: CommandSpec)
        ensures
            r.name@ == name@,
    {
        CommandSpec {
            name: name.to_owned(),
            aliases: Vec::new(),
            args: Vec::new(),
            groups: Vec::new(),
            subcommands: Vec::new(),
            subcommand_required: false,
        }
    }

    /// Matches the given tokens, the first of which names the program,
    /// against this command's subcommands.
    pub fn try_get_matches_from(self, args: Vec<&str>) -> (r: Result<ArgMatches, CliError>) {
        let mut tokens: Vec<String> = Vec::new();
        let mut i: usize = 0;
        while i < args.len()
            decreases args@.len() - i,
        {
            tokens.push(args[i].to_owned());
            i = i + 1;
        }
        if tokens.len() <= 1 {
            if self.subcommand_required {
                return Err(CliError::new(ErrorKind::MissingSubcommand));
            }
            return Ok(ArgMatches::empty());
        }
        match find_subcommand(&self.subcommands, tokens[1].as_str()) {
            Some(s) => {
                match match_level(&self.subcommands[s], &tokens, 2, 1) {
                    Ok(m) => {
                        let mut top = ArgMatches::empty();
                        top.sub_name = Some(self.subcommands[s].name.clone());
                        top.sub = Some(Box::new(m));
                        Ok(top)
                    },
                    Err(e) => Err(e),
                }
            },
            None => Err(CliError::new(ErrorKind::InvalidSubcommand)),
        }
    }
}

/// The group of the three tool-kind arguments; a command names at most
/// one kind.
pub fn tag_args(required: bool) -> (r: ArgGroupSpec)
    ensures
        r.required == required,
{
    let mut args: Vec<String> = Vec::new();
    args.push("proton".to_owned());
    args.push("wine".to_owned());
    args.push("lol".to_owned());
    ArgGroupSpec {
        name: "tag-args".to_owned(),
        args,
        required,
        multiple: false,
        requires_all: Vec::new(),
        conflicts_with: Vec::new(),
    }
}

/// The start/end range group: either bound demands the other, and the
/// range excludes the before-cutoff argument.
pub fn start_end_range(required: bool) -> (r: ArgGroupSpec)
    ensures
        r.required == required,
{
    let mut args: Vec<String> = Vec::new();
    args.push("start".to_owned());
    args.push("end".to_owned());
    let mut requires_all: Vec<String> = Vec::new();
    requires_all.push("start".to_owned());
    requires_all.push("end".to_owned());
    let mut conflicts_with: Vec<String> = Vec::new();
    conflicts_with.push("before".to_owned());
    ArgGroupSpec {
        name: "start-end-range".to_owned(),
        args,
        required,
        multiple: true,
        requires_all,
        conflicts_with,
    }
}

/// The group demanding some bound: a before-cutoff or a range.
pub fn before_and_start_end(required: bool) -> (r: ArgGroupSpec)
    ensures
        r.required == required,
{
    let mut args: Vec<String> = Vec::new();
    args.push("start".to_owned());
    args.push("end".to_owned());
    args.push("before".to_owned());
    ArgGroupSpec {
        name: "before-start-end".to_owned(),
        args,
        required,
        multiple: true,
        requires_all: Vec::new(),
        conflicts_with: Vec::new(),
    }
}

/// The whole command line of the tool.
pub fn setup_clap() -> (r: CommandSpec) {
    let mut root = CommandSpec::new("geman");
    root.subcommand_required = true;
    root.subcommands.push(cmd::list());
    root.subcommands.push(cmd::add());
    root.subcommands.push(cmd::remove());
    root.subcommands.push(cmd::check());
    root.subcommands.push(cmd::migrate());
    root.subcommands.push(cmd::apply());
    root.subcommands.push(cmd::user_settings());
    root.subcommands.push(cmd::clean());
    root.subcommands.push(cmd::forget());
    root
}

} // verus!
