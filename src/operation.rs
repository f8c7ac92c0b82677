//! Operations on the package database and the command lines that run them.

use vstd::prelude::*;

verus! {

/// What an operation does to the package database.
#[derive(Clone, Copy, Debug, PartialEq, Eq, Structural)]
pub enum OperationKind {
    Install,
    Uninstall,
    RefreshAndUpgrade,
    QueryInstalled,
}

/// A request to change or query package state. The target is absent only
/// for a whole-system refresh and upgrade.
#[derive(Debug)]
pub struct Operation {
    pub kind: OperationKind,
    pub target: Option<String>,
}

/// Why no command line can be built for an operation.
#[derive(Clone, Copy, Debug, PartialEq, Eq, Structural)]
pub enum OperationError {
    /// An install, uninstall or query names no package.
    MissingTarget,
}

/// A program and its arguments.
#[derive(Debug)]
pub struct CommandLine {
    pub program: String,
    pub args: Vec<String>,
}

/// The characters of each string of a sequence.
pub open spec fn views_of(v: Seq<String>) -> Seq<Seq<char>> {
    v.map_values(|s: String| s@)
}

impl CommandLine {
    pub open spec fn program_view(&self) -> Seq<char> {
        self.program@
    }

    pub open spec fn args_view(&self) -> Seq<Seq<char>> {
        views_of(self.args@)
    }
}

/// The package an operation names: a present, non-empty target.
pub open spec fn named_target(target: Option<String>) -> Option<Seq<char>> {
    match target {
        Some(t) => if t@.len() > 0 {
            Some(t@)
        } else {
            None
        },
        None => None,
    }
}

/// Whether the kind changes the system and so runs through the privilege
/// launcher.
pub open spec fn spec_is_privileged(kind: OperationKind) -> bool {
    kind != OperationKind::QueryInstalled
}

/// The program that runs an operation of the given kind.
pub open spec fn spec_program(kind: OperationKind) -> Seq<char> {
    if spec_is_privileged(kind) {
        "pkexec"@
    } else {
        "pacman"@
    }
}

/// The arguments that run an operation of the given kind on `target`.
pub open spec fn spec_args(kind: OperationKind, target: Seq<char>) -> Seq<Seq<char>> {
    match kind {
        OperationKind::Install => seq!["pacman"@, "-S"@, "--noconfirm"@, target],
        OperationKind::Uninstall => seq!["pacman"@, "-R"@, "--noconfirm"@, target],
        OperationKind::RefreshAndUpgrade => seq!["pacman"@, "-Syu"@, "--noconfirm"@],
        OperationKind::QueryInstalled => seq!["-Q"@, target],
    }
}

/// Whether an operation of this kind needs a package to act on.
pub open spec fn spec_needs_target(kind: OperationKind) -> bool {
    kind != OperationKind::RefreshAndUpgrade
}

impl OperationKind {
    /// Whether the kind runs through the privilege launcher.
    pub fn is_privileged(self) -> (r: bool)
        ensures
            r == spec_is_privileged(self),
    {
        !matches!(self, OperationKind::QueryInstalled)
    }

    /// Whether the kind needs a package to act on.
    pub fn needs_target(self) -> (r: bool)
        ensures
            r == spec_needs_target(self),
    {
        !matches!(self, OperationKind::RefreshAndUpgrade)
    }
}

impl Operation {
    /// Installs the named package; an empty name asks for a refresh of the
    /// package database and an upgrade of the whole system instead.
    pub fn install(package_name: &str) -> (r: Operation)
        ensures
            package_name@.len() == 0 ==> r.kind == OperationKind::RefreshAndUpgrade
                && r.target is None,
            package_name@.len() > 0 ==> r.kind == OperationKind::Install && named_target(r.target)
                == Some(package_name@),
    {
        if package_name.is_empty() {
            Operation { kind: OperationKind::RefreshAndUpgrade, target: None }
        } else {
            Operation { kind: OperationKind::Install, target: Some(String::from_str(package_name)) }
        }
    }

    /// Uninstalls the named package.
    pub fn uninstall(package_name: &str) -> (r: Operation)
        ensures
            r.kind == OperationKind::Uninstall,
            r.target matches Some(t) && t@ == package_name@,
    {
        Operation { kind: OperationKind::Uninstall, target: Some(String::from_str(package_name)) }
    }

    /// Refreshes the package database and upgrades the whole system.
    pub fn upgrade_all() -> (r: Operation)
        ensures
            r.kind == OperationKind::RefreshAndUpgrade,
            r.target is None,
    {
        Operation { kind: OperationKind::RefreshAndUpgrade, target: None }
    }

    /// Asks whether the named package is installed.
    pub fn query_installed(package_name: &str) -> (r: Operation)
        ensures
            r.kind == OperationKind::QueryInstalled,
            r.target matches Some(t) && t@ == package_name@,
    {
        Operation { kind: OperationKind::QueryInstalled, target: Some(String::from_str(package_name)) }
    }

    /// The command line that carries out this operation. A whole-system
    /// upgrade ignores any target; every other kind fails without one.
    pub fn command_line(&self) -> (r: Result<CommandLine, OperationError>)
        ensures
            spec_needs_target(self.kind) && named_target(self.target) is None <==> r is Err,
            r matches Err(e) ==> e == OperationError::MissingTarget,
            r matches Ok(c) ==> c.program_view() == spec_program(self.kind) && c.args_view()
                == spec_args(
                self.kind,
                match named_target(self.target) {
                    Some(t) => t,
                    None => Seq::empty(),
                },
            ),
    {
        let program = if self.kind.is_privileged() {
            String::from_str("pkexec")
        } else {
            String::from_str("pacman")
        };
        let mut args: Vec<String> = Vec::new();
        match self.kind {
            OperationKind::RefreshAndUpgrade => {
                args.push(String::from_str("pacman"));
                args.push(String::from_str("-Syu"));
                args.push(String::from_str("--noconfirm"));
                assert(views_of(args@) =~= spec_args(self.kind, Seq::empty()));
                return Ok(CommandLine { program, args });
            },
            _ => {},
        }
        let target = match &self.target {
            Some(t) => {
                if t.as_str().is_empty() {
                    return Err(OperationError::MissingTarget);
                }
                t.as_str()
            },
            None => {
                return Err(OperationError::MissingTarget);
            },
        };
        match self.kind {
            OperationKind::Install => {
                args.push(String::from_str("pacman"));
                args.push(String::from_str("-S"));
                args.push(String::from_str("--noconfirm"));
            },
            OperationKind::Uninstall => {
                args.push(String::from_str("pacman"));
                args.push(String::from_str("-R"));
                args.push(String::from_str("--noconfirm"));
            },
            _ => {
                args.push(String::from_str("-Q"));
            },
        }
        args.push(String::from_str(target));
        assert(views_of(args@) =~= spec_args(self.kind, target@));
        Ok(CommandLine { program, args })
    }
}

} // verus!
