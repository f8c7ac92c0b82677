use app_center::operation::{Operation, OperationError, OperationKind};

fn args_of(op: &Operation) -> (String, Vec<String>) {
    let c = op.command_line().expect("command line");
    (c.program, c.args)
}

#[test]
fn install_runs_privileged_sync() {
    let op = Operation::install("vim");
    assert_eq!(op.kind, OperationKind::Install);
    let (program, args) = args_of(&op);
    assert_eq!(program, "pkexec");
    assert_eq!(args, vec!["pacman", "-S", "--noconfirm", "vim"]);
}

#[test]
fn empty_install_target_means_whole_system_upgrade() {
    let op = Operation::install("");
    assert_eq!(op.kind, OperationKind::RefreshAndUpgrade);
    assert!(op.target.is_none());
    let (program, args) = args_of(&op);
    assert_eq!(program, "pkexec");
    assert_eq!(args, vec!["pacman", "-Syu", "--noconfirm"]);
}

#[test]
fn uninstall_runs_privileged_remove() {
    let (program, args) = args_of(&Operation::uninstall("htop"));
    assert_eq!(program, "pkexec");
    assert_eq!(args, vec!["pacman", "-R", "--noconfirm", "htop"]);
}

#[test]
fn upgrade_ignores_any_target() {
    let op = Operation { kind: OperationKind::RefreshAndUpgrade, target: Some("vim".to_string()) };
    let (_, args) = args_of(&op);
    assert_eq!(args, vec!["pacman", "-Syu", "--noconfirm"]);
    let (_, args) = args_of(&Operation::upgrade_all());
    assert_eq!(args, vec!["pacman", "-Syu", "--noconfirm"]);
}

#[test]
fn query_runs_unprivileged() {
    let op = Operation::query_installed("firefox");
    assert!(!op.kind.is_privileged());
    let (program, args) = args_of(&op);
    assert_eq!(program, "pacman");
    assert_eq!(args, vec!["-Q", "firefox"]);
}

#[test]
fn missing_target_is_an_error() {
    for kind in [OperationKind::Install, OperationKind::Uninstall, OperationKind::QueryInstalled] {
        let none = Operation { kind, target: None };
        assert!(matches!(none.command_line(), Err(OperationError::MissingTarget)));
        let empty = Operation { kind, target: Some(String::new()) };
        assert!(matches!(empty.command_line(), Err(OperationError::MissingTarget)));
        assert!(kind.needs_target());
    }
    assert!(!OperationKind::RefreshAndUpgrade.needs_target());
}
