use snaprepl::command::{
    command_line, destroy_command, list_mounted_command, list_snapshots_command, receive_command,
    remote_shell_command, send_command, snapshot_command,
};

fn names(list: &[&str]) -> Vec<String> {
    list.iter().map(|s| s.to_string()).collect()
}

#[test]
fn snapshot_commands() {
    assert_eq!(snapshot_command("tank@auto_1", false), names(&["zfs", "snapshot", "tank@auto_1"]));
    assert_eq!(
        snapshot_command("tank@repl_1", true),
        names(&["zfs", "snapshot", "-r", "tank@repl_1"])
    );
    assert_eq!(destroy_command("tank@repl_1"), names(&["zfs", "destroy", "-r", "tank@repl_1"]));
}

#[test]
fn stream_commands() {
    assert_eq!(
        send_command(None, "tank@repl_2"),
        names(&["zfs", "send", "-v", "-R", "-w", "-L", "tank@repl_2"])
    );
    assert_eq!(
        send_command(Some("tank@repl_1"), "tank@repl_2"),
        names(&["zfs", "send", "-v", "-R", "-w", "-L", "-I", "tank@repl_1", "tank@repl_2"])
    );
    assert_eq!(
        receive_command("backup/tank"),
        names(&["zfs", "recv", "-o", "mountpoint=none", "-o", "readonly=on", "backup/tank"])
    );
    assert_eq!(remote_shell_command("backup@host"), names(&["ssh", "backup@host"]));
}

#[test]
fn list_commands() {
    assert_eq!(
        list_snapshots_command("tank", true),
        names(&["zfs", "list", "-H", "-t", "snapshot", "-o", "name", "-r", "tank"])
    );
    assert_eq!(
        list_snapshots_command("tank", false),
        names(&["zfs", "list", "-H", "-t", "snapshot", "-o", "name", "tank"])
    );
    assert_eq!(
        list_mounted_command(),
        names(&["zfs", "list", "-H", "-t", "filesystem", "-o", "name,mountpoint"])
    );
}

#[test]
fn command_line_joins_with_single_spaces() {
    assert_eq!(command_line(&names(&["zfs", "destroy", "-r", "t@x"])), "zfs destroy -r t@x");
    assert_eq!(command_line(&names(&["ssh"])), "ssh");
    assert_eq!(command_line(&Vec::new()), "");
    assert_eq!(command_line(&names(&["a", "", "b"])), "a  b");
}
