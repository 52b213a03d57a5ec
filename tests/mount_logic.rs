use samba_share::mount_operations::{
    check_unmount, classify_mount_error, is_mounted, list_all_shares, list_cifs_mounts,
    list_cifs_mounts_proc, parse_mount_error, parse_umount_error, MountAction, MountEvent,
    MountOptions, MountSession, MountedShare,
};
use samba_share::remote_share_config::RemoteSambaShareConfig;

fn live(source: &str, target: &str, options: &str) -> MountedShare {
    MountedShare {
        source: source.to_string(),
        target: target.to_string(),
        fstype: "cifs".to_string(),
        options: options.to_string(),
        is_mounted: true,
    }
}

fn configured(name: &str, remote: &str) -> RemoteSambaShareConfig {
    RemoteSambaShareConfig::new(
        name.to_string(),
        remote.to_string(),
        "cifs".to_string(),
        "/etc/creds".to_string(),
        "1000".to_string(),
        "100".to_string(),
    )
}

#[test]
fn classification_permission() {
    assert_eq!(
        parse_mount_error("mount error: permission denied"),
        "Permission denied. Check your credentials or run with sudo."
    );
}

#[test]
fn classification_ignores_case() {
    assert_eq!(
        parse_mount_error("mount error(13): Permission Denied"),
        "Permission denied. Check your credentials or run with sudo."
    );
}

#[test]
fn classification_busy() {
    assert_eq!(
        parse_mount_error("mount point /x is busy"),
        "Mount point is already in use or mounted."
    );
}

#[test]
fn classification_other_categories() {
    assert_eq!(
        parse_mount_error("Connection refused"),
        "Connection refused. Server may be offline or unreachable."
    );
    assert_eq!(
        parse_mount_error("could not resolve address"),
        "Connection refused. Server may be offline or unreachable."
    );
    assert_eq!(
        parse_mount_error("No such file or directory"),
        "Server or share not found. Check the remote URL."
    );
    assert_eq!(
        parse_mount_error("Invalid argument"),
        "Invalid mount options. Check your configuration."
    );
    assert_eq!(
        parse_mount_error("Host is down"),
        "Host is unreachable. Check network connectivity."
    );
}

#[test]
fn classification_passthrough_is_trimmed() {
    assert_eq!(parse_mount_error("  something odd\n"), "Mount failed: something odd");
    assert_eq!(classify_mount_error("x", " raw "), "Mount failed: raw");
}

#[test]
fn classification_unmount() {
    assert_eq!(
        parse_umount_error("umount: /x: not mounted."),
        "The specified path is not currently mounted."
    );
    assert_eq!(
        parse_umount_error("umount: /x: target is busy."),
        "Mount point is busy. Close any programs using files from this share."
    );
    assert_eq!(
        parse_umount_error("Permission denied"),
        "Permission denied. You may need to run with sudo."
    );
    assert_eq!(parse_umount_error(" odd \n"), "Unmount failed: odd");
}

#[test]
fn reconciliation_marks_and_does_not_duplicate() {
    let cfg = vec![configured("/media/x", "//nas/x")];
    let before = list_all_shares(cfg, vec![]);
    assert_eq!(before.len(), 1);
    assert_eq!(before[0].target, "/media/x");
    assert!(!before[0].is_mounted);
    assert_eq!(before[0].options, "credentials=/etc/creds,uid=1000,gid=100");

    let cfg = vec![configured("/media/x", "//nas/x")];
    let after = list_all_shares(cfg, vec![live("//nas/x", "/media/x", "rw,uid=1000")]);
    assert_eq!(after.len(), 1);
    assert!(after[0].is_mounted);
    assert_eq!(after[0].options, "rw,uid=1000");
}

#[test]
fn reconciliation_appends_unconfigured_mounts_once() {
    let cfg = vec![configured("/media/x", "//nas/x")];
    let mounted = vec![
        live("//nas/y", "/media/y", "a"),
        live("//nas/y", "/media/y", "b"),
        live("//nas/x", "/media/x", "c"),
    ];
    let all = list_all_shares(cfg, mounted);
    let targets: Vec<_> = all.iter().map(|m| m.target.clone()).collect();
    assert_eq!(targets, vec!["/media/x", "/media/y"]);
    assert_eq!(all[1].options, "a");
    assert_eq!(all[0].options, "c");
}

#[test]
fn mount_table_keeps_cifs_rows() {
    let table = "/dev/sda1 / ext4 rw 0 0\n//nas/x /media/x cifs rw,uid=1000 0 0\r\nshort row cifs\n//nas/y\t/media/y  cifs ro 0 0";
    let rows = list_cifs_mounts_proc(table);
    assert_eq!(rows.len(), 2);
    assert_eq!(rows[0].source, "//nas/x");
    assert_eq!(rows[0].target, "/media/x");
    assert_eq!(rows[0].options, "rw,uid=1000");
    assert!(rows[0].is_mounted);
    assert_eq!(rows[1].target, "/media/y");
    assert_eq!(rows[1].options, "ro");
}

#[test]
fn mount_listing_falls_back_to_table() {
    let from_query = list_cifs_mounts(Ok(vec![live("//a/b", "/mnt/b", "rw")]), Ok(String::new())).unwrap();
    assert_eq!(from_query.len(), 1);
    let from_table =
        list_cifs_mounts(Err("no findmnt".to_string()), Ok("//a/c /mnt/c cifs rw 0 0\n".to_string())).unwrap();
    assert_eq!(from_table[0].target, "/mnt/c");
    let neither = list_cifs_mounts(Err("x".to_string()), Err("unreadable".to_string()));
    assert_eq!(neither.err().unwrap(), "unreadable");
}

#[test]
fn mounted_check_compares_paths() {
    let mounts = Ok(vec![live("//a/b", "/mnt/b", "rw")]);
    assert!(is_mounted("/mnt/b", &mounts));
    assert!(is_mounted("/mnt/b/", &mounts));
    assert!(!is_mounted("/mnt/c", &mounts));
    assert!(!is_mounted("/mnt/b", &Err("failed".to_string())));
}

#[test]
fn unmount_requires_a_mount() {
    assert!(check_unmount("/mnt/b", true).is_ok());
    assert_eq!(
        check_unmount("/mnt/b", false).unwrap_err(),
        "Mount point /mnt/b is not currently mounted"
    );
}

#[test]
fn default_options() {
    let o = MountOptions::default();
    assert_eq!(o.uid, Some(users::get_current_uid()));
    assert_eq!(o.gid, Some(users::get_current_gid()));
    assert_eq!(o.additional_opts, vec!["x-systemd.automount", "noauto", "x-systemd.idle-timeout=300"]);
}

fn session(url: &str, mp: &str) -> MountSession {
    MountSession::new(
        url.to_string(),
        mp.to_string(),
        "bob".to_string(),
        "secret".to_string(),
        MountOptions { uid: Some(1000), gid: None, additional_opts: vec!["noauto".to_string()] },
        4242,
        100,
    )
}

#[test]
fn mount_without_leading_slashes_is_refused_before_any_command() {
    let mut s = session("server/share", "/mnt/x");
    match s.next(MountEvent::Begin) {
        MountAction::Finish(Err(e)) => {
            assert_eq!(e, "Remote URL must start with '//' (e.g., //server/share)")
        }
        _ => panic!("expected a validation failure"),
    }
}

#[test]
fn mount_on_relative_path_is_refused_before_any_command() {
    let mut s = session("//server/share", "relative/path");
    match s.next(MountEvent::Begin) {
        MountAction::Finish(Err(e)) => assert_eq!(e, "Mount point must be an absolute path"),
        _ => panic!("expected a validation failure"),
    }
}

#[test]
fn mount_session_success_removes_credentials() {
    let mut s = session("//server/share", "/mnt/x");
    assert!(matches!(s.next(MountEvent::Begin), MountAction::CheckMounted));
    assert!(matches!(s.next(MountEvent::MountedChecked(false)), MountAction::CreateDirectory));
    match s.next(MountEvent::DirectoryReady(Ok(()))) {
        MountAction::WriteCredentials { content } => {
            assert_eq!(content, "username=bob\npassword=secret\n")
        }
        _ => panic!("expected credentials to be written"),
    }
    match s.next(MountEvent::CredentialsWritten { path: "/tmp/c1".to_string(), result: Ok(()) }) {
        MountAction::RunMount { args } => assert_eq!(
            args,
            vec!["-t", "cifs", "//server/share", "/mnt/x", "-o", "credentials=/tmp/c1,uid=1000,gid=100,noauto"]
        ),
        _ => panic!("expected the mount command"),
    }
    match s.next(MountEvent::MountRan { success: true, stderr: String::new() }) {
        MountAction::RemoveCredentials { path } => assert_eq!(path, "/tmp/c1"),
        _ => panic!("expected the credentials to be removed"),
    }
    assert!(matches!(s.next(MountEvent::CredentialsRemoved), MountAction::Finish(Ok(()))));
    assert!(s.credentials.is_none());
}

#[test]
fn mount_session_failure_still_removes_credentials() {
    let mut s = session("//server/share", "/mnt/x");
    s.next(MountEvent::Begin);
    s.next(MountEvent::MountedChecked(false));
    s.next(MountEvent::DirectoryReady(Ok(())));
    s.next(MountEvent::CredentialsWritten { path: "/tmp/c2".to_string(), result: Ok(()) });
    match s.next(MountEvent::MountRan { success: false, stderr: "mount error(13): Permission denied".to_string() }) {
        MountAction::RemoveCredentials { path } => assert_eq!(path, "/tmp/c2"),
        _ => panic!("expected the credentials to be removed"),
    }
    // An unrelated event does not skip the removal.
    assert!(matches!(s.next(MountEvent::Begin), MountAction::RemoveCredentials { .. }));
    match s.next(MountEvent::CredentialsRemoved) {
        MountAction::Finish(Err(e)) => {
            assert_eq!(e, "Permission denied. Check your credentials or run with sudo.")
        }
        _ => panic!("expected a failure"),
    }
}

#[test]
fn mount_session_already_mounted() {
    let mut s = session("//server/share", "/mnt/x");
    s.next(MountEvent::Begin);
    match s.next(MountEvent::MountedChecked(true)) {
        MountAction::Finish(Err(e)) => assert_eq!(e, "Mount point /mnt/x is already mounted"),
        _ => panic!("expected a failure"),
    }
}

#[test]
fn mount_session_credentials_write_failure_removes_file() {
    let mut s = session("//server/share", "/mnt/x");
    s.next(MountEvent::Begin);
    s.next(MountEvent::MountedChecked(false));
    s.next(MountEvent::DirectoryReady(Ok(())));
    match s.next(MountEvent::CredentialsWritten {
        path: "/tmp/c3".to_string(),
        result: Err("Failed to set credentials file permissions".to_string()),
    }) {
        MountAction::RemoveCredentials { path } => assert_eq!(path, "/tmp/c3"),
        _ => panic!("expected the credentials to be removed"),
    }
    match s.next(MountEvent::CredentialsRemoved) {
        MountAction::Finish(Err(e)) => assert_eq!(e, "Failed to set credentials file permissions"),
        _ => panic!("expected a failure"),
    }
}

#[test]
fn credentials_file_name() {
    assert_eq!(
        samba_share::mount_operations::credentials_path(4242, 1700000000),
        "/tmp/smb_creds_4242_1700000000"
    );
    assert_eq!(samba_share::mount_operations::credentials_path(0, 7), "/tmp/smb_creds_0_7");
}

#[test]
fn unmount_outcome_classifies_failures() {
    assert!(samba_share::mount_operations::unmount_outcome(true, "").is_ok());
    assert_eq!(
        samba_share::mount_operations::unmount_outcome(false, "umount: /x: target is busy.").unwrap_err(),
        "Mount point is busy. Close any programs using files from this share."
    );
}
