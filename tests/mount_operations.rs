use samba_share::mount_operations::{validate_mount_point, validate_remote_url};

#[test]
fn test_validate_remote_url() {
    assert!(validate_remote_url("//server/share").is_ok());
    assert!(validate_remote_url("//192.168.1.100/data").is_ok());
    assert!(validate_remote_url("server/share").is_err());
    assert!(validate_remote_url("//server").is_err());
    assert!(validate_remote_url("//server/share;rm -rf").is_err());
}

#[test]
fn test_validate_mount_point() {
    assert!(validate_mount_point("/mnt/share").is_ok());
    assert!(validate_mount_point("relative/path").is_err());
    assert!(validate_mount_point("/mnt/share;whoami").is_err());
}
