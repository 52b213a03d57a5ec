use samba_share::nix_syntax::{SyntaxEvent, SyntaxTree};
use samba_share::remote_share_config::RemoteSambaShareConfig;

const CONFIG: &str = r#"{ config, pkgs, ... }:

{
  imports = [ ./hardware-configuration.nix ];

  fileSystems."/media/blender" = {
    device = "//nas/blender";
    fsType = "cifs";
    options = [
      "credentials=/etc/nixos/smb-secrets"
      "x-systemd.automount"
      "uid=1001"
    ];
  };

  fileSystems."/" = {
    device = "/dev/sda1";
    fsType = "ext4";
  };

  fileSystems."/media/music" = {
    device = "//nas/music";
    fsType = "cifs";
    options = [ "noauto" ];
  };
}
"#;

fn remote(name: &str, device: &str) -> RemoteSambaShareConfig {
    RemoteSambaShareConfig::new(
        name.to_string(),
        device.to_string(),
        "cifs".to_string(),
        "/etc/nixos/smb-secrets".to_string(),
        "1000".to_string(),
        "100".to_string(),
    )
}

#[test]
fn remote_load_reads_cifs_entries_only() {
    let shares = RemoteSambaShareConfig::load_all(CONFIG);
    assert_eq!(shares.len(), 2);
    assert_eq!(shares[0].name, "/media/blender");
    assert_eq!(shares[0].remote_path, "//nas/blender");
    assert_eq!(shares[0].fs_type, "cifs");
    assert_eq!(shares[0].option_credentials, "/etc/nixos/smb-secrets");
    assert_eq!(shares[0].force_user, "1001");
    assert_eq!(shares[0].force_group, "100");
    assert_eq!(shares[1].name, "/media/music");
    assert_eq!(shares[1].option_credentials, "");
    assert_eq!(shares[1].force_user, "1000");
    assert_eq!(shares[1].force_group, "100");
}

#[test]
fn remote_load_twice_gives_same_records() {
    let a = RemoteSambaShareConfig::load_all(CONFIG);
    let b = RemoteSambaShareConfig::load_all(CONFIG);
    let key = |v: &Vec<RemoteSambaShareConfig>| {
        v.iter().map(|s| (s.name.clone(), s.remote_path.clone(), s.force_user.clone())).collect::<Vec<_>>()
    };
    assert_eq!(key(&a), key(&b));
}

#[test]
fn remote_render_exact() {
    let text = remote("/media/x", "//nas/x").render();
    assert_eq!(
        text,
        "fileSystems.\"/media/x\" = {\n  device = \"//nas/x\";\n  fsType = \"cifs\";\n  options = [\n    \"credentials=/etc/nixos/smb-secrets\"\n    \"x-systemd.automount\"\n    \"noauto\"\n    \"x-systemd.idle-timeout=300\"\n    \"x-systemd.device-timeout=10s\"\n    \"x-systemd.mount-timeout=10s\"\n    \"uid=1000\"\n    \"gid=100\"\n  ];\n};"
    );
}

#[test]
fn remote_write_then_load() {
    let after = remote("/media/x", "//nas/x").write(CONFIG).unwrap();
    assert!(after.starts_with(&CONFIG[..CONFIG.rfind('}').unwrap()]));
    assert!(after.ends_with("};\n\n}\n"));
    let shares = RemoteSambaShareConfig::load_all(&after);
    assert_eq!(shares.len(), 3);
    assert_eq!(shares[2].name, "/media/x");
    assert_eq!(shares[2].remote_path, "//nas/x");
    assert_eq!(shares[2].force_user, "1000");
}

#[test]
fn remote_write_without_brace_fails() {
    let err = remote("/media/x", "//nas/x").write("no braces here").unwrap_err();
    assert_eq!(err, "Could not find insertion point in config file");
}

#[test]
fn remote_update_in_place_keeps_other_text() {
    let r = remote("/media/music", "//other/music");
    let after = r.update("/media/music", CONFIG).unwrap();
    let start = CONFIG.find("fileSystems.\"/media/music\"").unwrap();
    assert_eq!(&after[..start], &CONFIG[..start]);
    assert!(after.ends_with("};\n}\n"));
    let shares = RemoteSambaShareConfig::load_all(&after);
    assert_eq!(shares.len(), 2);
    assert_eq!(shares[1].remote_path, "//other/music");
}

#[test]
fn remote_update_with_rename_leaves_one_entry() {
    let r = remote("/media/songs", "//nas/music");
    let after = r.update("/media/music", CONFIG).unwrap();
    let shares = RemoteSambaShareConfig::load_all(&after);
    let names: Vec<_> = shares.iter().map(|s| s.name.clone()).collect();
    assert_eq!(names, vec!["/media/blender", "/media/songs"]);
}

#[test]
fn remote_update_missing_entry_fails() {
    let err = remote("/media/none", "//nas/none").update("/media/none", CONFIG).unwrap_err();
    assert_eq!(err, "Could not find filesystem entry for '/media/none'");
}

#[test]
fn remote_delete_removes_entry_and_line_breaks() {
    let r = remote("/media/blender", "//nas/blender");
    let after = r.delete("/media/blender", CONFIG).unwrap();
    assert!(!after.contains("blender"));
    assert!(after.contains("  fileSystems.\"/\" = {"));
    let shares = RemoteSambaShareConfig::load_all(&after);
    assert_eq!(shares.len(), 1);
    assert_eq!(shares[0].name, "/media/music");
}

#[test]
fn remote_nested_mount_point_string_is_not_an_entry() {
    let text = "{\n  other.\"/media/blender\" = { device = \"//x/y\"; fsType = \"cifs\"; };\n}\n";
    assert!(RemoteSambaShareConfig::load_all(text).is_empty());
    let err = remote("/media/blender", "//x/y").delete("/media/blender", text).unwrap_err();
    assert_eq!(err, "Could not find filesystem entry for '/media/blender'");
}

fn open(kind: &str) -> SyntaxEvent {
    SyntaxEvent::Open(kind.to_string())
}

fn token(text: &str) -> Vec<SyntaxEvent> {
    vec![
        SyntaxEvent::Token(text.to_string()),
        SyntaxEvent::TokenClose,
    ]
}

#[test]
fn remote_shares_from_a_walk_given_by_hand() {
    let mut walk = vec![open("NODE_ATTRPATH_VALUE"), open("NODE_ATTRPATH"), open("NODE_IDENT")];
    walk.extend(token("fileSystems"));
    walk.push(SyntaxEvent::Close);
    walk.extend(token("."));
    walk.push(open("NODE_STRING"));
    walk.extend(token("\"/m\""));
    walk.push(SyntaxEvent::Close);
    walk.push(SyntaxEvent::Close);
    walk.extend(token(" = "));
    walk.push(open("NODE_ATTR_SET"));
    walk.extend(token("{ "));
    walk.push(open("NODE_ATTRPATH_VALUE"));
    walk.push(open("NODE_ATTRPATH"));
    walk.push(open("NODE_IDENT"));
    walk.extend(token("fsType"));
    walk.push(SyntaxEvent::Close);
    walk.push(SyntaxEvent::Close);
    walk.extend(token(" = "));
    walk.push(open("NODE_STRING"));
    walk.extend(token("\"cifs\""));
    walk.push(SyntaxEvent::Close);
    walk.extend(token(";"));
    walk.push(SyntaxEvent::Close);
    walk.extend(token(" }"));
    walk.push(SyntaxEvent::Close);
    walk.extend(token(";"));
    walk.push(SyntaxEvent::Close);
    let tree = SyntaxTree::from_walk(&walk);
    let text: String = tree.text.iter().collect();
    assert_eq!(text, "fileSystems.\"/m\" = { fsType = \"cifs\"; };");
    let shares = RemoteSambaShareConfig::shares_in(&tree);
    assert_eq!(shares.len(), 1);
    assert_eq!(shares[0].name, "/m");
    assert_eq!(shares[0].remote_path, "");
    assert_eq!(shares[0].fs_type, "cifs");
    assert_eq!(shares[0].force_user, "1000");
    assert_eq!(shares[0].force_group, "100");
}

#[test]
fn remote_quoted_and_nested_forms_are_read() {
    let quoted = "{\n  \"fileSystems\".\"/m\" = { device = \"//a/b\"; fsType = \"cifs\"; };\n}\n";
    let nested = "{\n  fileSystems = {\n    \"/m\" = { device = \"//a/b\"; fsType = \"cifs\"; };\n    \"/\" = { device = \"/dev/sda1\"; fsType = \"ext4\"; };\n  };\n}\n";
    for text in [quoted, nested] {
        let shares = RemoteSambaShareConfig::load_all(text);
        assert_eq!(shares.len(), 1, "{}", text);
        assert_eq!(shares[0].name, "/m");
        assert_eq!(shares[0].remote_path, "//a/b");
    }
}

#[test]
fn remote_update_in_nested_form_keeps_the_block() {
    let nested = "{\n  fileSystems = {\n    \"/m\" = { device = \"//a/b\"; fsType = \"cifs\"; };\n  };\n}\n";
    let after = remote("/m", "//c/d").update("/m", nested).unwrap();
    assert!(after.starts_with("{\n  fileSystems = {\n    \"/m\" = {\n  device = \"//c/d\";"));
    assert!(!after.contains("fileSystems.\""));
    let shares = RemoteSambaShareConfig::load_all(&after);
    assert_eq!(shares.len(), 1);
    assert_eq!(shares[0].remote_path, "//c/d");
}
