use samba_share::share_config::SambaShareConfig;

fn count_shares(config: &str) -> usize {
    config.matches(r#"" = {"#).count()
}

fn has_share(config: &str, name: &str) -> bool {
    config.contains(&format!(r#""{}" = {{"#, name))
}

fn names(shares: &[SambaShareConfig]) -> Vec<String> {
    shares.iter().map(|s| s.name.clone()).collect()
}

#[test]
fn test_load_shares_from_config() {
    let config = r#"{ config, pkgs, ... }:

{
  services.samba = {
    settings = {
      "myShare" = {
        path = "/home/test/share";
        browseable = yes;
        "read only" = no;
        "guest ok" = yes;
        "force user" = "testuser";
        "force group" = "testgroup";
      };
      "anotherShare" = {
        path = "/data";
        browseable = no;
        "read only" = yes;
        "guest ok" = no;
        "force user" = "root";
        "force group" = "root";
      };
    };
  };
}"#;

    assert!(has_share(config, "myShare"), "Should find myShare");
    assert!(has_share(config, "anotherShare"), "Should find anotherShare");
    assert_eq!(count_shares(config), 2, "Should have exactly 2 shares");

    let shares = SambaShareConfig::load_all(config);
    assert_eq!(names(&shares), vec!["myShare", "anotherShare"]);
    assert_eq!(shares[0].path, "/home/test/share");
    assert!(shares[0].browsable);
    assert!(!shares[0].read_only);
    assert!(shares[0].guest_ok);
    assert_eq!(shares[0].force_user, "testuser");
    assert_eq!(shares[0].force_group, "testgroup");
    assert_eq!(shares[1].path, "/data");
    assert!(!shares[1].browsable);
    assert!(shares[1].read_only);
    assert!(!shares[1].guest_ok);
    assert_eq!(shares[1].force_user, "root");
}

#[test]
fn test_add_share_to_existing_config() {
    let initial_config = r#"{ config, pkgs, ... }:

{
  imports = [ ./hardware-configuration.nix ];

  services.samba = {
    settings = {
      "existingShare" = {
        path = "/home/mika/existing";
        browseable = yes;
        "read only" = no;
        "guest ok" = no;
        "force user" = "mika";
        "force group" = "users";
      };
    };
  };
}"#;

    assert_eq!(count_shares(initial_config), 1, "Should start with 1 share");
    assert!(has_share(initial_config, "existingShare"), "Should have existingShare");

    let share = SambaShareConfig::new(
        "newShare".to_string(),
        "/srv/new".to_string(),
        true,
        false,
        false,
        "mika".to_string(),
        "users".to_string(),
    );
    let after = share.write(initial_config).unwrap();
    assert_eq!(count_shares(&after), 2);
    assert!(has_share(&after, "existingShare"));
    assert!(has_share(&after, "newShare"));
    assert_eq!(
        names(&SambaShareConfig::load_all(&after)),
        vec!["existingShare", "newShare"]
    );
}

#[test]
fn test_config_format_validation() {
    let config = r#"  "testShare" = {
    path = "/test/path";
    browseable = yes;
    "read only" = no;
    "guest ok" = yes;
    "force user" = "user1";
    "force group" = "group1";
  };"#;

    assert!(config.contains(r#""testShare" = {"#), "Should have proper share name format");
    assert!(config.contains(r#"path = "/test/path";"#), "Should have path");
    assert!(config.contains("browseable = yes;"), "Should use 'yes' not 'true'");
    assert!(config.contains(r#""read only" = no;"#), "Should use 'no' not 'false'");
    assert!(config.contains(r#""guest ok" = yes;"#), "Should quote multi-word keys");
    assert!(config.contains(r#""force user" = "user1";"#), "Should have force user");
    assert!(config.contains(r#""force group" = "group1";"#), "Should have force group");
}

#[test]
fn test_update_share_in_config() {
    let config = r#"{ config, pkgs, ... }:

{
  services.samba = {
    settings = {
      "oldName" = {
        path = "/old/path";
        browseable = yes;
      };
      "keepThis" = {
        path = "/keep";
        browseable = yes;
      };
    };
  };
}"#;

    assert_eq!(count_shares(config), 2, "Should have 2 shares initially");
    assert!(has_share(config, "oldName"), "Should have oldName");
    assert!(has_share(config, "keepThis"), "Should have keepThis");

    let share = SambaShareConfig::new(
        "newName".to_string(),
        "/new/path".to_string(),
        true,
        false,
        false,
        String::new(),
        String::new(),
    );
    let after = share.update("oldName", config).unwrap();
    assert!(!has_share(&after, "oldName"));
    assert!(has_share(&after, "newName"));
    assert!(has_share(&after, "keepThis"));
    assert_eq!(names(&SambaShareConfig::load_all(&after)), vec!["newName", "keepThis"]);
}

#[test]
fn test_create_samba_section_in_minimal_config() {
    let minimal_config = r#"{ config, pkgs, ... }:

{
  imports = [ ./hardware-configuration.nix ];

  boot.loader.systemd-boot.enable = true;
}"#;

    assert!(!minimal_config.contains("services.samba"), "Should not have samba section initially");

    let share = SambaShareConfig::new(
        "docs".to_string(),
        "/srv/docs".to_string(),
        true,
        false,
        true,
        "alice".to_string(),
        "users".to_string(),
    );
    let after = share.write(minimal_config).unwrap();
    assert!(after.contains("services.samba"));
    assert!(after.starts_with("{ config, pkgs, ... }:\n\n{\n  imports"));
    assert!(after.ends_with("  };\n}"));
    let shares = SambaShareConfig::load_all(&after);
    assert_eq!(names(&shares), vec!["docs"]);
}

#[test]
fn test_empty_settings_section() {
    let config = r#"{ config, pkgs, ... }:

{
  services.samba = {
    enable = true;
    settings = {
    };
  };
}"#;

    assert_eq!(count_shares(config), 0, "Should have no shares");
    assert!(config.contains("settings = {"), "Should have settings section");
    assert!(SambaShareConfig::load_all(config).is_empty());
}

#[test]
fn test_special_characters_in_share_path() {
    let share_with_spaces = r#"    "documents" = {
      path = "/home/user/My Documents/Shared Folder";
      browseable = yes;
    };"#;

    assert!(
        share_with_spaces.contains(r#"path = "/home/user/My Documents/Shared Folder";"#),
        "Should handle paths with spaces"
    );
}

#[test]
fn test_multiple_shares_order_preservation() {
    let config = r#"{ config, pkgs, ... }:

{
  services.samba = {
    settings = {
      "first" = { path = "/1"; browseable = yes; };
      "second" = { path = "/2"; browseable = yes; };
      "third" = { path = "/3"; browseable = yes; };
    };
  };
}"#;

    let first_pos = config.find(r#""first""#).expect("Should find first");
    let second_pos = config.find(r#""second""#).expect("Should find second");
    let third_pos = config.find(r#""third""#).expect("Should find third");

    assert!(first_pos < second_pos, "first should come before second");
    assert!(second_pos < third_pos, "second should come before third");

    let shares = SambaShareConfig::load_all(config);
    assert_eq!(names(&shares), vec!["first", "second", "third"]);
    assert_eq!(shares[0].path, "/1");
    assert_eq!(shares[1].path, "/2");
    assert_eq!(shares[2].path, "/3");
    assert!(shares.iter().all(|s| s.browsable));
}

#[test]
fn test_nix_boolean_format() {
    let valid_formats = vec![
        "browseable = yes;",
        "\"read only\" = no;",
        "\"guest ok\" = yes;",
    ];

    for format in valid_formats {
        assert!(!format.contains("true"), "Should not use 'true'");
        assert!(!format.contains("false"), "Should not use 'false'");
        assert!(
            format.contains("yes") || format.contains("no"),
            "Should use 'yes' or 'no'"
        );
    }
}

#[test]
fn test_share_name_validation() {
    let valid_names = vec![
        r#""myShare" = {"#,
        r#""test-share" = {"#,
        r#""share_123" = {"#,
    ];

    for name in valid_names {
        assert!(name.starts_with('"'), "Share name should start with quote");
        assert!(name.contains(r#"" = {"#), "Share name should be followed by = {{");
    }
}
