use samba_share::share_config::SambaShareConfig;

const EMPTY: &str = "{\n  services.samba = {\n    settings = {\n    };\n  };\n}\n";

fn docs() -> SambaShareConfig {
    SambaShareConfig::new(
        "docs".to_string(),
        "/srv/docs".to_string(),
        true,
        false,
        true,
        "alice".to_string(),
        "users".to_string(),
    )
}

#[test]
fn add_then_list_returns_the_share() {
    let after = docs().write(EMPTY).unwrap();
    let shares = SambaShareConfig::load_all(&after);
    assert_eq!(shares.len(), 1);
    let s = &shares[0];
    assert_eq!(s.name, "docs");
    assert_eq!(s.path, "/srv/docs");
    assert!(s.browsable);
    assert!(!s.read_only);
    assert!(s.guest_ok);
    assert_eq!(s.force_user, "alice");
    assert_eq!(s.force_group, "users");
}

#[test]
fn write_into_empty_settings_exact_text() {
    let after = docs().write(EMPTY).unwrap();
    assert_eq!(
        after,
        "{\n  services.samba = {\n    settings = {\n    \"docs\" = {\n      path = \"/srv/docs\";\n      browseable = yes;\n      \"read only\" = no;\n      \"guest ok\" = yes;\n      \"force user\" = \"alice\";\n      \"force group\" = \"users\";\n    };\n    };\n  };\n}\n"
    );
}

#[test]
fn render_uses_yes_and_no() {
    let text = docs().render();
    assert!(text.contains("browseable = yes;"));
    assert!(text.contains("\"read only\" = no;"));
    assert!(text.contains("\"guest ok\" = yes;"));
    assert!(!text.contains("true"));
}

#[test]
fn write_without_any_place_fails() {
    let err = docs().write("just text").unwrap_err();
    assert_eq!(err, "Could not find suitable location to add services.samba section");
}

#[test]
fn write_with_unclosed_settings_fails() {
    let err = docs().write("{\n  services.samba = {\n    settings = {\n").unwrap_err();
    assert_eq!(err, "Could not find end of services.samba.settings section");
}

#[test]
fn update_missing_share_fails() {
    let err = docs().update("nothere", EMPTY).unwrap_err();
    assert_eq!(err, "Share 'nothere' not found in configuration");
}

#[test]
fn update_keeps_siblings_byte_for_byte() {
    let text = "{\r\n  services.samba = {\n    settings = {\n      \"a\" = {\n        path = \"/a\";\n      };\n      \"b\" = {\n        path = \"/b\";\n      };\n    };\n  };\n}";
    let after = docs().update("a", text).unwrap();
    let b_start = text.find("      \"b\"").unwrap();
    assert!(after.ends_with(&text[b_start - 1..]));
    assert!(after.starts_with("{\r\n  services.samba = {\n    settings = {\n      \"docs\" = {"));
    let names: Vec<_> = SambaShareConfig::load_all(&after).iter().map(|s| s.name.clone()).collect();
    assert_eq!(names, vec!["docs", "b"]);
}

#[test]
fn load_skips_global_and_defaults_missing_properties() {
    let text = "{\nservices.samba = {\n  settings = {\n    global = {\n      \"workgroup\" = \"WORKGROUP\";\n    };\n    \"bare\" = {\n    };\n  };\n};\n}\n";
    let shares = SambaShareConfig::load_all(text);
    assert_eq!(shares.len(), 1);
    assert_eq!(shares[0].name, "bare");
    assert_eq!(shares[0].path, "");
    assert!(shares[0].browsable);
    assert!(!shares[0].read_only);
    assert!(!shares[0].guest_ok);
}

#[test]
fn load_without_section_is_empty() {
    assert!(SambaShareConfig::load_all("{ }").is_empty());
    assert!(SambaShareConfig::load_all("").is_empty());
}

#[test]
fn reading_twice_gives_the_same_shares() {
    let text = "{\nservices.samba = {\n  settings = {\n    \"a\" = {\n      path = \"/a\";\n      \"guest ok\" = yes;\n    };\n  };\n};\n}\n";
    let key = |v: Vec<SambaShareConfig>| {
        v.into_iter().map(|s| (s.name, s.path, s.browsable, s.read_only, s.guest_ok)).collect::<Vec<_>>()
    };
    assert_eq!(key(SambaShareConfig::load_all(text)), key(SambaShareConfig::load_all(text)));
    assert_eq!(key(SambaShareConfig::load_all(text)), vec![("a".to_string(), "/a".to_string(), true, false, true)]);
}

#[test]
fn rename_in_single_share_config_leaves_only_new_name() {
    let once = docs().write(EMPTY).unwrap();
    let renamed = SambaShareConfig::new(
        "papers".to_string(),
        "/srv/papers".to_string(),
        false,
        true,
        false,
        "bob".to_string(),
        "staff".to_string(),
    );
    let after = renamed.update("docs", &once).unwrap();
    let shares = SambaShareConfig::load_all(&after);
    assert_eq!(shares.len(), 1);
    assert_eq!(shares[0].name, "papers");
    assert_eq!(shares[0].path, "/srv/papers");
    assert!(!shares[0].browsable);
    assert!(shares[0].read_only);
    assert_eq!(after, renamed.write(EMPTY).unwrap());
}

#[test]
fn one_line_entries_each_read_as_one_share() {
    let text = "{\n  services.samba = {\n    settings = {\n      \"first\" = { path = \"/1\"; browseable = yes; };\n      \"second\" = { path = \"/2\"; browseable = yes; };\n      \"third\" = { path = \"/3\"; browseable = yes; };\n    };\n  };\n}";
    let shares = SambaShareConfig::load_all(text);
    let got: Vec<_> = shares.iter().map(|s| (s.name.clone(), s.path.clone(), s.browsable)).collect();
    assert_eq!(
        got,
        vec![
            ("first".to_string(), "/1".to_string(), true),
            ("second".to_string(), "/2".to_string(), true),
            ("third".to_string(), "/3".to_string(), true),
        ]
    );
}

#[test]
fn settings_found_however_the_keys_are_written() {
    let dotted = "{\n  services.samba.settings = {\n    \"a\" = { path = \"/a\"; };\n  };\n}";
    let nested = "{\n  services = {\n    samba = {\n      settings = {\n        a = { path = \"/a\"; };\n      };\n    };\n  };\n}";
    let quoted = "{\n  \"services\".\"samba\" = { \"settings\" = { \"a\" = { \"path\" = \"/a\"; }; }; };\n}";
    for text in [dotted, nested, quoted] {
        let shares = SambaShareConfig::load_all(text);
        assert_eq!(shares.len(), 1, "{}", text);
        assert_eq!(shares[0].name, "a");
        assert_eq!(shares[0].path, "/a");
    }
}

#[test]
fn update_never_matches_a_nested_entry() {
    let text = "{\n  services.samba = {\n    settings = {\n      \"outer\" = {\n        \"old\" = { path = \"/deep\"; };\n        path = \"/outer\";\n      };\n    };\n  };\n}";
    let err = docs().update("old", text).unwrap_err();
    assert_eq!(err, "Share 'old' not found in configuration");
    let err = docs().update("old", "{ }").unwrap_err();
    assert_eq!(err, "Share 'old' not found in configuration");
}

#[test]
fn write_into_a_one_line_settings_key() {
    let text = "{\n  services.samba.settings = {\n    \"a\" = { path = \"/a\"; };\n  };\n}\n";
    let after = docs().write(text).unwrap();
    let names: Vec<_> = SambaShareConfig::load_all(&after).iter().map(|s| s.name.clone()).collect();
    assert_eq!(names, vec!["a", "docs"]);
    assert!(after.starts_with("{\n  services.samba.settings = {\n    \"a\" = { path = \"/a\"; };\n"));
    assert!(after.ends_with("    };\n  };\n}\n"));
}
