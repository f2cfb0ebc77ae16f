use ssh_agent_sync::agent::collect_ssh_keys;
use ssh_agent_sync::config::extract_stored_crc;
use ssh_agent_sync::config::generate_ssh_keys_crc;
use ssh_agent_sync::config::plan_sync;
use ssh_agent_sync::config::SyncPlan;
use ssh_agent_sync::constants::ssh_base_config_file_path_in;
use ssh_agent_sync::constants::ssh_base_include_line_in;
use ssh_agent_sync::constants::ssh_config_file_path_in;
use ssh_agent_sync::constants::ssh_config_key_folder_path_in;
use ssh_agent_sync::constants::ssh_dir_in;
use ssh_agent_sync::RawIdentity;
use ssh_agent_sync::SshKey;

fn record(name: Option<&str>, user: &str, host: &str, key_type: &str, key: &str) -> SshKey {
    SshKey {
        name: name.map(|s| s.to_string()),
        user: user.to_string(),
        host: host.to_string(),
        key_type: key_type.to_string(),
        key: key.to_string(),
        file_name: String::new(),
    }
}

fn expected_crc(keys: &[SshKey]) -> String {
    let mut hasher = <sha2::Sha256 as sha2::Digest>::new();
    for k in keys {
        sha2::Digest::update(&mut hasher, k.user.as_bytes());
        sha2::Digest::update(&mut hasher, k.host.as_bytes());
        sha2::Digest::update(&mut hasher, k.key.as_bytes());
    }
    let digest = sha2::Digest::finalize(hasher);
    base64::engine::Engine::encode(&base64::engine::general_purpose::STANDARD, digest)
}

#[test]
fn fingerprint_matches_incremental_digest() {
    let keys = vec![
        record(None, "git", "github.com", "ssh-ed25519", "AAAAC3Nza"),
        record(Some("Work"), "dev", "work.example", "ssh-rsa", "AAAAB3Nza"),
    ];
    let crc = generate_ssh_keys_crc(&keys);
    assert_eq!(crc, expected_crc(&keys));
    assert_eq!(crc.len(), 44);
}

#[test]
fn fingerprint_deterministic() {
    let a = vec![
        record(None, "git", "github.com", "ssh-ed25519", "AAAAC3Nza"),
        record(None, "dev", "work.example", "ssh-rsa", "AAAAB3Nza"),
    ];
    let b = vec![
        record(None, "git", "github.com", "ssh-ed25519", "AAAAC3Nza"),
        record(None, "dev", "work.example", "ssh-rsa", "AAAAB3Nza"),
    ];
    assert_eq!(generate_ssh_keys_crc(&a), generate_ssh_keys_crc(&b));
}

#[test]
fn fingerprint_order_sensitive() {
    let a = vec![
        record(None, "git", "github.com", "ssh-ed25519", "AAAAC3Nza"),
        record(None, "dev", "work.example", "ssh-rsa", "AAAAB3Nza"),
    ];
    let b = vec![a[1].clone(), a[0].clone()];
    assert_ne!(generate_ssh_keys_crc(&a), generate_ssh_keys_crc(&b));
}

#[test]
fn fingerprint_of_empty_list() {
    let keys: Vec<SshKey> = Vec::new();
    assert_eq!(generate_ssh_keys_crc(&keys), expected_crc(&keys));
}

#[test]
fn stored_crc_extracted() {
    let content = "### SSH_AGENT_SYNC_CRC=abc123= \n\nHost *\n";
    assert_eq!(extract_stored_crc(content).unwrap(), "abc123=");
}

#[test]
fn stored_crc_from_later_line() {
    let content = "Host *\n### SSH_AGENT_SYNC_CRC=xyz\n";
    assert_eq!(extract_stored_crc(content).unwrap(), "xyz");
}

#[test]
fn stored_crc_missing() {
    assert!(extract_stored_crc("Host *\n    IdentitiesOnly yes\n").is_none());
    assert!(extract_stored_crc("").is_none());
}

#[test]
fn stored_crc_repeated_prefix_stripped() {
    let content = "### SSH_AGENT_SYNC_CRC=### SSH_AGENT_SYNC_CRC=abc\n";
    assert_eq!(extract_stored_crc(content).unwrap(), "abc");
}

#[test]
fn stored_crc_with_crlf_line_ending() {
    let content = "### SSH_AGENT_SYNC_CRC=abc\r\nHost *\r\n";
    assert_eq!(extract_stored_crc(content).unwrap(), "abc");
}

#[test]
fn ssh_dir_shape_when_home_known() {
    if let Some(d) = ssh_agent_sync::constants::ssh_dir() {
        assert!(d.ends_with("/.ssh"));
    }
}

#[test]
fn collect_keys_skips_rejected_identities() {
    let mut good_blob: Vec<u8> = vec![0, 0, 0, 11];
    good_blob.extend_from_slice(b"ssh-ed25519");
    good_blob.extend_from_slice(&[9, 9, 9]);
    let bad_blob: Vec<u8> = vec![0, 0, 0, 99];
    let ids = vec![
        RawIdentity::new(good_blob.clone(), "git@github.com".to_string()),
        RawIdentity::new(good_blob.clone(), "not an identity".to_string()),
        RawIdentity::new(bad_blob, "x@y".to_string()),
        RawIdentity::new(good_blob.clone(), "Work Box <dev@work.example>".to_string()),
    ];
    let keys = collect_ssh_keys(&ids);
    assert_eq!(keys.len(), 2);
    assert_eq!(keys[0].user, "git");
    assert_eq!(keys[0].host, "github.com");
    assert_eq!(keys[0].key_type, "ssh-ed25519");
    let expected_material =
        base64::engine::Engine::encode(&base64::engine::general_purpose::STANDARD, &good_blob);
    assert_eq!(keys[0].key, expected_material);
    assert!(keys[0].name.is_none());
    assert_eq!(keys[1].user, "dev");
    assert_eq!(keys[1].name.as_deref(), Some("Work_Box"));
    assert_eq!(keys[1].file_name, "");
}

fn paths() -> (String, String, String) {
    let ssh = ssh_dir_in("/home/u");
    let folder = ssh_config_key_folder_path_in(&ssh);
    let fragment = ssh_config_file_path_in(&ssh);
    let directive = ssh_base_include_line_in(&fragment);
    (folder, fragment, directive)
}

#[test]
fn derived_paths() {
    let ssh = ssh_dir_in("/home/u");
    assert_eq!(ssh, "/home/u/.ssh");
    assert_eq!(ssh_base_config_file_path_in(&ssh), "/home/u/.ssh/config");
    assert_eq!(ssh_config_key_folder_path_in(&ssh), "/home/u/.ssh/ssh_agent_sync");
    assert_eq!(ssh_config_file_path_in(&ssh), "/home/u/.ssh/config.ssh_agent_sync");
    assert_eq!(
        ssh_base_include_line_in("/home/u/.ssh/config.ssh_agent_sync"),
        "Include /home/u/.ssh/config.ssh_agent_sync"
    );
}

#[test]
fn end_to_end_single_record() {
    let (folder, _fragment, directive) = paths();
    let mut keys = vec![record(None, "git", "github.com", "ssh-ed25519", "AAAAC3Nza")];
    let crc = generate_ssh_keys_crc(&keys);
    let plan = plan_sync(&mut keys, false, &None, &folder, &None, &directive);
    match plan {
        SyncPlan::Write(w) => {
            assert_eq!(w.key_files.len(), 1);
            assert_eq!(w.key_files[0].file_name, "github_com.pub");
            assert_eq!(w.key_files[0].content, "ssh-ed25519 AAAAC3Nza git@github.com");
            assert!(w.config_text.starts_with(&format!("### SSH_AGENT_SYNC_CRC={}\n\n", crc)));
            assert!(w.config_text.contains("Host *\n    IdentitiesOnly yes\n\n"));
            assert!(w.config_text.contains(
                "Host github.com\n    User git\n    IdentityFile \
                 /home/u/.ssh/ssh_agent_sync/github_com.pub\n    IdentitiesOnly yes\n\n"
            ));
            assert!(w.base_config_text.is_some());
        },
        SyncPlan::Unchanged => panic!("expected a write plan"),
    }
    assert_eq!(keys[0].file_name, "github_com.pub");
}

#[test]
fn alias_record_yields_two_blocks() {
    let (folder, _fragment, directive) = paths();
    let mut keys = vec![record(Some("Work_Box"), "dev", "work.example", "ssh-rsa", "AAAAB3")];
    let plan = plan_sync(&mut keys, false, &None, &folder, &None, &directive);
    match plan {
        SyncPlan::Write(w) => {
            assert_eq!(w.key_files[0].file_name, "Work_Box.pub");
            assert!(w.config_text.contains(
                "Host Work_Box\n    HostName work.example\n    User dev\n    IdentityFile \
                 /home/u/.ssh/ssh_agent_sync/Work_Box.pub\n    IdentitiesOnly yes\n\n"
            ));
            assert!(w.config_text.contains(
                "Host work.example\n    User dev\n    IdentityFile \
                 /home/u/.ssh/ssh_agent_sync/Work_Box.pub\n    IdentitiesOnly yes\n\n"
            ));
        },
        SyncPlan::Unchanged => panic!("expected a write plan"),
    }
}

#[test]
fn file_name_from_dotted_and_spaced_alias() {
    let (folder, _fragment, directive) = paths();
    let mut keys = vec![record(Some("My.Server Name"), "u", "h.example", "ssh-rsa", "AAAA")];
    let plan = plan_sync(&mut keys, false, &None, &folder, &None, &directive);
    match plan {
        SyncPlan::Write(w) => {
            assert_eq!(w.key_files[0].file_name, "My_Server_Name.pub");
        },
        SyncPlan::Unchanged => panic!("expected a write plan"),
    }
}

#[test]
fn file_name_is_sanitized() {
    let (folder, _fragment, directive) = paths();
    let mut keys = vec![record(None, "u", "bad:host", "ssh-rsa", "AAAA")];
    let plan = plan_sync(&mut keys, false, &None, &folder, &None, &directive);
    match plan {
        SyncPlan::Write(w) => {
            assert_eq!(w.key_files[0].file_name, "badhost.pub");
        },
        SyncPlan::Unchanged => panic!("expected a write plan"),
    }
}

#[test]
fn synchronize_is_idempotent() {
    let (folder, _fragment, directive) = paths();
    let mut keys = vec![
        record(None, "git", "github.com", "ssh-ed25519", "AAAAC3Nza"),
        record(Some("Work"), "dev", "work.example", "ssh-rsa", "AAAAB3"),
    ];
    let first = plan_sync(&mut keys, false, &None, &folder, &None, &directive);
    let written = match first {
        SyncPlan::Write(w) => w.config_text,
        SyncPlan::Unchanged => panic!("first run must write"),
    };
    let mut fresh = vec![
        record(None, "git", "github.com", "ssh-ed25519", "AAAAC3Nza"),
        record(Some("Work"), "dev", "work.example", "ssh-rsa", "AAAAB3"),
    ];
    let second = plan_sync(&mut fresh, false, &Some(written.clone()), &folder, &None, &directive);
    match second {
        SyncPlan::Unchanged => {},
        SyncPlan::Write(_) => panic!("second run must be a no-op"),
    }
    assert_eq!(fresh[0].file_name, "");
}

#[test]
fn forced_resync_rewrites_everything() {
    let (folder, _fragment, directive) = paths();
    let mut keys = vec![
        record(None, "git", "github.com", "ssh-ed25519", "AAAAC3Nza"),
        record(None, "dev", "work.example", "ssh-rsa", "AAAAB3"),
    ];
    let first = plan_sync(&mut keys.clone(), false, &None, &folder, &None, &directive);
    let written = match first {
        SyncPlan::Write(w) => w.config_text,
        SyncPlan::Unchanged => panic!("first run must write"),
    };
    let plan = plan_sync(&mut keys, true, &Some(written), &folder, &None, &directive);
    match plan {
        SyncPlan::Write(w) => {
            assert_eq!(w.key_files.len(), 2);
            assert!(w.config_text.starts_with("### SSH_AGENT_SYNC_CRC="));
        },
        SyncPlan::Unchanged => panic!("forced run must write"),
    }
}

#[test]
fn changed_records_resync() {
    let (folder, _fragment, directive) = paths();
    let mut keys = vec![record(None, "git", "github.com", "ssh-ed25519", "AAAAC3Nza")];
    let first = plan_sync(&mut keys.clone(), false, &None, &folder, &None, &directive);
    let written = match first {
        SyncPlan::Write(w) => w.config_text,
        SyncPlan::Unchanged => panic!("first run must write"),
    };
    let mut changed = vec![record(None, "git", "github.com", "ssh-ed25519", "BBBB")];
    let plan = plan_sync(&mut changed, false, &Some(written), &folder, &None, &directive);
    match plan {
        SyncPlan::Write(_) => {},
        SyncPlan::Unchanged => panic!("a changed record set must re-sync"),
    }
}

#[test]
fn base_config_patched_when_directive_missing() {
    let (folder, _fragment, directive) = paths();
    let base = "Host example\n    User someone\n".to_string();
    let mut keys = vec![record(None, "git", "github.com", "ssh-ed25519", "AAAA")];
    let plan = plan_sync(&mut keys, false, &None, &folder, &Some(base.clone()), &directive);
    match plan {
        SyncPlan::Write(w) => {
            let patched = w.base_config_text.expect("base config must be patched");
            assert_eq!(patched, format!("{}\n\n{}", directive, base));
            assert_eq!(patched.lines().next().unwrap(), directive);
            assert!(patched.ends_with(&base));
        },
        SyncPlan::Unchanged => panic!("expected a write plan"),
    }
}

#[test]
fn base_config_left_alone_when_directive_present() {
    let (folder, _fragment, directive) = paths();
    let base = format!("{}\n\nHost example\n", directive);
    let mut keys = vec![record(None, "git", "github.com", "ssh-ed25519", "AAAA")];
    let plan = plan_sync(&mut keys, false, &None, &folder, &Some(base), &directive);
    match plan {
        SyncPlan::Write(w) => {
            assert!(w.base_config_text.is_none());
        },
        SyncPlan::Unchanged => panic!("expected a write plan"),
    }
}

#[test]
fn base_config_scan_stops_after_twenty_lines() {
    let (folder, _fragment, directive) = paths();
    let mut base = String::new();
    for i in 0..25 {
        base.push_str(&format!("# filler line {}\n", i));
    }
    base.push_str(&directive);
    base.push('\n');
    let mut keys = vec![record(None, "git", "github.com", "ssh-ed25519", "AAAA")];
    let plan = plan_sync(&mut keys, false, &None, &folder, &Some(base), &directive);
    match plan {
        SyncPlan::Write(w) => {
            assert!(w.base_config_text.is_some());
        },
        SyncPlan::Unchanged => panic!("expected a write plan"),
    }
}

#[test]
fn missing_base_config_is_created_with_directive_only() {
    let (folder, _fragment, directive) = paths();
    let mut keys = vec![record(None, "git", "github.com", "ssh-ed25519", "AAAA")];
    let plan = plan_sync(&mut keys, false, &None, &folder, &None, &directive);
    match plan {
        SyncPlan::Write(w) => {
            assert_eq!(w.base_config_text.unwrap(), format!("{}\n\n", directive));
        },
        SyncPlan::Unchanged => panic!("expected a write plan"),
    }
}

#[test]
fn round_trip_through_generated_fragment() {
    let (folder, _fragment, directive) = paths();
    let keys0 = vec![record(None, "git", "github.com", "ssh-ed25519", "AAAAC3Nza")];
    let crc = generate_ssh_keys_crc(&keys0);
    let mut keys = keys0.clone();
    let plan = plan_sync(&mut keys, false, &None, &folder, &None, &directive);
    match plan {
        SyncPlan::Write(w) => {
            assert_eq!(extract_stored_crc(&w.config_text).unwrap(), crc);
        },
        SyncPlan::Unchanged => panic!("expected a write plan"),
    }
}
