use ssh_agent_sync::parse::extract_chevron_text;
use ssh_agent_sync::parse::get_ssh_key_type;
use ssh_agent_sync::parse::process_ssh_comment;

#[test]
fn plain_user_host() {
    let r = process_ssh_comment("git@github.com").unwrap();
    assert_eq!(r.0, "git");
    assert_eq!(r.1, "github.com");
    assert!(r.2.is_none());
}

#[test]
fn plain_user_host_is_trimmed() {
    let r = process_ssh_comment("  git@github.com \t").unwrap();
    assert_eq!(r.0, "git");
    assert_eq!(r.1, "github.com");
    assert!(r.2.is_none());
}

#[test]
fn alias_comment() {
    let r = process_ssh_comment("Alice Smith <bob@example.com>").unwrap();
    assert_eq!(r.0, "bob");
    assert_eq!(r.1, "example.com");
    assert_eq!(r.2.unwrap(), "Alice_Smith");
}

#[test]
fn alias_with_empty_display_name() {
    let r = process_ssh_comment("<x@y>").unwrap();
    assert_eq!(r.0, "x");
    assert_eq!(r.1, "y");
    assert_eq!(r.2.unwrap(), "");
}

#[test]
fn reject_two_ats() {
    assert!(process_ssh_comment("a@b@c").is_none());
    assert!(process_ssh_comment("nm <a@b@c>").is_none());
}

#[test]
fn reject_no_at() {
    assert!(process_ssh_comment("just a label").is_none());
    assert!(process_ssh_comment("").is_none());
}

#[test]
fn reject_whitespace_inside_segment() {
    assert!(process_ssh_comment("a b@c").is_none());
    assert!(process_ssh_comment("nm <a @b>").is_none());
    assert!(process_ssh_comment("nm <a@b c>").is_none());
}

#[test]
fn reject_unbalanced_brackets() {
    assert!(process_ssh_comment("x <a@b").is_none());
    assert!(process_ssh_comment("a@b>").is_none());
    assert!(process_ssh_comment("<a@b> <c@d>").is_none());
}

#[test]
fn reject_misordered_brackets() {
    assert!(process_ssh_comment("> a@b <").is_none());
}

#[test]
fn reject_empty_chevron_inner() {
    assert!(process_ssh_comment("nm <>").is_none());
}

#[test]
fn reject_empty_user_or_host() {
    assert!(process_ssh_comment("@host").is_none());
    assert!(process_ssh_comment("user@").is_none());
    assert!(process_ssh_comment("nm <@host>").is_none());
}

#[test]
fn chevron_extraction() {
    assert_eq!(extract_chevron_text("a <bc> d").unwrap(), "bc");
    assert!(extract_chevron_text("a bc d").is_none());
    assert!(extract_chevron_text("a <> d").is_none());
    assert!(extract_chevron_text("a > b < c").is_none());
}

#[test]
fn blob_type_extracted() {
    let mut blob: Vec<u8> = vec![0, 0, 0, 7];
    blob.extend_from_slice(b"ssh-rsa");
    blob.extend_from_slice(&[1, 2, 3, 4]);
    assert_eq!(get_ssh_key_type(&blob).unwrap(), "ssh-rsa");
}

#[test]
fn blob_type_exact_length() {
    let mut blob: Vec<u8> = vec![0, 0, 0, 3];
    blob.extend_from_slice(b"abc");
    assert_eq!(get_ssh_key_type(&blob).unwrap(), "abc");
}

#[test]
fn blob_shorter_than_declared_rejected() {
    let mut blob: Vec<u8> = vec![0, 0, 0, 8];
    blob.extend_from_slice(b"ssh-rsa");
    assert!(get_ssh_key_type(&blob).is_none());
}

#[test]
fn blob_short_header_rejected() {
    assert!(get_ssh_key_type(&[0, 0, 1]).is_none());
    assert!(get_ssh_key_type(&[]).is_none());
}

#[test]
fn blob_invalid_utf8_rejected() {
    assert!(get_ssh_key_type(&[0, 0, 0, 2, 0xff, 0xfe]).is_none());
}
