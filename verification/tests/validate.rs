use giss::validate::{validate_name, validate_pubkey};

#[test]
fn valid_names() {
    assert!(validate_name("my-repo", "Repo").is_ok());
    assert!(validate_name("alice/repo_1", "Repo").is_ok());
    assert!(validate_name("user.name/repo", "Repo").is_ok());
}

#[test]
fn invalid_names() {
    assert!(validate_name("", "Repo").is_err());
    assert!(validate_name("repo/../etc", "Repo").is_err());
    assert!(validate_name("../repo", "Repo").is_err());
    assert!(validate_name("/etc/passwd", "Repo").is_err());
    assert!(validate_name("repo/", "Repo").is_err());
    assert!(validate_name("repo!", "Repo").is_err());
}

#[test]
fn valid_pubkeys() {
    let key = "ssh-ed25519 AAAAC3NzaC1lZDI1NTE5AAAAIabcdefg user@host";
    assert!(validate_pubkey(key).is_ok());
    assert!(validate_pubkey("ssh-rsa AAAAB3NzaC1yc2EAAAADAQABAAABAQ").is_ok());
}

#[test]
fn invalid_pubkeys() {
    assert!(validate_pubkey("").is_err());
    assert!(validate_pubkey("ssh-ed25519").is_err());
    assert!(validate_pubkey("unknown-type AAAA").is_err());
}
