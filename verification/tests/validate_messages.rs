use giss::validate::{validate_name, validate_pubkey};

#[test]
fn name_errors_say_why() {
    assert_eq!(validate_name("", "Repo"), Err("Repo name is empty".to_string()));
    assert_eq!(validate_name(&"a".repeat(101), "Repo"), Err("Repo name too long".to_string()));
    assert!(validate_name(&"a".repeat(100), "Repo").is_ok());
    assert_eq!(
        validate_name(".hidden", "User"),
        Err("User name cannot start or end with '.'".to_string())
    );
    assert_eq!(
        validate_name("repo/", "Repo"),
        Err("Repo name cannot start or end with '/'".to_string())
    );
    assert_eq!(
        validate_name("a/../b", "Repo"),
        Err("Repo name cannot contain '..'".to_string())
    );
    assert_eq!(
        validate_name("repo!", "Repo"),
        Err("Repo name contains invalid characters".to_string())
    );
}

#[test]
fn name_length_counts_bytes() {
    // 51 two-byte characters are 102 bytes: too long before anything else.
    let name = "é".repeat(51);
    assert_eq!(validate_name(&name, "Repo"), Err("Repo name too long".to_string()));
    let short = "é".repeat(50);
    assert_eq!(
        validate_name(&short, "Repo"),
        Err("Repo name contains invalid characters".to_string())
    );
}

#[test]
fn pubkey_errors_say_why() {
    assert_eq!(validate_pubkey("   "), Err("Public key is empty".to_string()));
    assert_eq!(validate_pubkey(" ssh-rsa "), Err("Invalid key format".to_string()));
    assert_eq!(
        validate_pubkey("ssh-foo AAAA"),
        Err("Unknown ssh key type: ssh-foo".to_string())
    );
    assert!(validate_pubkey("  sk-ssh-ed25519@openssh.com AAAA comment  ").is_ok());
    assert!(validate_pubkey("ecdsa-sha2-nistp384\tAAAA").is_ok());
}
