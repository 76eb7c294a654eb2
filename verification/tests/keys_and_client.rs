use giss::client::{expand_tilde, grant_command, list_command, repo_url};
use giss::keys::{authorized_keys_line, key_file_name, key_file_user, listed_name, user_key_file};

#[test]
fn key_files_name_their_users() {
    assert_eq!(key_file_user("alice.pub"), Some("alice".to_string()));
    assert_eq!(key_file_user("a.b.pub"), Some("a.b".to_string()));
    assert_eq!(key_file_user(".pub"), None);
    assert_eq!(key_file_user("alice.txt"), None);
    assert_eq!(key_file_user("bad name.pub"), None);
    assert_eq!(key_file_user("alice"), None);
}

#[test]
fn key_lines_force_the_shell() {
    assert_eq!(
        authorized_keys_line("/usr/local/bin/gism", "alice", " ssh-ed25519 AAAA alice@laptop\n"),
        "command=\"/usr/local/bin/gism shell alice\",no-port-forwarding,no-X11-forwarding,no-agent-forwarding,no-pty ssh-ed25519 AAAA alice@laptop\n"
    );
}

#[test]
fn new_user_key_file() {
    assert_eq!(
        user_key_file("alice", " ssh-rsa AAAA x \n"),
        Ok(("alice.pub".to_string(), "ssh-rsa AAAA x".to_string()))
    );
    assert_eq!(user_key_file("", "ssh-rsa AAAA"), Err("User name is empty".to_string()));
    assert_eq!(user_key_file("alice", "ssh-rsa"), Err("Invalid key format".to_string()));
    assert_eq!(key_file_name("bob"), "bob.pub");
}

#[test]
fn listings_drop_suffixes() {
    assert_eq!(listed_name("alice.pub", ".pub"), Some("alice".to_string()));
    assert_eq!(listed_name("x.git.git", ".git"), Some("x".to_string()));
    assert_eq!(listed_name("notes.txt", ".git"), None);
}

#[test]
fn tilde_expands_to_home() {
    assert_eq!(
        expand_tilde("~/.config/giss/config.toml", Some("/home/a")),
        "/home/a/.config/giss/config.toml"
    );
    assert_eq!(expand_tilde("~/x", None), "~/x");
    assert_eq!(expand_tilde("/etc/x", Some("/home/a")), "/etc/x");
    assert_eq!(expand_tilde("~x", Some("/home/a")), "~x");
}

#[test]
fn client_command_texts() {
    assert_eq!(list_command(), "giss-list");
    assert_eq!(grant_command("alice/r", "bob", false), "giss-grant alice/r bob");
    assert_eq!(grant_command("alice/r", "bob", true), "giss-grant alice/r bob --write");
    assert_eq!(repo_url("git@host", "alice/r"), "git@host:alice/r.git");
}
