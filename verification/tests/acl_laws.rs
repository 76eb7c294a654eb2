use giss::acl::{AclFile, RepoAcl};

#[test]
fn grant_twice_lists_once() {
    let mut acl = AclFile::default();
    acl.grant("alice/repo", "bob", true);
    acl.grant("alice/repo", "bob", true);
    assert_eq!(acl.repos.len(), 1);
    assert_eq!(acl.repos[0].read, vec!["bob".to_string()]);
    assert_eq!(acl.repos[0].write, vec!["bob".to_string()]);
}

#[test]
fn write_access_implies_read() {
    let mut acl = AclFile::default();
    acl.grant("alice/repo", "dave", true);
    assert!(acl.check("alice/repo", "dave", false));
    assert!(acl.check("alice/repo", "dave", true));
}

#[test]
fn read_grant_keeps_write() {
    let mut acl = AclFile::default();
    acl.grant("alice/repo", "dave", true);
    acl.grant("alice/repo", "dave", false);
    assert!(acl.check("alice/repo", "dave", true));
}

#[test]
fn grant_and_revoke_touch_nobody_else() {
    let mut acl = AclFile::default();
    acl.grant("alice/a", "bob", true);
    acl.grant("alice/b", "bob", false);
    acl.grant("alice/a", "carol", false);
    acl.revoke("alice/a", "bob");
    assert!(!acl.check("alice/a", "bob", false));
    assert!(acl.check("alice/b", "bob", false));
    assert!(acl.check("alice/a", "carol", false));
    assert!(!acl.check("alice/a", "carol", true));
}

#[test]
fn revoke_unknown_repo_changes_nothing() {
    let mut acl = AclFile::default();
    acl.grant("alice/a", "bob", false);
    acl.revoke("alice/zzz", "bob");
    assert_eq!(acl.repos.len(), 1);
    assert!(acl.check("alice/a", "bob", false));
}

#[test]
fn removed_repo_grants_nothing() {
    let mut acl = AclFile::default();
    acl.grant("alice/a", "bob", true);
    acl.grant("alice/b", "bob", true);
    acl.grant("alice/a", "carol", true);
    acl.remove_repo("alice/a");
    assert!(!acl.check("alice/a", "bob", false));
    assert!(!acl.check("alice/a", "carol", true));
    assert!(acl.check("alice/b", "bob", true));
    assert_eq!(acl.repos.len(), 1);
}

#[test]
fn first_record_of_a_name_decides() {
    let mut acl = AclFile {
        repos: vec![
            RepoAcl { name: "alice/r".to_string(), read: vec![], write: vec![] },
            RepoAcl { name: "alice/r".to_string(), read: vec!["bob".to_string()], write: vec![] },
        ],
    };
    assert!(!acl.check("alice/r", "bob", false));
    acl.grant("alice/r", "carol", false);
    assert_eq!(acl.repos[0].read, vec!["carol".to_string()]);
    assert_eq!(acl.repos[1].read, vec!["bob".to_string()]);
    acl.remove_repo("alice/r");
    assert!(acl.repos.is_empty());
}
