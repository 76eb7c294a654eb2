use giss::acl::AclFile;
use giss::client::{create_command, delete_command, grant_command, revoke_command};
use giss::shell::{
    authorize, greeting, ls_tree_entries, parse_request, repo_path, show_target, tree_ish,
    visible_repos, acl_check, GitService, ShellError, ShellRequest,
};

fn ok(user: &str, cmd: &str) -> ShellRequest {
    parse_request(user, cmd).unwrap()
}

#[test]
fn empty_command_greets() {
    assert!(matches!(ok("alice", ""), ShellRequest::Greeting));
    let g = greeting("alice");
    assert_eq!(
        g[0],
        "Hi alice! You've successfully authenticated, but gism does not provide shell access."
    );
    assert_eq!(g[1], "Run 'giss list' on your local machine to see repositories.");
}

#[test]
fn list_is_exact() {
    assert!(matches!(ok("alice", "giss-list"), ShellRequest::List));
    assert!(matches!(parse_request("alice", "giss-list now"), Err(ShellError::NotAllowed)));
}

#[test]
fn create_goes_into_namespace() {
    match ok("alice", "giss-create  proj ") {
        ShellRequest::Create { full_name } => assert_eq!(full_name, "alice/proj"),
        other => panic!("unexpected {:?}", other),
    }
    match parse_request("alice", "giss-create bad!") {
        Err(ShellError::InvalidName(m)) => assert_eq!(m, "Repo name contains invalid characters"),
        other => panic!("unexpected {:?}", other),
    }
}

#[test]
fn delete_qualifies_short_names() {
    match ok("alice", "giss-delete proj") {
        ShellRequest::Delete { full_name } => assert_eq!(full_name, "alice/proj"),
        other => panic!("unexpected {:?}", other),
    }
    match ok("alice", "giss-delete bob/proj") {
        ShellRequest::Delete { full_name } => assert_eq!(full_name, "bob/proj"),
        other => panic!("unexpected {:?}", other),
    }
}

#[test]
fn grant_and_revoke_arguments() {
    match ok("alice", "giss-grant alice/r bob --write") {
        ShellRequest::Grant { repo, user, write } => {
            assert_eq!(repo, "alice/r");
            assert_eq!(user, "bob");
            assert!(write);
        }
        other => panic!("unexpected {:?}", other),
    }
    assert!(matches!(parse_request("alice", "giss-grant alice/r"), Err(ShellError::GrantUsage)));
    assert!(matches!(parse_request("alice", "giss-revoke x"), Err(ShellError::RevokeUsage)));
    assert_eq!(
        ShellError::GrantUsage.message(),
        "Usage: giss-grant <repo> <user> [--write]"
    );
    assert_eq!(ShellError::RevokeUsage.message(), "Usage: giss-revoke <repo> <user>");
}

#[test]
fn tui_commands_split_once() {
    match ok("alice", "giss-tui-ls proj src/dir name") {
        ShellRequest::TuiLs { repo, path } => {
            assert_eq!(repo, "alice/proj");
            assert_eq!(path, "src/dir name");
        }
        other => panic!("unexpected {:?}", other),
    }
    match ok("alice", "giss-tui-show bob/x README.md") {
        ShellRequest::TuiShow { repo, path } => {
            assert_eq!(repo, "bob/x");
            assert_eq!(path, "README.md");
        }
        other => panic!("unexpected {:?}", other),
    }
    match ok("alice", "giss-tui-log  proj ") {
        ShellRequest::TuiLog { repo } => assert_eq!(repo, "alice/proj"),
        other => panic!("unexpected {:?}", other),
    }
    match ok("alice", "giss-tui-commit-show proj abc123") {
        ShellRequest::TuiCommitShow { repo, hash } => {
            assert_eq!(repo, "alice/proj");
            assert_eq!(hash, "abc123");
        }
        other => panic!("unexpected {:?}", other),
    }
    match ok("alice", "giss-tui-ls proj") {
        ShellRequest::TuiLs { path, .. } => assert_eq!(path, ""),
        other => panic!("unexpected {:?}", other),
    }
}

#[test]
fn git_commands_read_the_path() {
    match ok("alice", "git-upload-pack 'bob/repo.git'") {
        ShellRequest::Git { service, repo } => {
            assert!(matches!(service, GitService::UploadPack));
            assert_eq!(repo, "bob/repo");
        }
        other => panic!("unexpected {:?}", other),
    }
    match ok("alice", "git-receive-pack 'repo.git.git'") {
        ShellRequest::Git { service, repo } => {
            assert!(service.needs_write());
            assert_eq!(service.program(), "git-receive-pack");
            assert_eq!(repo, "alice/repo");
        }
        other => panic!("unexpected {:?}", other),
    }
    assert!(matches!(
        parse_request("alice", "git-upload-pack 'bob/../x'"),
        Err(ShellError::InvalidPath)
    ));
    assert_eq!(ShellError::InvalidPath.message(), "Invalid repository path");
}

#[test]
fn other_commands_not_allowed() {
    assert!(matches!(parse_request("alice", "bash"), Err(ShellError::NotAllowed)));
    assert!(matches!(parse_request("alice", "git-upload-pack x"), Err(ShellError::NotAllowed)));
    assert!(matches!(
        parse_request("alice", "git-upload-archive 'alice/x.git'"),
        Err(ShellError::NotAllowed)
    ));
    assert_eq!(ShellError::NotAllowed.message(), "Command not allowed");
}

#[test]
fn owners_and_readers_are_let_in() {
    let mut acl = AclFile::default();
    acl.grant("bob/x", "alice", false);
    let pull = ok("alice", "git-upload-pack 'bob/x.git'");
    assert!(authorize(&acl, "alice", &pull).is_ok());
    let push = ok("alice", "git-receive-pack 'bob/x.git'");
    assert_eq!(
        authorize(&acl, "alice", &push),
        Err("Access denied for user 'alice' to repo 'bob/x'".to_string())
    );
    let own = ok("alice", "git-receive-pack 'mine.git'");
    assert!(authorize(&acl, "alice", &own).is_ok());
    let browse = ok("carol", "giss-tui-log bob/x");
    assert_eq!(authorize(&acl, "carol", &browse), Err("Access denied".to_string()));
    let del = ok("alice", "giss-delete bob/x");
    assert_eq!(
        authorize(&acl, "alice", &del),
        Err("Access denied: you do not have write access to 'bob/x'".to_string())
    );
}

#[test]
fn managing_access_stays_in_namespace() {
    let acl = AclFile::default();
    let grant = ok("alice", "giss-grant bob/x carol");
    assert_eq!(
        authorize(&acl, "alice", &grant),
        Err("Access denied: you can only manage access for repositories in your namespace (alice/)"
            .to_string())
    );
    let mine = ok("alice", "giss-grant alice/x carol");
    assert!(authorize(&acl, "alice", &mine).is_ok());
    let self_revoke = ok("alice", "giss-revoke alice/x alice");
    assert_eq!(
        authorize(&acl, "alice", &self_revoke),
        Err("You cannot revoke your own access. Repository owners always have full access."
            .to_string())
    );
}

#[test]
fn list_shows_owned_and_shared() {
    let mut acl = AclFile::default();
    acl.grant("alice/mine", "alice", true);
    acl.grant("bob/shared", "alice", false);
    acl.grant("bob/rw", "alice", true);
    acl.grant("bob/private", "bob", true);
    assert_eq!(
        visible_repos(&acl, "alice"),
        vec!["RW alice/mine", "R  bob/shared", "RW bob/rw"]
    );
}

#[test]
fn failed_acl_load_grants_nothing() {
    let mut acl = AclFile::default();
    acl.grant("bob/x", "alice", false);
    assert!(acl_check(Some(&acl), "bob/x", "alice", false));
    assert!(!acl_check(None, "bob/x", "alice", false));
}

#[test]
fn ls_tree_output_is_condensed() {
    let out = "100644 blob abc123\tREADME.md\n040000 tree def456\tsrc\nbroken line\na\tb\tc\n";
    assert_eq!(
        ls_tree_entries(out),
        vec!["blob README.md", "tree src"]
    );
    assert_eq!(ls_tree_entries("x\ty"), vec!["blob y"]);
}

#[test]
fn paths_and_targets() {
    assert_eq!(repo_path("/home/git/repos", "alice/x"), "/home/git/repos/alice/x.git");
    assert_eq!(tree_ish(""), "HEAD");
    assert_eq!(tree_ish("src"), "HEAD:src");
    assert_eq!(show_target("a/b.rs"), "HEAD:a/b.rs");
}

#[test]
fn completion_messages() {
    assert_eq!(
        ok("alice", "giss-create x").completion_message(),
        Some("Repository 'alice/x' created".to_string())
    );
    assert_eq!(
        ok("alice", "giss-grant alice/x bob").completion_message(),
        Some("Granted read access to 'alice/x' for user 'bob'".to_string())
    );
    assert_eq!(
        ok("alice", "giss-revoke alice/x bob").completion_message(),
        Some("Revoked access to 'alice/x' for user 'bob'".to_string())
    );
    assert_eq!(ok("alice", "giss-list").completion_message(), None);
}

#[test]
fn client_commands_read_back() {
    match ok("alice", &grant_command("alice/x", "bob", true)) {
        ShellRequest::Grant { repo, user, write } => {
            assert_eq!(repo, "alice/x");
            assert_eq!(user, "bob");
            assert!(write);
        }
        other => panic!("unexpected {:?}", other),
    }
    match ok("alice", &revoke_command("alice/x", "bob")) {
        ShellRequest::Revoke { repo, user } => {
            assert_eq!(repo, "alice/x");
            assert_eq!(user, "bob");
        }
        other => panic!("unexpected {:?}", other),
    }
    match ok("alice", &create_command("proj")) {
        ShellRequest::Create { full_name } => assert_eq!(full_name, "alice/proj"),
        other => panic!("unexpected {:?}", other),
    }
    match ok("alice", &delete_command("proj")) {
        ShellRequest::Delete { full_name } => assert_eq!(full_name, "alice/proj"),
        other => panic!("unexpected {:?}", other),
    }
}

#[test]
fn dotdot_names_are_read_then_denied() {
    let mut acl = AclFile::default();
    acl.grant("bob/../alice/x", "carol", true);
    for (user, name) in [("alice", "alice/../bob/x"), ("carol", "bob/../alice/x"), ("dave", "bob/../alice/x")] {
        for cmd in ["giss-tui-ls", "giss-tui-log", "giss-tui-show", "giss-tui-commit-show"] {
            let line = format!("{} {} rest", cmd, name);
            let req = parse_request(user, &line).unwrap();
            assert_eq!(authorize(&acl, user, &req), Err("Access denied".to_string()), "{}", line);
        }
        let req = ok(user, &format!("giss-delete {}", name));
        match &req {
            ShellRequest::Delete { full_name } => assert_eq!(full_name, name),
            other => panic!("unexpected {:?}", other),
        }
        assert_eq!(
            authorize(&acl, user, &req),
            Err(format!("Access denied: you do not have write access to '{}'", name))
        );
    }
    let req = ok("alice", "giss-delete ..");
    match &req {
        ShellRequest::Delete { full_name } => assert_eq!(full_name, "alice/.."),
        other => panic!("unexpected {:?}", other),
    }
    assert_eq!(
        authorize(&acl, "alice", &req),
        Err("Access denied: you do not have write access to 'alice/..'".to_string())
    );
}
