//! The restricted shell run for every SSH login: which commands a user may
//! send, how each is read, and whether the user may run it.
//!
//! The command arrives as the text that SSH received from the client. It is
//! read into a [`ShellRequest`], then checked against the access control
//! list; only then does the caller touch the disk or start Git.

use vstd::prelude::*;
use vstd::string::StringExecFns;
use crate::acl::{after_grant, allows, lemma_grant_gives_access, AclFile, RepoAccess};
use crate::text::{
    concat, contains_char, contains_seq, contains_str, has_prefix, lines, lines_of, split_n,
    split_whitespace, splitn, vec_contains, starts_with, str_eq, strip_prefix, trim, trim_end_matches,
    trim_end_matching, trimmed, views, words,
};
use crate::validate::{name_error, validate_name};

verus! {

broadcast use vstd::string::group_string_axioms;

/// The Git programs that the shell lets a client start.
#[derive(Clone, Copy, Debug)]
pub enum GitService {
    UploadPack,
    ReceivePack,
}

/// A command read from the text that the client sent.
#[derive(Debug)]
pub enum ShellRequest {
    /// A login with no command: the user is greeted and nothing runs.
    Greeting,
    /// `giss-list`: the repositories the user can see.
    List,
    /// `giss-create <name>`: a repository in the user's namespace.
    Create { full_name: String },
    /// `giss-delete <name>`.
    Delete { full_name: String },
    /// `giss-grant <repo> <user> [--write]`.
    Grant { repo: String, user: String, write: bool },
    /// `giss-revoke <repo> <user>`.
    Revoke { repo: String, user: String },
    /// `giss-tui-ls <repo> [path]`: a directory listing.
    TuiLs { repo: String, path: String },
    /// `giss-tui-log <repo>`: the commit log.
    TuiLog { repo: String },
    /// `giss-tui-show <repo> [path]`: a file at `HEAD`.
    TuiShow { repo: String, path: String },
    /// `giss-tui-commit-show <repo> [hash]`: one commit with its diff.
    TuiCommitShow { repo: String, hash: String },
    /// `git-upload-pack` or `git-receive-pack` on a repository.
    Git { service: GitService, repo: String },
}

/// Why a command was refused before any access check.
#[derive(Debug)]
pub enum ShellError {
    /// The repository name of `giss-create` is not acceptable; the message
    /// says why.
    InvalidName(String),
    /// `giss-grant` without its two arguments.
    GrantUsage,
    /// `giss-revoke` without its two arguments.
    RevokeUsage,
    /// A command that the shell does not run.
    NotAllowed,
    /// A Git command on a path with `..` in it.
    InvalidPath,
}

/// [`ShellRequest`] as plain values.
pub enum RequestView {
    Greeting,
    List,
    Create { full_name: Seq<char> },
    Delete { full_name: Seq<char> },
    Grant { repo: Seq<char>, user: Seq<char>, write: bool },
    Revoke { repo: Seq<char>, user: Seq<char> },
    TuiLs { repo: Seq<char>, path: Seq<char> },
    TuiLog { repo: Seq<char> },
    TuiShow { repo: Seq<char>, path: Seq<char> },
    TuiCommitShow { repo: Seq<char>, hash: Seq<char> },
    Git { service: GitService, repo: Seq<char> },
}

/// [`ShellError`] as plain values.
pub enum ShellErrorView {
    InvalidName(Seq<char>),
    GrantUsage,
    RevokeUsage,
    NotAllowed,
    InvalidPath,
}

impl View for ShellRequest {
    type V = RequestView;

    open spec fn view(&self) -> RequestView {
        match self {
            ShellRequest::Greeting => RequestView::Greeting,
            ShellRequest::List => RequestView::List,
            ShellRequest::Create { full_name } => RequestView::Create { full_name: full_name@ },
            ShellRequest::Delete { full_name } => RequestView::Delete { full_name: full_name@ },
            ShellRequest::Grant { repo, user, write } => RequestView::Grant {
                repo: repo@,
                user: user@,
                write: *write,
            },
            ShellRequest::Revoke { repo, user } => RequestView::Revoke { repo: repo@, user: user@ },
            ShellRequest::TuiLs { repo, path } => RequestView::TuiLs { repo: repo@, path: path@ },
            ShellRequest::TuiLog { repo } => RequestView::TuiLog { repo: repo@ },
            ShellRequest::TuiShow { repo, path } => RequestView::TuiShow {
                repo: repo@,
                path: path@,
            },
            ShellRequest::TuiCommitShow { repo, hash } => RequestView::TuiCommitShow {
                repo: repo@,
                hash: hash@,
            },
            ShellRequest::Git { service, repo } => RequestView::Git {
                service: *service,
                repo: repo@,
            },
        }
    }
}

impl View for ShellError {
    type V = ShellErrorView;

    open spec fn view(&self) -> ShellErrorView {
        match self {
            ShellError::InvalidName(m) => ShellErrorView::InvalidName(m@),
            ShellError::GrantUsage => ShellErrorView::GrantUsage,
            ShellError::RevokeUsage => ShellErrorView::RevokeUsage,
            ShellError::NotAllowed => ShellErrorView::NotAllowed,
            ShellError::InvalidPath => ShellErrorView::InvalidPath,
        }
    }
}

/// The namespace prefix of `user`: its name and a slash.
pub open spec fn owner_prefix(user: Seq<char>) -> Seq<char> {
    user + "/"@
}

/// `repo` lies in the namespace of `user`, who owns it.
pub open spec fn is_owner(user: Seq<char>, repo: Seq<char>) -> bool {
    starts_with(repo, owner_prefix(user))
}

/// A repository name as the user gave it, put in the user's namespace where
/// it names none.
pub open spec fn qualify(user: Seq<char>, repo: Seq<char>) -> Seq<char> {
    if repo.contains('/') {
        repo
    } else {
        owner_prefix(user) + repo
    }
}

/// The text after `prefix` in `cmd`.
pub open spec fn after(cmd: Seq<char>, prefix: Seq<char>) -> Seq<char> {
    cmd.skip(prefix.len() as int)
}

/// The repository and the optional second argument, split at the first space.
pub open spec fn repo_and_rest(user: Seq<char>, args: Seq<char>) -> (Seq<char>, Seq<char>) {
    let parts = splitn(args, 2, ' ');
    (qualify(user, parts[0]), if parts.len() > 1 {
        parts[1]
    } else {
        seq![]
    })
}

/// How a Git command's quoted path is read: the quote and any `.git`
/// endings dropped, the name qualified, and paths with `..` refused.
pub open spec fn git_request(user: Seq<char>, service: GitService, quoted: Seq<char>) -> Result<
    RequestView,
    ShellErrorView,
> {
    let path = trim_end_matches(quoted, "'"@);
    let name = qualify(user, trim_end_matches(path, ".git"@));
    if contains_seq(name, ".."@) {
        Err(ShellErrorView::InvalidPath)
    } else {
        Ok(RequestView::Git { service, repo: name })
    }
}

/// How the shell reads the command `cmd` sent by `user`. The prefixes are
/// tried in this order.
pub open spec fn read_request(user: Seq<char>, cmd: Seq<char>) -> Result<RequestView, ShellErrorView> {
    if cmd.len() == 0 {
        Ok(RequestView::Greeting)
    } else if cmd == "giss-list"@ {
        Ok(RequestView::List)
    } else if starts_with(cmd, "giss-create "@) {
        let full = owner_prefix(user) + trimmed(after(cmd, "giss-create "@));
        match name_error(full, "Repo"@) {
            Some(e) => Err(ShellErrorView::InvalidName(e)),
            None => Ok(RequestView::Create { full_name: full }),
        }
    } else if starts_with(cmd, "giss-delete "@) {
        let full = qualify(user, trimmed(after(cmd, "giss-delete "@)));
        Ok(RequestView::Delete { full_name: full })
    } else if starts_with(cmd, "giss-grant "@) {
        let parts = words(after(cmd, "giss-grant "@));
        if parts.len() < 2 {
            Err(ShellErrorView::GrantUsage)
        } else {
            Ok(RequestView::Grant { repo: parts[0], user: parts[1], write: parts.contains("--write"@) })
        }
    } else if starts_with(cmd, "giss-revoke "@) {
        let parts = words(after(cmd, "giss-revoke "@));
        if parts.len() < 2 {
            Err(ShellErrorView::RevokeUsage)
        } else {
            Ok(RequestView::Revoke { repo: parts[0], user: parts[1] })
        }
    } else if starts_with(cmd, "giss-tui-ls "@) {
        let (repo, path) = repo_and_rest(user, after(cmd, "giss-tui-ls "@));
        Ok(RequestView::TuiLs { repo, path })
    } else if starts_with(cmd, "giss-tui-log "@) {
        let repo = qualify(user, trimmed(after(cmd, "giss-tui-log "@)));
        Ok(RequestView::TuiLog { repo })
    } else if starts_with(cmd, "giss-tui-show "@) {
        let (repo, path) = repo_and_rest(user, after(cmd, "giss-tui-show "@));
        Ok(RequestView::TuiShow { repo, path })
    } else if starts_with(cmd, "giss-tui-commit-show "@) {
        let (repo, hash) = repo_and_rest(user, after(cmd, "giss-tui-commit-show "@));
        Ok(RequestView::TuiCommitShow { repo, hash })
    } else if starts_with(cmd, "git-upload-pack '"@) {
        git_request(user, GitService::UploadPack, after(cmd, "git-upload-pack '"@))
    } else if starts_with(cmd, "git-receive-pack '"@) {
        git_request(user, GitService::ReceivePack, after(cmd, "git-receive-pack '"@))
    } else {
        Err(ShellErrorView::NotAllowed)
    }
}

/// Why `user` may not run `req` under the access list `acl`, as the message
/// the shell prints, or `None` where the user may run it. Deleting and
/// browsing a repository whose name holds `..` is refused to everyone, its
/// owner too, as the lack of access is: such a name could leave the
/// namespace.
pub open spec fn denial(acl: Seq<RepoAccess>, user: Seq<char>, req: RequestView) -> Option<Seq<char>> {
    match req {
        RequestView::Delete { full_name } => if contains_seq(full_name, ".."@) || (!is_owner(
            user,
            full_name,
        ) && !allows(acl, full_name, user, true)) {
            Some("Access denied: you do not have write access to '"@ + full_name + "'"@)
        } else {
            None
        },
        RequestView::Grant { repo, .. } => if !is_owner(user, repo) {
            Some(namespace_denial(user))
        } else {
            None
        },
        RequestView::Revoke { repo, user: target } => if !is_owner(user, repo) {
            Some(namespace_denial(user))
        } else if target == user {
            Some(
                "You cannot revoke your own access. Repository owners always have full access."@,
            )
        } else {
            None
        },
        RequestView::TuiLs { repo, .. } => tui_denial(acl, user, repo),
        RequestView::TuiLog { repo } => tui_denial(acl, user, repo),
        RequestView::TuiShow { repo, .. } => tui_denial(acl, user, repo),
        RequestView::TuiCommitShow { repo, .. } => tui_denial(acl, user, repo),
        RequestView::Git { service, repo } => if !is_owner(user, repo) && !allows(
            acl,
            repo,
            user,
            service == GitService::ReceivePack,
        ) {
            Some("Access denied for user '"@ + user + "' to repo '"@ + repo + "'"@)
        } else {
            None
        },
        _ => None,
    }
}

/// The refusal of a grant or revocation outside the user's namespace.
pub open spec fn namespace_denial(user: Seq<char>) -> Seq<char> {
    "Access denied: you can only manage access for repositories in your namespace ("@
        + owner_prefix(user) + ")"@
}

/// The refusal of a browsing command: owners and readers may browse, under
/// a name without `..`.
pub open spec fn tui_denial(acl: Seq<RepoAccess>, user: Seq<char>, repo: Seq<char>) -> Option<
    Seq<char>,
> {
    if contains_seq(repo, ".."@) || (!is_owner(user, repo) && !allows(acl, repo, user, false)) {
        Some("Access denied"@)
    } else {
        None
    }
}

/// The line that `giss-list` prints for the record `r`, where `user` sees it:
/// `RW` for owners and writers, `R ` for readers.
pub open spec fn listing_line(r: RepoAccess, user: Seq<char>) -> Option<Seq<char>> {
    if is_owner(user, r.name) || r.read.contains(user) || r.write.contains(user) {
        let rw = is_owner(user, r.name) || r.write.contains(user);
        Some(
            (if rw {
                "RW"@
            } else {
                "R "@
            }) + " "@ + r.name,
        )
    } else {
        None
    }
}

/// The lines that `giss-list` prints, one per visible record, in order.
pub open spec fn listing(acl: Seq<RepoAccess>, user: Seq<char>) -> Seq<Seq<char>>
    decreases acl.len(),
{
    if acl.len() == 0 {
        seq![]
    } else {
        let before = listing(acl.drop_last(), user);
        match listing_line(acl.last(), user) {
            Some(l) => before.push(l),
            None => before,
        }
    }
}

/// One line of `git ls-tree` output as the browser is sent it: the object
/// type and the name, where the line has the shape `<meta>\t<name>`.
pub open spec fn ls_tree_line(line: Seq<char>) -> Option<Seq<char>> {
    let parts = splitn(line, 4, '\t');
    if parts.len() == 2 {
        let meta = words(parts[0]);
        let typ = if meta.len() > 1 {
            meta[1]
        } else {
            "blob"@
        };
        Some(typ + " "@ + parts[1])
    } else {
        None
    }
}

/// What the browser is sent for the `git ls-tree` output `lines`.
pub open spec fn ls_tree_listing(lines: Seq<Seq<char>>) -> Seq<Seq<char>>
    decreases lines.len(),
{
    if lines.len() == 0 {
        seq![]
    } else {
        let before = ls_tree_listing(lines.drop_last());
        match ls_tree_line(lines.last()) {
            Some(l) => before.push(l),
            None => before,
        }
    }
}

/// `cmd` with `prefix` removed, where it starts with `prefix`.
fn after_prefix(cmd: &str, prefix: &str) -> (r: Option<String>)
    ensures
        r is Some <==> starts_with(cmd@, prefix@),
        r matches Some(t) ==> t@ == after(cmd@, prefix@),
{
    strip_prefix(cmd, prefix)
}

/// `repo` put in the namespace of `user` where it names none.
pub fn qualify_repo(user: &str, repo: &str) -> (r: String)
    ensures
        r@ == qualify(user@, repo@),
{
    if contains_char(repo, '/') {
        String::from_str(repo)
    } else {
        let p = concat(user, "/");
        concat(p.as_str(), repo)
    }
}

fn split_repo_and_rest(user: &str, args: &str) -> (r: (String, String))
    ensures
        (r.0@, r.1@) == repo_and_rest(user@, args@),
{
    let parts = split_n(args, 2, ' ');
    proof {
        assert(views(parts@).len() == parts@.len());
        assert(views(parts@)[0] == parts@[0]@);
        if parts@.len() > 1 {
            assert(views(parts@)[1] == parts@[1]@);
        }
        lemma_splitn_nonempty(args@, 2, ' ');
    }
    let repo = qualify_repo(user, parts[0].as_str());
    let rest = if parts.len() > 1 {
        String::from_str(parts[1].as_str())
    } else {
        String::new()
    };
    (repo, rest)
}

proof fn lemma_splitn_nonempty(s: Seq<char>, n: nat, c: char)
    ensures
        splitn(s, n, c).len() >= 1,
    decreases n,
{
    if n > 1 && s.contains(c) {
        let i = crate::text::first_index(s, c);
        lemma_splitn_nonempty(s.skip(i + 1), (n - 1) as nat, c);
    }
}

fn read_git(user: &str, service: GitService, quoted: &str) -> (r: Result<ShellRequest, ShellError>)
    ensures
        match r {
            Ok(q) => git_request(user@, service, quoted@) == Ok::<RequestView, ShellErrorView>(q@),
            Err(e) => git_request(user@, service, quoted@) == Err::<RequestView, ShellErrorView>(
                e@,
            ),
        },
{
    let path = trim_end_matching(quoted, "'");
    let bare = trim_end_matching(path.as_str(), ".git");
    let name = qualify_repo(user, bare.as_str());
    if contains_str(name.as_str(), "..") {
        Err(ShellError::InvalidPath)
    } else {
        Ok(ShellRequest::Git { service, repo: name })
    }
}

/// Reads the command `cmd` that `user` sent over SSH.
pub fn parse_request(user: &str, cmd: &str) -> (r: Result<ShellRequest, ShellError>)
    ensures
        match r {
            Ok(q) => read_request(user@, cmd@) == Ok::<RequestView, ShellErrorView>(q@),
            Err(e) => read_request(user@, cmd@) == Err::<RequestView, ShellErrorView>(e@),
        },
{
    if cmd.is_empty() {
        return Ok(ShellRequest::Greeting);
    }
    if str_eq(cmd, "giss-list") {
        return Ok(ShellRequest::List);
    }
    if let Some(args) = after_prefix(cmd, "giss-create ") {
        let name = trim(args.as_str());
        let p = concat(user, "/");
        let full = concat(p.as_str(), name.as_str());
        return match validate_name(full.as_str(), "Repo") {
            Ok(()) => Ok(ShellRequest::Create { full_name: full }),
            Err(e) => Err(ShellError::InvalidName(e)),
        };
    }
    if let Some(args) = after_prefix(cmd, "giss-delete ") {
        let name = trim(args.as_str());
        let full = qualify_repo(user, name.as_str());
        return Ok(ShellRequest::Delete { full_name: full });
    }
    if let Some(args) = after_prefix(cmd, "giss-grant ") {
        let parts = split_whitespace(args.as_str());
        if parts.len() < 2 {
            return Err(ShellError::GrantUsage);
        }
        let write = vec_contains(&parts, "--write");
        proof {
            assert(views(parts@)[0] == parts@[0]@);
            assert(views(parts@)[1] == parts@[1]@);
        }
        return Ok(
            ShellRequest::Grant {
                repo: String::from_str(parts[0].as_str()),
                user: String::from_str(parts[1].as_str()),
                write,
            },
        );
    }
    if let Some(args) = after_prefix(cmd, "giss-revoke ") {
        let parts = split_whitespace(args.as_str());
        if parts.len() < 2 {
            return Err(ShellError::RevokeUsage);
        }
        proof {
            assert(views(parts@)[0] == parts@[0]@);
            assert(views(parts@)[1] == parts@[1]@);
        }
        return Ok(
            ShellRequest::Revoke {
                repo: String::from_str(parts[0].as_str()),
                user: String::from_str(parts[1].as_str()),
            },
        );
    }
    if let Some(args) = after_prefix(cmd, "giss-tui-ls ") {
        let (repo, path) = split_repo_and_rest(user, args.as_str());
        return Ok(ShellRequest::TuiLs { repo, path });
    }
    if let Some(args) = after_prefix(cmd, "giss-tui-log ") {
        let name = trim(args.as_str());
        let repo = qualify_repo(user, name.as_str());
        return Ok(ShellRequest::TuiLog { repo });
    }
    if let Some(args) = after_prefix(cmd, "giss-tui-show ") {
        let (repo, path) = split_repo_and_rest(user, args.as_str());
        return Ok(ShellRequest::TuiShow { repo, path });
    }
    if let Some(args) = after_prefix(cmd, "giss-tui-commit-show ") {
        let (repo, hash) = split_repo_and_rest(user, args.as_str());
        return Ok(ShellRequest::TuiCommitShow { repo, hash });
    }
    if let Some(args) = after_prefix(cmd, "git-upload-pack '") {
        return read_git(user, GitService::UploadPack, args.as_str());
    }
    if let Some(args) = after_prefix(cmd, "git-receive-pack '") {
        return read_git(user, GitService::ReceivePack, args.as_str());
    }
    Err(ShellError::NotAllowed)
}



/// Whether `repo` lies in the namespace of `user`.
pub fn owns(user: &str, repo: &str) -> (r: bool)
    ensures
        r == is_owner(user@, repo@),
{
    let p = concat(user, "/");
    has_prefix(repo, p.as_str())
}

fn tui_check(acl: &AclFile, user: &str, repo: &str) -> (r: Result<(), String>)
    ensures
        r is Ok <==> tui_denial(acl@, user@, repo@) is None,
        r matches Err(m) ==> tui_denial(acl@, user@, repo@) == Some(m@),
{
    if contains_str(repo, "..") || (!owns(user, repo) && !acl.check(repo, user, false)) {
        Err(String::from_str("Access denied"))
    } else {
        Ok(())
    }
}

fn namespace_message(user: &str) -> (r: String)
    ensures
        r@ == namespace_denial(user@),
{
    let p = concat(user, "/");
    let a = concat(
        "Access denied: you can only manage access for repositories in your namespace (",
        p.as_str(),
    );
    concat(a.as_str(), ")")
}

/// Decides whether `user` may run `req` under the access list `acl`; where
/// not, the error is the message that the shell prints before it exits.
pub fn authorize(acl: &AclFile, user: &str, req: &ShellRequest) -> (r: Result<(), String>)
    ensures
        r is Ok <==> denial(acl@, user@, req@) is None,
        r matches Err(m) ==> denial(acl@, user@, req@) == Some(m@),
{
    match req {
        ShellRequest::Delete { full_name } => {
            if contains_str(full_name.as_str(), "..") || (!owns(user, full_name.as_str())
                && !acl.check(full_name.as_str(), user, true)) {
                let a = concat("Access denied: you do not have write access to '", full_name.as_str());
                Err(concat(a.as_str(), "'"))
            } else {
                Ok(())
            }
        },
        ShellRequest::Grant { repo, .. } => {
            if !owns(user, repo.as_str()) {
                Err(namespace_message(user))
            } else {
                Ok(())
            }
        },
        ShellRequest::Revoke { repo, user: target } => {
            if !owns(user, repo.as_str()) {
                Err(namespace_message(user))
            } else if str_eq(target.as_str(), user) {
                Err(
                    String::from_str(
                        "You cannot revoke your own access. Repository owners always have full access.",
                    ),
                )
            } else {
                Ok(())
            }
        },
        ShellRequest::TuiLs { repo, .. } => tui_check(acl, user, repo.as_str()),
        ShellRequest::TuiLog { repo } => tui_check(acl, user, repo.as_str()),
        ShellRequest::TuiShow { repo, .. } => tui_check(acl, user, repo.as_str()),
        ShellRequest::TuiCommitShow { repo, .. } => tui_check(acl, user, repo.as_str()),
        ShellRequest::Git { service, repo } => {
            let needs_write = match service {
                GitService::ReceivePack => true,
                _ => false,
            };
            if !owns(user, repo.as_str()) && !acl.check(repo.as_str(), user, needs_write) {
                let a = concat("Access denied for user '", user);
                let b = concat(a.as_str(), "' to repo '");
                let c = concat(b.as_str(), repo.as_str());
                Err(concat(c.as_str(), "'"))
            } else {
                Ok(())
            }
        },
        _ => Ok(()),
    }
}

/// Whether `user` may read `repo` under the access list that was loaded,
/// where one was: a list that could not be loaded grants nothing.
pub fn acl_check(loaded: Option<&AclFile>, repo: &str, user: &str, write: bool) -> (r: bool)
    ensures
        r == match loaded {
            Some(acl) => allows(acl@, repo@, user@, write),
            None => false,
        },
{
    match loaded {
        Some(acl) => acl.check(repo, user, write),
        None => false,
    }
}

/// The lines that `giss-list` prints for `user`.
pub fn visible_repos(acl: &AclFile, user: &str) -> (r: Vec<String>)
    ensures
        views(r@) == listing(acl@, user@),
{
    let n = acl.repos.len();
    let mut out: Vec<String> = Vec::new();
    for i in 0..n
        invariant
            n == acl.repos@.len(),
            views(out@) == listing(acl@.take(i as int), user@),
    {
        let r = &acl.repos[i];
        proof {
            assert(acl@.take(i + 1).drop_last() =~= acl@.take(i as int));
            assert(acl@.take(i + 1).last() == r@);
        }
        let owner = owns(user, r.name.as_str());
        let reads = vec_contains(&r.read, user);
        let writes = vec_contains(&r.write, user);
        if owner || reads || writes {
            let access = if owner || writes {
                "RW"
            } else {
                "R "
            };
            let a = concat(access, " ");
            let line = concat(a.as_str(), r.name.as_str());
            let ghost before = out@;
            out.push(line);
            assert(views(out@) =~= views(before).push(line@));
        }
    }
    assert(acl@.take(n as int) =~= acl@);
    out
}

/// What the browser is sent for the `git ls-tree` output `stdout`: one
/// `<type> <name>` line per entry.
pub fn ls_tree_entries(stdout: &str) -> (r: Vec<String>)
    ensures
        views(r@) == ls_tree_listing(lines(stdout@)),
{
    let ls = lines_of(stdout);
    let n = ls.len();
    let ghost all = views(ls@);
    let mut out: Vec<String> = Vec::new();
    for i in 0..n
        invariant
            n == ls@.len(),
            all == views(ls@),
            all == lines(stdout@),
            views(out@) == ls_tree_listing(all.take(i as int)),
    {
        proof {
            assert(all.take(i + 1).drop_last() =~= all.take(i as int));
            assert(all.take(i + 1).last() == ls@[i as int]@);
        }
        let parts = split_n(ls[i].as_str(), 4, '\t');
        if parts.len() == 2 {
            proof {
                assert(views(parts@)[0] == parts@[0]@);
                assert(views(parts@)[1] == parts@[1]@);
            }
            let meta = split_whitespace(parts[0].as_str());
            let a = if meta.len() > 1 {
                proof {
                    assert(views(meta@)[1] == meta@[1]@);
                }
                concat(meta[1].as_str(), " ")
            } else {
                concat("blob", " ")
            };
            let line = concat(a.as_str(), parts[1].as_str());
            let ghost before = out@;
            out.push(line);
            assert(views(out@) =~= views(before).push(line@));
        }
    }
    assert(all.take(n as int) =~= all);
    out
}

/// The path of the bare repository `name` under the directory `base`.
pub fn repo_path(base: &str, name: &str) -> (r: String)
    ensures
        r@ == base@ + "/"@ + name@ + ".git"@,
{
    let a = concat(base, "/");
    let b = concat(a.as_str(), name);
    concat(b.as_str(), ".git")
}

/// The tree that `giss-tui-ls` lists: `HEAD` itself for the top, else the
/// path inside `HEAD`.
pub fn tree_ish(path: &str) -> (r: String)
    ensures
        r@ == if path@.len() == 0 {
            "HEAD"@
        } else {
            "HEAD:"@ + path@
        },
{
    if path.is_empty() {
        String::from_str("HEAD")
    } else {
        concat("HEAD:", path)
    }
}

/// The object that `giss-tui-show` prints: the file `path` at `HEAD`.
pub fn show_target(path: &str) -> (r: String)
    ensures
        r@ == "HEAD:"@ + path@,
{
    concat("HEAD:", path)
}

/// The two lines printed to a user who logs in without a command.
pub fn greeting(user: &str) -> (r: Vec<String>)
    ensures
        views(r@) == seq![
            "Hi "@ + user@ + "! You've successfully authenticated, but gism does not provide shell access."@,
            "Run 'giss list' on your local machine to see repositories."@,
        ],
{
    let a = concat("Hi ", user);
    let first = concat(
        a.as_str(),
        "! You've successfully authenticated, but gism does not provide shell access.",
    );
    let second = String::from_str("Run 'giss list' on your local machine to see repositories.");
    let mut r: Vec<String> = Vec::new();
    r.push(first);
    r.push(second);
    assert(views(r@) =~= seq![first@, second@]);
    r
}

impl GitService {
    /// The Git program that serves the request.
    pub fn program(&self) -> (r: String)
        ensures
            r@ == match self {
                GitService::UploadPack => "git-upload-pack"@,
                GitService::ReceivePack => "git-receive-pack"@,
            },
    {
        match self {
            GitService::UploadPack => String::from_str("git-upload-pack"),
            GitService::ReceivePack => String::from_str("git-receive-pack"),
        }
    }

    /// Whether the service changes the repository.
    pub fn needs_write(&self) -> (r: bool)
        ensures
            r == (*self == GitService::ReceivePack),
    {
        match self {
            GitService::ReceivePack => true,
            _ => false,
        }
    }
}

impl ShellError {
    /// The message that the shell fails with.
    pub fn message(&self) -> (r: String)
        ensures
            r@ == match self@ {
                ShellErrorView::InvalidName(m) => m,
                ShellErrorView::GrantUsage => "Usage: giss-grant <repo> <user> [--write]"@,
                ShellErrorView::RevokeUsage => "Usage: giss-revoke <repo> <user>"@,
                ShellErrorView::NotAllowed => "Command not allowed"@,
                ShellErrorView::InvalidPath => "Invalid repository path"@,
            },
    {
        match self {
            ShellError::InvalidName(m) => String::from_str(m.as_str()),
            ShellError::GrantUsage => String::from_str("Usage: giss-grant <repo> <user> [--write]"),
            ShellError::RevokeUsage => String::from_str("Usage: giss-revoke <repo> <user>"),
            ShellError::NotAllowed => String::from_str("Command not allowed"),
            ShellError::InvalidPath => String::from_str("Invalid repository path"),
        }
    }
}

/// The line printed once a changing command has been carried out.
pub open spec fn completion(req: RequestView) -> Option<Seq<char>> {
    match req {
        RequestView::Create { full_name } => Some("Repository '"@ + full_name + "' created"@),
        RequestView::Delete { full_name } => Some("Repository '"@ + full_name + "' deleted"@),
        RequestView::Grant { repo, user, write } => Some(
            "Granted "@ + (if write {
                "write"@
            } else {
                "read"@
            }) + " access to '"@ + repo + "' for user '"@ + user + "'"@,
        ),
        RequestView::Revoke { repo, user } => Some(
            "Revoked access to '"@ + repo + "' for user '"@ + user + "'"@,
        ),
        _ => None,
    }
}

impl ShellRequest {
    /// The line printed once the request has been carried out, for the
    /// requests that change something.
    pub fn completion_message(&self) -> (r: Option<String>)
        ensures
            r is Some <==> completion(self@) is Some,
            r matches Some(m) ==> completion(self@) == Some(m@),
    {
        match self {
            ShellRequest::Create { full_name } => {
                let a = concat("Repository '", full_name.as_str());
                Some(concat(a.as_str(), "' created"))
            },
            ShellRequest::Delete { full_name } => {
                let a = concat("Repository '", full_name.as_str());
                Some(concat(a.as_str(), "' deleted"))
            },
            ShellRequest::Grant { repo, user, write } => {
                let kind = if *write {
                    "write"
                } else {
                    "read"
                };
                let a = concat("Granted ", kind);
                let b = concat(a.as_str(), " access to '");
                let c = concat(b.as_str(), repo.as_str());
                let d = concat(c.as_str(), "' for user '");
                let e = concat(d.as_str(), user.as_str());
                Some(concat(e.as_str(), "'"))
            },
            ShellRequest::Revoke { repo, user } => {
                let a = concat("Revoked access to '", repo.as_str());
                let b = concat(a.as_str(), "' for user '");
                let c = concat(b.as_str(), user.as_str());
                Some(concat(c.as_str(), "'"))
            },
            _ => None,
        }
    }
}


/// `cmd` has the shape of one of the commands that the shell runs.
pub open spec fn known_command(cmd: Seq<char>) -> bool {
    ||| cmd.len() == 0
    ||| cmd == "giss-list"@
    ||| starts_with(cmd, "giss-create "@)
    ||| starts_with(cmd, "giss-delete "@)
    ||| starts_with(cmd, "giss-grant "@)
    ||| starts_with(cmd, "giss-revoke "@)
    ||| starts_with(cmd, "giss-tui-ls "@)
    ||| starts_with(cmd, "giss-tui-log "@)
    ||| starts_with(cmd, "giss-tui-show "@)
    ||| starts_with(cmd, "giss-tui-commit-show "@)
    ||| starts_with(cmd, "git-upload-pack '"@)
    ||| starts_with(cmd, "git-receive-pack '"@)
}

/// The shell runs no command but its own and the three Git services:
/// anything else is refused as not allowed.
pub proof fn lemma_only_known_commands(user: Seq<char>, cmd: Seq<char>)
    ensures
        !known_command(cmd) ==> read_request(user, cmd) == Err::<RequestView, ShellErrorView>(
            ShellErrorView::NotAllowed,
        ),
        read_request(user, cmd) is Ok ==> known_command(cmd),
{
}

/// The repository that a request names.
pub open spec fn named_repo(req: RequestView) -> Option<Seq<char>> {
    match req {
        RequestView::Create { full_name } => Some(full_name),
        RequestView::Delete { full_name } => Some(full_name),
        RequestView::Grant { repo, .. } => Some(repo),
        RequestView::Revoke { repo, .. } => Some(repo),
        RequestView::TuiLs { repo, .. } => Some(repo),
        RequestView::TuiLog { repo } => Some(repo),
        RequestView::TuiShow { repo, .. } => Some(repo),
        RequestView::TuiCommitShow { repo, .. } => Some(repo),
        RequestView::Git { repo, .. } => Some(repo),
        _ => None,
    }
}

/// No command that touches a repository's files and is let through reaches
/// one whose name holds `..`: creation, deletion, browsing and Git. (Grants
/// and revocations only edit the access list.)
pub proof fn lemma_paths_confined(acl: Seq<RepoAccess>, user: Seq<char>, cmd: Seq<char>)
    ensures
        read_request(user, cmd) matches Ok(req) ==> (denial(acl, user, req) is None ==> match req {
            RequestView::Grant { .. } => true,
            RequestView::Revoke { .. } => true,
            _ => named_repo(req) matches Some(repo) ==> !contains_seq(repo, ".."@),
        }),
{
}

/// A created repository lies in the creator's namespace and has a valid
/// name.
pub proof fn lemma_create_in_namespace(user: Seq<char>, cmd: Seq<char>)
    ensures
        read_request(user, cmd) matches Ok(RequestView::Create { full_name }) ==> is_owner(
            user,
            full_name,
        ) && name_error(full_name, "Repo"@) is None,
{
    if let Ok(RequestView::Create { full_name }) = read_request(user, cmd) {
        let rest = trimmed(after(cmd, "giss-create "@));
        assert(full_name == owner_prefix(user) + rest);
        assert(full_name.take(owner_prefix(user).len() as int) =~= owner_prefix(user));
    }
}

/// Users grant and revoke access only to repositories in their own
/// namespace.
pub proof fn lemma_manage_only_own_namespace(acl: Seq<RepoAccess>, user: Seq<char>, req: RequestView)
    ensures
        denial(acl, user, req) is None ==> match req {
            RequestView::Grant { repo, .. } => is_owner(user, repo),
            RequestView::Revoke { repo, .. } => is_owner(user, repo),
            _ => true,
        },
{
}

/// Nobody revokes their own access.
pub proof fn lemma_cannot_revoke_self(acl: Seq<RepoAccess>, user: Seq<char>, repo: Seq<char>)
    ensures
        denial(acl, user, RequestView::Revoke { repo, user }) is Some,
{
}

/// Owners always reach their repositories: to delete and to browse under a
/// name without `..`, and through Git.
pub proof fn lemma_owner_has_access(acl: Seq<RepoAccess>, user: Seq<char>, req: RequestView)
    ensures
        match req {
            RequestView::Delete { full_name } => is_owner(user, full_name) && !contains_seq(full_name, ".."@) ==> denial(
                acl,
                user,
                req,
            ) is None,
            RequestView::TuiLs { repo, .. } => is_owner(user, repo) && !contains_seq(repo, ".."@) ==> denial(acl, user, req) is None,
            RequestView::TuiLog { repo } => is_owner(user, repo) && !contains_seq(repo, ".."@) ==> denial(acl, user, req) is None,
            RequestView::TuiShow { repo, .. } => is_owner(user, repo) && !contains_seq(repo, ".."@) ==> denial(
                acl,
                user,
                req,
            ) is None,
            RequestView::TuiCommitShow { repo, .. } => is_owner(user, repo) && !contains_seq(repo, ".."@) ==> denial(
                acl,
                user,
                req,
            ) is None,
            RequestView::Git { repo, .. } => is_owner(user, repo) ==> denial(acl, user, req) is None,
            _ => true,
        },
{
}

/// Outside their namespace, users browse a repository (list its files, read
/// its log, show a file or a commit) exactly when the access list lets them
/// read it: read access is enough, write access is not asked for.
pub proof fn lemma_browse_follows_acl(
    acl: Seq<RepoAccess>,
    user: Seq<char>,
    repo: Seq<char>,
    path: Seq<char>,
    hash: Seq<char>,
)
    requires
        !is_owner(user, repo),
        !contains_seq(repo, ".."@),
    ensures
        denial(acl, user, RequestView::TuiLs { repo, path }) is None <==> allows(acl, repo, user, false),
        denial(acl, user, RequestView::TuiLog { repo }) is None <==> allows(acl, repo, user, false),
        denial(acl, user, RequestView::TuiShow { repo, path }) is None <==> allows(acl, repo, user, false),
        denial(acl, user, RequestView::TuiCommitShow { repo, hash }) is None <==> allows(
            acl,
            repo,
            user,
            false,
        ),
        denial(acl, user, RequestView::TuiLog { repo }) is Some ==> denial(
            acl,
            user,
            RequestView::TuiLog { repo },
        ) == Some("Access denied"@),
{
}

/// Once `user` has been granted read access to `repo`, a name without `..`,
/// they may browse it, whatever the list held before.
pub proof fn lemma_read_grant_lets_browse(
    acl: Seq<RepoAccess>,
    user: Seq<char>,
    repo: Seq<char>,
    path: Seq<char>,
)
    requires
        !contains_seq(repo, ".."@),
    ensures
        denial(after_grant(acl, repo, user, false), user, RequestView::TuiLs { repo, path }) is None,
        denial(after_grant(acl, repo, user, false), user, RequestView::TuiLog { repo }) is None,
        denial(after_grant(acl, repo, user, false), user, RequestView::TuiShow { repo, path }) is None,
        denial(after_grant(acl, repo, user, false), user, RequestView::TuiCommitShow { repo, hash: path })
            is None,
{
    lemma_grant_gives_access(acl, repo, user, false);
}

/// Outside their namespace, users run Git exactly as the access list
/// allows: pushing needs write access, fetching needs read access.
pub proof fn lemma_git_follows_acl(
    acl: Seq<RepoAccess>,
    user: Seq<char>,
    service: GitService,
    repo: Seq<char>,
)
    requires
        !is_owner(user, repo),
    ensures
        denial(acl, user, RequestView::Git { service, repo }) is None <==> allows(
            acl,
            repo,
            user,
            service == GitService::ReceivePack,
        ),
{
}


/// The lines of `giss-list` are exactly the lines of the records that the
/// user sees.
pub proof fn lemma_listing_members(acl: Seq<RepoAccess>, user: Seq<char>, line: Seq<char>)
    ensures
        listing(acl, user).contains(line) <==> exists|i: int|
            0 <= i < acl.len() && #[trigger] listing_line(acl[i], user) == Some(line),
    decreases acl.len(),
{
    if acl.len() > 0 {
        let a = acl.drop_last();
        lemma_listing_members(a, user, line);
        let before = listing(a, user);
        if listing(acl, user).contains(line) {
            if before.contains(line) {
                let i = choose|i: int| 0 <= i < a.len() && #[trigger] listing_line(a[i], user) == Some(line);
                assert(acl[i] == a[i]);
            } else {
                let k = choose|k: int| 0 <= k < listing(acl, user).len() && listing(acl, user)[k] == line;
                assert(listing_line(acl[acl.len() - 1], user) == Some(line));
            }
        }
        if exists|i: int| 0 <= i < acl.len() && #[trigger] listing_line(acl[i], user) == Some(line) {
            let i = choose|i: int| 0 <= i < acl.len() && #[trigger] listing_line(acl[i], user) == Some(line);
            if i < a.len() {
                assert(a[i] == acl[i]);
                assert(before.contains(line));
                let k = choose|k: int| 0 <= k < before.len() && before[k] == line;
                match listing_line(acl.last(), user) {
                    Some(l) => {
                        assert(listing(acl, user) == before.push(l));
                        assert(listing(acl, user)[k] == line);
                    },
                    None => {},
                }
            } else {
                assert(listing(acl, user) == before.push(line));
                assert(listing(acl, user)[before.len() as int] == line);
            }
        }
    }
}

/// Where repository names are unique, `giss-list` shows a repository to its
/// owner and to those who may read it, and marks it `RW` for its owner and
/// those who may write it.
pub proof fn lemma_listing_follows_access(acl: Seq<RepoAccess>, user: Seq<char>, i: int)
    requires
        0 <= i < acl.len(),
        forall|j: int, k: int|
            0 <= j < acl.len() && 0 <= k < acl.len() && j != k ==> (#[trigger] acl[j]).name
                != (#[trigger] acl[k]).name,
    ensures
        listing_line(acl[i], user) is Some <==> is_owner(user, acl[i].name) || allows(
            acl,
            acl[i].name,
            user,
            false,
        ),
        listing_line(acl[i], user) is Some ==> (listing_line(acl[i], user)->0 == "RW"@ + " "@
            + acl[i].name <==> is_owner(user, acl[i].name) || allows(acl, acl[i].name, user, true)),
{
    reveal_strlit("RW");
    reveal_strlit("R ");
    let name = acl[i].name;
    assert(crate::acl::is_first_repo(acl, name, i));
    crate::acl::lemma_find_repo(acl, name, i);
    let rw = "RW"@ + " "@ + name;
    let ro = "R "@ + " "@ + name;
    assert(rw[1] == 'W');
    assert(ro[1] == ' ');
    assert(rw != ro);
}

} // verus!
