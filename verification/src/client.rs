//! The client side: its configuration and the commands it sends to the
//! server over SSH.

use vstd::prelude::*;
use vstd::string::StringExecFns;
use crate::text::{concat, has_prefix, starts_with, substring};

verus! {

broadcast use vstd::string::group_string_axioms;

/// The client's configuration: the SSH destination of the server, such as
/// `git@host`.
#[derive(Debug, Clone)]
pub struct ClientConfig {
    pub host: String,
}

/// `path` with a leading `~/` replaced by the home directory, where one is
/// known.
pub open spec fn tilde_expanded(path: Seq<char>, home: Option<Seq<char>>) -> Seq<char> {
    if starts_with(path, "~/"@) && home is Some {
        home->0 + "/"@ + path.skip(2)
    } else {
        path
    }
}

/// Expands a leading `~/` in `path` to the home directory `home`.
pub fn expand_tilde(path: &str, home: Option<&str>) -> (r: String)
    ensures
        r@ == tilde_expanded(path@, match home {
            Some(h) => Some(h@),
            None => None,
        }),
{
    proof {
        reveal_strlit("~/");
    }
    if has_prefix(path, "~/") {
        if let Some(h) = home {
            let a = concat(h, "/");
            let n = path.unicode_len();
            let rest = substring(path, 2, n);
            return concat(a.as_str(), rest.as_str());
        }
    }
    String::from_str(path)
}

/// The command that asks the server for the repositories the user sees.
pub fn list_command() -> (r: String)
    ensures
        r@ == "giss-list"@,
{
    String::from_str("giss-list")
}

/// The command that creates the repository `name` in the user's namespace.
pub fn create_command(name: &str) -> (r: String)
    ensures
        r@ == "giss-create "@ + name@,
{
    concat("giss-create ", name)
}

/// The command that deletes the repository `name`.
pub fn delete_command(name: &str) -> (r: String)
    ensures
        r@ == "giss-delete "@ + name@,
{
    concat("giss-delete ", name)
}

/// The command that grants `user` access to `repo`, write access where
/// `write`.
pub fn grant_command(repo: &str, user: &str, write: bool) -> (r: String)
    ensures
        r@ == "giss-grant "@ + repo@ + " "@ + user@ + if write {
            " --write"@
        } else {
            seq![]
        },
{
    let a = concat("giss-grant ", repo);
    let b = concat(a.as_str(), " ");
    let c = concat(b.as_str(), user);
    if write {
        concat(c.as_str(), " --write")
    } else {
        assert(c@ + seq![] =~= c@);
        c
    }
}

/// The command that revokes the access of `user` to `repo`.
pub fn revoke_command(repo: &str, user: &str) -> (r: String)
    ensures
        r@ == "giss-revoke "@ + repo@ + " "@ + user@,
{
    let a = concat("giss-revoke ", repo);
    let b = concat(a.as_str(), " ");
    concat(b.as_str(), user)
}

/// The SSH URL of the repository `name` on `host`, for cloning and remotes.
pub fn repo_url(host: &str, name: &str) -> (r: String)
    ensures
        r@ == host@ + ":"@ + name@ + ".git"@,
{
    let a = concat(host, ":");
    let b = concat(a.as_str(), name);
    concat(b.as_str(), ".git")
}

} // verus!
