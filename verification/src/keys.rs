//! SSH key files of the users and the `authorized_keys` lines made from them.
//!
//! Every key is bound to a forced command that runs the restricted shell for
//! its user, so that a login can do nothing but what the shell allows.

use vstd::prelude::*;
use vstd::string::StringExecFns;
use crate::text::{
    concat, ends_with, has_suffix, last_index, rsplit_once, str_eq,
    trim, trim_end_matches, trim_end_matching, trimmed,
};
use crate::validate::{name_char_ok, name_error, pubkey_error, validate_name, validate_pubkey};

verus! {

broadcast use vstd::string::group_string_axioms;

/// The user whose key the file `file_name` holds: files named `<user>.pub`
/// with a valid user name. The extension is what follows the last dot, as
/// for `Path::extension`: a name whose only dot comes first has none.
pub open spec fn key_user(file_name: Seq<char>) -> Option<Seq<char>> {
    if file_name.contains('.') {
        let k = last_index(file_name, '.');
        if k > 0 && file_name.skip(k + 1) == "pub"@ && name_error(file_name.take(k), "User"@) is None {
            Some(file_name.take(k))
        } else {
            None
        }
    } else {
        None
    }
}

/// The options that every key line carries.
pub open spec fn key_options() -> Seq<char> {
    "no-port-forwarding,no-X11-forwarding,no-agent-forwarding,no-pty"@
}

/// The `authorized_keys` line of `user` with the key text `key`: the forced
/// command runs the shell at `gism` for that user.
pub open spec fn key_line(gism: Seq<char>, user: Seq<char>, key: Seq<char>) -> Seq<char> {
    "command=\""@ + gism + " shell "@ + user + "\","@ + key_options() + " "@ + trimmed(key) + "\n"@
}

/// The name of a directory entry with `suffix` and every trailing copy of it
/// removed, where the name ends with it.
pub open spec fn listed(file_name: Seq<char>, suffix: Seq<char>) -> Option<Seq<char>> {
    if ends_with(file_name, suffix) {
        Some(trim_end_matches(file_name, suffix))
    } else {
        None
    }
}

/// The user whose key the file `file_name` holds, where it is a key file
/// of a valid user.
pub fn key_file_user(file_name: &str) -> (r: Option<String>)
    ensures
        r is Some <==> key_user(file_name@) is Some,
        r matches Some(u) ==> key_user(file_name@) == Some(u@),
{
    match rsplit_once(file_name, '.') {
        Some((stem, ext)) => {
            proof {
                crate::text::lemma_last_index(file_name@, '.');
            }
            if !stem.as_str().is_empty() && str_eq(ext.as_str(), "pub") && validate_name(
                stem.as_str(),
                "User",
            ).is_ok() {
                Some(stem)
            } else {
                None
            }
        },
        None => None,
    }
}

/// The `authorized_keys` line for `user` and the key text `key`, with the
/// shell at `gism` as forced command.
pub fn authorized_keys_line(gism: &str, user: &str, key: &str) -> (r: String)
    ensures
        r@ == key_line(gism@, user@, key@),
{
    let a = concat("command=\"", gism);
    let b = concat(a.as_str(), " shell ");
    let c = concat(b.as_str(), user);
    let d = concat(c.as_str(), "\",");
    let e = concat(d.as_str(), "no-port-forwarding,no-X11-forwarding,no-agent-forwarding,no-pty");
    let f = concat(e.as_str(), " ");
    let k = trim(key);
    let g = concat(f.as_str(), k.as_str());
    concat(g.as_str(), "\n")
}

/// The key file of a new user: its name `<name>.pub` and its content, the
/// trimmed key; or the complaint about the name or the key, checked in this
/// order.
pub fn user_key_file(name: &str, pubkey: &str) -> (r: Result<(String, String), String>)
    ensures
        r is Ok <==> name_error(name@, "User"@) is None && pubkey_error(pubkey@) is None,
        r matches Ok((file, content)) ==> file@ == name@ + ".pub"@ && content@ == trimmed(pubkey@),
        r matches Err(e) ==> Some(e@) == if name_error(name@, "User"@) is Some {
            name_error(name@, "User"@)
        } else {
            pubkey_error(pubkey@)
        },
{
    validate_name(name, "User")?;
    validate_pubkey(pubkey)?;
    Ok((key_file_name(name), trim(pubkey)))
}

/// The name of the key file of `user`.
pub fn key_file_name(user: &str) -> (r: String)
    ensures
        r@ == user@ + ".pub"@,
{
    concat(user, ".pub")
}

/// The name that a listing shows for the directory entry `file_name`: users
/// are listed from `<user>.pub` files, repositories from `<repo>.git`
/// directories.
pub fn listed_name(file_name: &str, suffix: &str) -> (r: Option<String>)
    ensures
        r is Some <==> listed(file_name@, suffix@) is Some,
        r matches Some(n) ==> listed(file_name@, suffix@) == Some(n@),
{
    if has_suffix(file_name, suffix) {
        Some(trim_end_matching(file_name, suffix))
    } else {
        None
    }
}

/// A user read from a key file has a name that cannot leave the quoted
/// forced command: it holds no quote, no whitespace and no backslash.
pub proof fn lemma_key_user_is_plain(file_name: Seq<char>)
    ensures
        key_user(file_name) matches Some(u) ==> forall|i: int|
            0 <= i < u.len() ==> name_char_ok(#[trigger] u[i]) && u[i] != '"' && u[i] != '\\'
                && !crate::text::is_ws(u[i]),
{
    if let Some(u) = key_user(file_name) {
        assert forall|i: int| 0 <= i < u.len() implies name_char_ok(#[trigger] u[i]) by {
            if !name_char_ok(u[i]) {
                assert(exists|j: int| 0 <= j < u.len() && !name_char_ok(#[trigger] u[j]));
            }
        }
    }
}

} // verus!
