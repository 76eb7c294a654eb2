//! Validation of repository and user names and of SSH public keys.

use vstd::prelude::*;
use vstd::utf8::encode_utf8;
use vstd::string::StringExecFns;
use crate::text::{chars_of, concat, contains_seq, contains_str, split_whitespace, str_eq, trim, trimmed, views, words, lemma_trimmed_words};

verus! {

broadcast use vstd::string::group_string_axioms;

/// A character that may appear in a repository or user name.
pub open spec fn name_char_ok(c: char) -> bool {
    ||| ('a' <= c && c <= 'z')
    ||| ('A' <= c && c <= 'Z')
    ||| ('0' <= c && c <= '9')
    ||| c == '-'
    ||| c == '_'
    ||| c == '.'
    ||| c == '/'
}

/// The complaint about `name`, a name of the kind `what`, or `None` where the
/// name is acceptable. The checks are made in this order.
pub open spec fn name_error(name: Seq<char>, what: Seq<char>) -> Option<Seq<char>> {
    if name.len() == 0 {
        Some(what + " name is empty"@)
    } else if encode_utf8(name).len() > 100 {
        Some(what + " name too long"@)
    } else if name[0] == '.' || name.last() == '.' {
        Some(what + " name cannot start or end with '.'"@)
    } else if name[0] == '/' || name.last() == '/' {
        Some(what + " name cannot start or end with '/'"@)
    } else if contains_seq(name, ".."@) {
        Some(what + " name cannot contain '..'"@)
    } else if exists|i: int| 0 <= i < name.len() && !name_char_ok(#[trigger] name[i]) {
        Some(what + " name contains invalid characters"@)
    } else {
        None
    }
}

/// The key types that a public key may declare.
pub open spec fn known_key_type(t: Seq<char>) -> bool {
    ||| t == "ssh-rsa"@
    ||| t == "ssh-ed25519"@
    ||| t == "ssh-dss"@
    ||| t == "ecdsa-sha2-nistp256"@
    ||| t == "ecdsa-sha2-nistp384"@
    ||| t == "ecdsa-sha2-nistp521"@
    ||| t == "sk-ecdsa-sha2-nistp256@openssh.com"@
    ||| t == "sk-ssh-ed25519@openssh.com"@
}

/// The complaint about the public key `key`, or `None` where it is acceptable.
pub open spec fn pubkey_error(key: Seq<char>) -> Option<Seq<char>> {
    let t = trimmed(key);
    let parts = words(t);
    if t.len() == 0 {
        Some("Public key is empty"@)
    } else if parts.len() < 2 {
        Some("Invalid key format"@)
    } else if !known_key_type(parts[0]) {
        Some("Unknown ssh key type: "@ + parts[0])
    } else {
        None
    }
}

fn name_char_allowed(c: char) -> (r: bool)
    ensures
        r == name_char_ok(c),
{
    ('a' <= c && c <= 'z') || ('A' <= c && c <= 'Z') || ('0' <= c && c <= '9') || c == '-' || c
        == '_' || c == '.' || c == '/'
}

proof fn lemma_utf8_len_bounds(s: Seq<char>)
    ensures
        s.len() <= encode_utf8(s).len() <= 4 * s.len(),
    decreases s.len(),
{
    if s.len() > 0 {
        lemma_utf8_len_bounds(s.drop_first());
    }
}

fn all_name_chars(x: &Vec<char>) -> (r: bool)
    ensures
        r == forall|i: int| 0 <= i < x@.len() ==> name_char_ok(#[trigger] x@[i]),
{
    let n = x.len();
    for i in 0..n
        invariant
            n == x@.len(),
            forall|j: int| 0 <= j < i ==> name_char_ok(#[trigger] x@[j]),
    {
        if !name_char_allowed(x[i]) {
            assert(!name_char_ok(x@[i as int]));
            return false;
        }
    }
    true
}

/// Checks that `name` may name a repository or a user; `what` names the kind
/// of name in the message of the error.
pub fn validate_name(name: &str, what: &str) -> (r: Result<(), String>)
    ensures
        r is Ok <==> name_error(name@, what@) is None,
        r matches Err(e) ==> name_error(name@, what@) == Some(e@),
{
    if name.is_empty() {
        return Err(concat(what, " name is empty"));
    }
    let x = chars_of(name);
    let n = x.len();
    proof {
        lemma_utf8_len_bounds(name@);
    }
    if n > 100 || name.len() > 100 {
        return Err(concat(what, " name too long"));
    }
    if x[0] == '.' || x[n - 1] == '.' {
        return Err(concat(what, " name cannot start or end with '.'"));
    }
    if x[0] == '/' || x[n - 1] == '/' {
        return Err(concat(what, " name cannot start or end with '/'"));
    }
    if contains_str(name, "..") {
        return Err(concat(what, " name cannot contain '..'"));
    }
    if !all_name_chars(&x) {
        return Err(concat(what, " name contains invalid characters"));
    }
    Ok(())
}

fn is_known_key_type(t: &str) -> (r: bool)
    ensures
        r == known_key_type(t@),
{
    str_eq(t, "ssh-rsa") || str_eq(t, "ssh-ed25519") || str_eq(t, "ssh-dss") || str_eq(
        t,
        "ecdsa-sha2-nistp256",
    ) || str_eq(t, "ecdsa-sha2-nistp384") || str_eq(t, "ecdsa-sha2-nistp521") || str_eq(
        t,
        "sk-ecdsa-sha2-nistp256@openssh.com",
    ) || str_eq(t, "sk-ssh-ed25519@openssh.com")
}

/// Checks that `key` looks like an OpenSSH public key line: a known key type
/// followed by at least one more word.
pub fn validate_pubkey(key: &str) -> (r: Result<(), String>)
    ensures
        r is Ok <==> pubkey_error(key@) is None,
        r matches Err(e) ==> pubkey_error(key@) == Some(e@),
{
    let t = trim(key);
    if t.as_str().is_empty() {
        return Err(String::from_str("Public key is empty"));
    }
    let parts = split_whitespace(t.as_str());
    if parts.len() < 2 {
        return Err(String::from_str("Invalid key format"));
    }
    proof {
        assert(views(parts@)[0] == parts@[0]@);
    }
    if !is_known_key_type(parts[0].as_str()) {
        return Err(concat("Unknown ssh key type: ", parts[0].as_str()));
    }
    Ok(())
}


/// The complaint about a public key whose words are `parts`.
pub open spec fn pubkey_error_of_words(parts: Seq<Seq<char>>) -> Option<Seq<char>> {
    if parts.len() == 0 {
        Some("Public key is empty"@)
    } else if parts.len() < 2 {
        Some("Invalid key format"@)
    } else if !known_key_type(parts[0]) {
        Some("Unknown ssh key type: "@ + parts[0])
    } else {
        None
    }
}

/// Whether a public key is accepted, and the complaint where not, depend on
/// its whitespace-separated words alone.
pub proof fn lemma_pubkey_by_words(key: Seq<char>)
    ensures
        pubkey_error(key) == pubkey_error_of_words(words(key)),
{
    lemma_trimmed_words(key);
}

/// Two keys with the same words, differing only in whitespace, are judged
/// alike.
pub proof fn lemma_pubkey_whitespace_blind(a: Seq<char>, b: Seq<char>)
    requires
        words(a) == words(b),
    ensures
        pubkey_error(a) == pubkey_error(b),
{
    lemma_pubkey_by_words(a);
    lemma_pubkey_by_words(b);
}
proof fn lemma_ascii_utf8_len(s: Seq<char>)
    requires
        forall|i: int| 0 <= i < s.len() ==> (#[trigger] s[i] as u32) < 0x80,
    ensures
        encode_utf8(s).len() == s.len(),
    decreases s.len(),
{
    if s.len() > 0 {
        assert(s[0] as u32 <= 0x7F);
        let t = s.drop_first();
        assert forall|i: int| 0 <= i < t.len() implies (#[trigger] t[i] as u32) < 0x80 by {
            assert(t[i] == s[i + 1]);
        }
        lemma_ascii_utf8_len(t);
    }
}

/// Name characters are ASCII: every ASCII letter, of either case, every
/// digit, `-`, `_`, `.` and `/` are accepted, and nothing outside ASCII is.
pub proof fn lemma_name_chars(c: char)
    ensures
        ('a' <= c <= 'z' || 'A' <= c <= 'Z' || '0' <= c <= '9') ==> name_char_ok(c),
        (c == '-' || c == '_' || c == '.' || c == '/') ==> name_char_ok(c),
        name_char_ok(c) ==> (c as u32) < 0x80,
{
}

/// A name of at most a hundred characters, each an ASCII letter of either
/// case, a digit, `-`, `_`, `.` or `/`, that neither starts nor ends with
/// `.` or `/` and holds no `..`, is accepted; a name holding any other
/// character is refused.
pub proof fn lemma_plain_names_accepted(name: Seq<char>, what: Seq<char>)
    ensures
        (0 < name.len() <= 100 && (forall|i: int|
            0 <= i < name.len() ==> {
                let c = #[trigger] name[i];
                'a' <= c <= 'z' || 'A' <= c <= 'Z' || '0' <= c <= '9' || c == '-' || c == '_'
                    || c == '.' || c == '/'
            }) && name[0] != '.' && name[0] != '/' && name.last() != '.' && name.last() != '/'
            && !contains_seq(name, ".."@)) ==> name_error(name, what) is None,
        (exists|i: int|
            0 <= i < name.len() && {
                let c = #[trigger] name[i];
                !('a' <= c <= 'z' || 'A' <= c <= 'Z' || '0' <= c <= '9' || c == '-' || c == '_'
                    || c == '.' || c == '/')
            }) ==> name_error(name, what) is Some,
{
    if forall|i: int|
        0 <= i < name.len() ==> {
            let c = #[trigger] name[i];
            'a' <= c <= 'z' || 'A' <= c <= 'Z' || '0' <= c <= '9' || c == '-' || c == '_' || c
                == '.' || c == '/'
        } {
        assert forall|i: int| 0 <= i < name.len() implies (#[trigger] name[i] as u32) < 0x80 by {
            lemma_name_chars(name[i]);
        }
        lemma_ascii_utf8_len(name);
    }
}

/// A public key is accepted exactly when it has at least two words and the
/// first names one of the OpenSSH key types `ssh-rsa`, `ssh-ed25519`,
/// `ssh-dss`, `ecdsa-sha2-nistp256`, `ecdsa-sha2-nistp384`,
/// `ecdsa-sha2-nistp521`, `sk-ecdsa-sha2-nistp256@openssh.com` and
/// `sk-ssh-ed25519@openssh.com`; what follows the type is not judged.
pub proof fn lemma_key_types_accepted(key: Seq<char>)
    ensures
        pubkey_error(key) is None <==> words(key).len() >= 2 && seq![
            "ssh-rsa"@,
            "ssh-ed25519"@,
            "ssh-dss"@,
            "ecdsa-sha2-nistp256"@,
            "ecdsa-sha2-nistp384"@,
            "ecdsa-sha2-nistp521"@,
            "sk-ecdsa-sha2-nistp256@openssh.com"@,
            "sk-ssh-ed25519@openssh.com"@,
        ].contains(words(key)[0]),
{
    lemma_pubkey_by_words(key);
    let types = seq![
        "ssh-rsa"@,
        "ssh-ed25519"@,
        "ssh-dss"@,
        "ecdsa-sha2-nistp256"@,
        "ecdsa-sha2-nistp384"@,
        "ecdsa-sha2-nistp521"@,
        "sk-ecdsa-sha2-nistp256@openssh.com"@,
        "sk-ssh-ed25519@openssh.com"@,
    ];
    let w = words(key);
    if w.len() >= 2 {
        let t = w[0];
        if known_key_type(t) {
            if t == types[0] {
                assert(types.contains(t));
            } else if t == types[1] {
                assert(types.contains(t));
            } else if t == types[2] {
                assert(types.contains(t));
            } else if t == types[3] {
                assert(types.contains(t));
            } else if t == types[4] {
                assert(types.contains(t));
            } else if t == types[5] {
                assert(types.contains(t));
            } else if t == types[6] {
                assert(types.contains(t));
            } else {
                assert(t == types[7]);
                assert(types.contains(t));
            }
        }
        if types.contains(t) {
            let k = choose|k: int| 0 <= k < types.len() && types[k] == t;
            assert(known_key_type(t));
        }
    }
}
} // verus!
