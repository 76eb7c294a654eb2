//! What the client sends, the server reads back: the commands that
//! [`crate::client`] builds are read by [`crate::shell`] as the request the
//! client meant.

use vstd::prelude::*;
use crate::shell::{after, owner_prefix, qualify, read_request, RequestView, ShellErrorView};
use crate::text::{is_ws, starts_with, trim_start, trimmed, word_len, words};
use crate::validate::name_error;

verus! {

broadcast use vstd::string::group_string_axioms;

/// `w` is one word: not empty, and without whitespace.
pub open spec fn is_word(w: Seq<char>) -> bool {
    w.len() > 0 && forall|i: int| 0 <= i < w.len() ==> !is_ws(#[trigger] w[i])
}

proof fn lemma_trim_start_id(s: Seq<char>)
    requires
        s.len() == 0 || !is_ws(s[0]),
    ensures
        trim_start(s) == s,
{
}

proof fn lemma_word_len_of(s: Seq<char>, k: int)
    requires
        0 <= k <= s.len(),
        forall|j: int| 0 <= j < k ==> !is_ws(#[trigger] s[j]),
        k == s.len() || is_ws(s[k]),
    ensures
        word_len(s) == k,
    decreases k,
{
    if k > 0 {
        let t = s.drop_first();
        assert forall|j: int| 0 <= j < k - 1 implies !is_ws(#[trigger] t[j]) by {
            assert(t[j] == s[j + 1]);
        }
        lemma_word_len_of(t, k - 1);
    }
}

proof fn lemma_words_empty()
    ensures
        words(Seq::<char>::empty()) == Seq::<Seq<char>>::empty(),
{
    lemma_trim_start_id(Seq::<char>::empty());
}

proof fn lemma_words_skip_space(s: Seq<char>)
    requires
        s.len() > 0,
        is_ws(s[0]),
    ensures
        words(s) == words(s.drop_first()),
{
    assert(trim_start(s) == trim_start(s.drop_first()));
}

proof fn lemma_words_word(w: Seq<char>, rest: Seq<char>)
    requires
        is_word(w),
        rest.len() == 0 || is_ws(rest[0]),
    ensures
        words(w + rest) == seq![w] + words(rest),
{
    let s = w + rest;
    assert(s[0] == w[0]);
    lemma_trim_start_id(s);
    assert forall|j: int| 0 <= j < w.len() implies !is_ws(#[trigger] s[j]) by {
        assert(s[j] == w[j]);
    }
    if rest.len() > 0 {
        assert(s[w.len() as int] == rest[0]);
    }
    lemma_word_len_of(s, w.len() as int);
    assert(s.take(w.len() as int) =~= w);
    assert(s.skip(w.len() as int) =~= rest);
}

proof fn lemma_two_words(a: Seq<char>, b: Seq<char>, tail: Seq<char>)
    requires
        is_word(a),
        is_word(b),
        tail.len() == 0 || is_ws(tail[0]),
    ensures
        words(a + " "@ + b + tail) == seq![a, b] + words(tail),
{
    reveal_strlit(" ");
    let sb = " "@ + (b + tail);
    assert(a + " "@ + b + tail =~= a + sb);
    lemma_words_word(a, sb);
    assert(sb.drop_first() =~= b + tail);
    lemma_words_skip_space(sb);
    lemma_words_word(b, tail);
    assert(seq![a] + (seq![b] + words(tail)) =~= seq![a, b] + words(tail));
}

proof fn lemma_write_flag_words()
    ensures
        words(" --write"@) == seq!["--write"@],
{
    reveal_strlit(" --write");
    reveal_strlit("--write");
    let s = " --write"@;
    assert(s.drop_first() =~= "--write"@);
    lemma_words_skip_space(s);
    let w = "--write"@;
    assert(is_word(w));
    assert(w + Seq::<char>::empty() =~= w);
    lemma_words_word(w, Seq::<char>::empty());
    lemma_words_empty();
    assert(seq![w] + Seq::<Seq<char>>::empty() =~= seq![w]);
}

proof fn lemma_prefix_after(p: Seq<char>, x: Seq<char>)
    ensures
        starts_with(p + x, p),
        after(p + x, p) == x,
{
    assert((p + x).take(p.len() as int) =~= p);
    assert((p + x).skip(p.len() as int) =~= x);
}

/// The command `giss-create <name>` is read as the creation of
/// `<user>/<name>`, with the name trimmed, or refused for the reason that
/// name validation gives.
pub proof fn lemma_create_roundtrip(user: Seq<char>, name: Seq<char>)
    ensures
        read_request(user, "giss-create "@ + name) == {
            let full = owner_prefix(user) + trimmed(name);
            match name_error(full, "Repo"@) {
                Some(e) => Err::<RequestView, ShellErrorView>(ShellErrorView::InvalidName(e)),
                None => Ok(RequestView::Create { full_name: full }),
            }
        },
{
    reveal_strlit("giss-create ");
    reveal_strlit("giss-list");
    let cmd = "giss-create "@ + name;
    lemma_prefix_after("giss-create "@, name);
    assert(cmd[5] == 'c');
    assert(cmd != "giss-list"@) by {
        assert("giss-list"@[5] == 'l');
    }
}

/// The command `giss-delete <name>` is read as the deletion of the trimmed
/// name, put in the user's namespace where it names none.
pub proof fn lemma_delete_roundtrip(user: Seq<char>, name: Seq<char>)
    ensures
        read_request(user, "giss-delete "@ + name) == Ok::<RequestView, ShellErrorView>(
            RequestView::Delete { full_name: qualify(user, trimmed(name)) },
        ),
{
    reveal_strlit("giss-delete ");
    reveal_strlit("giss-create ");
    reveal_strlit("giss-list");
    let cmd = "giss-delete "@ + name;
    lemma_prefix_after("giss-delete "@, name);
    assert(cmd[5] == 'd');
    assert(cmd != "giss-list"@) by {
        assert("giss-list"@[5] == 'l');
    }
    assert(!starts_with(cmd, "giss-create "@)) by {
        assert(cmd.take(12)[5] == 'd');
        assert("giss-create "@[5] == 'c');
    }
}

/// A grant that the client sends is read back as the same grant, where the
/// repository and the user are single words and, without `--write`, neither
/// of them is the word `--write` itself.
pub proof fn lemma_grant_roundtrip(user: Seq<char>, repo: Seq<char>, target: Seq<char>, write: bool)
    requires
        is_word(repo),
        is_word(target),
        !write ==> repo != "--write"@ && target != "--write"@,
    ensures
        read_request(
            user,
            "giss-grant "@ + repo + " "@ + target + if write {
                " --write"@
            } else {
                seq![]
            },
        ) == Ok::<RequestView, ShellErrorView>(RequestView::Grant { repo, user: target, write }),
{
    reveal_strlit("giss-grant ");
    reveal_strlit("giss-delete ");
    reveal_strlit("giss-create ");
    reveal_strlit("giss-list");
    reveal_strlit(" --write");
    let tail: Seq<char> = if write {
        " --write"@
    } else {
        seq![]
    };
    let args = repo + " "@ + target + tail;
    let cmd = "giss-grant "@ + repo + " "@ + target + tail;
    assert(cmd =~= "giss-grant "@ + args);
    lemma_prefix_after("giss-grant "@, args);
    assert(cmd[5] == 'g');
    assert(cmd != "giss-list"@) by {
        assert("giss-list"@[5] == 'l');
    }
    assert(!starts_with(cmd, "giss-create "@)) by {
        assert(cmd.take(12)[5] == 'g');
        assert("giss-create "@[5] == 'c');
    }
    assert(!starts_with(cmd, "giss-delete "@)) by {
        assert(cmd.take(12)[5] == 'g');
        assert("giss-delete "@[5] == 'd');
    }
    lemma_two_words(repo, target, tail);
    let parts = words(args);
    if write {
        lemma_write_flag_words();
        assert(parts =~= seq![repo, target, "--write"@]);
        assert(parts[2] == "--write"@);
    } else {
        lemma_words_empty();
        assert(parts =~= seq![repo, target]);
        assert(!parts.contains("--write"@)) by {
            if parts.contains("--write"@) {
                let k = choose|k: int| 0 <= k < parts.len() && parts[k] == "--write"@;
                assert(k == 0 || k == 1);
            }
        }
    }
}

/// A revocation that the client sends is read back as the same revocation,
/// where the repository and the user are single words.
pub proof fn lemma_revoke_roundtrip(user: Seq<char>, repo: Seq<char>, target: Seq<char>)
    requires
        is_word(repo),
        is_word(target),
    ensures
        read_request(user, "giss-revoke "@ + repo + " "@ + target) == Ok::<
            RequestView,
            ShellErrorView,
        >(RequestView::Revoke { repo, user: target }),
{
    reveal_strlit("giss-revoke ");
    reveal_strlit("giss-grant ");
    reveal_strlit("giss-delete ");
    reveal_strlit("giss-create ");
    reveal_strlit("giss-list");
    let args = repo + " "@ + target;
    let cmd = "giss-revoke "@ + repo + " "@ + target;
    assert(cmd =~= "giss-revoke "@ + args);
    lemma_prefix_after("giss-revoke "@, args);
    assert(cmd[5] == 'r');
    assert(cmd != "giss-list"@) by {
        assert("giss-list"@[5] == 'l');
    }
    assert(!starts_with(cmd, "giss-create "@)) by {
        assert(cmd.take(12)[5] == 'r');
        assert("giss-create "@[5] == 'c');
    }
    assert(!starts_with(cmd, "giss-delete "@)) by {
        assert(cmd.take(12)[5] == 'r');
        assert("giss-delete "@[5] == 'd');
    }
    assert(!starts_with(cmd, "giss-grant "@)) by {
        assert(cmd.take(11)[5] == 'r');
        assert("giss-grant "@[5] == 'g');
    }
    lemma_words_empty();
    assert(args + Seq::<char>::empty() =~= args);
    lemma_two_words(repo, target, Seq::<char>::empty());
    assert(words(args) =~= seq![repo, target]);
}

} // verus!
