//! Access control lists: which users may read or write which repository.
//!
//! The list is modelled as a sequence of [`RepoAccess`] records. Lookups go
//! by the first record whose name matches, as the stored file may name a
//! repository twice.

use vstd::prelude::*;
use vstd::string::StringExecFns;
use crate::text::{str_eq, vec_contains, views};

verus! {

broadcast use vstd::string::group_string_axioms;

/// The access record of one repository, as plain values.
pub struct RepoAccess {
    pub name: Seq<char>,
    pub read: Seq<Seq<char>>,
    pub write: Seq<Seq<char>>,
}

/// The users granted read and write access to one repository.
#[derive(Debug, Clone)]
pub struct RepoAcl {
    pub name: String,
    pub read: Vec<String>,
    pub write: Vec<String>,
}

/// The access control list of the server.
#[derive(Debug, Clone)]
pub struct AclFile {
    pub repos: Vec<RepoAcl>,
}

impl View for RepoAcl {
    type V = RepoAccess;

    open spec fn view(&self) -> RepoAccess {
        RepoAccess { name: self.name@, read: views(self.read@), write: views(self.write@) }
    }
}

impl View for AclFile {
    type V = Seq<RepoAccess>;

    open spec fn view(&self) -> Seq<RepoAccess> {
        self.repos@.map_values(|r: RepoAcl| r@)
    }
}

/// Some record of `acl` is named `name`.
pub open spec fn has_repo(acl: Seq<RepoAccess>, name: Seq<char>) -> bool {
    exists|i: int| 0 <= i < acl.len() && (#[trigger] acl[i]).name == name
}

/// `i` is the position of the first record of `acl` named `name`.
pub open spec fn is_first_repo(acl: Seq<RepoAccess>, name: Seq<char>, i: int) -> bool {
    &&& 0 <= i < acl.len()
    &&& acl[i].name == name
    &&& forall|j: int| 0 <= j < i ==> (#[trigger] acl[j]).name != name
}

/// The position of the first record of `acl` named `name`, where there is one.
pub open spec fn find_repo(acl: Seq<RepoAccess>, name: Seq<char>) -> int {
    choose|i: int| is_first_repo(acl, name, i)
}

/// Whether `user` may read (`write` false) or write (`write` true) the
/// repository `repo`: writers may also read.
pub open spec fn allows(acl: Seq<RepoAccess>, repo: Seq<char>, user: Seq<char>, write: bool) -> bool {
    has_repo(acl, repo) && {
        let r = acl[find_repo(acl, repo)];
        if write {
            r.write.contains(user)
        } else {
            r.read.contains(user) || r.write.contains(user)
        }
    }
}

/// `r` after granting `user` read access, and write access where `write`.
pub open spec fn granted(r: RepoAccess, user: Seq<char>, write: bool) -> RepoAccess {
    RepoAccess {
        name: r.name,
        read: if r.read.contains(user) {
            r.read
        } else {
            r.read.push(user)
        },
        write: if write && !r.write.contains(user) {
            r.write.push(user)
        } else {
            r.write
        },
    }
}

/// The list after a grant: the first record of `repo` is updated, or a new
/// record is appended where there is none.
pub open spec fn after_grant(acl: Seq<RepoAccess>, repo: Seq<char>, user: Seq<char>, write: bool) -> Seq<
    RepoAccess,
> {
    if has_repo(acl, repo) {
        let i = find_repo(acl, repo);
        acl.update(i, granted(acl[i], user, write))
    } else {
        acl.push(
            RepoAccess {
                name: repo,
                read: seq![user],
                write: if write {
                    seq![user]
                } else {
                    seq![]
                },
            },
        )
    }
}

/// Holds of every string but `user`.
pub open spec fn other_than(user: Seq<char>) -> spec_fn(Seq<char>) -> bool {
    |u: Seq<char>| u != user
}

/// `list` without any copy of `user`.
pub open spec fn without(list: Seq<Seq<char>>, user: Seq<char>) -> Seq<Seq<char>> {
    list.filter(other_than(user))
}

/// The list after a revocation: `user` leaves both lists of the first record
/// of `repo`; nothing changes where there is no such record.
pub open spec fn after_revoke(acl: Seq<RepoAccess>, repo: Seq<char>, user: Seq<char>) -> Seq<
    RepoAccess,
> {
    if has_repo(acl, repo) {
        let i = find_repo(acl, repo);
        acl.update(
            i,
            RepoAccess {
                name: acl[i].name,
                read: without(acl[i].read, user),
                write: without(acl[i].write, user),
            },
        )
    } else {
        acl
    }
}

/// Holds of every record not named `repo`.
pub open spec fn not_named(repo: Seq<char>) -> spec_fn(RepoAccess) -> bool {
    |r: RepoAccess| r.name != repo
}

/// The list without any record named `repo`.
pub open spec fn after_remove(acl: Seq<RepoAccess>, repo: Seq<char>) -> Seq<RepoAccess> {
    acl.filter(not_named(repo))
}

/// The first record is the only one that `is_first_repo` admits.
pub proof fn lemma_find_repo(acl: Seq<RepoAccess>, name: Seq<char>, i: int)
    requires
        is_first_repo(acl, name, i),
    ensures
        has_repo(acl, name),
        find_repo(acl, name) == i,
{
    assert(acl[i].name == name);
    let k = find_repo(acl, name);
    assert(is_first_repo(acl, name, k));
    if k < i {
        assert(acl[k].name != name);
    } else if i < k {
        assert(acl[i].name != name);
    }
}

proof fn lemma_views_push(v: Seq<String>, s: String)
    ensures
        views(v.push(s)) == views(v).push(s@),
{
    assert(views(v.push(s)) =~= views(v).push(s@));
}


/// `list` without any copy of `user`.
fn without_user(list: &Vec<String>, user: &str) -> (r: Vec<String>)
    ensures
        views(r@) == without(views(list@), user@),
{
    let n = list.len();
    let mut r: Vec<String> = Vec::new();
    let ghost all = views(list@);
    for i in 0..n
        invariant
            n == list@.len(),
            all == views(list@),
            views(r@) == without(all.take(i as int), user@),
    {
        proof {
            assert(all.take(i + 1).drop_last() =~= all.take(i as int));
            reveal_with_fuel(Seq::<_>::filter, 1);
        }
        if !str_eq(list[i].as_str(), user) {
            let ghost before = r@;
            r.push(list[i].clone());
            proof {
                lemma_views_push(before, list@[i as int]);
            }
        }
    }
    assert(all.take(n as int) =~= all);
    r
}

impl AclFile {
    /// The position of the first record named `repo`.
    fn position(&self, repo: &str) -> (r: Option<usize>)
        ensures
            r matches Some(i) ==> is_first_repo(self@, repo@, i as int),
            r is None ==> !has_repo(self@, repo@),
    {
        let n = self.repos.len();
        for i in 0..n
            invariant
                n == self.repos@.len(),
                forall|j: int| 0 <= j < i ==> (#[trigger] self@[j]).name != repo@,
        {
            if str_eq(self.repos[i].name.as_str(), repo) {
                return Some(i);
            }
        }
        None
    }

    /// Gives `user` read access to `repo`, and write access where `write`.
    /// A record is created for a repository that has none; a user already
    /// listed is not listed again.
    pub fn grant(&mut self, repo: &str, user: &str, write: bool)
        ensures
            final(self)@ == after_grant(old(self)@, repo@, user@, write),
    {
        match self.position(repo) {
            Some(i) => {
                proof {
                    lemma_find_repo(old(self)@, repo@, i as int);
                }
                let ghost before = self.repos@;
                let mut r = self.repos.remove(i);
                let ghost r0 = r@;
                if write && !vec_contains(&r.write, user) {
                    let ghost w = r.write@;
                    r.write.push(String::from_str(user));
                    proof {
                        lemma_views_push(w, r.write@.last());
                    }
                }
                if !vec_contains(&r.read, user) {
                    let ghost w = r.read@;
                    r.read.push(String::from_str(user));
                    proof {
                        lemma_views_push(w, r.read@.last());
                    }
                }
                assert(r@ == granted(r0, user@, write));
                self.repos.insert(i, r);
                assert(self.repos@ =~= before.update(i as int, r));
                assert(self@ =~= old(self)@.update(i as int, granted(r0, user@, write)));
            },
            None => {
                let mut read: Vec<String> = Vec::new();
                read.push(String::from_str(user));
                let mut written: Vec<String> = Vec::new();
                if write {
                    written.push(String::from_str(user));
                }
                let entry = RepoAcl { name: String::from_str(repo), read, write: written };
                assert(views(entry.read@) =~= seq![user@]);
                assert(write ==> views(entry.write@) =~= seq![user@]);
                assert(!write ==> views(entry.write@) =~= seq![]);
                let ghost before = self.repos@;
                self.repos.push(entry);
                assert(self@ =~= old(self)@.push(entry@));
            },
        }
    }

    /// Takes read and write access to `repo` away from `user`.
    pub fn revoke(&mut self, repo: &str, user: &str)
        ensures
            final(self)@ == after_revoke(old(self)@, repo@, user@),
    {
        if let Some(i) = self.position(repo) {
            proof {
                lemma_find_repo(old(self)@, repo@, i as int);
            }
            let ghost before = self.repos@;
            let mut r = self.repos.remove(i);
            let read = without_user(&r.read, user);
            let written = without_user(&r.write, user);
            r.read = read;
            r.write = written;
            self.repos.insert(i, r);
            assert(self.repos@ =~= before.update(i as int, r));
            assert(self@ =~= after_revoke(old(self)@, repo@, user@));
        }
    }

    /// Whether `user` may read `repo` (`write` false) or write it (`write`
    /// true); unknown repositories grant nothing.
    pub fn check(&self, repo: &str, user: &str, write: bool) -> (r: bool)
        ensures
            r == allows(self@, repo@, user@, write),
    {
        match self.position(repo) {
            Some(i) => {
                proof {
                    lemma_find_repo(self@, repo@, i as int);
                }
                let r = &self.repos[i];
                if write {
                    vec_contains(&r.write, user)
                } else {
                    vec_contains(&r.read, user) || vec_contains(&r.write, user)
                }
            },
            None => false,
        }
    }

    /// Drops every record named `repo`.
    pub fn remove_repo(&mut self, repo: &str)
        ensures
            final(self)@ == after_remove(old(self)@, repo@),
    {
        let ghost all = self@;
        let ghost mut k: int = 0;
        let mut i: usize = 0;
        assert(all.take(0) =~= seq![]);
        assert(all.skip(0) =~= all);
        reveal_with_fuel(Seq::<_>::filter, 1);
        assert(after_remove(all.take(0), repo@) + all.skip(0) =~= all);
        while i < self.repos.len()
            invariant
                0 <= k <= all.len(),
                i == after_remove(all.take(k), repo@).len(),
                self@ == after_remove(all.take(k), repo@) + all.skip(k),
            decreases all.len() - k,
        {
            let ghost prev = self@;
            let ghost f = after_remove(all.take(k), repo@);
            proof {
                assert(self@.len() == i + (all.len() - k));
                assert(all.take(k + 1).drop_last() =~= all.take(k));
                reveal_with_fuel(Seq::<_>::filter, 1);
                assert(self@[i as int] == all[k]);
            }
            if str_eq(self.repos[i].name.as_str(), repo) {
                let ghost before = self.repos@;
                self.repos.remove(i);
                proof {
                    assert(self.repos@ =~= before.remove(i as int));
                    assert(all[k].name == repo@);
                    assert(after_remove(all.take(k + 1), repo@) == f);
                    assert(f.len() == i);
                    assert forall|j: int| 0 <= j < self@.len() implies self@[j] == (f + all.skip(
                        k + 1,
                    ))[j] by {
                        if j < i {
                            assert(self@[j] == before[j]@);
                            assert(prev[j] == before[j]@);
                        } else {
                            assert(self@[j] == before[j + 1]@);
                            assert(prev[j + 1] == before[j + 1]@);
                            assert(prev[j + 1] == all.skip(k)[j + 1 - i]);
                        }
                    }
                    assert(self@ =~= f + all.skip(k + 1));
                }
            } else {
                proof {
                    assert(after_remove(all.take(k + 1), repo@) == f.push(all[k]));
                    assert(self@ =~= f.push(all[k]) + all.skip(k + 1));
                }
                i += 1;
            }
            proof {
                k = k + 1;
            }
        }
        assert(self@.len() == i + (all.len() - k));
        assert(all.take(k) =~= all);
        assert(all.skip(k) =~= seq![]);
        assert(self@ =~= after_remove(all, repo@));
    }
}

impl Default for AclFile {
    /// The empty list.
    fn default() -> (r: AclFile)
        ensures
            r@ == Seq::<RepoAccess>::empty(),
    {
        let r = AclFile { repos: Vec::new() };
        assert(r@ =~= Seq::<RepoAccess>::empty());
        r
    }
}


proof fn lemma_same_names(a: Seq<RepoAccess>, b: Seq<RepoAccess>, name: Seq<char>)
    requires
        a.len() == b.len(),
        forall|i: int| 0 <= i < a.len() ==> (#[trigger] a[i]).name == b[i].name,
    ensures
        has_repo(a, name) == has_repo(b, name),
        has_repo(a, name) ==> find_repo(a, name) == find_repo(b, name),
{
    if has_repo(a, name) {
        let k = choose|k: int| 0 <= k < a.len() && (#[trigger] a[k]).name == name;
        assert(b[k].name == name);
        lemma_first_exists(a, name, k);
        let f = find_repo(a, name);
        assert(is_first_repo(b, name, f)) by {
            assert forall|j: int| 0 <= j < f implies (#[trigger] b[j]).name != name by {
                assert(a[j].name != name);
            }
        }
        lemma_find_repo(b, name, f);
    } else if has_repo(b, name) {
        let k = choose|k: int| 0 <= k < b.len() && (#[trigger] b[k]).name == name;
        assert(a[k].name == name);
    }
}

proof fn lemma_first_exists(acl: Seq<RepoAccess>, name: Seq<char>, k: int)
    requires
        0 <= k < acl.len(),
        acl[k].name == name,
    ensures
        is_first_repo(acl, name, find_repo(acl, name)),
    decreases k,
{
    if exists|j: int| 0 <= j < k && (#[trigger] acl[j]).name == name {
        let j = choose|j: int| 0 <= j < k && (#[trigger] acl[j]).name == name;
        lemma_first_exists(acl, name, j);
    } else {
        assert(is_first_repo(acl, name, k));
    }
}

proof fn lemma_find_push(acl: Seq<RepoAccess>, r: RepoAccess, name: Seq<char>)
    ensures
        has_repo(acl.push(r), name) == (has_repo(acl, name) || r.name == name),
        has_repo(acl, name) ==> find_repo(acl.push(r), name) == find_repo(acl, name),
        !has_repo(acl, name) && r.name == name ==> find_repo(acl.push(r), name) == acl.len(),
{
    let b = acl.push(r);
    if has_repo(acl, name) {
        let k = choose|k: int| 0 <= k < acl.len() && (#[trigger] acl[k]).name == name;
        lemma_first_exists(acl, name, k);
        let f = find_repo(acl, name);
        assert(b[k].name == name);
        assert(is_first_repo(b, name, f)) by {
            assert forall|j: int| 0 <= j < f implies (#[trigger] b[j]).name != name by {
                assert(acl[j].name != name);
            }
        }
        lemma_find_repo(b, name, f);
    } else if r.name == name {
        assert(is_first_repo(b, name, acl.len() as int)) by {
            assert forall|j: int| 0 <= j < acl.len() implies (#[trigger] b[j]).name != name by {
                assert(b[j] == acl[j]);
            }
        }
        lemma_find_repo(b, name, acl.len() as int);
    } else {
        if has_repo(b, name) {
            let k = choose|k: int| 0 <= k < b.len() && (#[trigger] b[k]).name == name;
            assert(b[k] == acl[k]);
        }
    }
}

proof fn lemma_without(list: Seq<Seq<char>>, user: Seq<char>, other: Seq<char>)
    ensures
        !without(list, user).contains(user),
        other != user ==> (without(list, user).contains(other) == list.contains(other)),
{
    let f = without(list, user);
    let p = other_than(user);
    if f.contains(user) {
        let k = choose|k: int| 0 <= k < f.len() && f[k] == user;
        list.lemma_filter_pred(p, k);
    }
    if other != user {
        if list.contains(other) {
            let k = choose|k: int| 0 <= k < list.len() && list[k] == other;
            list.lemma_filter_contains(p, k);
        }
        if f.contains(other) {
            list.lemma_filter_contains_rev(p, other);
        }
    }
}

/// A grant gives read access, and write access where asked; write access held
/// before stays.
pub proof fn lemma_grant_gives_access(acl: Seq<RepoAccess>, repo: Seq<char>, user: Seq<char>, write: bool)
    ensures
        allows(after_grant(acl, repo, user, write), repo, user, false),
        allows(after_grant(acl, repo, user, write), repo, user, true) == (write || allows(
            acl,
            repo,
            user,
            true,
        )),
{
    let n = after_grant(acl, repo, user, write);
    if has_repo(acl, repo) {
        let k = choose|k: int| 0 <= k < acl.len() && (#[trigger] acl[k]).name == repo;
        lemma_first_exists(acl, repo, k);
        let i = find_repo(acl, repo);
        lemma_same_names(acl, n, repo);
        let g = granted(acl[i], user, write);
        assert(g.read.contains(user)) by {
            if !acl[i].read.contains(user) {
                assert(g.read[g.read.len() - 1] == user);
            }
        }
        if write {
            assert(g.write.contains(user)) by {
                if !acl[i].write.contains(user) {
                    assert(g.write[g.write.len() - 1] == user);
                }
            }
        } else {
            assert(g.write == acl[i].write);
        }
    } else {
        let r = RepoAccess {
            name: repo,
            read: seq![user],
            write: if write {
                seq![user]
            } else {
                seq![]
            },
        };
        lemma_find_push(acl, r, repo);
        assert(n[acl.len() as int] == r);
        assert(r.read[0] == user);
        if write {
            assert(r.write[0] == user);
        }
    }
}

/// A grant changes the access of no other user and to no other repository.
pub proof fn lemma_grant_keeps_others(
    acl: Seq<RepoAccess>,
    repo: Seq<char>,
    user: Seq<char>,
    write: bool,
    repo2: Seq<char>,
    user2: Seq<char>,
    write2: bool,
)
    requires
        repo2 != repo || user2 != user,
    ensures
        allows(after_grant(acl, repo, user, write), repo2, user2, write2) == allows(
            acl,
            repo2,
            user2,
            write2,
        ),
{
    let n = after_grant(acl, repo, user, write);
    if has_repo(acl, repo) {
        let k = choose|k: int| 0 <= k < acl.len() && (#[trigger] acl[k]).name == repo;
        lemma_first_exists(acl, repo, k);
        let i = find_repo(acl, repo);
        lemma_same_names(acl, n, repo2);
        if has_repo(acl, repo2) {
            let k2 = choose|k: int| 0 <= k < acl.len() && (#[trigger] acl[k]).name == repo2;
            lemma_first_exists(acl, repo2, k2);
            let j = find_repo(acl, repo2);
            if j == i {
                let r = acl[i];
                let g = granted(r, user, write);
                assert(user2 != user);
                assert(g.read.contains(user2) == r.read.contains(user2)) by {
                    if !r.read.contains(user) {
                        if g.read.contains(user2) {
                            let q = choose|q: int| 0 <= q < g.read.len() && g.read[q] == user2;
                            assert(q < r.read.len());
                            assert(r.read[q] == user2);
                        }
                        if r.read.contains(user2) {
                            let q = choose|q: int| 0 <= q < r.read.len() && r.read[q] == user2;
                            assert(g.read[q] == user2);
                        }
                    }
                }
                assert(g.write.contains(user2) == r.write.contains(user2)) by {
                    if write && !r.write.contains(user) {
                        if g.write.contains(user2) {
                            let q = choose|q: int| 0 <= q < g.write.len() && g.write[q] == user2;
                            assert(q < r.write.len());
                            assert(r.write[q] == user2);
                        }
                        if r.write.contains(user2) {
                            let q = choose|q: int| 0 <= q < r.write.len() && r.write[q] == user2;
                            assert(g.write[q] == user2);
                        }
                    }
                }
            }
        }
    } else {
        let r = RepoAccess {
            name: repo,
            read: seq![user],
            write: if write {
                seq![user]
            } else {
                seq![]
            },
        };
        lemma_find_push(acl, r, repo2);
        if has_repo(acl, repo2) {
            let k2 = choose|k: int| 0 <= k < acl.len() && (#[trigger] acl[k]).name == repo2;
            lemma_first_exists(acl, repo2, k2);
        } else if repo2 == repo {
            assert(n[acl.len() as int] == r);
            assert(user2 != user);
            assert(!r.read.contains(user2)) by {
                if r.read.contains(user2) {
                    let q = choose|q: int| 0 <= q < r.read.len() && r.read[q] == user2;
                }
            }
            assert(!r.write.contains(user2)) by {
                if r.write.contains(user2) {
                    let q = choose|q: int| 0 <= q < r.write.len() && r.write[q] == user2;
                }
            }
        }
    }
}

/// Granting the same access twice is the same as granting it once.
pub proof fn lemma_grant_idempotent(acl: Seq<RepoAccess>, repo: Seq<char>, user: Seq<char>, write: bool)
    ensures
        after_grant(after_grant(acl, repo, user, write), repo, user, write) == after_grant(
            acl,
            repo,
            user,
            write,
        ),
{
    let n = after_grant(acl, repo, user, write);
    if has_repo(acl, repo) {
        let k = choose|k: int| 0 <= k < acl.len() && (#[trigger] acl[k]).name == repo;
        lemma_first_exists(acl, repo, k);
        let i = find_repo(acl, repo);
        lemma_same_names(acl, n, repo);
        let g = granted(acl[i], user, write);
        assert(g.read.contains(user)) by {
            if !acl[i].read.contains(user) {
                assert(g.read[g.read.len() - 1] == user);
            }
        }
        if write {
            assert(g.write.contains(user)) by {
                if !acl[i].write.contains(user) {
                    assert(g.write[g.write.len() - 1] == user);
                }
            }
        }
        assert(granted(g, user, write) == g);
        assert(n.update(i, g) =~= n);
    } else {
        let r = RepoAccess {
            name: repo,
            read: seq![user],
            write: if write {
                seq![user]
            } else {
                seq![]
            },
        };
        lemma_find_push(acl, r, repo);
        assert(n[acl.len() as int] == r);
        assert(r.read[0] == user);
        if write {
            assert(r.write[0] == user);
        }
        assert(granted(r, user, write) == r);
        assert(n.update(acl.len() as int, r) =~= n);
    }
}

/// After a revocation the user can neither read nor write the repository.
pub proof fn lemma_revoke_removes_access(acl: Seq<RepoAccess>, repo: Seq<char>, user: Seq<char>, write: bool)
    ensures
        !allows(after_revoke(acl, repo, user), repo, user, write),
{
    let n = after_revoke(acl, repo, user);
    if has_repo(acl, repo) {
        let k = choose|k: int| 0 <= k < acl.len() && (#[trigger] acl[k]).name == repo;
        lemma_first_exists(acl, repo, k);
        let i = find_repo(acl, repo);
        lemma_same_names(acl, n, repo);
        lemma_without(acl[i].read, user, user);
        lemma_without(acl[i].write, user, user);
    }
}

/// A revocation changes the access of no other user and to no other
/// repository.
pub proof fn lemma_revoke_keeps_others(
    acl: Seq<RepoAccess>,
    repo: Seq<char>,
    user: Seq<char>,
    repo2: Seq<char>,
    user2: Seq<char>,
    write2: bool,
)
    requires
        repo2 != repo || user2 != user,
    ensures
        allows(after_revoke(acl, repo, user), repo2, user2, write2) == allows(
            acl,
            repo2,
            user2,
            write2,
        ),
{
    let n = after_revoke(acl, repo, user);
    if has_repo(acl, repo) {
        let k = choose|k: int| 0 <= k < acl.len() && (#[trigger] acl[k]).name == repo;
        lemma_first_exists(acl, repo, k);
        let i = find_repo(acl, repo);
        lemma_same_names(acl, n, repo2);
        if has_repo(acl, repo2) {
            let k2 = choose|k: int| 0 <= k < acl.len() && (#[trigger] acl[k]).name == repo2;
            lemma_first_exists(acl, repo2, k2);
            if find_repo(acl, repo2) == i {
                lemma_without(acl[i].read, user, user2);
                lemma_without(acl[i].write, user, user2);
            }
        }
    }
}

proof fn lemma_has_find(acl: Seq<RepoAccess>, name: Seq<char>)
    requires
        has_repo(acl, name),
    ensures
        is_first_repo(acl, name, find_repo(acl, name)),
{
    let k = choose|k: int| 0 <= k < acl.len() && (#[trigger] acl[k]).name == name;
    lemma_first_exists(acl, name, k);
}

proof fn lemma_remove_find(acl: Seq<RepoAccess>, repo: Seq<char>, repo2: Seq<char>)
    requires
        repo2 != repo,
    ensures
        has_repo(after_remove(acl, repo), repo2) == has_repo(acl, repo2),
        has_repo(acl, repo2) ==> after_remove(acl, repo)[find_repo(after_remove(acl, repo), repo2)]
            == acl[find_repo(acl, repo2)],
    decreases acl.len(),
{
    reveal_with_fuel(Seq::<_>::filter, 1);
    let n = after_remove(acl, repo);
    if acl.len() == 0 {
        assert(n.len() == 0);
    } else {
        let a = acl.drop_last();
        let r = acl.last();
        let m = after_remove(a, repo);
        lemma_remove_find(a, repo, repo2);
        assert(acl =~= a.push(r));
        lemma_find_push(a, r, repo2);
        if has_repo(a, repo2) {
            lemma_has_find(a, repo2);
            lemma_has_find(m, repo2);
        }
        if r.name != repo {
            assert(n == m.push(r));
            lemma_find_push(m, r, repo2);
        } else {
            assert(n == m);
        }
    }
}

/// After a repository is removed nobody has access to it, and access to
/// every other repository is as before.
pub proof fn lemma_remove_repo(
    acl: Seq<RepoAccess>,
    repo: Seq<char>,
    repo2: Seq<char>,
    user: Seq<char>,
    write: bool,
)
    ensures
        !allows(after_remove(acl, repo), repo, user, write),
        repo2 != repo ==> allows(after_remove(acl, repo), repo2, user, write) == allows(
            acl,
            repo2,
            user,
            write,
        ),
{
    let n = after_remove(acl, repo);
    if has_repo(n, repo) {
        let k = choose|k: int| 0 <= k < n.len() && (#[trigger] n[k]).name == repo;
        acl.lemma_filter_pred(not_named(repo), k);
    }
    if repo2 != repo {
        lemma_remove_find(acl, repo, repo2);
    }
}


/// No list of any record names a user twice.
pub open spec fn lists_without_repeats(acl: Seq<RepoAccess>) -> bool {
    forall|i: int| 0 <= i < acl.len() ==> (#[trigger] acl[i]).read.no_duplicates()
        && acl[i].write.no_duplicates()
}

proof fn lemma_push_new_keeps_unique(list: Seq<Seq<char>>, user: Seq<char>)
    requires
        list.no_duplicates(),
        !list.contains(user),
    ensures
        list.push(user).no_duplicates(),
{
    let p = list.push(user);
    assert forall|j: int, k: int| 0 <= j < p.len() && 0 <= k < p.len() && j != k implies p[j]
        != p[k] by {
        if j == list.len() {
            assert(p[k] == list[k]);
        } else if k == list.len() {
            assert(p[j] == list[j]);
        }
    }
}

/// Grants never list a user twice.
pub proof fn lemma_grant_keeps_lists_unique(
    acl: Seq<RepoAccess>,
    repo: Seq<char>,
    user: Seq<char>,
    write: bool,
)
    requires
        lists_without_repeats(acl),
    ensures
        lists_without_repeats(after_grant(acl, repo, user, write)),
{
    let n = after_grant(acl, repo, user, write);
    if has_repo(acl, repo) {
        let k = choose|k: int| 0 <= k < acl.len() && (#[trigger] acl[k]).name == repo;
        lemma_first_exists(acl, repo, k);
        let i = find_repo(acl, repo);
        let r = acl[i];
        assert(r.read.no_duplicates() && r.write.no_duplicates());
        if !r.read.contains(user) {
            lemma_push_new_keeps_unique(r.read, user);
        }
        if write && !r.write.contains(user) {
            lemma_push_new_keeps_unique(r.write, user);
        }
        assert forall|j: int| 0 <= j < n.len() implies (#[trigger] n[j]).read.no_duplicates()
            && n[j].write.no_duplicates() by {
            if j != i {
                assert(n[j] == acl[j]);
            }
        }
    } else {
        assert forall|j: int| 0 <= j < n.len() implies (#[trigger] n[j]).read.no_duplicates()
            && n[j].write.no_duplicates() by {
            if j < acl.len() {
                assert(n[j] == acl[j]);
            }
        }
    }
}


/// The records have distinct names.
pub open spec fn names_distinct(acl: Seq<RepoAccess>) -> bool {
    forall|i: int, j: int|
        0 <= i < acl.len() && 0 <= j < acl.len() && i != j ==> (#[trigger] acl[i]).name != (
        #[trigger] acl[j]).name
}

/// Every user who may write a repository is also listed as a reader.
pub open spec fn writers_read(acl: Seq<RepoAccess>) -> bool {
    forall|i: int, u: Seq<char>|
        0 <= i < acl.len() && #[trigger] acl[i].write.contains(u) ==> acl[i].read.contains(u)
}

/// The shape that grants and revocations keep: one record per repository,
/// no user listed twice, and writers listed as readers.
pub open spec fn well_kept(acl: Seq<RepoAccess>) -> bool {
    names_distinct(acl) && lists_without_repeats(acl) && writers_read(acl)
}

proof fn lemma_without_unique(list: Seq<Seq<char>>, user: Seq<char>)
    requires
        list.no_duplicates(),
    ensures
        without(list, user).no_duplicates(),
    decreases list.len(),
{
    reveal_with_fuel(Seq::<_>::filter, 1);
    if list.len() > 0 {
        let a = list.drop_last();
        assert(a.no_duplicates()) by {
            assert forall|j: int, k: int| 0 <= j < a.len() && 0 <= k < a.len() && j != k implies a[j]
                != a[k] by {
                assert(a[j] == list[j] && a[k] == list[k]);
            }
        }
        lemma_without_unique(a, user);
        let x = list.last();
        if x != user {
            assert(!without(a, user).contains(x)) by {
                if without(a, user).contains(x) {
                    a.lemma_filter_contains_rev(other_than(user), x);
                    let k = choose|k: int| 0 <= k < a.len() && a[k] == x;
                    assert(list[k] == list[list.len() - 1]);
                }
            }
            lemma_push_new_keeps_unique(without(a, user), x);
        }
    }
}

proof fn lemma_without_absent(list: Seq<Seq<char>>, user: Seq<char>)
    requires
        !list.contains(user),
    ensures
        without(list, user) == list,
    decreases list.len(),
{
    reveal_with_fuel(Seq::<_>::filter, 1);
    if list.len() > 0 {
        let a = list.drop_last();
        assert(!a.contains(user)) by {
            if a.contains(user) {
                let k = choose|k: int| 0 <= k < a.len() && a[k] == user;
                assert(list[k] == user);
            }
        }
        lemma_without_absent(a, user);
        assert(list.last() != user);
        assert(a.push(list.last()) =~= list);
    }
}

/// Grants keep the access list well kept.
pub proof fn lemma_grant_keeps_shape(acl: Seq<RepoAccess>, repo: Seq<char>, user: Seq<char>, write: bool)
    requires
        well_kept(acl),
    ensures
        well_kept(after_grant(acl, repo, user, write)),
{
    lemma_grant_keeps_lists_unique(acl, repo, user, write);
    let n = after_grant(acl, repo, user, write);
    if has_repo(acl, repo) {
        let k = choose|k: int| 0 <= k < acl.len() && (#[trigger] acl[k]).name == repo;
        lemma_first_exists(acl, repo, k);
        let i = find_repo(acl, repo);
        let r = acl[i];
        let g = granted(r, user, write);
        assert forall|j: int, q: int| 0 <= j < n.len() && 0 <= q < n.len() && j != q implies (
        #[trigger] n[j]).name != (#[trigger] n[q]).name by {
            assert(n[j].name == acl[j].name && n[q].name == acl[q].name);
        }
        assert forall|j: int, u: Seq<char>| 0 <= j < n.len() && #[trigger] n[j].write.contains(
            u,
        ) implies n[j].read.contains(u) by {
            if j == i {
                if r.write.contains(u) {
                    assert(r.read.contains(u));
                    if !r.read.contains(user) {
                        let q = choose|q: int| 0 <= q < r.read.len() && r.read[q] == u;
                        assert(g.read[q] == u);
                    }
                } else {
                    assert(u == user) by {
                        let q = choose|q: int| 0 <= q < g.write.len() && g.write[q] == u;
                        if q < r.write.len() {
                            assert(r.write[q] == u);
                        }
                    }
                    if !r.read.contains(user) {
                        assert(g.read[g.read.len() - 1] == user);
                    }
                }
            } else {
                assert(n[j] == acl[j]);
            }
        }
    } else {
        assert forall|j: int, q: int| 0 <= j < n.len() && 0 <= q < n.len() && j != q implies (
        #[trigger] n[j]).name != (#[trigger] n[q]).name by {
            if j == acl.len() {
                assert(acl[q].name != repo);
            } else if q == acl.len() {
                assert(acl[j].name != repo);
            } else {
                assert(n[j] == acl[j] && n[q] == acl[q]);
            }
        }
        assert forall|j: int, u: Seq<char>| 0 <= j < n.len() && #[trigger] n[j].write.contains(
            u,
        ) implies n[j].read.contains(u) by {
            if j == acl.len() {
                let q = choose|q: int| 0 <= q < n[j].write.len() && n[j].write[q] == u;
                assert(u == user);
                assert(n[j].read[0] == user);
            } else {
                assert(n[j] == acl[j]);
            }
        }
    }
}

/// Revocations keep the access list well kept.
pub proof fn lemma_revoke_keeps_shape(acl: Seq<RepoAccess>, repo: Seq<char>, user: Seq<char>)
    requires
        well_kept(acl),
    ensures
        well_kept(after_revoke(acl, repo, user)),
{
    let n = after_revoke(acl, repo, user);
    if has_repo(acl, repo) {
        let k = choose|k: int| 0 <= k < acl.len() && (#[trigger] acl[k]).name == repo;
        lemma_first_exists(acl, repo, k);
        let i = find_repo(acl, repo);
        let r = acl[i];
        assert(r.read.no_duplicates() && r.write.no_duplicates());
        lemma_without_unique(r.read, user);
        lemma_without_unique(r.write, user);
        assert forall|j: int, q: int| 0 <= j < n.len() && 0 <= q < n.len() && j != q implies (
        #[trigger] n[j]).name != (#[trigger] n[q]).name by {
            assert(n[j].name == acl[j].name && n[q].name == acl[q].name);
        }
        assert forall|j: int| 0 <= j < n.len() implies (#[trigger] n[j]).read.no_duplicates()
            && n[j].write.no_duplicates() by {
            if j != i {
                assert(n[j] == acl[j]);
            }
        }
        assert forall|j: int, u: Seq<char>| 0 <= j < n.len() && #[trigger] n[j].write.contains(
            u,
        ) implies n[j].read.contains(u) by {
            if j == i {
                lemma_without(r.write, user, u);
                lemma_without(r.read, user, u);
                assert(r.write.contains(u));
                assert(r.read.contains(u));
            } else {
                assert(n[j] == acl[j]);
            }
        }
    }
}

/// Revoking access that a grant has just given to a user who was in neither
/// list of the repository's record gives back the list as it was.
pub proof fn lemma_revoke_undoes_grant(acl: Seq<RepoAccess>, repo: Seq<char>, user: Seq<char>, write: bool)
    requires
        has_repo(acl, repo),
        !acl[find_repo(acl, repo)].read.contains(user),
        !acl[find_repo(acl, repo)].write.contains(user),
    ensures
        after_revoke(after_grant(acl, repo, user, write), repo, user) == acl,
{
    let k = choose|k: int| 0 <= k < acl.len() && (#[trigger] acl[k]).name == repo;
    lemma_first_exists(acl, repo, k);
    let i = find_repo(acl, repo);
    let r = acl[i];
    let n = after_grant(acl, repo, user, write);
    lemma_same_names(acl, n, repo);
    let g = granted(r, user, write);
    let p = other_than(user);
    r.read.lemma_filter_push(user, p);
    r.write.lemma_filter_push(user, p);
    lemma_without_absent(r.read, user);
    lemma_without_absent(r.write, user);
    assert(without(g.read, user) == r.read);
    assert(without(g.write, user) == r.write);
    assert(n.update(i, RepoAccess { name: g.name, read: without(g.read, user), write: without(g.write, user) }) =~= acl);
}

} // verus!
