//! The repository browser: the entries, commits and previews it shows, and
//! how the server's replies are read into them.

use vstd::prelude::*;
use vstd::prelude::View as VstdView;
use vstd::string::StringExecFns;
use vstd::utf8::{decode_utf8, encode_utf8, is_char_boundary};
use crate::text::{
    concat, ends_with, has_suffix, last_index, lines, lines_of, split_n,
    split_whitespace, splitn, str_eq, views, words,
};

verus! {

broadcast use vstd::string::group_string_axioms;

/// The kind of a listed entry.
#[derive(Clone, Copy, Debug, PartialEq, Eq, Structural)]
pub enum EntryType {
    Dir,
    File,
    UpDir,
}

/// An entry of a directory listing.
#[derive(Clone, Debug)]
pub struct Entry {
    pub name: String,
    pub typ: EntryType,
}

/// A commit of the log.
#[derive(Clone, Debug)]
pub struct Commit {
    pub hash: String,
    pub author: String,
    pub date: String,
    pub message: String,
}

/// What the left panel shows.
#[derive(Clone, Copy, Debug, PartialEq, Eq, Structural)]
pub enum View {
    Files,
    Commits,
}

/// The panel that has the focus.
#[derive(Clone, Copy, Debug, PartialEq, Eq, Structural)]
pub enum Panel {
    Left,
    Right,
}

/// A request to the background fetcher.
#[derive(Debug)]
pub enum Msg {
    /// A file of a repository, by path.
    FetchFile(String, String),
    /// A directory of a repository, by path.
    FetchDir(String, String),
    /// The commit log of a repository.
    FetchCommits(String),
    /// One commit of a repository, by hash.
    FetchCommitDiff(String, String),
    /// Stop fetching.
    Quit,
}

/// [`Entry`] as plain values.
pub struct EntryView {
    pub name: Seq<char>,
    pub typ: EntryType,
}

/// [`Commit`] as plain values.
pub struct CommitView {
    pub hash: Seq<char>,
    pub author: Seq<char>,
    pub date: Seq<char>,
    pub message: Seq<char>,
}

/// [`Msg`] as plain values.
pub enum MsgView {
    FetchFile(Seq<char>, Seq<char>),
    FetchDir(Seq<char>, Seq<char>),
    FetchCommits(Seq<char>),
    FetchCommitDiff(Seq<char>, Seq<char>),
    Quit,
}

impl VstdView for Entry {
    type V = EntryView;

    open spec fn view(&self) -> EntryView {
        EntryView { name: self.name@, typ: self.typ }
    }
}

impl VstdView for Commit {
    type V = CommitView;

    open spec fn view(&self) -> CommitView {
        CommitView {
            hash: self.hash@,
            author: self.author@,
            date: self.date@,
            message: self.message@,
        }
    }
}

impl VstdView for Msg {
    type V = MsgView;

    open spec fn view(&self) -> MsgView {
        match self {
            Msg::FetchFile(r, p) => MsgView::FetchFile(r@, p@),
            Msg::FetchDir(r, p) => MsgView::FetchDir(r@, p@),
            Msg::FetchCommits(r) => MsgView::FetchCommits(r@),
            Msg::FetchCommitDiff(r, h) => MsgView::FetchCommitDiff(r@, h@),
            Msg::Quit => MsgView::Quit,
        }
    }
}

/// The views of a list of entries.
pub open spec fn entry_views(v: Seq<Entry>) -> Seq<EntryView> {
    v.map_values(|e: Entry| e@)
}

/// The views of a list of commits.
pub open spec fn commit_views(v: Seq<Commit>) -> Seq<CommitView> {
    v.map_values(|c: Commit| c@)
}

/// The entry that one line of a `giss-tui-ls` reply stands for: `<type>
/// <name>`, where the type `tree` marks a directory; `.` and `..` are
/// skipped.
pub open spec fn listed_entry(line: Seq<char>) -> Option<EntryView> {
    let parts = splitn(line, 2, ' ');
    if parts.len() == 2 && parts[1] != "."@ && parts[1] != ".."@ {
        Some(
            EntryView {
                name: parts[1],
                typ: if parts[0] == "tree"@ {
                    EntryType::Dir
                } else {
                    EntryType::File
                },
            },
        )
    } else {
        None
    }
}

/// The entries of a `giss-tui-ls` reply made of `lines`, in order.
pub open spec fn listed_entries(lines: Seq<Seq<char>>) -> Seq<EntryView>
    decreases lines.len(),
{
    if lines.len() == 0 {
        seq![]
    } else {
        let before = listed_entries(lines.drop_last());
        match listed_entry(lines.last()) {
            Some(e) => before.push(e),
            None => before,
        }
    }
}

/// The commit that one line of a `giss-tui-log` reply stands for:
/// `<hash>|<author>|<date>|<message>`, the message keeping any further `|`.
pub open spec fn logged_commit(line: Seq<char>) -> Option<CommitView> {
    let parts = splitn(line, 4, '|');
    if parts.len() == 4 {
        Some(CommitView { hash: parts[0], author: parts[1], date: parts[2], message: parts[3] })
    } else {
        None
    }
}

/// The commits of a `giss-tui-log` reply made of `lines`, in order.
pub open spec fn logged_commits(lines: Seq<Seq<char>>) -> Seq<CommitView>
    decreases lines.len(),
{
    if lines.len() == 0 {
        seq![]
    } else {
        let before = logged_commits(lines.drop_last());
        match logged_commit(lines.last()) {
            Some(c) => before.push(c),
            None => before,
        }
    }
}

/// The repository names of a `giss-list` reply made of `lines`: the second
/// word of each line that has one.
pub open spec fn listed_repos(lines: Seq<Seq<char>>) -> Seq<Seq<char>>
    decreases lines.len(),
{
    if lines.len() == 0 {
        seq![]
    } else {
        let before = listed_repos(lines.drop_last());
        let w = words(lines.last());
        if w.len() > 1 {
            before.push(w[1])
        } else {
            before
        }
    }
}

/// The path of `name` inside the directory `dir`; the top directory is empty.
pub open spec fn joined_path(dir: Seq<char>, name: Seq<char>) -> Seq<char> {
    if dir.len() == 0 {
        name
    } else {
        dir + "/"@ + name
    }
}

/// The directory above `path`: what precedes its last slash, or the top.
pub open spec fn parent_of(path: Seq<char>) -> Seq<char> {
    if path.contains('/') {
        path.take(last_index(path, '/'))
    } else {
        seq![]
    }
}

/// The preview line of one entry of a directory: `>` marks directories.
pub open spec fn dir_line(e: EntryView) -> Seq<char> {
    (if e.typ == EntryType::Dir {
        ">"@
    } else {
        " "@
    }) + " "@ + e.name
}

/// The preview of a directory with the entries `es`.
pub open spec fn dir_preview(es: Seq<EntryView>) -> Seq<Seq<char>> {
    if es.len() == 0 {
        seq!["Empty directory"@]
    } else {
        es.map_values(|e: EntryView| dir_line(e))
    }
}

/// The line that shows an entry in the file list.
pub open spec fn entry_line(e: EntryView) -> Seq<char> {
    (match e.typ {
        EntryType::Dir => ">"@,
        EntryType::File => " "@,
        EntryType::UpDir => ".."@,
    }) + " "@ + e.name
}

/// The first seven bytes of `hash`, as characters.
pub open spec fn short_hash(hash: Seq<char>) -> Seq<char> {
    decode_utf8(encode_utf8(hash).take(7))
}

/// The line that shows a commit in the log list.
pub open spec fn commit_line(c: CommitView) -> Seq<char> {
    short_hash(c.hash) + " ["@ + c.date + "] "@ + c.author + " - "@ + c.message
}

/// What follows the last dot of `path`, or all of it where it has none.
pub open spec fn last_segment(path: Seq<char>) -> Seq<char> {
    if path.contains('.') {
        path.skip(last_index(path, '.') + 1)
    } else {
        path
    }
}

/// The extension by which the highlighter picks a syntax for `path`.
pub open spec fn syntax_ext(path: Seq<char>) -> Seq<char> {
    if ends_with(path, ".diff"@) || last_segment(path) == "diff"@ {
        "diff"@
    } else {
        last_segment(path)
    }
}

/// The server command that fetches what `m` asks for; `Quit` fetches
/// nothing.
pub open spec fn fetch_command(m: MsgView) -> Option<Seq<char>> {
    match m {
        MsgView::FetchDir(repo, path) => Some("giss-tui-ls "@ + repo + " "@ + path),
        MsgView::FetchFile(repo, path) => Some("giss-tui-show "@ + repo + " "@ + path),
        MsgView::FetchCommits(repo) => Some("giss-tui-log "@ + repo),
        MsgView::FetchCommitDiff(repo, hash) => Some("giss-tui-commit-show "@ + repo + " "@ + hash),
        MsgView::Quit => None,
    }
}

proof fn lemma_splitn_len(s: Seq<char>, n: nat, c: char)
    ensures
        splitn(s, n, c).len() >= 1,
    decreases n,
{
    if n > 1 && s.contains(c) {
        let i = crate::text::first_index(s, c);
        lemma_splitn_len(s.skip(i + 1), (n - 1) as nat, c);
    }
}

/// A copy of `s`.
fn copy_string(s: &String) -> (r: String)
    ensures
        r@ == s@,
{
    String::from_str(s.as_str())
}

/// A copy of the entry `e`.
pub fn copy_entry(e: &Entry) -> (r: Entry)
    ensures
        r@ == e@,
{
    Entry { name: copy_string(&e.name), typ: e.typ }
}

/// A copy of the entries `v`.
pub fn copy_entries(v: &Vec<Entry>) -> (r: Vec<Entry>)
    ensures
        entry_views(r@) == entry_views(v@),
{
    let n = v.len();
    let mut r: Vec<Entry> = Vec::new();
    for i in 0..n
        invariant
            n == v@.len(),
            entry_views(r@) == entry_views(v@).take(i as int),
    {
        let ghost before = r@;
        let e = copy_entry(&v[i]);
        r.push(e);
        assert(entry_views(r@) =~= entry_views(before).push(e@));
        assert(entry_views(v@).take(i + 1) =~= entry_views(v@).take(i as int).push(v@[i as int]@));
    }
    assert(entry_views(v@).take(n as int) =~= entry_views(v@));
    r
}

/// The entries of the `giss-tui-ls` reply `out`.
pub fn parse_entries(out: &str) -> (r: Vec<Entry>)
    ensures
        entry_views(r@) == listed_entries(lines(out@)),
{
    let ls = lines_of(out);
    let n = ls.len();
    let ghost all = views(ls@);
    let mut r: Vec<Entry> = Vec::new();
    for i in 0..n
        invariant
            n == ls@.len(),
            all == views(ls@),
            all == lines(out@),
            entry_views(r@) == listed_entries(all.take(i as int)),
    {
        proof {
            assert(all.take(i + 1).drop_last() =~= all.take(i as int));
            assert(all.take(i + 1).last() == ls@[i as int]@);
            lemma_splitn_len(ls@[i as int]@, 2, ' ');
        }
        let parts = split_n(ls[i].as_str(), 2, ' ');
        if parts.len() == 2 {
            proof {
                assert(views(parts@)[0] == parts@[0]@);
                assert(views(parts@)[1] == parts@[1]@);
            }
            let name = parts[1].as_str();
            if !str_eq(name, ".") && !str_eq(name, "..") {
                let typ = if str_eq(parts[0].as_str(), "tree") {
                    EntryType::Dir
                } else {
                    EntryType::File
                };
                let e = Entry { name: String::from_str(name), typ };
                let ghost before = r@;
                r.push(e);
                assert(entry_views(r@) =~= entry_views(before).push(e@));
            }
        }
    }
    assert(all.take(n as int) =~= all);
    r
}

/// The commits of the `giss-tui-log` reply `out`.
pub fn parse_commits(out: &str) -> (r: Vec<Commit>)
    ensures
        commit_views(r@) == logged_commits(lines(out@)),
{
    let ls = lines_of(out);
    let n = ls.len();
    let ghost all = views(ls@);
    let mut r: Vec<Commit> = Vec::new();
    for i in 0..n
        invariant
            n == ls@.len(),
            all == views(ls@),
            all == lines(out@),
            commit_views(r@) == logged_commits(all.take(i as int)),
    {
        proof {
            assert(all.take(i + 1).drop_last() =~= all.take(i as int));
            assert(all.take(i + 1).last() == ls@[i as int]@);
        }
        let parts = split_n(ls[i].as_str(), 4, '|');
        if parts.len() == 4 {
            proof {
                assert(views(parts@)[0] == parts@[0]@);
                assert(views(parts@)[1] == parts@[1]@);
                assert(views(parts@)[2] == parts@[2]@);
                assert(views(parts@)[3] == parts@[3]@);
            }
            let c = Commit {
                hash: copy_string(&parts[0]),
                author: copy_string(&parts[1]),
                date: copy_string(&parts[2]),
                message: copy_string(&parts[3]),
            };
            let ghost before = r@;
            r.push(c);
            assert(commit_views(r@) =~= commit_views(before).push(c@));
        }
    }
    assert(all.take(n as int) =~= all);
    r
}

/// The repository names of the `giss-list` reply `out`.
pub fn parse_repo_list(out: &str) -> (r: Vec<String>)
    ensures
        views(r@) == listed_repos(lines(out@)),
{
    let ls = lines_of(out);
    let n = ls.len();
    let ghost all = views(ls@);
    let mut r: Vec<String> = Vec::new();
    for i in 0..n
        invariant
            n == ls@.len(),
            all == views(ls@),
            all == lines(out@),
            views(r@) == listed_repos(all.take(i as int)),
    {
        proof {
            assert(all.take(i + 1).drop_last() =~= all.take(i as int));
            assert(all.take(i + 1).last() == ls@[i as int]@);
        }
        let w = split_whitespace(ls[i].as_str());
        if w.len() > 1 {
            proof {
                assert(views(w@)[1] == w@[1]@);
            }
            let name = copy_string(&w[1]);
            let ghost before = r@;
            r.push(name);
            assert(views(r@) =~= views(before).push(name@));
        }
    }
    assert(all.take(n as int) =~= all);
    r
}

/// The path of `name` inside the directory `dir`.
pub fn join_path(dir: &str, name: &str) -> (r: String)
    ensures
        r@ == joined_path(dir@, name@),
{
    if dir.is_empty() {
        String::from_str(name)
    } else {
        let a = concat(dir, "/");
        concat(a.as_str(), name)
    }
}

/// The directory above `path`.
pub fn parent_path(path: &str) -> (r: String)
    ensures
        r@ == parent_of(path@),
{
    match crate::text::rsplit_once(path, '/') {
        Some((parent, _)) => parent,
        None => String::new(),
    }
}

/// The preview lines of a directory with the entries `es`.
pub fn dir_preview_lines(es: &Vec<Entry>) -> (r: Vec<String>)
    ensures
        views(r@) == dir_preview(entry_views(es@)),
{
    let n = es.len();
    let mut r: Vec<String> = Vec::new();
    if n == 0 {
        r.push(String::from_str("Empty directory"));
        assert(views(r@) =~= seq!["Empty directory"@]);
        return r;
    }
    let ghost all = entry_views(es@);
    for i in 0..n
        invariant
            n == es@.len(),
            all == entry_views(es@),
            views(r@) == all.take(i as int).map_values(|e: EntryView| dir_line(e)),
    {
        let e = &es[i];
        let icon = match e.typ {
            EntryType::Dir => ">",
            _ => " ",
        };
        let a = concat(icon, " ");
        let line = concat(a.as_str(), e.name.as_str());
        assert(line@ == dir_line(all[i as int]));
        let ghost before = r@;
        r.push(line);
        assert(views(r@) =~= views(before).push(line@));
        assert(all.take(i + 1).map_values(|e: EntryView| dir_line(e)) =~= all.take(i as int).map_values(
            |e: EntryView| dir_line(e),
        ).push(dir_line(all[i as int])));
    }
    assert(all.take(n as int) =~= all);
    r
}

/// The line that shows `e` in the file list.
pub fn entry_label(e: &Entry) -> (r: String)
    ensures
        r@ == entry_line(e@),
{
    let icon = match e.typ {
        EntryType::Dir => ">",
        EntryType::File => " ",
        EntryType::UpDir => "..",
    };
    let a = concat(icon, " ");
    concat(a.as_str(), e.name.as_str())
}

/// The line that shows `c` in the log list. The hash is cut after its
/// seventh byte, which must end a character.
pub fn commit_label(c: &Commit) -> (r: String)
    requires
        is_char_boundary(encode_utf8(c.hash@), 7),
    ensures
        r@ == commit_line(c@),
{
    let (head, _) = c.hash.as_str().split_at(7);
    proof {
        vstd::utf8::encode_utf8_decode_utf8(head@);
    }
    let a = concat(head, " [");
    let b = concat(a.as_str(), c.date.as_str());
    let d = concat(b.as_str(), "] ");
    let e = concat(d.as_str(), c.author.as_str());
    let f = concat(e.as_str(), " - ");
    concat(f.as_str(), c.message.as_str())
}

/// The extension by which the highlighter picks a syntax for `path`.
pub fn syntax_extension(path: &str) -> (r: String)
    ensures
        r@ == syntax_ext(path@),
{
    let last = match crate::text::rsplit_once(path, '.') {
        Some((_, after)) => after,
        None => String::from_str(path),
    };
    if has_suffix(path, ".diff") || str_eq(last.as_str(), "diff") {
        String::from_str("diff")
    } else {
        last
    }
}

impl Msg {
    /// The server command that fetches what this request asks for.
    pub fn command(&self) -> (r: Option<String>)
        ensures
            r is Some <==> fetch_command(self@) is Some,
            r matches Some(c) ==> fetch_command(self@) == Some(c@),
    {
        match self {
            Msg::FetchDir(repo, path) => {
                let a = concat("giss-tui-ls ", repo.as_str());
                let b = concat(a.as_str(), " ");
                Some(concat(b.as_str(), path.as_str()))
            },
            Msg::FetchFile(repo, path) => {
                let a = concat("giss-tui-show ", repo.as_str());
                let b = concat(a.as_str(), " ");
                Some(concat(b.as_str(), path.as_str()))
            },
            Msg::FetchCommits(repo) => Some(concat("giss-tui-log ", repo.as_str())),
            Msg::FetchCommitDiff(repo, hash) => {
                let a = concat("giss-tui-commit-show ", repo.as_str());
                let b = concat(a.as_str(), " ");
                Some(concat(b.as_str(), hash.as_str()))
            },
            Msg::Quit => None,
        }
    }

    /// Whether this request stops the fetcher.
    pub fn is_quit(&self) -> (r: bool)
        ensures
            r == (self@ is Quit),
    {
        match self {
            Msg::Quit => true,
            _ => false,
        }
    }
}

/// The title of the left panel while a repository is open.
pub open spec fn title_line(view: View, repo: Seq<char>, path: Seq<char>) -> Seq<char> {
    "["@ + (if view == View::Files {
        "Files"@
    } else {
        "Commits"@
    }) + "] "@ + repo + " ("@ + path + ")"@
}

/// The title of the left panel: the view, the repository and the path.
pub fn panel_title(view: View, repo: &str, path: &str) -> (r: String)
    ensures
        r@ == title_line(view, repo@, path@),
{
    let name = match view {
        View::Files => "Files",
        View::Commits => "Commits",
    };
    let a = concat("[", name);
    let b = concat(a.as_str(), "] ");
    let c = concat(b.as_str(), repo);
    let d = concat(c.as_str(), " (");
    let e = concat(d.as_str(), path);
    concat(e.as_str(), ")")
}

/// The views of a list of requests.
pub open spec fn msg_views(v: Seq<Msg>) -> Seq<MsgView> {
    v.map_values(|m: Msg| m@)
}

/// The request that the fetcher serves after `received` came in, the first
/// waited for and the others already queued: it stops where a queued request
/// asks it to, else it serves the latest request, unless that one asks it to
/// stop.
pub open spec fn latest(received: Seq<MsgView>) -> Option<MsgView> {
    if exists|i: int| 1 <= i < received.len() && (#[trigger] received[i]) is Quit {
        None
    } else if received.last() is Quit {
        None
    } else {
        Some(received.last())
    }
}

/// Picks the request that the fetcher serves from the requests `received`,
/// the first of them waited for and the others already queued.
pub fn latest_request(received: Vec<Msg>) -> (r: Option<Msg>)
    requires
        received@.len() > 0,
    ensures
        match r {
            Some(m) => latest(msg_views(received@)) == Some(m@),
            None => latest(msg_views(received@)) is None,
        },
{
    let ghost all = msg_views(received@);
    let mut msgs = received;
    let n = msgs.len();
    for i in 1..n
        invariant
            n == msgs@.len(),
            all == msg_views(msgs@),
            all == msg_views(received@),
            forall|j: int| 1 <= j < i ==> !(#[trigger] all[j] is Quit),
    {
        if msgs[i].is_quit() {
            assert(all[i as int] == msgs@[i as int]@);
            assert(all[i as int] is Quit);
            return None;
        }
    }
    assert(all.last() == msgs@[n - 1]@);
    let last = msgs.pop();
    match last {
        Some(m) => {
            if m.is_quit() {
                None
            } else {
                Some(m)
            }
        },
        None => None,
    }
}

} // verus!
