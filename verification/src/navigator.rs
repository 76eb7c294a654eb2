//! The state of the repository browser and how each key, each selection
//! and each reply of the fetcher changes it.
//!
//! Every operation returns the [`Action`]s that it asks of its caller, in
//! order: requests for the background fetcher, and directory listings that
//! the caller runs at once, handing the reply to [`App::listing_loaded`]
//! and performing what that returns before the remaining actions.

use vstd::prelude::*;
use vstd::prelude::View as VstdView;
use vstd::string::StringExecFns;
use vstd::utf8::{encode_utf8, is_char_boundary};
use crate::browser::{
    commit_label, commit_line, entry_label, entry_line, panel_title, title_line, copy_entries, copy_entry, dir_preview, dir_preview_lines, entry_views, commit_views,
    join_path, joined_path, listed_entries, parent_of, parent_path, parse_entries, Commit,
    CommitView, Entry, EntryType, EntryView, Msg, MsgView, Panel, View,
};
use crate::text::{concat, lines, str_eq, vec_contains, views};

verus! {

broadcast use vstd::string::group_string_axioms;

/// What the right panel shows.
#[derive(Debug)]
pub enum Preview {
    /// Plain lines, such as a message or a directory preview.
    Text(Vec<String>),
    /// The highlighted file at this path, as the fetcher delivered it.
    File(String),
    /// The highlighted diff of the commit with this hash.
    Diff(String),
}

/// [`Preview`] as plain values.
pub enum PreviewView {
    Text(Seq<Seq<char>>),
    File(Seq<char>),
    Diff(Seq<char>),
}

/// What an operation asks of its caller.
#[derive(Debug)]
pub enum Action {
    /// Hand this request to the background fetcher.
    Send(Msg),
    /// Run this server command now and hand its reply to
    /// [`App::listing_loaded`].
    List(String),
}

/// [`Action`] as plain values.
pub enum ActionView {
    Send(MsgView),
    List(Seq<char>),
}

/// A key press, as far as the browser tells keys apart.
#[derive(Clone, Copy, Debug)]
pub enum Key {
    Char(char),
    Tab,
    Right,
    Left,
    Backspace,
    Down,
    Up,
    Enter,
    Esc,
    Other,
}

/// The browser's state.
pub struct App {
    pub repos: Vec<String>,
    pub repo_selected: Option<usize>,
    pub current_repo: Option<String>,
    pub current_path: String,
    pub entries: Vec<Entry>,
    pub entry_selected: Option<usize>,
    pub commits: Vec<Commit>,
    pub commit_selected: Option<usize>,
    pub preview: Preview,
    /// Directory listings already fetched, by path.
    pub dir_cache: Vec<(String, Vec<Entry>)>,
    /// The paths of the files whose highlighted text the caller holds.
    pub file_cache: Vec<String>,
    /// The hashes of the commits whose highlighted diff the caller holds.
    pub diff_cache: Vec<String>,
    pub view: View,
    pub active_panel: Panel,
    pub scroll: u16,
}

/// [`App`] as plain values.
pub struct AppState {
    pub repos: Seq<Seq<char>>,
    pub repo_selected: Option<usize>,
    pub current_repo: Option<Seq<char>>,
    pub current_path: Seq<char>,
    pub entries: Seq<EntryView>,
    pub entry_selected: Option<usize>,
    pub commits: Seq<CommitView>,
    pub commit_selected: Option<usize>,
    pub preview: PreviewView,
    pub dir_cache: Seq<(Seq<char>, Seq<EntryView>)>,
    pub file_cache: Seq<Seq<char>>,
    pub diff_cache: Seq<Seq<char>>,
    pub view: View,
    pub active_panel: Panel,
    pub scroll: u16,
}

impl VstdView for Preview {
    type V = PreviewView;

    open spec fn view(&self) -> PreviewView {
        match self {
            Preview::Text(v) => PreviewView::Text(views(v@)),
            Preview::File(p) => PreviewView::File(p@),
            Preview::Diff(h) => PreviewView::Diff(h@),
        }
    }
}

impl VstdView for Action {
    type V = ActionView;

    open spec fn view(&self) -> ActionView {
        match self {
            Action::Send(m) => ActionView::Send(m@),
            Action::List(c) => ActionView::List(c@),
        }
    }
}

/// The views of a list of actions.
pub open spec fn action_views(v: Seq<Action>) -> Seq<ActionView> {
    v.map_values(|a: Action| a@)
}

/// The view of an optional string.
pub open spec fn opt_view(o: Option<String>) -> Option<Seq<char>> {
    match o {
        Some(s) => Some(s@),
        None => None,
    }
}

/// The view of the directory cache.
pub open spec fn dir_cache_view(c: Seq<(String, Vec<Entry>)>) -> Seq<(Seq<char>, Seq<EntryView>)> {
    c.map_values(|p: (String, Vec<Entry>)| (p.0@, entry_views(p.1@)))
}

impl VstdView for App {
    type V = AppState;

    open spec fn view(&self) -> AppState {
        AppState {
            repos: views(self.repos@),
            repo_selected: self.repo_selected,
            current_repo: opt_view(self.current_repo),
            current_path: self.current_path@,
            entries: entry_views(self.entries@),
            entry_selected: self.entry_selected,
            commits: commit_views(self.commits@),
            commit_selected: self.commit_selected,
            preview: self.preview@,
            dir_cache: dir_cache_view(self.dir_cache@),
            file_cache: views(self.file_cache@),
            diff_cache: views(self.diff_cache@),
            view: self.view,
            active_panel: self.active_panel,
            scroll: self.scroll,
        }
    }
}

/// `i` is the first position of `key` in the cache `c`.
pub open spec fn is_first_key(c: Seq<(Seq<char>, Seq<EntryView>)>, key: Seq<char>, i: int) -> bool {
    &&& 0 <= i < c.len()
    &&& c[i].0 == key
    &&& forall|j: int| 0 <= j < i ==> (#[trigger] c[j]).0 != key
}

/// The listing cached for `key`, where there is one.
pub open spec fn cache_get(c: Seq<(Seq<char>, Seq<EntryView>)>, key: Seq<char>) -> Option<
    Seq<EntryView>,
> {
    if exists|i: int| is_first_key(c, key, i) {
        Some(c[choose|i: int| is_first_key(c, key, i)].1)
    } else {
        None
    }
}

/// The cache with `es` stored for `key`, in place of what was stored.
pub open spec fn cache_put(c: Seq<(Seq<char>, Seq<EntryView>)>, key: Seq<char>, es: Seq<EntryView>) -> Seq<
    (Seq<char>, Seq<EntryView>),
> {
    if exists|i: int| is_first_key(c, key, i) {
        c.update(choose|i: int| is_first_key(c, key, i), (key, es))
    } else {
        c.push((key, es))
    }
}

/// The key set `ks` with `key` in it.
pub open spec fn key_put(ks: Seq<Seq<char>>, key: Seq<char>) -> Seq<Seq<char>> {
    if ks.contains(key) {
        ks
    } else {
        ks.push(key)
    }
}

/// The preview shown while a file is fetched.
pub open spec fn loading_file() -> PreviewView {
    PreviewView::Text(seq!["Loading file..."@])
}

/// The selected entry, where the selection lies within the list.
pub open spec fn selected_entry(s: AppState) -> Option<EntryView> {
    match s.entry_selected {
        Some(i) => if i < s.entries.len() {
            Some(s.entries[i as int])
        } else {
            None
        },
        None => None,
    }
}

/// The selected commit, where the selection lies within the list.
pub open spec fn selected_commit(s: AppState) -> Option<CommitView> {
    match s.commit_selected {
        Some(i) => if i < s.commits.len() {
            Some(s.commits[i as int])
        } else {
            None
        },
        None => None,
    }
}

/// A request for the fetcher, where a repository is open.
pub open spec fn send_for(repo: Option<Seq<char>>, m: spec_fn(Seq<char>) -> MsgView) -> Seq<ActionView> {
    match repo {
        Some(r) => seq![ActionView::Send(m(r))],
        None => seq![],
    }
}

/// The preview of the selection: cached text is shown at once, anything
/// else is asked of the fetcher and a loading message shown meanwhile. The
/// scroll offset goes back to the top.
pub open spec fn preview_step(s: AppState) -> (AppState, Seq<ActionView>) {
    let s0 = AppState { scroll: 0, ..s };
    if s.view == View::Files {
        match selected_entry(s) {
            Some(e) => {
                let full = joined_path(s.current_path, e.name);
                match e.typ {
                    EntryType::File => if s.file_cache.contains(full) {
                        (AppState { preview: PreviewView::File(full), ..s0 }, seq![])
                    } else {
                        (
                            AppState { preview: loading_file(), ..s0 },
                            send_for(s.current_repo, |r: Seq<char>| MsgView::FetchFile(r, full)),
                        )
                    },
                    EntryType::Dir => match cache_get(s.dir_cache, full) {
                        Some(es) => (
                            AppState { preview: PreviewView::Text(dir_preview(es)), ..s0 },
                            seq![],
                        ),
                        None => (
                            AppState {
                                preview: PreviewView::Text(seq!["Loading directory preview..."@]),
                                ..s0
                            },
                            send_for(s.current_repo, |r: Seq<char>| MsgView::FetchDir(r, full)),
                        ),
                    },
                    EntryType::UpDir => (
                        AppState {
                            preview: PreviewView::Text(seq![".. (Go up to parent directory)"@]),
                            ..s0
                        },
                        seq![],
                    ),
                }
            },
            None => (s0, seq![]),
        }
    } else {
        match selected_commit(s) {
            Some(c) => if s.diff_cache.contains(c.hash) {
                (AppState { preview: PreviewView::Diff(c.hash), ..s0 }, seq![])
            } else {
                (
                    AppState {
                        preview: PreviewView::Text(seq!["Loading commit diff..."@]),
                        ..s0
                    },
                    send_for(s.current_repo, |r: Seq<char>| MsgView::FetchCommitDiff(r, c.hash)),
                )
            },
            None => (s0, seq![]),
        }
    }
}

/// The selection after a listing: the first entry, or none in an empty
/// list.
pub open spec fn select_first(s: AppState) -> AppState {
    AppState {
        entry_selected: if s.entries.len() > 0 {
            Some(0)
        } else {
            None
        },
        ..s
    }
}

/// The entry that leads to the parent directory.
pub open spec fn up_entry() -> EntryView {
    EntryView { name: ".."@, typ: EntryType::UpDir }
}

/// The entries that a listing of `path` starts with: a way up, except at
/// the top.
pub open spec fn up_entries(path: Seq<char>) -> Seq<EntryView> {
    if path.len() > 0 {
        seq![up_entry()]
    } else {
        seq![]
    }
}

/// The server command that lists `path` in `repo`.
pub open spec fn ls_command(repo: Seq<char>, path: Seq<char>) -> Seq<char> {
    "giss-tui-ls "@ + repo + " "@ + path
}

/// Lists the current directory: from the cache where it is there, else by
/// asking the caller to run the listing command.
pub open spec fn load_step(s: AppState) -> (AppState, Seq<ActionView>) {
    match s.current_repo {
        None => (AppState { entries: seq![], ..s }, seq![]),
        Some(repo) => match cache_get(s.dir_cache, s.current_path) {
            Some(es) => preview_step(
                select_first(AppState { entries: up_entries(s.current_path) + es, ..s }),
            ),
            None => (
                AppState { entries: up_entries(s.current_path), ..s },
                seq![ActionView::List(ls_command(repo, s.current_path))],
            ),
        },
    }
}

/// Takes in the reply `out` of a listing command: its entries are shown and
/// cached for the current directory.
pub open spec fn listing_step(s: AppState, out: Seq<char>) -> (AppState, Seq<ActionView>) {
    match s.current_repo {
        None => (s, seq![]),
        Some(_) => {
            let fetched = listed_entries(lines(out));
            preview_step(
                select_first(
                    AppState {
                        entries: s.entries + fetched,
                        dir_cache: cache_put(s.dir_cache, s.current_path, fetched),
                        ..s
                    },
                ),
            )
        },
    }
}

/// Opens `repo` at its top directory with empty caches, and asks for its
/// commit log after the listing.
pub open spec fn open_step(s: AppState, repo: Seq<char>) -> (AppState, Seq<ActionView>) {
    let s1 = AppState {
        current_repo: Some(repo),
        current_path: seq![],
        file_cache: seq![],
        dir_cache: seq![],
        diff_cache: seq![],
        ..s
    };
    let (s2, a) = load_step(s1);
    (s2, a.push(ActionView::Send(MsgView::FetchCommits(repo))))
}

/// Goes to the parent directory, except at the top.
pub open spec fn go_up_step(s: AppState) -> (AppState, Seq<ActionView>) {
    if s.current_path.len() == 0 {
        (s, seq![])
    } else {
        load_step(AppState { current_path: parent_of(s.current_path), ..s })
    }
}

/// Follows the selected entry: into a directory, or up.
pub open spec fn enter_step(s: AppState) -> (AppState, Seq<ActionView>) {
    if s.active_panel == Panel::Right || s.view != View::Files {
        (s, seq![])
    } else {
        match selected_entry(s) {
            Some(e) => match e.typ {
                EntryType::Dir => load_step(
                    AppState { current_path: joined_path(s.current_path, e.name), ..s },
                ),
                EntryType::UpDir => go_up_step(s),
                EntryType::File => (s, seq![]),
            },
            None => (s, seq![]),
        }
    }
}

/// The selected position, or the first where nothing is selected.
pub open spec fn position(sel: Option<usize>) -> int {
    match sel {
        Some(i) => i as int,
        None => 0,
    }
}

/// Moves the selection one down in the list on show, where it can move.
pub open spec fn next_step(s: AppState) -> (AppState, Seq<ActionView>) {
    if s.current_repo is None {
        let i = position(s.repo_selected);
        if i + 1 < s.repos.len() {
            (AppState { repo_selected: Some((i + 1) as usize), ..s }, seq![])
        } else {
            (s, seq![])
        }
    } else if s.view == View::Files {
        let i = position(s.entry_selected);
        if i + 1 < s.entries.len() {
            preview_step(AppState { entry_selected: Some((i + 1) as usize), ..s })
        } else {
            (s, seq![])
        }
    } else {
        let i = position(s.commit_selected);
        if i + 1 < s.commits.len() {
            preview_step(AppState { commit_selected: Some((i + 1) as usize), ..s })
        } else {
            (s, seq![])
        }
    }
}

/// Moves the selection one up in the list on show, where it can move.
pub open spec fn previous_step(s: AppState) -> (AppState, Seq<ActionView>) {
    if s.current_repo is None {
        let i = position(s.repo_selected);
        if i > 0 {
            (AppState { repo_selected: Some((i - 1) as usize), ..s }, seq![])
        } else {
            (s, seq![])
        }
    } else if s.view == View::Files {
        let i = position(s.entry_selected);
        if i > 0 {
            preview_step(AppState { entry_selected: Some((i - 1) as usize), ..s })
        } else {
            (s, seq![])
        }
    } else {
        let i = position(s.commit_selected);
        if i > 0 {
            preview_step(AppState { commit_selected: Some((i - 1) as usize), ..s })
        } else {
            (s, seq![])
        }
    }
}

/// The preview scrolled three lines down, stopping at the largest offset.
pub open spec fn scrolled_down(s: AppState) -> AppState {
    AppState {
        scroll: if s.scroll + 3 > u16::MAX {
            u16::MAX
        } else {
            (s.scroll + 3) as u16
        },
        ..s
    }
}

/// The preview scrolled three lines up, stopping at the top.
pub open spec fn scrolled_up(s: AppState) -> AppState {
    AppState {
        scroll: if s.scroll < 3 {
            0
        } else {
            (s.scroll - 3) as u16
        },
        ..s
    }
}

/// Shows the files or the commits; the first commit is selected where none
/// was.
pub open spec fn switch_step(s: AppState, v: View) -> (AppState, Seq<ActionView>) {
    preview_step(
        AppState {
            view: v,
            scroll: 0,
            commit_selected: if v == View::Commits && s.commits.len() > 0
                && s.commit_selected is None {
                Some(0)
            } else {
                s.commit_selected
            },
            ..s
        },
    )
}

/// Opens the selected repository of the repository list.
pub open spec fn open_selected_step(s: AppState) -> (AppState, Seq<ActionView>) {
    match s.repo_selected {
        Some(i) => if i < s.repos.len() {
            open_step(s, s.repos[i as int])
        } else {
            (s, seq![])
        },
        None => (s, seq![]),
    }
}

/// The state with no repository open and an empty preview.
pub open spec fn closed(s: AppState) -> AppState {
    AppState { current_repo: None, preview: PreviewView::Text(seq![]), ..s }
}

/// What a key press does; the flag says whether the browser quits.
pub open spec fn key_step(s: AppState, k: Key) -> (AppState, Seq<ActionView>, bool) {
    match k {
        Key::Char('q') => (s, seq![ActionView::Send(MsgView::Quit)], true),
        Key::Tab => (
            AppState {
                active_panel: if s.active_panel == Panel::Left {
                    Panel::Right
                } else {
                    Panel::Left
                },
                ..s
            },
            seq![],
            false,
        ),
        Key::Char('f') => {
            let (t, a) = switch_step(s, View::Files);
            (t, a, false)
        },
        Key::Char('c') => {
            let (t, a) = switch_step(s, View::Commits);
            (t, a, false)
        },
        Key::Right | Key::Char('l') => if s.active_panel == Panel::Left {
            if s.current_repo is None {
                let (t, a) = open_selected_step(s);
                (t, a, false)
            } else {
                (AppState { active_panel: Panel::Right, ..s }, seq![], false)
            }
        } else {
            (s, seq![], false)
        },
        Key::Left | Key::Backspace | Key::Char('h') => if s.active_panel == Panel::Right {
            (AppState { active_panel: Panel::Left, ..s }, seq![], false)
        } else if s.current_repo is Some {
            if s.current_path.len() == 0 {
                (
                    AppState {
                        entries: seq![],
                        commits: seq![],
                        entry_selected: None,
                        ..closed(s)
                    },
                    seq![],
                    false,
                )
            } else {
                let (t, a) = go_up_step(s);
                (t, a, false)
            }
        } else {
            (s, seq![], false)
        },
        Key::Down | Key::Char('j') => if s.active_panel == Panel::Left {
            let (t, a) = next_step(s);
            (t, a, false)
        } else {
            (scrolled_down(s), seq![], false)
        },
        Key::Up | Key::Char('k') => if s.active_panel == Panel::Left {
            let (t, a) = previous_step(s);
            (t, a, false)
        } else {
            (scrolled_up(s), seq![], false)
        },
        Key::Enter => if s.active_panel == Panel::Left {
            if s.current_repo is None {
                let (t, a) = open_selected_step(s);
                (t, a, false)
            } else {
                let (t, a) = enter_step(s);
                (t, a, false)
            }
        } else {
            (s, seq![], false)
        },
        Key::Esc => (closed(s), seq![], false),
        _ => (s, seq![], false),
    }
}

/// The selected entry is a file or directory of kind `typ` at `path`.
pub open spec fn shows(s: AppState, typ: EntryType, path: Seq<char>) -> bool {
    s.view == View::Files && match selected_entry(s) {
        Some(e) => e.typ == typ && joined_path(s.current_path, e.name) == path,
        None => false,
    }
}

/// Takes in a fetched file: it is cached, and shown where it is selected.
pub open spec fn file_loaded_step(s: AppState, path: Seq<char>) -> AppState {
    let s1 = AppState { file_cache: key_put(s.file_cache, path), ..s };
    if shows(s, EntryType::File, path) {
        AppState { preview: PreviewView::File(path), ..s1 }
    } else {
        s1
    }
}

/// Takes in a fetched directory listing: it is cached, and previewed where
/// the directory is selected.
pub open spec fn dir_loaded_step(s: AppState, path: Seq<char>, es: Seq<EntryView>) -> AppState {
    let s1 = AppState { dir_cache: cache_put(s.dir_cache, path, es), ..s };
    if shows(s, EntryType::Dir, path) {
        AppState { preview: PreviewView::Text(dir_preview(es)), ..s1 }
    } else {
        s1
    }
}

/// Takes in a fetched commit log; on the commit view the first commit is
/// selected and previewed.
pub open spec fn commits_loaded_step(s: AppState, cs: Seq<CommitView>) -> (AppState, Seq<
    ActionView,
>) {
    let s1 = AppState { commits: cs, ..s };
    if s.view == View::Commits && cs.len() > 0 {
        preview_step(AppState { commit_selected: Some(0), ..s1 })
    } else {
        (s1, seq![])
    }
}

/// Takes in a fetched diff: it is cached, and shown where its commit is
/// selected.
pub open spec fn diff_loaded_step(s: AppState, hash: Seq<char>) -> AppState {
    let s1 = AppState { diff_cache: key_put(s.diff_cache, hash), ..s };
    if s.view == View::Commits && match selected_commit(s) {
        Some(c) => c.hash == hash,
        None => false,
    } {
        AppState { preview: PreviewView::Diff(hash), ..s1 }
    } else {
        s1
    }
}

/// The state before anything is loaded.
pub open spec fn initial_state() -> AppState {
    AppState {
        repos: seq![],
        repo_selected: None,
        current_repo: None,
        current_path: seq![],
        entries: seq![],
        entry_selected: None,
        commits: seq![],
        commit_selected: None,
        preview: PreviewView::Text(seq!["Select a file to view"@]),
        dir_cache: seq![],
        file_cache: seq![],
        diff_cache: seq![],
        view: View::Files,
        active_panel: Panel::Left,
        scroll: 0,
    }
}

/// Takes in the `giss-list` reply `out`: its repositories are listed, the
/// first selected.
pub open spec fn repos_step(s: AppState, out: Seq<char>) -> AppState {
    let rs = crate::browser::listed_repos(lines(out));
    AppState {
        repos: rs,
        repo_selected: if rs.len() > 0 {
            Some(0)
        } else {
            s.repo_selected
        },
        ..s
    }
}

impl App {
    /// The position of the first listing cached for `key`.
    fn cached_dir(&self, key: &str) -> (r: Option<usize>)
        ensures
            r matches Some(i) ==> is_first_key(self@.dir_cache, key@, i as int),
            r is None ==> !exists|i: int| is_first_key(self@.dir_cache, key@, i),
    {
        let n = self.dir_cache.len();
        for i in 0..n
            invariant
                n == self.dir_cache@.len(),
                forall|j: int| 0 <= j < i ==> (#[trigger] self@.dir_cache[j]).0 != key@,
        {
            if str_eq(self.dir_cache[i].0.as_str(), key) {
                return Some(i);
            }
        }
        None
    }

    /// Updates the preview for the current selection.
    pub fn update_preview(&mut self) -> (r: Vec<Action>)
        ensures
            (final(self)@, action_views(r@)) == preview_step(old(self)@),
    {
        self.scroll = 0;
        let mut acts: Vec<Action> = Vec::new();
        assert(action_views(acts@) =~= seq![]);
        match self.view {
            View::Files => {
                if let Some(idx) = self.entry_selected {
                    if idx < self.entries.len() {
                        let e = copy_entry(&self.entries[idx]);
                        let full = join_path(self.current_path.as_str(), e.name.as_str());
                        match e.typ {
                            EntryType::File => {
                                if vec_contains(&self.file_cache, full.as_str()) {
                                    self.preview = Preview::File(full);
                                } else {
                                    self.preview = Preview::Text(one_line("Loading file..."));
                                    if let Some(repo) = &self.current_repo {
                                        let m = Msg::FetchFile(copy_str(repo), full);
                                        acts.push(Action::Send(m));
                                        assert(action_views(acts@) =~= seq![ActionView::Send(m@)]);
                                    }
                                }
                            },
                            EntryType::Dir => {
                                match self.cached_dir(full.as_str()) {
                                    Some(i) => {
                                        proof {
                                            lemma_first_key(self@.dir_cache, full@, i as int);
                                        }
                                        let lines = dir_preview_lines(&self.dir_cache[i].1);
                                        self.preview = Preview::Text(lines);
                                    },
                                    None => {
                                        self.preview = Preview::Text(one_line("Loading directory preview..."));
                                        if let Some(repo) = &self.current_repo {
                                            let m = Msg::FetchDir(copy_str(repo), full);
                                            acts.push(Action::Send(m));
                                            assert(action_views(acts@) =~= seq![ActionView::Send(m@)]);
                                        }
                                    },
                                }
                            },
                            EntryType::UpDir => {
                                self.preview = Preview::Text(one_line(".. (Go up to parent directory)"));
                            },
                        }
                    }
                }
            },
            View::Commits => {
                if let Some(idx) = self.commit_selected {
                    if idx < self.commits.len() {
                        let hash = copy_str(&self.commits[idx].hash);
                        if vec_contains(&self.diff_cache, hash.as_str()) {
                            self.preview = Preview::Diff(hash);
                        } else {
                            self.preview = Preview::Text(one_line("Loading commit diff..."));
                            if let Some(repo) = &self.current_repo {
                                let m = Msg::FetchCommitDiff(copy_str(repo), hash);
                                acts.push(Action::Send(m));
                                assert(action_views(acts@) =~= seq![ActionView::Send(m@)]);
                            }
                        }
                    }
                }
            },
        }
        acts
    }
}

impl App {
    /// The browser before anything is loaded.
    pub fn new() -> (r: App)
        ensures
            r@ == initial_state(),
    {
        let r = App {
            repos: Vec::new(),
            repo_selected: None,
            current_repo: None,
            current_path: String::new(),
            entries: Vec::new(),
            entry_selected: None,
            commits: Vec::new(),
            commit_selected: None,
            preview: Preview::Text(one_line("Select a file to view")),
            dir_cache: Vec::new(),
            file_cache: Vec::new(),
            diff_cache: Vec::new(),
            view: View::Files,
            active_panel: Panel::Left,
            scroll: 0,
        };
        assert(r@.repos =~= seq![]);
        assert(r@.entries =~= seq![]);
        assert(r@.commits =~= seq![]);
        assert(r@.dir_cache =~= seq![]);
        assert(r@.file_cache =~= seq![]);
        assert(r@.diff_cache =~= seq![]);
        r
    }

    /// Takes in the `giss-list` reply `out`.
    pub fn load_repos(&mut self, out: &str)
        ensures
            final(self)@ == repos_step(old(self)@, out@),
    {
        self.repos = crate::browser::parse_repo_list(out);
        if self.repos.len() > 0 {
            self.repo_selected = Some(0);
        }
    }

    /// The path of `entry` inside the current directory.
    pub fn get_full_path(&self, entry: &Entry) -> (r: String)
        ensures
            r@ == joined_path(self@.current_path, entry@.name),
    {
        join_path(self.current_path.as_str(), entry.name.as_str())
    }

    /// Stores `es` as the listing of `key`.
    fn put_dir(&mut self, key: &str, es: Vec<Entry>)
        ensures
            final(self)@ == (AppState {
                dir_cache: cache_put(old(self)@.dir_cache, key@, entry_views(es@)),
                ..old(self)@
            }),
    {
        let ghost before = self.dir_cache@;
        match self.cached_dir(key) {
            Some(i) => {
                proof {
                    lemma_first_key(self@.dir_cache, key@, i as int);
                }
                self.dir_cache.set(i, (String::from_str(key), es));
                assert(dir_cache_view(self.dir_cache@) =~= dir_cache_view(before).update(
                    i as int,
                    (key@, entry_views(es@)),
                ));
            },
            None => {
                self.dir_cache.push((String::from_str(key), es));
                assert(dir_cache_view(self.dir_cache@) =~= dir_cache_view(before).push(
                    (key@, entry_views(es@)),
                ));
            },
        }
    }

    /// Selects the first entry and updates the preview.
    fn finish_listing(&mut self) -> (r: Vec<Action>)
        ensures
            (final(self)@, action_views(r@)) == preview_step(select_first(old(self)@)),
    {
        if self.entries.len() > 0 {
            self.entry_selected = Some(0);
        } else {
            self.entry_selected = None;
        }
        self.update_preview()
    }

    /// The entries that start a listing of the current directory.
    fn start_listing(&mut self)
        ensures
            final(self)@ == (AppState {
                entries: up_entries(old(self)@.current_path),
                ..old(self)@
            }),
    {
        self.entries = Vec::new();
        if !self.current_path.as_str().is_empty() {
            self.entries.push(Entry { name: String::from_str(".."), typ: EntryType::UpDir });
        }
        assert(self@.entries =~= up_entries(old(self)@.current_path));
    }

    /// Lists the current directory.
    pub fn load_files(&mut self) -> (r: Vec<Action>)
        ensures
            (final(self)@, action_views(r@)) == load_step(old(self)@),
    {
        let repo = match &self.current_repo {
            Some(repo) => copy_str(repo),
            None => {
                self.entries = Vec::new();
                assert(self@.entries =~= seq![]);
                let r: Vec<Action> = Vec::new();
                assert(action_views(r@) =~= seq![]);
                return r;
            },
        };
        self.start_listing();
        match self.cached_dir(self.current_path.as_str()) {
            Some(i) => {
                proof {
                    lemma_first_key(self@.dir_cache, self@.current_path, i as int);
                    assert(is_first_key(self@.dir_cache, self@.current_path, i as int));
                    assert(cache_get(old(self)@.dir_cache, old(self)@.current_path) == Some(
                        entry_views(self.dir_cache@[i as int].1@),
                    ));
                }
                let ghost up = entry_views(self.entries@);
                let mut cached = copy_entries(&self.dir_cache[i].1);
                let ghost c = entry_views(cached@);
                self.entries.append(&mut cached);
                assert(entry_views(self.entries@) =~= up + c);
                assert(self@ == (AppState {
                    entries: up_entries(old(self)@.current_path) + c,
                    ..old(self)@
                }));
                self.finish_listing()
            },
            None => {
                let a = concat("giss-tui-ls ", repo.as_str());
                let b = concat(a.as_str(), " ");
                let cmd = concat(b.as_str(), self.current_path.as_str());
                let mut r: Vec<Action> = Vec::new();
                r.push(Action::List(cmd));
                assert(action_views(r@) =~= seq![ActionView::List(cmd@)]);
                assert(cache_get(old(self)@.dir_cache, old(self)@.current_path) is None);
                assert(self@ == (AppState {
                    entries: up_entries(old(self)@.current_path),
                    ..old(self)@
                }));
                r
            },
        }
    }

    /// Takes in the reply `out` of the listing command that
    /// [`App::load_files`] asked for.
    pub fn listing_loaded(&mut self, out: &str) -> (r: Vec<Action>)
        ensures
            (final(self)@, action_views(r@)) == listing_step(old(self)@, out@),
    {
        if self.current_repo.is_none() {
            let r: Vec<Action> = Vec::new();
            assert(action_views(r@) =~= seq![]);
            return r;
        }
        let fetched = parse_entries(out);
        let mut shown = copy_entries(&fetched);
        let ghost before = entry_views(self.entries@);
        let ghost f = entry_views(shown@);
        self.entries.append(&mut shown);
        assert(entry_views(self.entries@) =~= before + f);
        let path = copy_str(&self.current_path);
        self.put_dir(path.as_str(), fetched);
        self.finish_listing()
    }

    /// Opens the repository `repo`.
    pub fn open_repo(&mut self, repo: &str) -> (r: Vec<Action>)
        ensures
            (final(self)@, action_views(r@)) == open_step(old(self)@, repo@),
    {
        self.current_repo = Some(String::from_str(repo));
        self.current_path = String::new();
        self.file_cache = Vec::new();
        self.dir_cache = Vec::new();
        self.diff_cache = Vec::new();
        assert(self@.file_cache =~= seq![]);
        assert(self@.dir_cache =~= seq![]);
        assert(self@.diff_cache =~= seq![]);
        let mut r = self.load_files();
        let m = Msg::FetchCommits(String::from_str(repo));
        let ghost before = r@;
        r.push(Action::Send(m));
        assert(action_views(r@) =~= action_views(before).push(ActionView::Send(m@)));
        r
    }

    /// Goes to the parent directory.
    pub fn go_up(&mut self) -> (r: Vec<Action>)
        ensures
            (final(self)@, action_views(r@)) == go_up_step(old(self)@),
    {
        if self.current_path.as_str().is_empty() {
            let r: Vec<Action> = Vec::new();
            assert(action_views(r@) =~= seq![]);
            return r;
        }
        self.current_path = parent_path(self.current_path.as_str());
        self.load_files()
    }

    /// Follows the selected entry.
    pub fn enter(&mut self) -> (r: Vec<Action>)
        ensures
            (final(self)@, action_views(r@)) == enter_step(old(self)@),
    {
        let nothing: Vec<Action> = Vec::new();
        assert(action_views(nothing@) =~= seq![]);
        match (self.active_panel, self.view) {
            (Panel::Left, View::Files) => {},
            _ => return nothing,
        }
        let idx = match self.entry_selected {
            Some(i) => i,
            None => return nothing,
        };
        if idx >= self.entries.len() {
            return nothing;
        }
        let e = copy_entry(&self.entries[idx]);
        match e.typ {
            EntryType::Dir => {
                self.current_path = self.get_full_path(&e);
                self.load_files()
            },
            EntryType::UpDir => self.go_up(),
            EntryType::File => nothing,
        }
    }

    /// Moves the selection one down.
    pub fn next(&mut self) -> (r: Vec<Action>)
        ensures
            (final(self)@, action_views(r@)) == next_step(old(self)@),
    {
        let nothing: Vec<Action> = Vec::new();
        assert(action_views(nothing@) =~= seq![]);
        if self.current_repo.is_none() {
            let i = match self.repo_selected {
                Some(i) => i,
                None => 0,
            };
            if self.repos.len() > 0 && i < self.repos.len() - 1 {
                self.repo_selected = Some(i + 1);
            }
            return nothing;
        }
        match self.view {
            View::Files => {
                let i = match self.entry_selected {
                    Some(i) => i,
                    None => 0,
                };
                if self.entries.len() > 0 && i < self.entries.len() - 1 {
                    self.entry_selected = Some(i + 1);
                    self.update_preview()
                } else {
                    nothing
                }
            },
            View::Commits => {
                let i = match self.commit_selected {
                    Some(i) => i,
                    None => 0,
                };
                if self.commits.len() > 0 && i < self.commits.len() - 1 {
                    self.commit_selected = Some(i + 1);
                    self.update_preview()
                } else {
                    nothing
                }
            },
        }
    }

    /// Moves the selection one up.
    pub fn previous(&mut self) -> (r: Vec<Action>)
        ensures
            (final(self)@, action_views(r@)) == previous_step(old(self)@),
    {
        let nothing: Vec<Action> = Vec::new();
        assert(action_views(nothing@) =~= seq![]);
        if self.current_repo.is_none() {
            let i = match self.repo_selected {
                Some(i) => i,
                None => 0,
            };
            if i > 0 {
                self.repo_selected = Some(i - 1);
            }
            return nothing;
        }
        match self.view {
            View::Files => {
                let i = match self.entry_selected {
                    Some(i) => i,
                    None => 0,
                };
                if i > 0 {
                    self.entry_selected = Some(i - 1);
                    self.update_preview()
                } else {
                    nothing
                }
            },
            View::Commits => {
                let i = match self.commit_selected {
                    Some(i) => i,
                    None => 0,
                };
                if i > 0 {
                    self.commit_selected = Some(i - 1);
                    self.update_preview()
                } else {
                    nothing
                }
            },
        }
    }

    /// Scrolls the preview three lines down.
    pub fn scroll_down(&mut self)
        ensures
            final(self)@ == scrolled_down(old(self)@),
    {
        if self.scroll > u16::MAX - 3 {
            self.scroll = u16::MAX;
        } else {
            self.scroll = self.scroll + 3;
        }
    }

    /// Scrolls the preview three lines up.
    pub fn scroll_up(&mut self)
        ensures
            final(self)@ == scrolled_up(old(self)@),
    {
        if self.scroll < 3 {
            self.scroll = 0;
        } else {
            self.scroll = self.scroll - 3;
        }
    }

    /// Shows the files or the commits.
    pub fn switch_view(&mut self, view: View) -> (r: Vec<Action>)
        ensures
            (final(self)@, action_views(r@)) == switch_step(old(self)@, view),
    {
        self.view = view;
        self.scroll = 0;
        match view {
            View::Commits => {
                if self.commits.len() > 0 && self.commit_selected.is_none() {
                    self.commit_selected = Some(0);
                }
            },
            View::Files => {},
        }
        self.update_preview()
    }

    /// Opens the selected repository of the repository list.
    fn open_selected(&mut self) -> (r: Vec<Action>)
        ensures
            (final(self)@, action_views(r@)) == open_selected_step(old(self)@),
    {
        let nothing: Vec<Action> = Vec::new();
        assert(action_views(nothing@) =~= seq![]);
        match self.repo_selected {
            Some(i) => {
                if i < self.repos.len() {
                    let repo = copy_str(&self.repos[i]);
                    self.open_repo(repo.as_str())
                } else {
                    nothing
                }
            },
            None => nothing,
        }
    }

    /// Closes the repository and empties the preview.
    fn close(&mut self)
        ensures
            final(self)@ == closed(old(self)@),
    {
        self.current_repo = None;
        let empty: Vec<String> = Vec::new();
        assert(views(empty@) =~= seq![]);
        self.preview = Preview::Text(empty);
    }

    /// Handles a key press; the flag says whether the browser quits.
    pub fn handle_key(&mut self, key: Key) -> (r: (Vec<Action>, bool))
        ensures
            (final(self)@, action_views(r.0@), r.1) == key_step(old(self)@, key),
    {
        let nothing: Vec<Action> = Vec::new();
        assert(action_views(nothing@) =~= seq![]);
        match key {
            Key::Char('q') => {
                let mut r: Vec<Action> = Vec::new();
                r.push(Action::Send(Msg::Quit));
                assert(action_views(r@) =~= seq![ActionView::Send(MsgView::Quit)]);
                (r, true)
            },
            Key::Tab => {
                self.active_panel = match self.active_panel {
                    Panel::Left => Panel::Right,
                    Panel::Right => Panel::Left,
                };
                (nothing, false)
            },
            Key::Char('f') => (self.switch_view(View::Files), false),
            Key::Char('c') => (self.switch_view(View::Commits), false),
            Key::Right | Key::Char('l') => {
                match self.active_panel {
                    Panel::Left => {
                        if self.current_repo.is_none() {
                            (self.open_selected(), false)
                        } else {
                            self.active_panel = Panel::Right;
                            (nothing, false)
                        }
                    },
                    Panel::Right => (nothing, false),
                }
            },
            Key::Left | Key::Backspace | Key::Char('h') => {
                match self.active_panel {
                    Panel::Right => {
                        self.active_panel = Panel::Left;
                        (nothing, false)
                    },
                    Panel::Left => {
                        if self.current_repo.is_some() {
                            if self.current_path.as_str().is_empty() {
                                self.close();
                                self.entries = Vec::new();
                                self.commits = Vec::new();
                                self.entry_selected = None;
                                assert(self@.entries =~= seq![]);
                                assert(self@.commits =~= seq![]);
                                (nothing, false)
                            } else {
                                (self.go_up(), false)
                            }
                        } else {
                            (nothing, false)
                        }
                    },
                }
            },
            Key::Down | Key::Char('j') => {
                match self.active_panel {
                    Panel::Left => (self.next(), false),
                    Panel::Right => {
                        self.scroll_down();
                        (nothing, false)
                    },
                }
            },
            Key::Up | Key::Char('k') => {
                match self.active_panel {
                    Panel::Left => (self.previous(), false),
                    Panel::Right => {
                        self.scroll_up();
                        (nothing, false)
                    },
                }
            },
            Key::Enter => {
                match self.active_panel {
                    Panel::Left => {
                        if self.current_repo.is_none() {
                            (self.open_selected(), false)
                        } else {
                            (self.enter(), false)
                        }
                    },
                    Panel::Right => (nothing, false),
                }
            },
            Key::Esc => {
                self.close();
                (nothing, false)
            },
            _ => (nothing, false),
        }
    }

    /// Whether the selected entry is of kind `typ` at `path`.
    fn selection_is(&self, typ: EntryType, path: &str) -> (r: bool)
        ensures
            r == shows(self@, typ, path@),
    {
        match self.view {
            View::Commits => false,
            View::Files => match self.entry_selected {
                Some(i) => {
                    if i < self.entries.len() {
                        let e = &self.entries[i];
                        if e.typ == typ {
                            let full = self.get_full_path(e);
                            str_eq(full.as_str(), path)
                        } else {
                            false
                        }
                    } else {
                        false
                    }
                },
                None => false,
            },
        }
    }

    /// Takes in the fetched file at `path`.
    pub fn file_loaded(&mut self, path: &str)
        ensures
            final(self)@ == file_loaded_step(old(self)@, path@),
    {
        let show = self.selection_is(EntryType::File, path);
        if !vec_contains(&self.file_cache, path) {
            let ghost before = self.file_cache@;
            self.file_cache.push(String::from_str(path));
            assert(views(self.file_cache@) =~= views(before).push(path@));
        }
        if show {
            self.preview = Preview::File(String::from_str(path));
        }
    }

    /// Takes in the fetched listing `es` of the directory at `path`.
    pub fn dir_loaded(&mut self, path: &str, es: Vec<Entry>)
        ensures
            final(self)@ == dir_loaded_step(old(self)@, path@, entry_views(es@)),
    {
        let show = self.selection_is(EntryType::Dir, path);
        let lines = dir_preview_lines(&es);
        self.put_dir(path, es);
        if show {
            self.preview = Preview::Text(lines);
        }
    }

    /// Takes in the fetched commit log `cs`.
    pub fn commits_loaded(&mut self, cs: Vec<Commit>) -> (r: Vec<Action>)
        ensures
            (final(self)@, action_views(r@)) == commits_loaded_step(old(self)@, commit_views(cs@)),
    {
        let n = cs.len();
        self.commits = cs;
        match self.view {
            View::Commits => {
                if n > 0 {
                    self.commit_selected = Some(0);
                    return self.update_preview();
                }
            },
            View::Files => {},
        }
        let r: Vec<Action> = Vec::new();
        assert(action_views(r@) =~= seq![]);
        r
    }

    /// Takes in the fetched diff of the commit `hash`.
    pub fn diff_loaded(&mut self, hash: &str)
        ensures
            final(self)@ == diff_loaded_step(old(self)@, hash@),
    {
        let show = match self.view {
            View::Commits => match self.commit_selected {
                Some(i) => i < self.commits.len() && str_eq(self.commits[i].hash.as_str(), hash),
                None => false,
            },
            View::Files => false,
        };
        if !vec_contains(&self.diff_cache, hash) {
            let ghost before = self.diff_cache@;
            self.diff_cache.push(String::from_str(hash));
            assert(views(self.diff_cache@) =~= views(before).push(hash@));
        }
        if show {
            self.preview = Preview::Diff(String::from_str(hash));
        }
    }
}

/// Which list the left panel shows.
#[derive(Clone, Copy, Debug, PartialEq, Eq, Structural)]
pub enum ListKind {
    Repos,
    Entries,
    Commits,
}

/// The text of the screen: the left panel's title, lines and selection, and
/// the right panel's title.
#[derive(Debug)]
pub struct Screen {
    pub kind: ListKind,
    pub left_title: String,
    pub items: Vec<String>,
    pub selected: Option<usize>,
    pub right_title: String,
}

/// [`Screen`] as plain values.
pub struct ScreenView {
    pub kind: ListKind,
    pub left_title: Seq<char>,
    pub items: Seq<Seq<char>>,
    pub selected: Option<usize>,
    pub right_title: Seq<char>,
}

impl VstdView for Screen {
    type V = ScreenView;

    open spec fn view(&self) -> ScreenView {
        ScreenView {
            kind: self.kind,
            left_title: self.left_title@,
            items: views(self.items@),
            selected: self.selected,
            right_title: self.right_title@,
        }
    }
}

/// What the screen shows for the state `s`: the repository list while no
/// repository is open, else the files or the commits of the open one.
pub open spec fn screen_of(s: AppState) -> ScreenView {
    match s.current_repo {
        None => ScreenView {
            kind: ListKind::Repos,
            left_title: "Repositories (Enter/Open)"@,
            items: s.repos,
            selected: s.repo_selected,
            right_title: "Info"@,
        },
        Some(repo) => if s.view == View::Files {
            ScreenView {
                kind: ListKind::Entries,
                left_title: title_line(s.view, repo, s.current_path),
                items: s.entries.map_values(|e: EntryView| entry_line(e)),
                selected: s.entry_selected,
                right_title: "Preview"@,
            }
        } else {
            ScreenView {
                kind: ListKind::Commits,
                left_title: title_line(s.view, repo, s.current_path),
                items: s.commits.map_values(|c: CommitView| commit_line(c)),
                selected: s.commit_selected,
                right_title: "Commit Diff"@,
            }
        },
    }
}

/// Every commit hash of `s` can be cut after its seventh byte.
pub open spec fn hashes_cut(s: AppState) -> bool {
    forall|i: int|
        0 <= i < s.commits.len() ==> is_char_boundary(encode_utf8(#[trigger] s.commits[i].hash), 7)
}

impl App {
    /// Whether every commit hash can be cut after its seventh byte, as the
    /// commit list needs.
    pub fn hashes_fit(&self) -> (r: bool)
        ensures
            r == hashes_cut(self@),
    {
        let n = self.commits.len();
        for i in 0..n
            invariant
                n == self.commits@.len(),
                forall|j: int|
                    0 <= j < i ==> is_char_boundary(encode_utf8(#[trigger] self@.commits[j].hash), 7),
        {
            if !self.commits[i].hash.as_str().is_char_boundary(7) {
                assert(self@.commits[i as int].hash == self.commits@[i as int].hash@);
                return false;
            }
        }
        true
    }

    /// The text of the screen.
    pub fn screen(&self) -> (r: Screen)
        requires
            self@.current_repo is Some && self@.view == View::Commits ==> hashes_cut(self@),
        ensures
            r@ == screen_of(self@),
    {
        match &self.current_repo {
            None => {
                let mut items: Vec<String> = Vec::new();
                let n = self.repos.len();
                for i in 0..n
                    invariant
                        n == self.repos@.len(),
                        views(items@) == views(self.repos@).take(i as int),
                {
                    let ghost before = items@;
                    let name = copy_str(&self.repos[i]);
                    items.push(name);
                    assert(views(items@) =~= views(before).push(name@));
                    assert(views(self.repos@).take(i + 1) =~= views(self.repos@).take(i as int).push(
                        views(self.repos@)[i as int],
                    ));
                }
                assert(views(self.repos@).take(n as int) =~= views(self.repos@));
                Screen {
                    kind: ListKind::Repos,
                    left_title: String::from_str("Repositories (Enter/Open)"),
                    items,
                    selected: self.repo_selected,
                    right_title: String::from_str("Info"),
                }
            },
            Some(repo) => {
                let title = panel_title(self.view, repo.as_str(), self.current_path.as_str());
                match self.view {
                    View::Files => {
                        let mut items: Vec<String> = Vec::new();
                        let n = self.entries.len();
                        let ghost all = self@.entries;
                        for i in 0..n
                            invariant
                                n == self.entries@.len(),
                                all == entry_views(self.entries@),
                                views(items@) == all.take(i as int).map_values(
                                    |e: EntryView| entry_line(e),
                                ),
                        {
                            let line = entry_label(&self.entries[i]);
                            assert(line@ == entry_line(all[i as int]));
                            let ghost before = items@;
                            items.push(line);
                            assert(views(items@) =~= views(before).push(line@));
                            assert(all.take(i + 1).map_values(|e: EntryView| entry_line(e))
                                =~= all.take(i as int).map_values(|e: EntryView| entry_line(e)).push(
                                entry_line(all[i as int]),
                            ));
                        }
                        assert(all.take(n as int) =~= all);
                        Screen {
                            kind: ListKind::Entries,
                            left_title: title,
                            items,
                            selected: self.entry_selected,
                            right_title: String::from_str("Preview"),
                        }
                    },
                    View::Commits => {
                        let mut items: Vec<String> = Vec::new();
                        let n = self.commits.len();
                        let ghost all = self@.commits;
                        for i in 0..n
                            invariant
                                n == self.commits@.len(),
                                all == commit_views(self.commits@),
                                hashes_cut(self@),
                                views(items@) == all.take(i as int).map_values(
                                    |c: CommitView| commit_line(c),
                                ),
                        {
                            assert(all[i as int] == self.commits@[i as int]@);
                            assert(self@.commits[i as int] == all[i as int]);
                            assert(is_char_boundary(encode_utf8(self@.commits[i as int].hash), 7));
                            let line = commit_label(&self.commits[i]);
                            let ghost before = items@;
                            items.push(line);
                            assert(views(items@) =~= views(before).push(line@));
                            assert(all.take(i + 1).map_values(|c: CommitView| commit_line(c))
                                =~= all.take(i as int).map_values(|c: CommitView| commit_line(c)).push(
                                commit_line(all[i as int]),
                            ));
                        }
                        assert(all.take(n as int) =~= all);
                        Screen {
                            kind: ListKind::Commits,
                            left_title: title,
                            items,
                            selected: self.commit_selected,
                            right_title: String::from_str("Commit Diff"),
                        }
                    },
                }
            },
        }
    }
}

/// The first position of a key is the only one that `is_first_key` admits.
pub proof fn lemma_first_key(c: Seq<(Seq<char>, Seq<EntryView>)>, key: Seq<char>, i: int)
    requires
        is_first_key(c, key, i),
    ensures
        (choose|j: int| is_first_key(c, key, j)) == i,
{
    let k = choose|j: int| is_first_key(c, key, j);
    assert(is_first_key(c, key, k));
    if k < i {
        assert(c[k].0 != key);
    } else if i < k {
        assert(c[i].0 != key);
    }
}

/// A list of one line.
fn one_line(s: &str) -> (r: Vec<String>)
    ensures
        views(r@) == seq![s@],
{
    let mut r: Vec<String> = Vec::new();
    r.push(String::from_str(s));
    assert(views(r@) =~= seq![s@]);
    r
}

fn copy_str(s: &String) -> (r: String)
    ensures
        r@ == s@,
{
    String::from_str(s.as_str())
}


proof fn lemma_first_key_exists(c: Seq<(Seq<char>, Seq<EntryView>)>, key: Seq<char>, k: int)
    requires
        0 <= k < c.len(),
        c[k].0 == key,
    ensures
        exists|i: int| is_first_key(c, key, i),
    decreases k,
{
    if exists|j: int| 0 <= j < k && (#[trigger] c[j]).0 == key {
        let j = choose|j: int| 0 <= j < k && (#[trigger] c[j]).0 == key;
        lemma_first_key_exists(c, key, j);
    } else {
        assert(is_first_key(c, key, k));
    }
}

/// A listing stored in the directory cache is what the cache gives back for
/// its path, and what it gives for every other path is as before.
pub proof fn lemma_cache_put_get(
    c: Seq<(Seq<char>, Seq<EntryView>)>,
    key: Seq<char>,
    es: Seq<EntryView>,
    other: Seq<char>,
)
    ensures
        cache_get(cache_put(c, key, es), key) == Some(es),
        other != key ==> cache_get(cache_put(c, key, es), other) == cache_get(c, other),
{
    let d = cache_put(c, key, es);
    if exists|i: int| is_first_key(c, key, i) {
        let i = choose|i: int| is_first_key(c, key, i);
        assert(is_first_key(d, key, i)) by {
            assert forall|j: int| 0 <= j < i implies (#[trigger] d[j]).0 != key by {
                assert(d[j] == c[j]);
            }
        }
        lemma_first_key(d, key, i);
        if other != key {
            if exists|j: int| is_first_key(c, other, j) {
                let j = choose|j: int| is_first_key(c, other, j);
                assert(is_first_key(d, other, j)) by {
                    assert forall|q: int| 0 <= q < j implies (#[trigger] d[q]).0 != other by {
                        if q != i {
                            assert(d[q] == c[q]);
                        }
                    }
                }
                lemma_first_key(d, other, j);
            } else if exists|j: int| is_first_key(d, other, j) {
                let j = choose|j: int| is_first_key(d, other, j);
                assert(j != i);
                assert(c[j].0 == other);
                lemma_first_key_exists(c, other, j);
            }
        }
    } else {
        let n = c.len() as int;
        assert(is_first_key(d, key, n)) by {
            assert forall|j: int| 0 <= j < n implies (#[trigger] d[j]).0 != key by {
                assert(d[j] == c[j]);
                if c[j].0 == key {
                    lemma_first_key_exists(c, key, j);
                }
            }
        }
        lemma_first_key(d, key, n);
        if other != key {
            if exists|j: int| is_first_key(c, other, j) {
                let j = choose|j: int| is_first_key(c, other, j);
                assert(is_first_key(d, other, j)) by {
                    assert forall|q: int| 0 <= q < j implies (#[trigger] d[q]).0 != other by {
                        assert(d[q] == c[q]);
                    }
                }
                lemma_first_key(d, other, j);
            } else if exists|j: int| is_first_key(d, other, j) {
                let j = choose|j: int| is_first_key(d, other, j);
                assert(j != n);
                assert(c[j].0 == other);
                lemma_first_key_exists(c, other, j);
            }
        }
    }
}

/// Going up from a directory entered from `dir` leads back to `dir`, for
/// entry names without a slash.
pub proof fn lemma_up_after_enter(dir: Seq<char>, name: Seq<char>)
    requires
        !name.contains('/'),
    ensures
        parent_of(joined_path(dir, name)) == dir,
{
    reveal_strlit("/");
    let p = joined_path(dir, name);
    if dir.len() == 0 {
        assert(p == name);
    } else {
        let k = dir.len() as int;
        assert(p =~= dir + seq!['/'] + name);
        assert(crate::text::is_last(p, '/', k)) by {
            assert forall|j: int| k < j < p.len() implies p[j] != '/' by {
                assert(p[j] == name[j - k - 1]);
            }
        }
        crate::text::lemma_last_unique(p, '/', k);
        assert(p.take(k) =~= dir);
    }
}

/// Scrolling down and back up returns to the same offset, short of the
/// largest one.
pub proof fn lemma_scroll_roundtrip(s: AppState)
    requires
        s.scroll + 3 <= u16::MAX,
    ensures
        scrolled_up(scrolled_down(s)).scroll == s.scroll,
{
}

/// The selections of the entry list and of the repository list lie within
/// their lists.
pub open spec fn selections_in_bounds(s: AppState) -> bool {
    &&& (s.entry_selected matches Some(i) ==> i < s.entries.len())
    &&& (s.repo_selected matches Some(i) ==> i < s.repos.len())
}

/// None of `acts` asks for a directory listing.
pub open spec fn no_listing(acts: Seq<ActionView>) -> bool {
    forall|i: int| 0 <= i < acts.len() ==> !(acts[i] is List)
}

proof fn lemma_preview_keeps(s: AppState)
    ensures
        preview_step(s).0.entries == s.entries,
        preview_step(s).0.entry_selected == s.entry_selected,
        preview_step(s).0.repos == s.repos,
        preview_step(s).0.repo_selected == s.repo_selected,
        no_listing(preview_step(s).1),
{
}

proof fn lemma_load_keeps(s: AppState)
    requires
        selections_in_bounds(s),
        s.current_repo is Some,
    ensures
        no_listing(load_step(s).1) ==> selections_in_bounds(load_step(s).0),
{
    let repo = s.current_repo->0;
    match cache_get(s.dir_cache, s.current_path) {
        Some(es) => {
            let t = select_first(AppState { entries: up_entries(s.current_path) + es, ..s });
            lemma_preview_keeps(t);
        },
        None => {
            assert(load_step(s).1[0] is List);
        },
    }
}

/// Every key press that does not wait for a directory listing keeps the
/// selections within their lists.
pub proof fn lemma_key_keeps_selection(s: AppState, k: Key)
    requires
        selections_in_bounds(s),
    ensures
        no_listing(key_step(s, k).1) ==> selections_in_bounds(key_step(s, k).0),
{
    lemma_preview_keeps(s);
    let sw_f = AppState {
        view: View::Files,
        scroll: 0,
        commit_selected: s.commit_selected,
        ..s
    };
    lemma_preview_keeps(sw_f);
    let sw_c = AppState {
        view: View::Commits,
        scroll: 0,
        commit_selected: if s.commits.len() > 0 && s.commit_selected is None {
            Some(0)
        } else {
            s.commit_selected
        },
        ..s
    };
    lemma_preview_keeps(sw_c);
    if s.current_repo is None {
        if let Some(i) = s.repo_selected {
            if i < s.repos.len() {
                let t = AppState {
                    current_repo: Some(s.repos[i as int]),
                    current_path: seq![],
                    file_cache: seq![],
                    dir_cache: seq![],
                    diff_cache: seq![],
                    ..s
                };
                assert(cache_get(t.dir_cache, t.current_path) is None);
                assert(open_selected_step(s).1[0] is List);
            }
        }
    } else {
        let i = position(s.entry_selected);
        if i + 1 < s.entries.len() {
            lemma_preview_keeps(AppState { entry_selected: Some((i + 1) as usize), ..s });
        }
        if i > 0 {
            lemma_preview_keeps(AppState { entry_selected: Some((i - 1) as usize), ..s });
        }
        let j = position(s.commit_selected);
        if j + 1 < s.commits.len() {
            lemma_preview_keeps(AppState { commit_selected: Some((j + 1) as usize), ..s });
        }
        if j > 0 {
            lemma_preview_keeps(AppState { commit_selected: Some((j - 1) as usize), ..s });
        }
        if s.current_path.len() > 0 {
            lemma_load_keeps(AppState { current_path: parent_of(s.current_path), ..s });
        }
        if let Some(e) = selected_entry(s) {
            lemma_load_keeps(
                AppState { current_path: joined_path(s.current_path, e.name), ..s },
            );
        }
    }
}

/// A listing reply leaves the selection within the entries.
pub proof fn lemma_listing_selects(s: AppState, out: Seq<char>)
    requires
        selections_in_bounds(s),
    ensures
        selections_in_bounds(listing_step(s, out).0),
{
    if s.current_repo is Some {
        let fetched = listed_entries(lines(out));
        let t = select_first(
            AppState {
                entries: s.entries + fetched,
                dir_cache: cache_put(s.dir_cache, s.current_path, fetched),
                ..s
            },
        );
        lemma_preview_keeps(t);
    }
}

/// Going up from a directory below the top leads to a shorter path: the
/// part before its last `/`, or the top.
pub proof fn lemma_parent_shorter(path: Seq<char>)
    requires
        path.len() > 0,
    ensures
        parent_of(path).len() < path.len(),
        parent_of(path) == path.take(parent_of(path).len() as int),
{
    if path.contains('/') {
        crate::text::lemma_last_index(path, '/');
    }
}

/// In the file list of an open repository, below the top directory, Enter
/// on the `..` entry does what going up (Left, Backspace, `h`) does: the
/// parent directory is listed, with the same state and the same actions.
pub proof fn lemma_enter_on_updir_goes_up(s: AppState)
    requires
        s.active_panel == Panel::Left,
        s.view == View::Files,
        s.current_repo is Some,
        s.current_path.len() > 0,
        selected_entry(s) matches Some(e) && e.typ == EntryType::UpDir,
    ensures
        key_step(s, Key::Enter) == key_step(s, Key::Left),
        key_step(s, Key::Enter) == key_step(s, Key::Backspace),
        key_step(s, Key::Enter).0.current_path == parent_of(s.current_path),
        key_step(s, Key::Enter).0.current_path.len() < s.current_path.len(),
        key_step(s, Key::Enter).0.current_repo == s.current_repo,
        !key_step(s, Key::Enter).2,
{
    lemma_parent_shorter(s.current_path);
}

/// Down moves the selection of the list on show one place further, where
/// there is a further place, and leaves it where it is at the end; the list
/// is the repositories where none is open, else the files or the commits.
/// Up then brings it back.
pub proof fn lemma_down_moves_selection(s: AppState)
    requires
        s.active_panel == Panel::Left,
        s.repos.len() <= usize::MAX,
        s.entries.len() <= usize::MAX,
        s.commits.len() <= usize::MAX,
    ensures
        ({
            let t = key_step(s, Key::Down).0;
            if s.current_repo is None {
                let i = position(s.repo_selected);
                &&& i + 1 < s.repos.len() ==> t.repo_selected == Some((i + 1) as usize)
                &&& i + 1 >= s.repos.len() ==> t.repo_selected == s.repo_selected
            } else if s.view == View::Files {
                let i = position(s.entry_selected);
                &&& i + 1 < s.entries.len() ==> t.entry_selected == Some((i + 1) as usize)
                &&& i + 1 >= s.entries.len() ==> t.entry_selected == s.entry_selected
                &&& t.commit_selected == s.commit_selected
            } else {
                let i = position(s.commit_selected);
                &&& i + 1 < s.commits.len() ==> t.commit_selected == Some((i + 1) as usize)
                &&& i + 1 >= s.commits.len() ==> t.commit_selected == s.commit_selected
                &&& t.entry_selected == s.entry_selected
            }
        }),
        ({
            let t = key_step(s, Key::Down).0;
            let u = key_step(t, Key::Up).0;
            if s.current_repo is None {
                position(s.repo_selected) + 1 < s.repos.len() ==> u.repo_selected == Some(
                    position(s.repo_selected) as usize,
                )
            } else if s.view == View::Files {
                position(s.entry_selected) + 1 < s.entries.len() ==> u.entry_selected == Some(
                    position(s.entry_selected) as usize,
                )
            } else {
                position(s.commit_selected) + 1 < s.commits.len() ==> u.commit_selected == Some(
                    position(s.commit_selected) as usize,
                )
            }
        }),
{
}

/// In the commit list, the commit that Down selects has its diff shown at
/// once where it is held, else asked of the fetcher for the open
/// repository.
pub proof fn lemma_down_fetches_commit(s: AppState)
    requires
        s.active_panel == Panel::Left,
        s.current_repo is Some,
        s.view == View::Commits,
        s.commits.len() <= usize::MAX,
        position(s.commit_selected) + 1 < s.commits.len(),
    ensures
        ({
            let (t, acts) = (key_step(s, Key::Down).0, key_step(s, Key::Down).1);
            let c = s.commits[position(s.commit_selected) + 1];
            if s.diff_cache.contains(c.hash) {
                t.preview == PreviewView::Diff(c.hash) && acts.len() == 0
            } else {
                acts == seq![ActionView::Send(MsgView::FetchCommitDiff(s.current_repo->0, c.hash))]
            }
        }),
{
}
} // verus!
