use giss::browser::{Commit, Entry, EntryType, Msg, Panel, View};
use giss::navigator::{Action, App, Key, ListKind, Preview};

fn texts(p: &Preview) -> Vec<String> {
    match p {
        Preview::Text(v) => v.clone(),
        _ => panic!("not text"),
    }
}

fn opened() -> App {
    let mut b = App::new();
    b.load_repos("RW alice/x\nR  bob/y\n");
    let (acts, quit) = b.handle_key(Key::Enter);
    assert!(!quit);
    assert_eq!(acts.len(), 2);
    match &acts[0] {
        Action::List(cmd) => assert_eq!(cmd, "giss-tui-ls alice/x "),
        other => panic!("unexpected {:?}", other),
    }
    let more = b.listing_loaded("tree src\nblob a.rs\n");
    assert_eq!(more.len(), 1);
    assert!(matches!(&more[0], Action::Send(Msg::FetchDir(r, p)) if r == "alice/x" && p == "src"));
    assert!(matches!(&acts[1], Action::Send(Msg::FetchCommits(r)) if r == "alice/x"));
    b
}

#[test]
fn starts_empty() {
    let b = App::new();
    assert_eq!(texts(&b.preview), vec!["Select a file to view"]);
    assert!(b.view == View::Files && b.active_panel == Panel::Left);
}

#[test]
fn repository_list_navigation() {
    let mut b = App::new();
    b.load_repos("RW alice/x\nR  bob/y\n");
    assert_eq!(b.repo_selected, Some(0));
    b.handle_key(Key::Down);
    assert_eq!(b.repo_selected, Some(1));
    b.handle_key(Key::Down);
    assert_eq!(b.repo_selected, Some(1));
    b.handle_key(Key::Char('k'));
    assert_eq!(b.repo_selected, Some(0));
    b.handle_key(Key::Up);
    assert_eq!(b.repo_selected, Some(0));
}

#[test]
fn opening_lists_the_top() {
    let b = opened();
    assert_eq!(b.current_repo.as_deref(), Some("alice/x"));
    assert_eq!(b.entries.len(), 2);
    assert_eq!(b.entry_selected, Some(0));
    assert_eq!(texts(&b.preview), vec!["Loading directory preview..."]);
}

#[test]
fn entering_and_leaving_a_directory() {
    let mut b = opened();
    let acts = b.enter();
    assert!(matches!(&acts[0], Action::List(c) if c == "giss-tui-ls alice/x src"));
    let more = b.listing_loaded("blob lib.rs\n");
    assert_eq!(b.current_path, "src");
    assert_eq!(b.entries.len(), 2);
    assert!(b.entries[0].typ == EntryType::UpDir);
    assert_eq!(texts(&b.preview), vec![".. (Go up to parent directory)"]);
    assert!(more.is_empty());
    let up = b.go_up();
    assert_eq!(b.current_path, "");
    // The top was listed before: it comes from the cache.
    assert!(up.iter().all(|a| !matches!(a, Action::List(_))));
    assert_eq!(b.entries.len(), 2);
}

#[test]
fn cached_directory_previews_at_once() {
    let mut b = opened();
    b.dir_loaded("src", vec![Entry { name: "lib.rs".to_string(), typ: EntryType::File }]);
    assert_eq!(texts(&b.preview), vec!["  lib.rs"]);
    let acts = b.next();
    assert!(matches!(&acts[0], Action::Send(Msg::FetchFile(_, p)) if p == "a.rs"));
    assert_eq!(texts(&b.preview), vec!["Loading file..."]);
    b.file_loaded("a.rs");
    assert!(matches!(&b.preview, Preview::File(p) if p == "a.rs"));
    let back = b.previous();
    assert!(back.is_empty());
    assert_eq!(texts(&b.preview), vec!["  lib.rs"]);
}

#[test]
fn commits_view() {
    let mut b = opened();
    let c = Commit {
        hash: "abcdef1234".to_string(),
        author: "Al".to_string(),
        date: "now".to_string(),
        message: "m".to_string(),
    };
    let none = b.commits_loaded(vec![c]);
    assert!(none.is_empty());
    let acts = b.switch_view(View::Commits);
    assert_eq!(b.commit_selected, Some(0));
    assert!(matches!(&acts[0], Action::Send(Msg::FetchCommitDiff(_, h)) if h == "abcdef1234"));
    b.diff_loaded("abcdef1234");
    assert!(matches!(&b.preview, Preview::Diff(h) if h == "abcdef1234"));
    let again = b.handle_key(Key::Char('c')).0;
    assert!(again.is_empty());
}

#[test]
fn panels_and_scrolling() {
    let mut b = opened();
    b.handle_key(Key::Tab);
    assert!(b.active_panel == Panel::Right);
    b.handle_key(Key::Down);
    b.handle_key(Key::Char('j'));
    assert_eq!(b.scroll, 6);
    b.handle_key(Key::Up);
    assert_eq!(b.scroll, 3);
    b.scroll = u16::MAX - 1;
    b.scroll_down();
    assert_eq!(b.scroll, u16::MAX);
    b.scroll = 1;
    b.scroll_up();
    assert_eq!(b.scroll, 0);
    b.handle_key(Key::Left);
    assert!(b.active_panel == Panel::Left);
}

#[test]
fn leaving_the_repository() {
    let mut b = opened();
    b.handle_key(Key::Backspace);
    assert!(b.current_repo.is_none());
    assert!(b.entries.is_empty());
    assert_eq!(b.entry_selected, None);
    assert!(texts(&b.preview).is_empty());
}

#[test]
fn quitting() {
    let mut b = App::new();
    let (acts, quit) = b.handle_key(Key::Char('q'));
    assert!(quit);
    assert!(matches!(&acts[0], Action::Send(Msg::Quit)));
}

#[test]
fn scrolling_down_then_up_returns() {
    let mut b = App::new();
    b.scroll = 10;
    b.scroll_down();
    b.scroll_up();
    assert_eq!(b.scroll, 10);
}

#[test]
fn screen_text() {

    let mut b = App::new();
    b.load_repos("RW alice/x\n");
    let s = b.screen();
    assert!(s.kind == ListKind::Repos);
    assert_eq!(s.left_title, "Repositories (Enter/Open)");
    assert_eq!(s.items, vec!["alice/x"]);
    assert_eq!(s.selected, Some(0));
    assert_eq!(s.right_title, "Info");
    let b = opened();
    let s = b.screen();
    assert!(s.kind == ListKind::Entries);
    assert_eq!(s.left_title, "[Files] alice/x ()");
    assert_eq!(s.items, vec!["> src", "  a.rs"]);
    assert_eq!(s.right_title, "Preview");
}

#[test]
fn commit_screen_needs_cut_hashes() {
    let mut b = opened();
    b.commits_loaded(vec![Commit {
        hash: "abc".to_string(),
        author: "Al".to_string(),
        date: "now".to_string(),
        message: "m".to_string(),
    }]);
    b.switch_view(View::Commits);
    assert!(!b.hashes_fit());
}
