use giss::browser::{
    commit_label, dir_preview_lines, entry_label, join_path, latest_request, panel_title,
    parent_path, parse_commits, parse_entries, parse_repo_list, syntax_extension, Commit, Entry,
    EntryType, Msg, View,
};

#[test]
fn entries_from_listing() {
    let es = parse_entries("tree src\nblob README.md\nblob .\ntree ..\nnoline\nblob my file.txt\n");
    assert_eq!(es.len(), 3);
    assert_eq!(es[0].name, "src");
    assert!(es[0].typ == EntryType::Dir);
    assert_eq!(es[1].name, "README.md");
    assert!(es[1].typ == EntryType::File);
    assert_eq!(es[2].name, "my file.txt");
}

#[test]
fn commits_from_log() {
    let cs = parse_commits("abc|Al|2 days ago|fix: a|b\nshort|line\n");
    assert_eq!(cs.len(), 1);
    assert_eq!(cs[0].hash, "abc");
    assert_eq!(cs[0].author, "Al");
    assert_eq!(cs[0].date, "2 days ago");
    assert_eq!(cs[0].message, "fix: a|b");
}

#[test]
fn repos_from_list() {
    assert_eq!(
        parse_repo_list("RW alice/a\nR  bob/b\n\nlonely\n"),
        vec!["alice/a", "bob/b"]
    );
}

#[test]
fn paths_join_and_split() {
    assert_eq!(join_path("", "src"), "src");
    assert_eq!(join_path("src", "lib"), "src/lib");
    assert_eq!(parent_path("src/lib"), "src");
    assert_eq!(parent_path("src"), "");
    assert_eq!(parent_path(&join_path("a/b", "c")), "a/b");
}

#[test]
fn previews_and_labels() {
    let es = vec![
        Entry { name: "d".to_string(), typ: EntryType::Dir },
        Entry { name: "f".to_string(), typ: EntryType::File },
    ];
    assert_eq!(dir_preview_lines(&es), vec!["> d", "  f"]);
    assert_eq!(dir_preview_lines(&Vec::new()), vec!["Empty directory"]);
    assert_eq!(entry_label(&Entry { name: "..".to_string(), typ: EntryType::UpDir }), ".. ..");
    assert_eq!(entry_label(&es[0]), "> d");
    let c = Commit {
        hash: "0123456789abcdef".to_string(),
        author: "Al".to_string(),
        date: "now".to_string(),
        message: "msg".to_string(),
    };
    assert_eq!(commit_label(&c), "0123456 [now] Al - msg");
    assert_eq!(panel_title(View::Files, "alice/x", "src"), "[Files] alice/x (src)");
    assert_eq!(panel_title(View::Commits, "alice/x", ""), "[Commits] alice/x ()");
}

#[test]
fn syntax_by_extension() {
    assert_eq!(syntax_extension("src/main.rs"), "rs");
    assert_eq!(syntax_extension("file.diff"), "diff");
    assert_eq!(syntax_extension("Makefile"), "Makefile");
    assert_eq!(syntax_extension("a.tar.gz"), "gz");
}

#[test]
fn fetch_commands() {
    let m = Msg::FetchDir("alice/x".to_string(), "src".to_string());
    assert_eq!(m.command(), Some("giss-tui-ls alice/x src".to_string()));
    let m = Msg::FetchFile("alice/x".to_string(), "a.rs".to_string());
    assert_eq!(m.command(), Some("giss-tui-show alice/x a.rs".to_string()));
    let m = Msg::FetchCommits("alice/x".to_string());
    assert_eq!(m.command(), Some("giss-tui-log alice/x".to_string()));
    let m = Msg::FetchCommitDiff("alice/x".to_string(), "abc".to_string());
    assert_eq!(m.command(), Some("giss-tui-commit-show alice/x abc".to_string()));
    assert_eq!(Msg::Quit.command(), None);
}

#[test]
fn latest_request_wins_unless_quit() {
    let got = latest_request(vec![
        Msg::FetchCommits("a".to_string()),
        Msg::FetchFile("a".to_string(), "x".to_string()),
    ]);
    assert!(matches!(got, Some(Msg::FetchFile(_, ref p)) if p == "x"));
    let stop = latest_request(vec![Msg::FetchCommits("a".to_string()), Msg::Quit]);
    assert!(stop.is_none());
}

#[test]
fn quit_first_then_others_serves_the_last() {
    let got = latest_request(vec![Msg::Quit, Msg::FetchCommits("a".to_string())]);
    assert!(matches!(got, Some(Msg::FetchCommits(ref r)) if r == "a"));
    assert!(latest_request(vec![Msg::Quit]).is_none());
    assert!(latest_request(vec![Msg::Quit, Msg::FetchCommits("a".to_string()), Msg::Quit]).is_none());
}

#[test]
fn highlighting_colours_the_text() {
    let content = "fn main() {}\nlet x = 1;\n";
    let lines = giss::highlight::highlight_text(content, "src/main.rs").unwrap();
    assert_eq!(lines.len(), 2);
    let joined: String = lines.iter().flatten().map(|s| s.3.as_str()).collect();
    assert_eq!(joined, content);
    assert!(lines[0].len() > 1);
    let first = (lines[0][0].0, lines[0][0].1, lines[0][0].2);
    assert!(lines[0].iter().any(|s| (s.0, s.1, s.2) != first));
}

#[test]
fn highlighted_pieces_rebuild_each_line() {
    let content = "x = 1\n\ny = 2";
    let lines = giss::highlight::highlight_text(content, "a.py").unwrap();
    let texts: Vec<String> = lines
        .iter()
        .map(|l| l.iter().map(|s| s.3.as_str()).collect())
        .collect();
    assert_eq!(texts, vec!["x = 1\n".to_string(), "\n".to_string(), "y = 2".to_string()]);
    assert!(giss::highlight::highlight_text("", "a.py").unwrap().is_empty());
}
