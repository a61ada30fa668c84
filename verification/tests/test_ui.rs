use sac::search::SearchResult;
use sac::store::{Command, Folder, Store};
use sac::tui::app::{App, Key, KeyCode, Mode, SearchMode};
use sac::tui::ui::{
    browse_title, command_cell, folder_cell, meta_line, mode_label, num_label, query_text, result_lines, results_title,
    status_text, truncate, wrap_text,
};

#[test]
fn test_truncate_keeps_short_text() {
    assert_eq!(truncate("hello", 10), "hello");
    assert_eq!(truncate("hello", 5), "hello");
}

#[test]
fn test_truncate_cuts_with_ellipsis() {
    assert_eq!(truncate("hello world", 5), "hell\u{2026}");
    assert_eq!(truncate("hello", 1), "\u{2026}");
    assert_eq!(truncate("列出所有容器", 3), "列出\u{2026}");
}

#[test]
fn test_truncate_to_zero_is_just_the_ellipsis() {
    assert_eq!(truncate("abc", 0), "\u{2026}");
    assert_eq!(truncate("", 0), "");
}

#[test]
fn test_wrap_text_greedy_lines() {
    let lines = wrap_text("the quick brown fox jumps", 10, 3);
    assert_eq!(lines, vec!["the quick", "brown fox", "jumps"]);
    let lines = wrap_text("the quick brown fox jumps", 10, 2);
    assert_eq!(lines, vec!["the quick", "brown fox"]);
}

#[test]
fn test_wrap_text_cuts_long_words() {
    assert_eq!(wrap_text("abcdefghijkl", 5, 2), vec!["abcd\u{2026}"]);
    assert_eq!(wrap_text("ab abcdefghijkl", 5, 2), vec!["ab", "abcd\u{2026}"]);
}

#[test]
fn test_wrap_text_empty_cases() {
    assert!(wrap_text("", 10, 3).is_empty());
    assert!(wrap_text("words here", 0, 3).is_empty());
    assert!(wrap_text("words here", 10, 0).is_empty());
    assert!(wrap_text("   \t  ", 10, 3).is_empty());
}

#[test]
fn test_wrap_text_lines_fit() {
    let text = "a bb ccc dddd eeeee ffffff ggggggg hhhhhhhh iiiiiiiii";
    for width in 1..12 {
        for max_lines in 1..6 {
            let lines = wrap_text(text, width, max_lines);
            assert!(lines.len() <= max_lines);
            for l in &lines {
                let n = l.chars().count();
                assert!(n >= 1 && n <= width, "line {:?} for width {}", l, width);
            }
        }
    }
}

#[test]
fn test_num_label() {
    assert_eq!(num_label(0), " [1] ");
    assert_eq!(num_label(8), " [9] ");
    assert_eq!(num_label(9), " [0] ");
    assert_eq!(num_label(10), "      ");
}

#[test]
fn test_titles() {
    assert_eq!(browse_title(&vec![]), " / ");
    assert_eq!(browse_title(&vec!["A".to_string(), "B".to_string()]), " A > B ");
    assert_eq!(results_title(3), " results: 3 ");
    assert_eq!(results_title(12), " results: 12 ");
    assert_eq!(query_text("abc"), "\u{1F50D} abc");
}

#[test]
fn test_mode_label() {
    assert_eq!(mode_label(Mode::Browse, SearchMode::Exact), "");
    assert_eq!(mode_label(Mode::Search, SearchMode::Fuzzy), " fuzzy ");
    assert_eq!(mode_label(Mode::Search, SearchMode::Exact), " exact ");
}

#[test]
fn test_meta_line() {
    let path = vec!["DevOps".to_string(), "K8s".to_string()];
    let tags = vec!["a".to_string(), "b".to_string()];
    assert_eq!(meta_line(&path, &tags), "[DevOps/K8s]  #a #b");
    assert_eq!(meta_line(&vec![], &tags), "#a #b");
    assert_eq!(meta_line(&path, &vec![]), "[DevOps/K8s]");
    assert_eq!(meta_line(&vec![], &vec![]), "");
}

fn command(id: u32, folder: &str, cmd: &str, desc: &str, tags: &[&str]) -> Command {
    Command {
        id,
        folder: folder.to_string(),
        cmd: cmd.to_string(),
        desc: desc.to_string(),
        comment: String::new(),
        tags: tags.iter().map(|t| t.to_string()).collect(),
        last_used: String::new(),
    }
}

#[test]
fn test_result_lines() {
    let result = SearchResult {
        command: command(1, "devops", "kubectl get pods", "list all the pods of the cluster", &["k8s"]),
        score: 0,
        folder_path: vec!["DevOps".to_string()],
    };
    assert_eq!(result_lines(&result, 12), vec!["list all the", "pods of the", "[DevOps]  #k8s"]);
    let bare = SearchResult {
        command: command(2, "", "ls", "", &[]),
        score: 0,
        folder_path: vec![],
    };
    assert!(result_lines(&bare, 12).is_empty());
}

#[test]
fn test_status_text() {
    let store = Store {
        folders: vec![Folder { id: "devops".into(), parent: "".into(), name: "DevOps".into() }],
        commands: vec![
            command(1, "devops", "docker ps", "", &[]),
            command(2, "", "ls -la", "", &[]),
            command(3, "", "pwd", "", &[]),
        ],
    };
    let mut app = App::new(store);
    assert_eq!(status_text(&app), " \u{1F4C1} 1  \u{26A1} 2  |  3 total commands");
    for c in "//ls".chars() {
        app.handle_key(Key { code: KeyCode::Char(c), ctrl: false }).unwrap();
    }
    assert_eq!(status_text(&app), " query: \"ls\"  |  1 results  |  3 total");
}

#[test]
fn test_row_cells() {
    assert_eq!(folder_cell("DevOps"), "\u{1F4C1}  DevOps");
    assert_eq!(command_cell("ls -la", 20), "$  ls -la");
    assert_eq!(command_cell("kubectl get pods", 10), "$  kubect\u{2026}");
}
