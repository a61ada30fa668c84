use sac::search::parse_last_used;
use sac::store::{Command, Folder, Store};
use sac::tui::app::{effective_text, App, AppError, BrowseItem, Key, KeyCode, Mode, SearchMode};

fn folder(id: &str, parent: &str, name: &str) -> Folder {
    Folder { id: id.to_string(), parent: parent.to_string(), name: name.to_string() }
}

fn command(id: u32, folder: &str, cmd: &str, desc: &str) -> Command {
    Command {
        id,
        folder: folder.to_string(),
        cmd: cmd.to_string(),
        desc: desc.to_string(),
        comment: String::new(),
        tags: vec![],
        last_used: String::new(),
    }
}

fn fixture() -> Store {
    Store {
        folders: vec![folder("devops", "", "DevOps"), folder("k8s", "devops", "Kubernetes")],
        commands: vec![
            command(1, "devops", "docker ps -a", "list containers"),
            command(2, "k8s", "kubectl get pods", "list pods"),
            command(3, "", "ls -la", "list files"),
        ],
    }
}

fn key(code: KeyCode) -> Key {
    Key { code, ctrl: false }
}

fn item_names(app: &App) -> Vec<String> {
    app.items
        .iter()
        .map(|i| match i {
            BrowseItem::Folder(f) => format!("folder:{}", f.name),
            BrowseItem::Command(c) => format!("command:{}", c.cmd),
        })
        .collect()
}

#[test]
fn test_new_app_lists_root() {
    let app = App::new(fixture());
    assert_eq!(app.mode, Mode::Browse);
    assert_eq!(app.search_mode, SearchMode::Fuzzy);
    assert_eq!(app.current_folder, "");
    assert!(app.breadcrumb.is_empty());
    assert_eq!(item_names(&app), vec!["folder:DevOps", "command:ls -la"]);
    assert_eq!(app.selected_index, 0);
    assert!(app.output.is_none());
    assert!(!app.should_quit);
}

#[test]
fn test_enter_then_back_restores_listing() {
    let mut app = App::new(fixture());
    let before = item_names(&app);
    app.handle_key(key(KeyCode::Char('1'))).unwrap();
    assert_eq!(app.current_folder, "devops");
    assert_eq!(app.breadcrumb, vec!["DevOps"]);
    assert_eq!(item_names(&app), vec!["folder:Kubernetes", "command:docker ps -a"]);
    app.handle_key(key(KeyCode::Char('1'))).unwrap();
    assert_eq!(app.current_folder, "k8s");
    assert_eq!(app.breadcrumb, vec!["DevOps", "Kubernetes"]);
    app.handle_key(key(KeyCode::Esc)).unwrap();
    assert_eq!(app.current_folder, "devops");
    assert_eq!(app.breadcrumb, vec!["DevOps"]);
    app.handle_key(key(KeyCode::Char('q'))).unwrap();
    assert_eq!(app.current_folder, "");
    assert!(app.breadcrumb.is_empty());
    assert_eq!(item_names(&app), before);
    assert!(!app.should_quit);
}

#[test]
fn test_back_at_root_quits_without_output() {
    let mut app = App::new(fixture());
    app.handle_key(key(KeyCode::Char('q'))).unwrap();
    assert!(app.should_quit);
    assert!(app.output.is_none());
}

#[test]
fn test_ctrl_c_quits_in_both_modes() {
    let mut app = App::new(fixture());
    app.handle_key(Key { code: KeyCode::Char('c'), ctrl: true }).unwrap();
    assert!(app.should_quit);
    assert!(app.output.is_none());
    assert!(app.search_query.is_empty());

    let mut app = App::new(fixture());
    app.handle_key(key(KeyCode::Char('k'))).unwrap();
    assert_eq!(app.mode, Mode::Search);
    app.handle_key(Key { code: KeyCode::Char('c'), ctrl: true }).unwrap();
    assert!(app.should_quit);
    assert!(app.output.is_none());
    assert_eq!(app.search_query, "k");
}

#[test]
fn test_digit_picks_command_and_stamps_it() {
    let mut app = App::new(fixture());
    app.handle_key(key(KeyCode::Char('2'))).unwrap();
    assert_eq!(app.output.as_deref(), Some("ls -la"));
    assert!(app.should_quit);
    assert!(app.save_pending);
    let stamped = &app.store.commands[2].last_used;
    assert!(stamped.chars().count() >= 25, "expected an RFC 3339 time, got {:?}", stamped);
    assert!(parse_last_used(stamped) > 0, "expected an RFC 3339 time, got {:?}", stamped);
    assert!(app.store.commands[0].last_used.is_empty());
}

#[test]
fn test_confirm_command_at_records_the_time() {
    let mut app = App::new(fixture());
    let cmd = app.store.commands[1].clone();
    app.confirm_command_at(cmd, "2024-05-01T10:00:00+00:00".to_string()).unwrap();
    assert_eq!(app.output.as_deref(), Some("kubectl get pods"));
    assert_eq!(app.store.commands[1].last_used, "2024-05-01T10:00:00+00:00");
    assert_eq!(app.store.commands[0].last_used, "");
    assert_eq!(app.store.commands[2].last_used, "");
}

#[test]
fn test_digit_out_of_range_changes_nothing() {
    let mut app = App::new(fixture());
    app.handle_key(key(KeyCode::Char('9'))).unwrap();
    app.handle_key(key(KeyCode::Char('0'))).unwrap();
    assert!(!app.should_quit);
    assert!(app.output.is_none());
    assert_eq!(app.mode, Mode::Browse);
}

#[test]
fn test_up_down_stay_within_listing() {
    let mut app = App::new(fixture());
    app.handle_key(key(KeyCode::Down)).unwrap();
    assert_eq!(app.selected_index, 1);
    app.handle_key(key(KeyCode::Down)).unwrap();
    assert_eq!(app.selected_index, 1);
    app.handle_key(key(KeyCode::Up)).unwrap();
    assert_eq!(app.selected_index, 0);
    app.handle_key(key(KeyCode::Up)).unwrap();
    assert_eq!(app.selected_index, 0);
    app.handle_key(key(KeyCode::Down)).unwrap();
    app.handle_key(key(KeyCode::Enter)).unwrap();
    assert_eq!(app.output.as_deref(), Some("ls -la"));
}

#[test]
fn test_typing_starts_fuzzy_search() {
    let mut app = App::new(fixture());
    for c in "kubectl".chars() {
        app.handle_key(key(KeyCode::Char(c))).unwrap();
    }
    assert_eq!(app.mode, Mode::Search);
    assert_eq!(app.search_mode, SearchMode::Fuzzy);
    assert_eq!(app.search_query, "kubectl");
    assert!(!app.search_results.is_empty());
    assert_eq!(app.search_results[0].command.cmd, "kubectl get pods");
    assert_eq!(app.search_results[0].folder_path, vec!["DevOps", "Kubernetes"]);
    app.handle_key(key(KeyCode::Enter)).unwrap();
    assert_eq!(app.output.as_deref(), Some("kubectl get pods"));
}

#[test]
fn test_double_slash_selects_exact_search() {
    let mut app = App::new(fixture());
    for c in "//s -".chars() {
        app.handle_key(key(KeyCode::Char(c))).unwrap();
    }
    assert_eq!(app.search_mode, SearchMode::Exact);
    assert_eq!(app.effective_query(), "s -");
    let cmds: Vec<&str> = app.search_results.iter().map(|r| r.command.cmd.as_str()).collect();
    assert_eq!(cmds, vec!["docker ps -a", "ls -la"]);
    app.handle_key(key(KeyCode::Char('2'))).unwrap();
    assert_eq!(app.output.as_deref(), Some("ls -la"));
}

#[test]
fn test_backspace_to_empty_returns_to_browse() {
    let mut app = App::new(fixture());
    app.handle_key(key(KeyCode::Char('l'))).unwrap();
    app.handle_key(key(KeyCode::Char('s'))).unwrap();
    assert_eq!(app.mode, Mode::Search);
    app.handle_key(key(KeyCode::Backspace)).unwrap();
    assert_eq!(app.search_query, "l");
    assert_eq!(app.mode, Mode::Search);
    app.handle_key(key(KeyCode::Backspace)).unwrap();
    assert_eq!(app.search_query, "");
    assert_eq!(app.mode, Mode::Browse);
    assert!(app.search_results.is_empty());
    assert_eq!(app.search_selected, 0);
}

#[test]
fn test_esc_in_search_clears_the_query() {
    let mut app = App::new(fixture());
    app.handle_key(key(KeyCode::Char('d'))).unwrap();
    app.handle_key(key(KeyCode::Esc)).unwrap();
    assert_eq!(app.mode, Mode::Browse);
    assert!(app.search_query.is_empty());
    assert!(app.search_results.is_empty());
    assert!(!app.should_quit);
}

#[test]
fn test_q_is_typed_while_searching() {
    let mut app = App::new(fixture());
    app.handle_key(key(KeyCode::Char('l'))).unwrap();
    app.handle_key(key(KeyCode::Char('q'))).unwrap();
    assert_eq!(app.search_query, "lq");
    assert!(!app.should_quit);
}

#[test]
fn test_enter_unknown_folder_fails() {
    let mut app = App::new(fixture());
    let err = app.enter_folder("nope".to_string()).unwrap_err();
    assert_eq!(err.message(), "Folder not found: nope");
    assert_eq!(app.current_folder, "");
    assert!(app.breadcrumb.is_empty());
}

#[test]
fn test_effective_query_strips_every_leading_pair() {
    let mut app = App::new(fixture());
    app.search_query = "////abc".to_string();
    app.update_search_mode();
    assert_eq!(app.search_mode, SearchMode::Exact);
    assert_eq!(app.effective_query(), "abc");
    app.search_query = "/abc".to_string();
    app.update_search_mode();
    assert_eq!(app.search_mode, SearchMode::Fuzzy);
    assert_eq!(app.effective_query(), "abc");
    app.search_query = "abc/".to_string();
    app.update_search_mode();
    assert_eq!(app.effective_query(), "abc/");
}

#[test]
fn test_load_items_keeps_highlight_in_range() {
    let mut app = App::new(fixture());
    app.selected_index = 5;
    app.load_items();
    assert_eq!(app.selected_index, 1);
}

#[test]
fn test_slash_opens_fuzzy_search_without_the_slash() {
    let mut app = App::new(fixture());
    for c in "/dock".chars() {
        app.handle_key(key(KeyCode::Char(c))).unwrap();
    }
    assert_eq!(app.search_mode, SearchMode::Fuzzy);
    assert_eq!(app.search_query, "/dock");
    assert_eq!(app.effective_query(), "dock");
    assert_eq!(app.search_results[0].command.cmd, "docker ps -a");
    assert_eq!(effective_text("/doc", SearchMode::Fuzzy), "doc");
    assert_eq!(effective_text("//doc", SearchMode::Exact), "doc");
}

#[test]
fn test_press_refuses_search_on_looping_folders() {
    let store = Store {
        folders: vec![folder("a", "b", "A"), folder("b", "a", "B"), folder("r", "", "R")],
        commands: vec![command(1, "a", "ls", "")],
    };
    let mut app = App::new(store);
    assert_eq!(app.items.len(), 1);
    app.press(key(KeyCode::Down)).unwrap();
    match app.press(key(KeyCode::Char('l'))) {
        Err(e @ AppError::SearchUnavailable) => assert!(e.message().contains("cannot run")),
        other => panic!("unexpected {:?}", other),
    }
    assert_eq!(app.mode, Mode::Browse);
    assert!(app.search_query.is_empty());
    app.press(key(KeyCode::Char('1'))).unwrap();
    assert_eq!(app.current_folder, "r");
}

#[test]
fn test_press_handles_keys_like_handle_key() {
    let mut app = App::new(fixture());
    for c in "kubectl".chars() {
        app.press(key(KeyCode::Char(c))).unwrap();
    }
    assert_eq!(app.search_results[0].command.cmd, "kubectl get pods");
    app.press(key(KeyCode::Enter)).unwrap();
    assert_eq!(app.output.as_deref(), Some("kubectl get pods"));
}

#[test]
fn test_breadcrumb_follows_the_folder_shown() {
    let mut app = App::new(fixture());
    let keys = [
        KeyCode::Char('1'),
        KeyCode::Down,
        KeyCode::Up,
        KeyCode::Enter,
        KeyCode::Esc,
        KeyCode::Char('1'),
        KeyCode::Char('q'),
        KeyCode::Char('q'),
    ];
    for code in keys {
        app.press(key(code)).unwrap();
        if app.should_quit {
            break;
        }
        assert_eq!(app.breadcrumb, app.store.breadcrumb(&app.current_folder));
    }
}
