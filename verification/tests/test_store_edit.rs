use sac::store::{
    check_command_text, check_folder_id, folder_id_for, has_duplicates, import_preview,
    keep_or_replace, parse_tags, AddError, Command, Folder, Store, StoreError,
};

fn folder(id: &str, parent: &str, name: &str) -> Folder {
    Folder { id: id.to_string(), parent: parent.to_string(), name: name.to_string() }
}

fn command(id: u32, folder: &str, cmd: &str) -> Command {
    Command {
        id,
        folder: folder.to_string(),
        cmd: cmd.to_string(),
        desc: String::new(),
        comment: String::new(),
        tags: vec![],
        last_used: String::new(),
    }
}

#[test]
fn test_parse_tags() {
    assert_eq!(parse_tags("git, vcs ,, tools "), vec!["git", "vcs", "tools"]);
    assert!(parse_tags("").is_empty());
    assert!(parse_tags(" , ").is_empty());
}

#[test]
fn test_folder_id_for() {
    assert_eq!(folder_id_for("My Tools", None), "my_tools");
    assert_eq!(folder_id_for("Docker Stuff", Some("devops")), "devops.docker_stuff");
}

#[test]
fn test_keep_or_replace() {
    let current = "old".to_string();
    assert_eq!(keep_or_replace(&current, ""), "old");
    assert_eq!(keep_or_replace(&current, "new"), "new");
}

#[test]
fn test_add_command_uses_next_id() {
    let mut store = Store::default();
    store.commands.push(command(4, "f", "a"));
    let id = store
        .add_command("f".into(), "ls".into(), "list".into(), "".into(), vec!["x".into()])
        .unwrap();
    assert_eq!(id, 5);
    let added = store.commands.last().unwrap();
    assert_eq!(added.id, 5);
    assert_eq!(added.cmd, "ls");
    assert_eq!(added.tags, vec!["x"]);
    assert_eq!(added.last_used, "");
}

#[test]
fn test_add_folder_checks_limit() {
    let mut store = Store::default();
    let id = store.add_folder("Dev Ops".into(), None).unwrap();
    assert_eq!(id, "dev_ops");
    assert_eq!(store.folders[0].parent, "");
    for i in 0..9 {
        store.add_folder(format!("F{}", i), None).unwrap();
    }
    match store.add_folder("Extra".into(), None) {
        Err(StoreError::RootOverLimit { count }) => assert_eq!(count, 11),
        other => panic!("unexpected {:?}", other),
    }
    assert_eq!(store.folders.len(), 11);
    let child = store.add_folder("Sub Dir".into(), Some("dev_ops".into())).unwrap_err();
    assert_eq!(child.message(), "Root has 11 items (sub-folders + commands combined), limit is 10");
}

#[test]
fn test_folder_over_limit_message() {
    let mut store = Store::default();
    store.folders.push(folder("f1", "", "Folder 1"));
    for i in 0..11 {
        store.commands.push(command(i, "f1", "x"));
    }
    let err = store.validate().unwrap_err();
    assert_eq!(err.message(), "Folder 'Folder 1' has 11 items (sub-folders + commands combined), limit is 10");
}

#[test]
fn test_apply_edit_keeps_empty_fields() {
    let mut store = Store::default();
    let mut c = command(7, "f1", "git status");
    c.desc = "status".into();
    c.tags = vec!["git".into()];
    c.last_used = "2024-01-01".into();
    store.commands.push(c);
    store.commands.push(command(8, "f1", "other"));
    store.apply_edit(0, "", "Show status", "", "a, b", "").unwrap();
    let e = &store.commands[0];
    assert_eq!(e.id, 7);
    assert_eq!(e.cmd, "git status");
    assert_eq!(e.desc, "Show status");
    assert_eq!(e.tags, vec!["a", "b"]);
    assert_eq!(e.folder, "f1");
    assert_eq!(e.last_used, "2024-01-01");
    assert_eq!(store.commands[1].cmd, "other");
}

#[test]
fn test_import_preview_counts_new_ids() {
    let mut local = Store::default();
    local.folders.push(folder("a", "", "A"));
    local.commands.push(command(1, "a", "x"));
    let mut imported = Store::default();
    imported.folders.push(folder("a", "", "A"));
    imported.folders.push(folder("b", "", "B"));
    imported.commands.push(command(1, "a", "changed"));
    imported.commands.push(command(2, "b", "y"));
    imported.commands.push(command(3, "b", "z"));
    assert_eq!(import_preview(&local, &imported), (2, 1));
}

#[test]
fn test_auto_fix_ids_orders_by_old_id() {
    let mut store = Store::default();
    store.commands.push(command(5, "f", "e"));
    store.commands.push(command(2, "f", "b"));
    store.commands.push(command(5, "f", "e2"));
    store.commands.push(command(1, "f", "a"));
    assert!(has_duplicates(&store.commands));
    assert!(store.auto_fix_ids());
    let got: Vec<(u32, &str)> = store.commands.iter().map(|c| (c.id, c.cmd.as_str())).collect();
    assert_eq!(got, vec![(1, "a"), (2, "b"), (3, "e"), (4, "e2")]);
    assert!(!has_duplicates(&store.commands));
    assert!(!store.auto_fix_ids());
}

#[test]
fn test_breadcrumb_stops_on_cycle_check() {
    let mut store = Store::default();
    store.folders.push(folder("a", "b", "A"));
    store.folders.push(folder("b", "a", "B"));
    store.folders.push(folder("c", "", "C"));
    assert!(!store.reaches_root(&"a".to_string()));
    assert!(store.reaches_root(&"c".to_string()));
    assert!(store.reaches_root(&"missing".to_string()));
    assert_eq!(store.breadcrumb("c"), vec!["C"]);
}

#[test]
fn test_self_parented_folder_breadcrumb() {
    let mut store = Store::default();
    store.folders.push(folder("x", "x", "X"));
    assert!(store.reaches_root(&"x".to_string()));
    assert_eq!(store.breadcrumb("x"), vec!["X"]);
}

#[test]
fn test_counts_and_positions() {
    let mut store = Store::default();
    store.folders.push(folder("r", "", "R"));
    store.folders.push(folder("s", "r", "S"));
    store.commands.push(command(3, "r", "x"));
    store.commands.push(command(9, "r", "y"));
    assert_eq!(store.count_folders_under(&"r".to_string()), 1);
    assert_eq!(store.count_commands_in(&"r".to_string()), 2);
    assert_eq!(store.command_position(9), Some(1));
    assert_eq!(store.command_position(4), None);
    assert_eq!(store.find_folder(&"s".to_string()), Some(1));
}

#[test]
fn test_new_command_input_checks() {
    assert_eq!(check_folder_id("devops"), Ok(()));
    assert_eq!(check_folder_id(""), Err(AddError::EmptyFolderId));
    assert_eq!(check_command_text("ls"), Ok(()));
    let err = check_command_text("").unwrap_err();
    assert_eq!(err, AddError::EmptyCommand);
    assert_eq!(err.message(), "Command cannot be empty");
    assert_eq!(AddError::EmptyFolderId.message(), "Folder id cannot be empty");
}

#[test]
fn test_add_command_refuses_full_folder() {
    let mut store = Store::default();
    store.folders.push(folder("f1", "", "Folder 1"));
    for i in 1..=10 {
        store.commands.push(command(i, "f1", "x"));
    }
    let err = store
        .add_command("f1".into(), "ls".into(), "".into(), "".into(), vec![])
        .unwrap_err();
    match &err {
        StoreError::FolderFull { folder, count } => {
            assert_eq!(folder, "f1");
            assert_eq!(*count, 11);
        }
        other => panic!("unexpected {:?}", other),
    }
    assert_eq!(err.message(), "Folder 'f1' would have 11 items (sub-folders + commands combined), limit is 10");
    assert_eq!(store.commands.len(), 10);
    let root_err = {
        let mut s = Store::default();
        for i in 0..10 {
            s.folders.push(folder(&format!("r{}", i), "", "R"));
        }
        s.add_command("".into(), "ls".into(), "".into(), "".into(), vec![]).unwrap_err()
    };
    assert_eq!(root_err.message(), "Root would have 11 items (sub-folders + commands combined), limit is 10");
}

#[test]
fn test_apply_edit_refuses_move_into_full_folder() {
    let mut store = Store::default();
    for i in 1..=10 {
        store.commands.push(command(i, "full", "x"));
    }
    store.commands.push(command(11, "other", "y"));
    assert!(matches!(
        store.apply_edit(10, "z", "", "", "", "full"),
        Err(StoreError::FolderFull { count: 11, .. })
    ));
    assert_eq!(store.commands[10].cmd, "y");
    assert_eq!(store.commands[10].folder, "other");
    store.apply_edit(0, "edited", "", "", "", "full").unwrap();
    assert_eq!(store.commands[0].cmd, "edited");
    store.apply_edit(10, "", "", "", "", "elsewhere").unwrap();
    assert_eq!(store.commands[10].folder, "elsewhere");
}
