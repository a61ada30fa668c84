use sac::store::{Command, Store};
use sac::config::Config;
use sac::sync::{diff_stores, review_remote, sync_step, SyncAction, SyncEvent};

fn command(id: u32, cmd: &str) -> Command {
    Command {
        id,
        folder: "f1".to_string(),
        cmd: cmd.to_string(),
        desc: String::new(),
        comment: String::new(),
        tags: vec![],
        last_used: String::new(),
    }
}

#[test]
fn test_review_remote_counts() {
    let mut local = Store::default();
    local.commands.push(command(1, "ls"));
    local.commands.push(command(2, "pwd"));
    let mut remote = Store::default();
    remote.commands.push(command(2, "pwd -P"));
    remote.commands.push(command(3, "whoami"));
    remote.commands.push(command(1, "ls"));
    let review = review_remote(&local, &remote);
    assert_eq!(review.new_count, 1);
    assert_eq!(review.modified_count, 1);
    assert!(!review.up_to_date());
}

#[test]
fn test_store_compared_with_itself_is_up_to_date() {
    let mut s = Store::default();
    s.commands.push(command(1, "ls"));
    s.commands.push(command(2, "pwd"));
    let (new_ids, modified, conflicts) = diff_stores(&s, &s);
    assert!(new_ids.is_empty() && modified.is_empty() && conflicts.is_empty());
    assert!(review_remote(&s, &s).up_to_date());
}

#[test]
fn test_diff_keeps_remote_order() {
    let local = Store::default();
    let mut remote = Store::default();
    remote.commands.push(command(9, "a"));
    remote.commands.push(command(4, "b"));
    let (new_ids, _, _) = diff_stores(&local, &remote);
    assert_eq!(new_ids, vec![9, 4]);
}

#[test]
fn test_sync_step_flow() {
    let mut config = Config::default();
    let mut local = Store::default();
    local.commands.push(command(1, "ls"));
    assert!(matches!(sync_step(&config, &local, SyncEvent::Started), SyncAction::Stop));
    config.set("commands_source.mode", "remote").unwrap();
    config.set("commands_source.url", "https://example.com/c.toml").unwrap();
    assert!(matches!(sync_step(&config, &local, SyncEvent::Started), SyncAction::CheckNetwork));
    assert!(matches!(
        sync_step(&config, &local, SyncEvent::NetworkChecked { online: false }),
        SyncAction::Stop
    ));
    match sync_step(&config, &local, SyncEvent::NetworkChecked { online: true }) {
        SyncAction::Fetch { url } => assert_eq!(url, "https://example.com/c.toml"),
        other => panic!("unexpected {:?}", other),
    }
    let mut same = Store::default();
    same.commands.push(command(1, "ls"));
    assert!(matches!(
        sync_step(&config, &local, SyncEvent::RemoteRead { remote: same }),
        SyncAction::UpToDate { .. }
    ));
    let mut remote = Store::default();
    remote.commands.push(command(1, "ls -la"));
    remote.commands.push(command(2, "pwd"));
    match sync_step(&config, &local, SyncEvent::RemoteRead { remote }) {
        SyncAction::Ask { review } => {
            assert_eq!(review.new_count, 1);
            assert_eq!(review.modified_count, 1);
        }
        other => panic!("unexpected {:?}", other),
    }
    assert!(matches!(sync_step(&config, &local, SyncEvent::Answered { yes: true }), SyncAction::Save));
    assert!(matches!(sync_step(&config, &local, SyncEvent::Answered { yes: false }), SyncAction::Cancel));
}
