use sac::search::{
    base_score, check_paths_defined, check_searchable, parse_last_used, tier_score, weighted_score,
    Searcher,
};
use sac::store::{Command, Folder, Store};

fn command(id: u32, cmd: &str, desc: &str, last_used: &str) -> Command {
    Command {
        id,
        folder: "f".to_string(),
        cmd: cmd.to_string(),
        desc: desc.to_string(),
        comment: String::new(),
        tags: vec![],
        last_used: last_used.to_string(),
    }
}

fn store(commands: Vec<Command>) -> Store {
    Store {
        folders: vec![Folder { id: "f".into(), parent: "".into(), name: "F".into() }],
        commands,
    }
}

#[test]
fn test_parse_last_used_formats() {
    assert_eq!(parse_last_used(""), i64::MIN);
    assert_eq!(parse_last_used("garbage"), i64::MIN);
    assert_eq!(parse_last_used("2024-01-01"), 1704067200);
    assert_eq!(parse_last_used("2024-01-01T00:00:00"), 1704067200);
    assert_eq!(parse_last_used("2024-01-01 00:00:01"), 1704067201);
    assert_eq!(parse_last_used("2024-01-01T01:00:00+01:00"), 1704067200);
}

#[test]
fn test_scores() {
    assert_eq!(base_score(true, true, true, true), 5_000_000);
    assert_eq!(base_score(false, true, true, true), 4_000_000);
    assert_eq!(base_score(false, false, true, true), 3_000_000);
    assert_eq!(base_score(false, false, false, true), 2_000_000);
    assert_eq!(base_score(false, false, false, false), 0);
    assert_eq!(tier_score(4_000_000, 5), 4_000_005);
    assert_eq!(tier_score(0, 5), 5);
    assert_eq!(weighted_score(1, 10, 100, 1000), 1123);
    assert_eq!(weighted_score(u32::MAX, u32::MAX, 0, 0), 5 * u32::MAX as u64);
}

#[test]
fn test_command_hits_rank_above_description_hits() {
    let s = store(vec![
        command(1, "echo", "runs git things", ""),
        command(2, "git log", "history", ""),
    ]);
    let mut searcher = Searcher::new();
    let results = searcher.fuzzy_search("git", &s);
    assert_eq!(results.len(), 2);
    assert_eq!(results[0].command.id, 2);
    assert!(results[0].score >= 4_000_000 && results[0].score < 5_000_000);
    assert_eq!(results[1].command.id, 1);
    assert!(results[1].score >= 3_000_000 && results[1].score < 4_000_000);
}

#[test]
fn test_recent_use_breaks_ties() {
    let s = store(vec![
        command(1, "git status", "", "2023-01-01"),
        command(2, "git status", "", "2024-06-01T12:00:00+00:00"),
        command(3, "git status", "", ""),
    ]);
    let mut searcher = Searcher::new();
    let ids: Vec<u32> = searcher.fuzzy_search("git status", &s).iter().map(|r| r.command.id).collect();
    assert_eq!(ids, vec![2, 1, 3]);
}

#[test]
fn test_exact_search_looks_in_comment_and_tags() {
    let mut c = command(4, "make", "", "");
    c.comment = "Builds the RELEASE".into();
    let mut d = command(3, "cargo", "", "");
    d.tags = vec!["release".into()];
    let s = store(vec![c, d, command(1, "ls", "", "")]);
    let searcher = Searcher::new();
    let ids: Vec<u32> = searcher.exact_search("release", &s).iter().map(|r| r.command.id).collect();
    assert_eq!(ids, vec![3, 4]);
    assert!(searcher.exact_search("absent", &s).is_empty());
}

#[test]
fn test_check_searchable() {
    let s = store(vec![command(1, "ls", "", "")]);
    assert!(check_searchable(&s));
    let mut cyclic = Store::default();
    cyclic.folders.push(Folder { id: "a".into(), parent: "b".into(), name: "A".into() });
    cyclic.folders.push(Folder { id: "b".into(), parent: "a".into(), name: "B".into() });
    let mut c = command(1, "ls", "", "");
    c.folder = "a".into();
    cyclic.commands.push(c);
    assert!(!check_searchable(&cyclic));
}

#[test]
fn test_empty_queries_agree() {
    let s = store(vec![
        command(7, "b", "", ""),
        command(2, "a", "", "2024-01-01"),
        command(5, "c", "x", ""),
    ]);
    let mut searcher = Searcher::new();
    let fuzzy = searcher.fuzzy_search("", &s);
    let exact = searcher.exact_search("", &s);
    let f: Vec<(u32, u32, Vec<String>)> =
        fuzzy.iter().map(|r| (r.command.id, r.score, r.folder_path.clone())).collect();
    let e: Vec<(u32, u32, Vec<String>)> =
        exact.iter().map(|r| (r.command.id, r.score, r.folder_path.clone())).collect();
    assert_eq!(f, e);
    assert_eq!(f.iter().map(|x| x.0).collect::<Vec<_>>(), vec![2, 5, 7]);
}

#[test]
fn test_tag_match_ranks_highest() {
    let mut tagged = command(1, "docker ps", "", "");
    tagged.tags = vec!["Kube".into()];
    let s = Store {
        folders: vec![],
        commands: vec![
            Command { folder: "".into(), ..tagged },
            Command { folder: "".into(), ..command(2, "kubectl get pods", "", "") },
        ],
    };
    let mut searcher = Searcher::new();
    let results = searcher.fuzzy_search("kube", &s);
    assert_eq!(results.len(), 2);
    assert_eq!(results[0].command.id, 1);
    assert!(results[0].score >= 5_000_000);
    assert_eq!(results[1].command.id, 2);
}

#[test]
fn test_comment_match_tier() {
    let mut c = command(3, "make", "", "");
    c.comment = "builds the Release".into();
    let s = store(vec![c, command(4, "ls", "list", "")]);
    let mut searcher = Searcher::new();
    let results = searcher.fuzzy_search("release", &s);
    assert_eq!(results[0].command.id, 3);
    assert!(results[0].score >= 2_000_000 && results[0].score < 3_000_000);
}

#[test]
fn test_checked_fuzzy_search() {
    let s = store(vec![command(1, "git status", "", ""), command(2, "ls", "", "")]);
    let mut searcher = Searcher::new();
    assert!(searcher.fuzzy_fits_check("git", &s));
    let checked = searcher.fuzzy_search_checked("git", &s).unwrap();
    let plain = searcher.fuzzy_search("git", &s);
    let a: Vec<(u32, u32)> = checked.iter().map(|r| (r.command.id, r.score)).collect();
    let b: Vec<(u32, u32)> = plain.iter().map(|r| (r.command.id, r.score)).collect();
    assert_eq!(a, b);
    assert!(check_paths_defined(&s));
}
