use try_rs::shell::{
    change_dir_commands, clone_commands, clone_dir_name, create_dir_commands, dated_name,
    export_command, home_relative, join_commands, worktree_commands,
};
use try_rs::source::{history_entries, history_paths, remember, scan_entries, Candidate};

#[test]
fn change_dir_script() {
    let c = change_dir_commands("/t/a b");
    assert_eq!(c, vec!["touch '/t/a b'".to_string(), "cd '/t/a b'".to_string()]);
    assert_eq!(join_commands(&c), "touch '/t/a b' && \\\n  cd '/t/a b'");
}

#[test]
fn create_dir_script() {
    let c = create_dir_commands("/t/x-2024-01-01");
    assert_eq!(
        join_commands(&c),
        "mkdir -p '/t/x-2024-01-01' && \\\n  touch '/t/x-2024-01-01' && \\\n  cd '/t/x-2024-01-01'"
    );
}

#[test]
fn join_of_nothing_and_one() {
    assert_eq!(join_commands(&vec![]), "");
    assert_eq!(join_commands(&vec!["ls".to_string()]), "ls");
}

#[test]
fn export_script() {
    assert_eq!(export_command("/w/one"), "export TRY_PATH='/w/one'");
}

#[test]
fn clone_script_and_name() {
    let c = clone_commands("/t/repo-2024-01-01", "https://host/u/repo.git");
    assert_eq!(c[0], "mkdir -p '/t/repo-2024-01-01'");
    assert_eq!(c[1], "echo 'Cloning https://host/u/repo.git...'");
    assert_eq!(c[2], "git clone 'https://host/u/repo.git' '/t/repo-2024-01-01'");
    assert_eq!(c[3], "cd '/t/repo-2024-01-01'");
    assert_eq!(
        clone_dir_name("https://host/u/repo.git", None, "2024-01-01").as_deref(),
        Some("repo-2024-01-01")
    );
    assert_eq!(
        clone_dir_name("git@host:u/tool", None, "2024-01-01").as_deref(),
        Some("tool-2024-01-01")
    );
    assert_eq!(
        clone_dir_name("https://host/u/repo.git", Some("mine".to_string()), "2024-01-01").as_deref(),
        Some("mine")
    );
    assert_eq!(clone_dir_name("https://host/u/", None, "2024-01-01"), None);
}

#[test]
fn worktree_script() {
    let c = worktree_commands("/t/wt-2024-01-01");
    assert_eq!(c.len(), 3);
    assert_eq!(
        c[1],
        "if git rev-parse --is-inside-work-tree >/dev/null 2>&1; then repo=$(git rev-parse --show-toplevel); git -C \"$repo\" worktree add --detach '/t/wt-2024-01-01'; fi"
    );
    assert_eq!(dated_name("wt", "2024-01-01"), "wt-2024-01-01");
}

#[test]
fn home_relative_paths() {
    assert_eq!(home_relative("~/project/test").as_deref(), Some("project/test"));
    assert_eq!(home_relative("~"), None);
    assert_eq!(home_relative("/abs/path"), None);
    assert_eq!(home_relative("~/").as_deref(), Some(""));
}

fn cand(name: &str, location: &str, present: bool, ms: u64) -> Candidate {
    Candidate { name: name.to_string(), location: location.to_string(), present, modified_ms: ms }
}

#[test]
fn scan_skips_hidden_and_files() {
    let found = vec![
        cand("Alpha", "/b/Alpha", true, 1),
        cand(".git", "/b/.git", true, 2),
        cand("notes.txt", "/b/notes.txt", false, 3),
        cand("beta", "/b/beta", true, 4),
    ];
    let e = scan_entries(&found);
    assert_eq!(e.len(), 2);
    assert_eq!(e[0].name, "Alpha".chars().collect::<Vec<_>>());
    assert_eq!(e[0].name_lower, "alpha".chars().collect::<Vec<_>>());
    assert_eq!(e[0].location, "/b/Alpha");
    assert_eq!(e[1].location, "/b/beta");
    assert_eq!(e[1].modified_ms, 4);
}

#[test]
fn history_keeps_existing_newest_first() {
    let found = vec![
        cand("", "/w/old", true, 1),
        cand("", "/w/gone", false, 2),
        cand("", "/w/New", true, 3),
    ];
    let e = history_entries(&found);
    assert_eq!(e.len(), 2);
    assert_eq!(e[0].location, "/w/New");
    assert_eq!(e[0].name, "/w/New".chars().collect::<Vec<_>>());
    assert_eq!(e[0].name_lower, "/w/new".chars().collect::<Vec<_>>());
    assert_eq!(e[1].location, "/w/old");
}

#[test]
fn history_file_lines_are_trimmed() {
    let lines = vec!["  /w/a  ".to_string(), "".to_string(), "   ".to_string(), "/w/b\t".to_string()];
    assert_eq!(history_paths(&lines), vec!["/w/a".to_string(), "/w/b".to_string()]);
}

#[test]
fn remember_moves_path_to_end() {
    let paths = vec!["/a".to_string(), "/b".to_string(), "/c".to_string()];
    assert_eq!(
        remember(&paths, &"/b".to_string()),
        vec!["/a".to_string(), "/c".to_string(), "/b".to_string()]
    );
    assert_eq!(remember(&vec![], &"/x".to_string()), vec!["/x".to_string()]);
}
