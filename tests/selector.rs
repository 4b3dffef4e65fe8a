use try_rs::frame::{Footer, RowBody};
use try_rs::selector::{confirm_key, Action, Entry, Input, Mode, Outcome, Selector, Status};

fn ch(c: char) -> Input {
    Input::Char { c, ctrl: false }
}

fn ctrl(c: char) -> Input {
    Input::Char { c, ctrl: true }
}

fn scan_selector(query: &str, names: &[&str], ranks: &[u64]) -> Selector {
    let mut s = Selector::new(Mode::Scan("/base".to_string()), query, "/base".to_string(), 80, 24);
    let entries = names
        .iter()
        .map(|n| Entry::new(n, format!("/base/{}", n), 0))
        .collect();
    s.load(entries);
    s.refresh(ranks.to_vec());
    s
}

#[test]
fn new_turns_spaces_into_hyphens() {
    let s = Selector::new(Mode::Scan("/b".to_string()), "my new thing", "/b".to_string(), 80, 24);
    assert_eq!(s.query, "my-new-thing".chars().collect::<Vec<_>>());
    assert_eq!(s.cursor, 0);
    assert!(!s.delete_mode);
}

#[test]
fn empty_query_lists_everything_without_create_row() {
    let s = scan_selector("", &["a", "b", "c"], &[5, 0, 9]);
    assert_eq!(s.view, vec![2, 0, 1]);
    assert_eq!(s.visible_count(), 3);
}

#[test]
fn query_lists_only_scored_and_adds_create_row() {
    let s = scan_selector("x", &["a", "b", "c"], &[5, 0, 9]);
    assert_eq!(s.view, vec![2, 0]);
    assert_eq!(s.visible_count(), 3);
}

#[test]
fn history_mode_has_no_create_row() {
    let mut s = Selector::new(Mode::History(vec![]), "x", "/base".to_string(), 80, 24);
    s.load(vec![Entry::new("/w/one", "/w/one".to_string(), 0)]);
    s.refresh(vec![7]);
    assert_eq!(s.visible_count(), 1);
    assert!(matches!(s.step(Input::Down, "2024-01-01"), Outcome::Idle));
    match s.step(Input::Enter, "2024-01-01") {
        Outcome::Exit(Some(Action::SelectWorkspace(p))) => assert_eq!(p, "/w/one"),
        _ => panic!("expected a workspace selection"),
    }
}

#[test]
fn higher_rank_comes_first_and_ties_keep_load_order() {
    let s = scan_selector("", &["a", "b", "c", "d"], &[3, 7, 3, 7]);
    assert_eq!(s.view, vec![1, 3, 0, 2]);
}

#[test]
fn create_new_commits_dated_directory() {
    let mut s = scan_selector("", &["alpha"], &[4]);
    assert!(s.select("2024-06-01").is_some());
    for c in "newproj".chars() {
        assert!(matches!(s.step(ch(c), "2024-06-01"), Outcome::Rescore));
    }
    s.refresh(vec![0]);
    assert_eq!(s.view.len(), 0);
    assert_eq!(s.visible_count(), 1);
    assert_eq!(s.cursor, 0);
    match s.step(Input::Enter, "2024-06-01") {
        Outcome::Exit(Some(Action::CreateAndEnter { base, name })) => {
            assert_eq!(base, "/base");
            assert_eq!(name, "newproj-2024-06-01");
        }
        _ => panic!("expected create-and-enter"),
    }
}

#[test]
fn empty_query_offers_no_create_new() {
    let mut s = scan_selector("", &[], &[]);
    assert_eq!(s.visible_count(), 0);
    assert!(s.select("2024-06-01").is_none());
    assert!(matches!(s.step(Input::Enter, "2024-06-01"), Outcome::Idle));
}

#[test]
fn create_name_hyphenates_spaces() {
    let s = scan_selector("my idea", &[], &[]);
    match s.select("2025-02-03") {
        Some(Action::CreateAndEnter { name, .. }) => assert_eq!(name, "my-idea-2025-02-03"),
        _ => panic!("expected create-and-enter"),
    }
    let mut t = scan_selector("my", &[], &[]);
    t.step(ch(' '), "d");
    t.step(ch('x'), "d");
    match t.select("2025-02-03") {
        Some(Action::CreateAndEnter { name, .. }) => assert_eq!(name, "my-x-2025-02-03"),
        _ => panic!("expected create-and-enter"),
    }
}

#[test]
fn enter_on_candidate_changes_directory() {
    let mut s = scan_selector("", &["a", "b"], &[1, 2]);
    s.step(Input::Down, "d");
    match s.step(Input::Enter, "d") {
        Outcome::Exit(Some(Action::ChangeDirectory(p))) => assert_eq!(p, "/base/a"),
        _ => panic!("expected change-directory"),
    }
}

#[test]
fn cursor_moves_are_clamped() {
    let mut s = scan_selector("", &["a", "b", "c"], &[1, 1, 1]);
    assert!(matches!(s.step(Input::Up, "d"), Outcome::Idle));
    assert_eq!(s.cursor, 0);
    assert!(matches!(s.step(Input::Down, "d"), Outcome::Redraw));
    assert!(matches!(s.step(ctrl('n'), "d"), Outcome::Redraw));
    assert!(matches!(s.step(Input::Down, "d"), Outcome::Idle));
    assert_eq!(s.cursor, 2);
    assert!(matches!(s.step(ctrl('p'), "d"), Outcome::Redraw));
    assert_eq!(s.cursor, 1);
}

#[test]
fn scrolling_keeps_cursor_in_window() {
    let names: Vec<String> = (0..20).map(|i| format!("d{}", i)).collect();
    let refs: Vec<&str> = names.iter().map(|s| s.as_str()).collect();
    let ranks = vec![1u64; 20];
    let mut s = scan_selector("", &refs, &ranks);
    s.step(Input::Resize { width: 80, height: 12 }, "d");
    // 12 rows high leaves 4 list rows.
    for _ in 0..30 {
        s.step(Input::Down, "d");
        assert!(s.scroll <= s.cursor && s.cursor < s.scroll + 4);
    }
    assert_eq!(s.cursor, 19);
    assert_eq!(s.scroll, 16);
    for _ in 0..30 {
        s.step(Input::Up, "d");
        assert!(s.scroll <= s.cursor && s.cursor < s.scroll + 4);
    }
    assert_eq!((s.cursor, s.scroll), (0, 0));
    s.step(Input::Resize { width: 80, height: 5 }, "d");
    assert_eq!(s.height, 5);
    for _ in 0..5 {
        s.step(Input::Down, "d");
    }
    assert_eq!((s.cursor, s.scroll), (5, 3));
}

#[test]
fn typing_filters_only_allowed_characters() {
    let mut s = scan_selector("", &["a"], &[1]);
    assert!(matches!(s.step(ch('!'), "d"), Outcome::Idle));
    assert!(matches!(s.step(ch('a'), "d"), Outcome::Rescore));
    assert!(matches!(s.step(ch('_'), "d"), Outcome::Rescore));
    assert!(matches!(s.step(ch('.'), "d"), Outcome::Rescore));
    assert_eq!(s.query, vec!['a', '_', '.']);
    assert!(matches!(s.step(Input::Backspace, "d"), Outcome::Rescore));
    assert_eq!(s.query, vec!['a', '_']);
    assert!(matches!(s.step(Input::Other, "d"), Outcome::Idle));
}

#[test]
fn backspace_on_empty_query_stays_empty() {
    let mut s = scan_selector("", &["a"], &[1]);
    assert!(matches!(s.step(Input::Backspace, "d"), Outcome::Rescore));
    assert!(s.query.is_empty());
}

#[test]
fn mark_then_unmark_restores_marks() {
    let mut s = scan_selector("", &["a", "b"], &[2, 1]);
    assert!(matches!(s.step(Input::Delete, "d"), Outcome::Redraw));
    assert!(s.delete_mode);
    assert_eq!(s.marked, vec!["/base/a".to_string()]);
    s.step(Input::Delete, "d");
    assert!(!s.delete_mode);
    assert!(s.marked.is_empty());
}

#[test]
fn create_row_cannot_be_marked() {
    let mut s = scan_selector("q", &["a"], &[0]);
    assert_eq!(s.visible_count(), 1);
    s.toggle_delete_mark();
    assert!(s.marked.is_empty());
    assert!(!s.delete_mode);
}

#[test]
fn escape_clears_marks_before_cancelling() {
    let mut s = scan_selector("", &["a", "b"], &[2, 1]);
    s.step(Input::Delete, "d");
    s.step(Input::Down, "d");
    s.step(Input::Delete, "d");
    assert_eq!(s.marked.len(), 2);
    assert!(matches!(s.step(Input::Escape, "d"), Outcome::Redraw));
    assert!(s.marked.is_empty());
    assert!(!s.delete_mode);
    assert!(matches!(s.step(ctrl('c'), "d"), Outcome::Exit(None)));
}

#[test]
fn enter_with_marks_asks_for_confirmation() {
    let mut s = scan_selector("", &["a"], &[1]);
    s.step(Input::Delete, "d");
    assert!(matches!(s.step(Input::Enter, "d"), Outcome::ConfirmDelete));
}

#[test]
fn confirmation_yes_deletes_marked() {
    let mut s = scan_selector("", &["a", "b"], &[2, 1]);
    s.step(Input::Delete, "d");
    let mut typed = Vec::new();
    assert!(!confirm_key(&mut typed, ch('Y')));
    assert!(!confirm_key(&mut typed, ch('E')));
    assert!(!confirm_key(&mut typed, ch('S')));
    assert!(confirm_key(&mut typed, Input::Enter));
    let doomed = s.finish_delete(&typed);
    assert_eq!(doomed, vec!["/base/a".to_string()]);
    assert_eq!(s.status, Some(Status::Deleted(1)));
    assert!(s.marked.is_empty());
    assert!(!s.delete_mode);
}

#[test]
fn confirmation_other_text_cancels() {
    let mut s = scan_selector("", &["a", "b"], &[2, 1]);
    s.step(Input::Delete, "d");
    let mut typed = Vec::new();
    confirm_key(&mut typed, ch('n'));
    confirm_key(&mut typed, ch('o'));
    assert!(confirm_key(&mut typed, Input::Enter));
    let doomed = s.finish_delete(&typed);
    assert!(doomed.is_empty());
    assert_eq!(s.status, Some(Status::Cancelled));
    assert!(s.marked.is_empty());
}

#[test]
fn confirmation_editing_keys() {
    let mut typed = Vec::new();
    confirm_key(&mut typed, ch('Y'));
    confirm_key(&mut typed, ch('X'));
    assert!(!confirm_key(&mut typed, Input::Backspace));
    confirm_key(&mut typed, ch('E'));
    confirm_key(&mut typed, ch('S'));
    assert_eq!(typed, vec!['Y', 'E', 'S']);
    assert!(!confirm_key(&mut typed, Input::Up));
    assert!(confirm_key(&mut typed, Input::Escape));
    assert!(typed.is_empty());
    let mut s = scan_selector("", &["a"], &[1]);
    s.step(Input::Delete, "d");
    assert!(s.finish_delete(&typed).is_empty());
    assert_eq!(s.status, Some(Status::Cancelled));
}

#[test]
fn load_clamps_cursor() {
    let mut s = scan_selector("", &["a", "b", "c"], &[3, 2, 1]);
    s.step(Input::Down, "d");
    s.step(Input::Down, "d");
    assert_eq!(s.cursor, 2);
    s.load(vec![Entry::new("a", "/base/a".to_string(), 0)]);
    assert_eq!(s.cursor, 0);
    assert_eq!(s.view, vec![0]);
}

#[test]
fn terms_use_lowercased_query() {
    let mut s = Selector::new(Mode::Scan("/b".to_string()), "FB", "/b".to_string(), 80, 24);
    s.load(vec![Entry::new("Foo-Bar", "/b/Foo-Bar".to_string(), 0), Entry::new("zzz", "/b/zzz".to_string(), 0)]);
    assert_eq!(s.query_lower(), vec!['f', 'b']);
    let t = s.terms();
    assert_eq!(t.len(), 2);
    assert_eq!(t[0].hits.as_ref().map(|h| h.len()), Some(2));
    assert!(t[1].hits.is_none());
}

#[test]
fn step_today_names_directory_with_a_date() {
    let mut s = scan_selector("p", &[], &[]);
    match s.step_today(Input::Enter) {
        Outcome::Exit(Some(Action::CreateAndEnter { name, .. })) => {
            assert!(name.starts_with("p-"));
            let date = &name[2..];
            assert_eq!(date.len(), 10);
            assert_eq!(&date[4..5], "-");
            assert_eq!(&date[7..8], "-");
        }
        _ => panic!("expected create-and-enter"),
    }
}

#[test]
fn frame_shows_window_rows_and_footer() {
    let mut s = scan_selector("", &["proj-2024-01-02", "Notes"], &[5, 3]);
    let f = s.frame();
    assert_eq!(f.rows.len(), 2);
    assert_eq!(f.blank_rows, 14);
    assert!(!f.dash_lit);
    assert_eq!(f.footer, Footer::Hint);
    assert!(f.rows[0].selected);
    match &f.rows[0].body {
        RowBody::Candidate { entry, marked, name, highlight, date } => {
            assert_eq!(*entry, 0);
            assert!(!marked);
            assert_eq!(name, &"proj".chars().collect::<Vec<_>>());
            assert_eq!(highlight, &vec![false; 4]);
            assert_eq!(date.as_deref(), Some("2024-01-02"));
        }
        RowBody::CreateNew => panic!("expected a candidate"),
    }
    s.step(Input::Delete, "d");
    s.step(ch('n'), "d");
    s.step(ch('-'), "d");
    s.refresh(vec![0, 4]);
    let f = s.frame();
    assert!(f.dash_lit);
    assert_eq!(f.footer, Footer::Deleting(1));
    assert_eq!(f.rows.len(), 2);
    match &f.rows[0].body {
        RowBody::Candidate { entry, name, highlight, date, marked } => {
            assert_eq!(*entry, 1);
            assert!(!marked);
            assert_eq!(name, &"Notes".chars().collect::<Vec<_>>());
            assert_eq!(highlight, &vec![true, false, false, false, false]);
            assert!(date.is_none());
        }
        RowBody::CreateNew => panic!("expected a candidate"),
    }
    assert!(matches!(f.rows[1].body, RowBody::CreateNew));
    assert!(!f.rows[1].selected);
}

#[test]
fn frame_footer_reports_status() {
    let mut s = scan_selector("", &["a"], &[1]);
    s.step(Input::Delete, "d");
    let f = s.frame();
    match &f.rows[0].body {
        RowBody::Candidate { marked, .. } => assert!(*marked),
        RowBody::CreateNew => panic!("expected a candidate"),
    }
    s.finish_delete(&vec!['Y', 'E', 'S']);
    assert_eq!(s.frame().footer, Footer::Status(Status::Deleted(1)));
}

#[test]
fn refresh_scrolls_only_as_far_as_needed() {
    let names: Vec<String> = (0..20).map(|i| format!("d{}", i)).collect();
    let refs: Vec<&str> = names.iter().map(|s| s.as_str()).collect();
    let mut s = scan_selector("", &refs, &vec![1u64; 20]);
    s.step(Input::Resize { width: 80, height: 12 }, "d");
    for _ in 0..10 {
        s.step(Input::Down, "d");
    }
    assert_eq!((s.cursor, s.scroll), (10, 7));
    s.refresh(vec![1u64; 20]);
    assert_eq!((s.cursor, s.scroll), (10, 7));
    s.load(names.iter().take(5).map(|n| Entry::new(n, format!("/base/{}", n), 0)).collect());
    assert_eq!((s.cursor, s.scroll), (4, 4));
}
