use agent_of_empires::diff_view::{
    choose_base_branch, diff_lines, truncate_left, ChangeTag, DiffFile, DiffHunk, DiffLine, DiffLook, DiffView, FileDiff,
};

fn files(names: &[&str]) -> Vec<DiffFile> {
    names.iter().map(|n| DiffFile { path: n.to_string(), additions: 0, deletions: 0 }).collect()
}

fn view(names: &[&str]) -> DiffView {
    DiffView::new("/repo".to_string(), "main".to_string(), 3, None, None, Ok(files(names))).ok().unwrap()
}

#[test]
fn new_view_defaults() {
    let v = view(&["a.rs", "b.rs"]);
    assert_eq!(v.selected_file, 0);
    assert_eq!(v.file_list_width, 35);
    assert_eq!(v.visible_lines, 20);
    assert!(v.warning_dialog.is_none());
    let w = DiffView::new("/r".to_string(), "dev".to_string(), 3, Some(50), Some("no merge base".to_string()), Ok(vec![])).ok().unwrap();
    assert_eq!(w.file_list_width, 50);
    let d = w.warning_dialog.unwrap();
    assert_eq!(d.title, "Warning");
    assert_eq!(d.message, "no merge base");
    assert_eq!(
        DiffView::new("/r".to_string(), "dev".to_string(), 3, None, None, Err("boom".to_string())).err().unwrap(),
        "boom"
    );
}

#[test]
fn base_branch_choice() {
    assert_eq!(choose_base_branch(Some("dev".to_string()), Some("main".to_string())), "dev");
    assert_eq!(choose_base_branch(None, Some("trunk".to_string())), "trunk");
    assert_eq!(choose_base_branch(None, None), "main");
}

#[test]
fn next_and_prev_file() {
    let mut v = view(&["a", "b", "c"]);
    v.scroll_offset = 4;
    v.next_file();
    assert_eq!(v.selected_file, 1);
    assert_eq!(v.scroll_offset, 0);
    v.next_file();
    v.next_file();
    assert_eq!(v.selected_file, 2);
    v.prev_file();
    assert_eq!(v.selected_file, 1);
    v.prev_file();
    v.prev_file();
    assert_eq!(v.selected_file, 0);
}

#[test]
fn refresh_clamps_selection_and_clears_cache() {
    let mut v = view(&["a", "b", "c"]);
    v.next_file();
    v.next_file();
    v.store_diff("c".to_string(), Ok(FileDiff { is_binary: false, hunks: vec![] }));
    assert_eq!(v.diff_cache.len(), 1);
    v.refresh_files(Ok(files(&["x"]))).unwrap();
    assert_eq!(v.selected_file, 0);
    assert!(v.diff_cache.is_empty());
    assert_eq!(v.refresh_files(Err("git failed".to_string())).err().unwrap(), "git failed");
    assert_eq!(v.files.len(), 1);
}

#[test]
fn diff_cache_round_trip() {
    let mut v = view(&["a", "b"]);
    assert_eq!(v.diff_to_compute(), Some("a".to_string()));
    assert!(v.get_current_diff().is_none());
    v.store_diff("a".to_string(), Ok(FileDiff { is_binary: true, hunks: vec![] }));
    assert_eq!(v.diff_to_compute(), None);
    assert!(v.get_current_diff().unwrap().is_binary);
    v.store_diff("a".to_string(), Ok(FileDiff { is_binary: false, hunks: vec![one_line_hunk()] }));
    assert_eq!(v.diff_cache.len(), 1);
    assert_eq!(v.get_current_diff().unwrap().hunks[0].lines[0].content, "x");
    v.store_diff("b".to_string(), Err("bad".to_string()));
    assert_eq!(v.error_message, Some("Failed to compute diff: bad".to_string()));
}

#[test]
fn scrolling_is_clamped() {
    let mut v = view(&["a"]);
    v.set_render_metrics(100, 30);
    v.scroll_down(50);
    assert_eq!(v.scroll_offset, 50);
    v.scroll_down(50);
    assert_eq!(v.scroll_offset, 70);
    v.page_up();
    assert_eq!(v.scroll_offset, 42);
    v.half_page_up();
    assert_eq!(v.scroll_offset, 27);
    v.half_page_down();
    assert_eq!(v.scroll_offset, 42);
    v.page_down();
    assert_eq!(v.scroll_offset, 70);
    v.scroll_up(100);
    assert_eq!(v.scroll_offset, 0);
    v.set_render_metrics(10, 30);
    v.scroll_down(5);
    assert_eq!(v.scroll_offset, 0);
}

#[test]
fn file_list_width_limits() {
    let mut v = view(&["a"]);
    v.grow_file_list();
    assert_eq!(v.file_list_width, 40);
    v.shrink_file_list();
    assert_eq!(v.file_list_width, 35);
    v.file_list_width = 78;
    v.grow_file_list();
    assert_eq!(v.file_list_width, 80);
    v.file_list_width = 7;
    v.shrink_file_list();
    assert_eq!(v.file_list_width, 5);
    v.file_list_width = 100;
    v.grow_file_list();
    assert_eq!(v.file_list_width, 100);
    v.file_list_width = 80;
    v.grow_file_list();
    assert_eq!(v.file_list_width, 80);
}

#[test]
fn branch_selection() {
    let mut v = view(&["a"]);
    v.open_branch_select(Ok(vec!["dev".to_string(), "main".to_string()]));
    assert_eq!(v.branch_select.as_ref().unwrap().selected, 1);
    v.open_branch_select(Err("no repo".to_string()));
    assert_eq!(v.error_message, Some("Failed to list branches: no repo".to_string()));
    v.select_branch("dev".to_string(), None, Ok(files(&["z", "y"])));
    assert_eq!(v.base_branch, "dev");
    assert!(v.branch_select.is_none());
    assert_eq!(v.files.len(), 2);
    v.select_branch("x".to_string(), Some("w".to_string()), Err("bad".to_string()));
    assert_eq!(v.error_message, Some("Failed to refresh: bad".to_string()));
    assert_eq!(v.warning_dialog.as_ref().unwrap().message, "w");
}

fn one_line_hunk() -> DiffHunk {
    DiffHunk {
        old_start: 1,
        old_lines: 0,
        new_start: 1,
        new_lines: 1,
        lines: vec![DiffLine { tag: ChangeTag::Insert, old_line_num: None, new_line_num: Some(1), content: "x".to_string() }],
    }
}

fn line(tag: ChangeTag, old: Option<usize>, new: Option<usize>, content: &str) -> DiffLine {
    DiffLine { tag, old_line_num: old, new_line_num: new, content: content.to_string() }
}

#[test]
fn diff_lines_number_and_mark_each_line() {
    let diff = FileDiff {
        is_binary: false,
        hunks: vec![DiffHunk {
            old_start: 1,
            old_lines: 2,
            new_start: 1,
            new_lines: 2,
            lines: vec![
                line(ChangeTag::Equal, Some(1), Some(1), "a\n"),
                line(ChangeTag::Delete, Some(2), None, "b\n"),
                line(ChangeTag::Insert, None, Some(2), "c\n\n"),
            ],
        }],
    };
    let lines = diff_lines(&diff);
    let shown: Vec<(&str, &str, &str, DiffLook)> =
        lines.iter().map(|l| (l.numbers.as_str(), l.prefix.as_str(), l.content.as_str(), l.look)).collect();
    assert_eq!(
        shown,
        vec![
            ("", "", "@@ -1,2 +1,2 @@", DiffLook::Header),
            ("1 1 ", " ", "a", DiffLook::Context),
            ("2   ", "-", "b", DiffLook::Delete),
            ("  2 ", "+", "c", DiffLook::Insert),
            ("", "", "", DiffLook::Blank),
        ]
    );
}

#[test]
fn diff_line_numbers_are_right_aligned() {
    let diff = FileDiff {
        is_binary: false,
        hunks: vec![DiffHunk {
            old_start: 9,
            old_lines: 2,
            new_start: 8,
            new_lines: 2,
            lines: vec![line(ChangeTag::Equal, Some(9), Some(8), "x"), line(ChangeTag::Equal, Some(10), Some(9), "y")],
        }],
    };
    let lines = diff_lines(&diff);
    assert_eq!(lines[1].numbers, " 9  8 ");
    assert_eq!(lines[2].numbers, "10  9 ");
}

#[test]
fn fitting_pulls_the_scroll_back() {
    let mut v = DiffView::new("/r".to_string(), "main".to_string(), 3, None, None, Ok(files(&["a"]))).ok().unwrap();
    v.scroll_offset = 50;
    v.fit_scroll(30, 10);
    assert_eq!(v.scroll_offset, 20);
    assert_eq!(v.total_lines, 30);
    assert_eq!(v.visible_lines, 10);
    v.fit_scroll(5, 10);
    assert_eq!(v.scroll_offset, 0);
}

#[test]
fn summary_counts_changed_lines() {
    let changed = vec![
        DiffFile { path: "src/a.rs".to_string(), additions: 3, deletions: 1 },
        DiffFile { path: "b.md".to_string(), additions: 2, deletions: 5 },
    ];
    let v = DiffView::new("/home/u/proj".to_string(), "main".to_string(), 3, None, None, Ok(changed)).ok().unwrap();
    let s = v.summary();
    assert_eq!(s.repo_name, "proj");
    assert_eq!((s.files_changed, s.additions, s.deletions), (2, 5, 6));
    let root = DiffView::new("/".to_string(), "main".to_string(), 3, None, None, Ok(vec![])).ok().unwrap();
    assert_eq!(root.summary().repo_name, "repo");
}

#[test]
fn diff_window_shows_the_scrolled_part() {
    let diff = FileDiff {
        is_binary: false,
        hunks: vec![DiffHunk {
            old_start: 1,
            old_lines: 3,
            new_start: 1,
            new_lines: 3,
            lines: vec![
                line(ChangeTag::Equal, Some(1), Some(1), "a"),
                line(ChangeTag::Equal, Some(2), Some(2), "b"),
                line(ChangeTag::Equal, Some(3), Some(3), "c"),
            ],
        }],
    };
    let mut v = view(&["a"]);
    v.scroll_offset = 2;
    let shown: Vec<String> = v.diff_window(&diff, 2).iter().map(|l| l.content.clone()).collect();
    assert_eq!(shown, vec!["b".to_string(), "c".to_string()]);
    assert_eq!(v.total_lines, 5);
    assert_eq!(v.visible_lines, 2);
    v.scroll_offset = 9;
    let shown: Vec<String> = v.diff_window(&diff, 2).iter().map(|l| l.content.clone()).collect();
    assert_eq!(v.scroll_offset, 3);
    assert_eq!(shown, vec!["c".to_string(), "".to_string()]);
    let binary = FileDiff { is_binary: true, hunks: vec![] };
    assert!(v.diff_window(&binary, 2).is_empty());
    assert_eq!(v.scroll_offset, 3);
}

#[test]
fn truncate_left_keeps_the_tail() {
    assert_eq!(truncate_left("src/main.rs", 20), "src/main.rs");
    assert_eq!(truncate_left("src/main.rs", 11), "src/main.rs");
    assert_eq!(truncate_left("src/main.rs", 8), "\u{2026}main.rs");
    assert_eq!(truncate_left("src/main.rs", 1), ".");
    assert_eq!(truncate_left("src/main.rs", 0), ".");
    assert_eq!(truncate_left("ab", 2), "ab");
}
