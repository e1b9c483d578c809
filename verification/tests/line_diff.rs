use agent_of_empires::diff_view::ChangeTag;
use agent_of_empires::line_diff::{hunks_from_groups, text_diff, DiffOpView, LineChange};

fn lines_of(d: &agent_of_empires::diff_view::DiffHunk) -> Vec<(ChangeTag, Option<usize>, Option<usize>, String)> {
    d.lines.iter().map(|l| (l.tag, l.old_line_num, l.new_line_num, l.content.clone())).collect()
}

#[test]
fn one_changed_line_makes_one_hunk() {
    let d = text_diff("a\nb\nc\n", "a\nB\nc\n", 3).unwrap();
    assert!(!d.is_binary);
    assert_eq!(d.hunks.len(), 1);
    let h = &d.hunks[0];
    assert_eq!((h.old_start, h.old_lines, h.new_start, h.new_lines), (1, 3, 1, 3));
    assert_eq!(
        lines_of(h),
        vec![
            (ChangeTag::Equal, Some(1), Some(1), "a\n".to_string()),
            (ChangeTag::Delete, Some(2), None, "b\n".to_string()),
            (ChangeTag::Insert, None, Some(2), "B\n".to_string()),
            (ChangeTag::Equal, Some(3), Some(3), "c\n".to_string()),
        ]
    );
}

#[test]
fn equal_texts_have_no_hunks() {
    assert!(text_diff("x\ny\n", "x\ny\n", 3).unwrap().hunks.is_empty());
}

#[test]
fn far_apart_changes_make_two_hunks() {
    let old: String = (1..=20).map(|i| format!("{}\n", i)).collect();
    let new = old.replace("2\n3\n", "2\nthree\n").replace("18\n", "eighteen\n");
    let d = text_diff(&old, &new, 1).unwrap();
    assert_eq!(d.hunks.len(), 2);
    assert_eq!((d.hunks[0].old_start, d.hunks[0].old_lines), (2, 3));
    assert_eq!((d.hunks[1].old_start, d.hunks[1].old_lines), (17, 3));
}

fn op(old: (usize, usize), new: (usize, usize), changes: Vec<LineChange>) -> DiffOpView {
    DiffOpView { old_start: old.0, old_end: old.1, new_start: new.0, new_end: new.1, changes }
}

#[test]
fn hunks_skip_empty_groups_and_refuse_unnumberable_lines() {
    let change = |i: usize| LineChange { tag: ChangeTag::Equal, old_index: Some(i), new_index: Some(i), value: "x".to_string() };
    let groups = vec![vec![], vec![op((4, 6), (4, 6), vec![change(4), change(5)])]];
    let hs = hunks_from_groups(&groups).unwrap();
    assert_eq!(hs.len(), 1);
    assert_eq!((hs[0].old_start, hs[0].old_lines, hs[0].new_start, hs[0].new_lines), (5, 2, 5, 2));
    assert_eq!(hs[0].lines[1].old_line_num, Some(6));
    let bad = vec![vec![op((0, 1), (0, 1), vec![change(usize::MAX)])]];
    assert!(hunks_from_groups(&bad).is_none());
    let backwards = vec![vec![op((5, 3), (0, 1), vec![])]];
    assert!(hunks_from_groups(&backwards).is_none());
}
