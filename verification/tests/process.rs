use agent_of_empires::process::{
    collect_descendants_from_map, find_process_in_group_listing, parse_children_map, parse_stat_field, stat_line_sliceable,
};
use std::collections::HashMap;

#[test]
fn test_parse_stat_field() {
    let stat = "1234 (bash) S 1233 1234 1234 34816 1234 4194304 1234 0 0 0";
    assert_eq!(parse_stat_field(stat, 3), Some(1233));
    assert_eq!(parse_stat_field(stat, 4), Some(1234));
    assert_eq!(parse_stat_field(stat, 7), Some(1234));
}

#[test]
fn test_collect_descendants_from_map_empty() {
    let children_map = HashMap::new();
    let mut pids = vec![100];
    collect_descendants_from_map(100, &children_map, &mut pids);
    assert_eq!(pids, vec![100]);
}

#[test]
fn test_collect_descendants_from_map_single_child() {
    let mut children_map = HashMap::new();
    children_map.insert(100, vec![101]);

    let mut pids = vec![100];
    collect_descendants_from_map(100, &children_map, &mut pids);
    assert_eq!(pids, vec![100, 101]);
}

#[test]
fn test_collect_descendants_from_map_multiple_children() {
    let mut children_map = HashMap::new();
    children_map.insert(100, vec![101, 102, 103]);

    let mut pids = vec![100];
    collect_descendants_from_map(100, &children_map, &mut pids);
    assert_eq!(pids, vec![100, 101, 102, 103]);
}

#[test]
fn test_collect_descendants_from_map_nested() {
    let mut children_map = HashMap::new();
    children_map.insert(100, vec![101]);
    children_map.insert(101, vec![102]);
    children_map.insert(102, vec![103]);

    let mut pids = vec![100];
    collect_descendants_from_map(100, &children_map, &mut pids);
    assert_eq!(pids, vec![100, 101, 102, 103]);
}

#[test]
fn test_collect_descendants_from_map_branching() {
    let mut children_map = HashMap::new();
    children_map.insert(100, vec![101, 102]);
    children_map.insert(101, vec![103, 104]);
    children_map.insert(102, vec![105]);

    let mut pids = vec![100];
    collect_descendants_from_map(100, &children_map, &mut pids);

    assert!(pids.contains(&100));
    assert!(pids.contains(&101));
    assert!(pids.contains(&102));
    assert!(pids.contains(&103));
    assert!(pids.contains(&104));
    assert!(pids.contains(&105));
    assert_eq!(pids.len(), 6);
}

#[test]
fn test_collect_descendants_unrelated_processes() {
    let mut children_map = HashMap::new();
    children_map.insert(200, vec![201, 202]);
    children_map.insert(300, vec![301]);

    let mut pids = vec![100];
    collect_descendants_from_map(100, &children_map, &mut pids);
    assert_eq!(pids, vec![100]);
}

#[test]
fn descendants_come_in_depth_first_order() {
    let mut children_map = HashMap::new();
    children_map.insert(1, vec![2, 5]);
    children_map.insert(2, vec![3, 4]);
    let mut pids = vec![];
    collect_descendants_from_map(1, &children_map, &mut pids);
    assert_eq!(pids, vec![2, 3, 4, 5]);
}

#[test]
fn stat_field_counts_after_command_with_spaces() {
    let stat = "42 (my (odd) cmd) R 7 42 42 0 -1";
    assert_eq!(parse_stat_field(stat, 2), None);
    assert_eq!(parse_stat_field(stat, 3), Some(7));
    assert_eq!(parse_stat_field(stat, 7), Some(-1));
    assert_eq!(parse_stat_field(stat, 8), None);
    assert_eq!(parse_stat_field(stat, 1), None);
    assert_eq!(parse_stat_field("no paren here", 3), None);
}

#[test]
fn children_map_from_ps_listing() {
    let out = "  10     1\n  11    10\n  12    10\nbogus line\n  13\n";
    let m = parse_children_map(out);
    assert_eq!(m.get(&1), Some(&vec![10]));
    assert_eq!(m.get(&10), Some(&vec![11, 12]));
    assert_eq!(m.len(), 2);
}

#[test]
fn first_process_of_group() {
    let out = "  10   5\n  11   7\n  12   7\n";
    assert_eq!(find_process_in_group_listing(out, 7), Some(11));
    assert_eq!(find_process_in_group_listing(out, 9), None);
}

#[test]
fn stat_lines_that_can_be_sliced() {
    assert!(stat_line_sliceable("1 (bash) S 0"));
    assert!(stat_line_sliceable("no parens"));
    assert!(!stat_line_sliceable("1 (bash)"));
    assert!(!stat_line_sliceable("1 (bash)\u{e9}x"));
}
