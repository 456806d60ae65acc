use workingcopy::git_status::{classify, decode_record, decode_status};
use workingcopy::path::RepoPathBuf;
use workingcopy::status::{FileStatus, StatusMap};

fn entries(map: &StatusMap) -> Vec<(String, FileStatus)> {
    let mut out = Vec::new();
    for i in 0..map.len() {
        let (path, status) = map.entry_at(i);
        out.push((path.as_str().to_string(), status));
    }
    out
}

#[test]
fn decodes_added_record() {
    let map = decode_status(b"A  path/to/file\0");
    assert_eq!(entries(&map), vec![("path/to/file".to_string(), FileStatus::Added)]);
}

#[test]
fn added_then_deleted_is_removed() {
    let map = decode_status(b"AD path\0");
    assert_eq!(entries(&map), vec![("path".to_string(), FileStatus::Removed)]);
}

#[test]
fn decodes_untracked_modified_and_ignored() {
    let map = decode_status(b"?? new.txt\0 M old.txt\0!! ignored.txt\0");
    assert_eq!(map.len(), 3);
    assert_eq!(map.get(b"new.txt"), Some(FileStatus::Added));
    assert_eq!(map.get(b"old.txt"), Some(FileStatus::Modified));
    assert_eq!(map.get(b"ignored.txt"), Some(FileStatus::Ignored));
    assert_eq!(
        entries(&map),
        vec![
            ("ignored.txt".to_string(), FileStatus::Ignored),
            ("new.txt".to_string(), FileStatus::Added),
            ("old.txt".to_string(), FileStatus::Modified),
        ]
    );
}

#[test]
fn worktree_deletion_wins_over_every_index_state() {
    for index_state in 0..=255u8 {
        assert_eq!(classify(index_state, b'D'), FileStatus::Removed);
    }
}

#[test]
fn classifies_each_state() {
    assert_eq!(classify(b'D', b' '), FileStatus::Removed);
    assert_eq!(classify(b'A', b' '), FileStatus::Added);
    assert_eq!(classify(b'?', b'?'), FileStatus::Added);
    assert_eq!(classify(b'!', b'!'), FileStatus::Ignored);
    assert_eq!(classify(b'M', b' '), FileStatus::Modified);
    assert_eq!(classify(b' ', b'M'), FileStatus::Modified);
    assert_eq!(classify(b'R', b' '), FileStatus::Modified);
    assert_eq!(classify(b'U', b'U'), FileStatus::Modified);
    assert_eq!(classify(b'A', b'M'), FileStatus::Added);
}

#[test]
fn record_without_separator_is_passed_over() {
    let map = decode_status(b"A  kept\0R-renamed\0 M also/kept\0");
    assert_eq!(
        entries(&map),
        vec![
            ("also/kept".to_string(), FileStatus::Modified),
            ("kept".to_string(), FileStatus::Added),
        ]
    );
    assert!(decode_record(b"R-renamed").is_none());
    assert!(decode_record(b"AMx").is_none());
}

#[test]
fn short_records_are_passed_over() {
    assert!(decode_record(b"").is_none());
    assert!(decode_record(b"A").is_none());
    assert!(decode_record(b"A ").is_none());
    assert!(decode_status(b"").is_empty());
    assert!(decode_status(b"\0\0\0").is_empty());
    assert!(decode_status(b"A\0 M\0").is_empty());
}

#[test]
fn undecodable_path_is_passed_over() {
    let map = decode_status(b"A  good\0A  bad\xff\0A  ../up\0A  a//b\0A  /abs\0A  dir/\0");
    assert_eq!(entries(&map), vec![("good".to_string(), FileStatus::Added)]);
}

#[test]
fn last_record_for_a_path_counts() {
    let map = decode_status(b"A  f\0 M f\0");
    assert_eq!(entries(&map), vec![("f".to_string(), FileStatus::Modified)]);
    let map = decode_status(b" M f\0AD f\0");
    assert_eq!(entries(&map), vec![("f".to_string(), FileStatus::Removed)]);
}

#[test]
fn report_without_final_nul_is_decoded() {
    let map = decode_status(b"A  a\0 M b");
    assert_eq!(
        entries(&map),
        vec![("a".to_string(), FileStatus::Added), ("b".to_string(), FileStatus::Modified)]
    );
}

#[test]
fn record_with_empty_path_names_the_root() {
    let (path, status) = decode_record(b"A  ").unwrap();
    assert!(path.is_empty());
    assert_eq!(status, FileStatus::Added);
}

#[test]
fn map_keeps_paths_in_byte_order_and_unique() {
    let mut map = StatusMap::new();
    assert!(map.is_empty());
    for name in ["m", "b/z", "b", "a", "z", "b/a", "B"] {
        let path = RepoPathBuf::from_utf8(name.as_bytes().to_vec()).unwrap();
        assert_eq!(map.insert(path, FileStatus::Modified), None);
    }
    let again = RepoPathBuf::from_utf8(b"b".to_vec()).unwrap();
    assert_eq!(map.insert(again, FileStatus::Removed), Some(FileStatus::Modified));
    assert_eq!(map.len(), 7);
    let names: Vec<String> = entries(&map).into_iter().map(|e| e.0).collect();
    assert_eq!(names, vec!["B", "a", "b", "b/a", "b/z", "m", "z"]);
    assert_eq!(map.get(b"b"), Some(FileStatus::Removed));
    assert_eq!(map.get(b"b/"), None);
    assert!(map.contains_key(b"b/z"));
    assert!(!map.contains_key(b"c"));
}

#[test]
fn written_record_is_read_back() {
    for (index_state, worktree_state, status) in [
        (b'A', b' ', FileStatus::Added),
        (b'A', b'D', FileStatus::Removed),
        (b' ', b'D', FileStatus::Removed),
        (b'M', b'M', FileStatus::Modified),
        (b'!', b'!', FileStatus::Ignored),
        (b'?', b'?', FileStatus::Added),
    ] {
        for path in ["f", "dir/f", "a b/c d", "\u{e9}t\u{e9}"] {
            let mut report = vec![index_state, worktree_state, b' '];
            report.extend_from_slice(path.as_bytes());
            report.push(0);
            let map = decode_status(&report);
            assert_eq!(entries(&map), vec![(path.to_string(), status)]);
        }
    }
}

#[test]
fn unreadable_record_changes_nothing_wherever_it_stands() {
    let with = [
        &b"XYZ\0A  a\0 M b\0"[..],
        &b"A  a\0XYZ\0 M b\0"[..],
        &b"A  a\0 M b\0XYZ\0"[..],
        &b"A  a\0\0 M b\0"[..],
        &b"A  a\0R\0 M b\0"[..],
    ];
    let without = decode_status(b"A  a\0 M b\0");
    for report in with {
        assert_eq!(decode_status(report), without);
    }
}
