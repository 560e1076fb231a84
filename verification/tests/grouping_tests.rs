use dedupe::grouping::group_by_size;
use dedupe::merge::apply_merge;
use dedupe::model::{CandidateFile, SizeGroup};

fn file(path: &[u8], byte_length: u64, inode_id: u64) -> CandidateFile {
    CandidateFile { path: path.to_vec(), byte_length, inode_id }
}

#[test]
fn groups_by_exact_size_and_drops_singletons() {
    let files = vec![
        file(b"a.mkv", 100, 1),
        file(b"b.mkv", 200, 2),
        file(b"c.mkv", 100, 3),
        file(b"d.mkv", 300, 4),
    ];
    let out = group_by_size(&files);
    assert_eq!(out.groups.len(), 1);
    assert_eq!(out.groups[0].byte_length, 100);
    assert_eq!(out.groups[0].members.len(), 2);
    // members keep discovery order
    assert_eq!(out.groups[0].members[0].path, b"a.mkv".to_vec());
    assert_eq!(out.groups[0].members[1].path, b"c.mkv".to_vec());
    assert_eq!(out.total_file_count, 4);
    assert_eq!(out.total_dupe_size, 100);
}

#[test]
fn drops_group_already_on_one_inode() {
    let files = vec![file(b"a.mkv", 100, 7), file(b"b.mkv", 100, 7)];
    let out = group_by_size(&files);
    assert!(out.groups.is_empty());
    assert_eq!(out.total_file_count, 2);
    assert_eq!(out.total_dupe_size, 0);
}

#[test]
fn keeps_group_when_any_inode_differs() {
    let files = vec![file(b"a.mkv", 100, 7), file(b"b.mkv", 100, 7), file(b"c.mkv", 100, 8)];
    let out = group_by_size(&files);
    assert_eq!(out.groups.len(), 1);
    assert_eq!(out.groups[0].members.len(), 3);
}

#[test]
fn emits_one_group_per_size_and_sums_sizes() {
    let files = vec![
        file(b"a", 10, 1),
        file(b"b", 10, 2),
        file(b"c", 20, 3),
        file(b"d", 20, 4),
        file(b"e", 10, 5),
    ];
    let out = group_by_size(&files);
    assert_eq!(out.groups.len(), 2);
    let mut sizes: Vec<u64> = out.groups.iter().map(|g| g.byte_length).collect();
    sizes.sort();
    assert_eq!(sizes, vec![10, 20]);
    assert_eq!(out.total_dupe_size, 30);
    for g in &out.groups {
        for m in &g.members {
            assert_eq!(m.byte_length, g.byte_length);
        }
    }
}

#[test]
fn empty_input_gives_empty_outcome() {
    let files: Vec<CandidateFile> = Vec::new();
    let out = group_by_size(&files);
    assert!(out.groups.is_empty());
    assert_eq!(out.total_file_count, 0);
    assert_eq!(out.total_dupe_size, 0);
}

#[test]
fn merge_collapses_group_onto_survivor_inode() {
    let g = SizeGroup {
        byte_length: 100,
        members: vec![file(b"a.mkv", 100, 1), file(b"b.mkv", 100, 2), file(b"c.mkv", 100, 3)],
    };
    let merged = apply_merge(&g);
    assert_eq!(merged.len(), 3);
    for m in &merged {
        assert_eq!(m.inode_id, 1);
        assert_eq!(m.byte_length, 100);
    }
    assert_eq!(merged[1].path, b"b.mkv".to_vec());
}

#[test]
fn merge_is_idempotent_on_inode_state() {
    // after a merge, re-running size grouping drops the collapsed group
    // without further hashing
    let g = SizeGroup {
        byte_length: 100,
        members: vec![file(b"a.mkv", 100, 1), file(b"b.mkv", 100, 2), file(b"c.mkv", 100, 3)],
    };
    let merged = apply_merge(&g);
    let out = group_by_size(&merged);
    assert!(out.groups.is_empty());
    // and merging again changes nothing
    let again = apply_merge(&SizeGroup { byte_length: 100, members: merged });
    for m in &again {
        assert_eq!(m.inode_id, 1);
    }
}
