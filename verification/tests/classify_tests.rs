use dedupe::classify::{
    classify_initial, decision_tier, escalate_automatic, flags_danger, resolve_maybe,
    verify_duplicate,
};
use dedupe::model::{CandidateFile, Classification, Decision, HashTier, SizeGroup};

fn file(path: &[u8], byte_length: u64, inode_id: u64) -> CandidateFile {
    CandidateFile { path: path.to_vec(), byte_length, inode_id }
}

fn group_of(paths: &[&[u8]], byte_length: u64) -> SizeGroup {
    let mut members = Vec::new();
    let mut inode = 1u64;
    for p in paths {
        members.push(file(p, byte_length, inode));
        inode += 1;
    }
    SizeGroup { byte_length, members }
}

const MB: usize = 1024 * 1024;

#[test]
fn classify_initial_table() {
    assert_eq!(classify_initial(false, false), Classification::No);
    assert_eq!(classify_initial(true, false), Classification::No);
    assert_eq!(classify_initial(false, true), Classification::VeryLikely);
    assert_eq!(classify_initial(true, true), Classification::Maybe);
}

#[test]
fn danger_on_matching_episodes_is_false() {
    let g = group_of(&[b"ShowA.S01E01.mkv", b"ShowA.S01E01.720p.mkv"], 10);
    assert!(!flags_danger(&g));
}

#[test]
fn danger_on_differing_episodes() {
    let g = group_of(&[b"ShowA.S01E01.mkv", b"ShowA.S01E02.mkv"], 10);
    assert!(flags_danger(&g));
}

#[test]
fn danger_excused_for_exception_listed_titles() {
    let g = group_of(&[b"Paw.Patrol.S01E01.mkv", b"Paw.Patrol.S01E02.mkv"], 10);
    assert!(!flags_danger(&g));
}

#[test]
fn danger_on_differing_air_dates() {
    let g = group_of(&[b"Show.2019-03-07.mkv", b"Show.2019-03-08.mkv"], 10);
    assert!(flags_danger(&g));
}

#[test]
fn danger_on_differing_titles() {
    let g = group_of(&[b"Movie.One.mkv", b"Movie.Two.mkv"], 10);
    assert!(flags_danger(&g));
}

#[test]
fn danger_forced_for_three_members() {
    // all three titles match; the group size alone forces danger
    let g = group_of(&[b"Same.Movie.mkv", b"Same.Movie.avi", b"Same.Movie.mp4"], 10);
    assert!(flags_danger(&g));
}

#[test]
fn scenario_same_episode_same_bytes_is_very_likely() {
    // ShowA.S01E01.mkv and ShowA.S01E01.720p.mkv, 10 MB, identical bytes
    let size = (10 * MB) as u64;
    let g = group_of(&[b"ShowA.S01E01.mkv", b"ShowA.S01E01.720p.mkv"], size);
    let bytes = vec![7u8; 10 * MB];
    let contents = vec![Some(bytes.clone()), Some(bytes)];
    assert_eq!(verify_duplicate(&g, &contents), Classification::VeryLikely);
}

#[test]
fn scenario_differing_episodes_same_bytes_routes_maybe_then_escalates() {
    // ShowA.S01E01.mkv and ShowA.S01E02.mkv, byte-identical content
    let g = group_of(&[b"ShowA.S01E01.mkv", b"ShowA.S01E02.mkv"], (2 * MB) as u64);
    let bytes = vec![9u8; 2 * MB];
    let contents = vec![Some(bytes.clone()), Some(bytes.clone())];
    assert_eq!(verify_duplicate(&g, &contents), Classification::Maybe);

    // automatic escalation at 10 MB: digests still equal, accepted
    assert_eq!(escalate_automatic(&contents), Classification::VeryLikely);

    // deeper interactive tiers: equal at 100 MB, accepted
    let c = resolve_maybe(&Decision::Hash(HashTier::Prefix100MB), true);
    assert_eq!(c, Classification::VeryLikely);

    // a full-file mismatch is conclusive
    let c = resolve_maybe(&Decision::Hash(HashTier::Full), false);
    assert_eq!(c, Classification::No);
}

#[test]
fn scenario_different_content_is_no() {
    // Movie.2019.mkv and Movie.2020.mkv, same length, different bytes
    let g = group_of(&[b"Movie.2019.mkv", b"Movie.2020.mkv"], (MB) as u64);
    let contents = vec![Some(vec![1u8; MB]), Some(vec![2u8; MB])];
    assert_eq!(verify_duplicate(&g, &contents), Classification::No);
}

#[test]
fn scenario_three_members_route_maybe_then_accept() {
    // three files of one size and content, two titles matching, one not
    let g = group_of(&[b"Same.Movie.mkv", b"Same.Movie.copy.mkv", b"Other.Name.mkv"], 4096);
    let bytes = vec![3u8; 4096];
    let contents = vec![Some(bytes.clone()), Some(bytes.clone()), Some(bytes.clone())];
    assert_eq!(verify_duplicate(&g, &contents), Classification::Maybe);
    assert_eq!(escalate_automatic(&contents), Classification::VeryLikely);
}

#[test]
fn scenario_exception_listed_mismatch_is_very_likely() {
    // exception-listed titles with differing episode tokens and matching
    // digests raise no danger and classify VeryLikely
    let g = group_of(&[b"Paw.Patrol.S01E01.mkv", b"Paw.Patrol.S01E02.mkv"], 4096);
    let bytes = vec![7u8; 4096];
    let contents = vec![Some(bytes.clone()), Some(bytes)];
    assert_eq!(verify_duplicate(&g, &contents), Classification::VeryLikely);
}

#[test]
fn unreadable_member_never_matches() {
    let g = group_of(&[b"ShowA.S01E01.mkv", b"ShowA.S01E01.720p.mkv"], 4096);
    let contents = vec![Some(vec![7u8; 4096]), None];
    assert_eq!(verify_duplicate(&g, &contents), Classification::No);
}

#[test]
fn heuristic_agreement_never_overrides_digest_mismatch() {
    // identical tokens, differing first megabyte: conclusive No
    let g = group_of(&[b"ShowA.S01E01.mkv", b"ShowA.S01E01.720p.mkv"], 4096);
    let contents = vec![Some(vec![1u8; 4096]), Some(vec![2u8; 4096])];
    assert_eq!(verify_duplicate(&g, &contents), Classification::No);
}

#[test]
fn resolve_maybe_table() {
    assert_eq!(resolve_maybe(&Decision::Skip, true), Classification::No);
    assert_eq!(resolve_maybe(&Decision::Skip, false), Classification::No);
    assert_eq!(resolve_maybe(&Decision::ForceAccept, false), Classification::VeryLikely);
    assert_eq!(resolve_maybe(&Decision::Hash(HashTier::Prefix10MB), true), Classification::VeryLikely);
    assert_eq!(resolve_maybe(&Decision::Hash(HashTier::Prefix10MB), false), Classification::No);
}

#[test]
fn escalation_mismatch_is_conclusive_no() {
    let contents = vec![Some(vec![1u8; 4096]), Some(vec![2u8; 4096])];
    assert_eq!(escalate_automatic(&contents), Classification::No);
}

#[test]
fn decision_tier_reports_requested_tier() {
    assert_eq!(decision_tier(&Decision::Skip), None);
    assert_eq!(decision_tier(&Decision::ForceAccept), None);
    assert_eq!(decision_tier(&Decision::Hash(HashTier::Full)), Some(HashTier::Full));
}

#[test]
fn tier_megabytes_ladder() {
    assert_eq!(HashTier::Prefix1MB.megabytes(), Some(1));
    assert_eq!(HashTier::Prefix10MB.megabytes(), Some(10));
    assert_eq!(HashTier::Prefix100MB.megabytes(), Some(100));
    assert_eq!(HashTier::Full.megabytes(), None);
}
