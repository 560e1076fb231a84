use dedupe::hashing::{
    full_hashes_match, generate_full_hash, generate_hash, generate_partial_hash,
    pairwise_match, partial_hashes_match,
};
use dedupe::model::HashTier;

const MB: usize = 1024 * 1024;

#[test]
fn digest_is_64_bytes() {
    assert_eq!(generate_hash(&b"".to_vec()).len(), 64);
    assert_eq!(generate_hash(&b"abc".to_vec()).len(), 64);
    assert_eq!(generate_hash(&vec![0u8; 3 * MB]).len(), 64);
}

#[test]
fn digest_distinguishes_contents() {
    let h1 = generate_hash(&b"abc".to_vec());
    let h2 = generate_hash(&b"abd".to_vec());
    assert_ne!(h1, h2);
    assert_eq!(h1, generate_hash(&b"abc".to_vec()));
}

#[test]
fn partial_hash_reads_only_the_prefix() {
    // equal first megabyte, different tails
    let mut a = vec![5u8; 2 * MB];
    let mut b = vec![5u8; 2 * MB];
    a[2 * MB - 1] = 1;
    b[2 * MB - 1] = 2;
    assert!(partial_hashes_match(&a, &b, 1));
    assert!(!partial_hashes_match(&a, &b, 2));
    assert!(!full_hashes_match(&a, &b));
    // a difference inside the first megabyte is seen at every tier
    a[0] = 9;
    assert!(!partial_hashes_match(&a, &b, 1));
}

#[test]
fn partial_hash_of_short_file_hashes_what_is_there() {
    // shorter than the tier: the available bytes are hashed as-is
    let a = vec![1u8; 10];
    let h_partial = generate_partial_hash(&a, 100);
    let h_full = generate_full_hash(&a);
    assert_eq!(h_partial, h_full);
}

#[test]
fn pairwise_match_tiers_and_unreadable_members() {
    let mut a = vec![4u8; 2 * MB];
    let b = vec![4u8; 2 * MB];
    let all_equal = vec![Some(a.clone()), Some(b.clone()), Some(a.clone())];
    assert!(pairwise_match(&all_equal, HashTier::Prefix1MB));
    assert!(pairwise_match(&all_equal, HashTier::Full));

    a[2 * MB - 1] = 200;
    let tail_differs = vec![Some(a.clone()), Some(b.clone())];
    assert!(pairwise_match(&tail_differs, HashTier::Prefix1MB));
    assert!(!pairwise_match(&tail_differs, HashTier::Full));

    let with_unreadable = vec![Some(a), None];
    assert!(!pairwise_match(&with_unreadable, HashTier::Prefix1MB));
}
