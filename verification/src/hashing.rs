use vstd::prelude::*;

use crate::bytes::{bytes_eq, opt_view, sub_vec};
use crate::model::HashTier;

verus! {

/// The BLAKE2b-512 digest of a byte string. Only the outside crate computes
/// it; the library never writes the algorithm out, it only names the result.
pub uninterp spec fn blake2b_of(data: Seq<u8>) -> Seq<u8>;

/// The first `megabytes` megabytes of a byte string, or all of it when it is
/// shorter.
pub open spec fn prefix_bytes(s: Seq<u8>, megabytes: int) -> Seq<u8> {
    if megabytes * 0x100000 < s.len() {
        s.take(megabytes * 0x100000)
    } else {
        s
    }
}

/// Relies on blake2::Blake2b512, called through digest::Digest::digest: the
/// digest depends on the input bytes alone, and is 64 bytes long.
#[verifier::external_body]
pub fn generate_hash(data: &Vec<u8>) -> (r: Vec<u8>)
    ensures
        r@ == blake2b_of(data@),
        r@.len() == 64,
{
    let d = <blake2::Blake2b512 as blake2::Digest>::digest(data.as_slice());
    d.to_vec()
}

/// The digest of the first `megabytes` megabytes of a content.
pub fn generate_partial_hash(content: &Vec<u8>, megabytes: usize) -> (r: Vec<u8>)
    ensures
        r@ == blake2b_of(prefix_bytes(content@, megabytes as int)),
{
    let len = content.len();
    proof {
        assert(content@.len() <= usize::MAX);
    }
    match megabytes.checked_mul(0x100000) {
        Some(n) => {
            if n < len {
                let p = sub_vec(content, 0, n);
                proof {
                    assert(p@ =~= content@.take(n as int));
                }
                generate_hash(&p)
            } else {
                generate_hash(content)
            }
        },
        None => generate_hash(content),
    }
}

/// The digest of a whole content.
pub fn generate_full_hash(content: &Vec<u8>) -> (r: Vec<u8>)
    ensures
        r@ == blake2b_of(content@),
{
    generate_hash(content)
}

/// Whether the digests of the first `megabytes` megabytes of two contents
/// agree.
pub fn partial_hashes_match(content1: &Vec<u8>, content2: &Vec<u8>, megabytes: usize) -> (r: bool)
    ensures
        r == (blake2b_of(prefix_bytes(content1@, megabytes as int)) == blake2b_of(
            prefix_bytes(content2@, megabytes as int),
        )),
{
    let h1 = generate_partial_hash(content1, megabytes);
    let h2 = generate_partial_hash(content2, megabytes);
    bytes_eq(&h1, &h2)
}

/// Whether the digests of two whole contents agree.
pub fn full_hashes_match(content1: &Vec<u8>, content2: &Vec<u8>) -> (r: bool)
    ensures
        r == (blake2b_of(content1@) == blake2b_of(content2@)),
{
    let h1 = generate_full_hash(content1);
    let h2 = generate_full_hash(content2);
    bytes_eq(&h1, &h2)
}

/// The digest a tier computes over a content: a prefix digest for the three
/// prefix tiers, the whole-file digest for `Full`.
pub open spec fn digest_at_tier(content: Seq<u8>, t: HashTier) -> Seq<u8> {
    match t.megabytes_spec() {
        Some(m) => blake2b_of(prefix_bytes(content, m as int)),
        None => blake2b_of(content),
    }
}

/// The views of a sequence of optional contents; `None` stands for a member
/// whose bytes could not be read.
pub open spec fn views_of(cs: Seq<Option<Vec<u8>>>) -> Seq<Option<Seq<u8>>> {
    cs.map_values(|o: Option<Vec<u8>>| opt_view(o))
}

/// Every member's content was read and all their digests agree at the tier.
/// All members share a byte length, so agreement of every member with the
/// first is the same as pairwise agreement.
pub open spec fn all_match_at_tier(cs: Seq<Option<Seq<u8>>>, t: HashTier) -> bool {
    forall|k: int|
        0 <= k < cs.len() ==> {
            &&& #[trigger] cs[k] is Some
            &&& cs[0] is Some
            &&& digest_at_tier(cs[k]->Some_0, t) == digest_at_tier(cs[0]->Some_0, t)
        }
}

/// A digest chain over every consecutive pair of members. Since all members
/// of a group share one byte length, chaining is equivalent to agreement of
/// every member with the first.
pub open spec fn consecutive_match_at_tier(cs: Seq<Option<Seq<u8>>>, t: HashTier) -> bool {
    &&& cs.len() >= 1
    &&& cs[0] is Some
    &&& forall|k: int|
        0 <= k < cs.len() - 1 ==> {
            &&& (#[trigger] cs[k]) is Some
            &&& cs[k + 1] is Some
            &&& digest_at_tier(cs[k]->Some_0, t) == digest_at_tier(cs[k + 1]->Some_0, t)
        }
}

proof fn lemma_chain_reaches(cs: Seq<Option<Seq<u8>>>, t: HashTier, k: int)
    requires
        consecutive_match_at_tier(cs, t),
        0 <= k < cs.len(),
    ensures
        cs[k] is Some,
        digest_at_tier(cs[k]->Some_0, t) == digest_at_tier(cs[0]->Some_0, t),
    decreases k,
{
    if k > 0 {
        lemma_chain_reaches(cs, t, k - 1);
        assert(cs[k - 1] is Some);
    }
}

/// Agreement of every consecutive pair of digests is the same as agreement
/// of every member with the first.
pub proof fn lemma_pairwise_chain_is_all_equal(cs: Seq<Option<Seq<u8>>>, t: HashTier)
    requires
        cs.len() >= 1,
    ensures
        consecutive_match_at_tier(cs, t) == all_match_at_tier(cs, t),
{
    if consecutive_match_at_tier(cs, t) {
        assert forall|k: int| 0 <= k < cs.len() implies {
            &&& #[trigger] cs[k] is Some
            &&& cs[0] is Some
            &&& digest_at_tier(cs[k]->Some_0, t) == digest_at_tier(cs[0]->Some_0, t)
        } by {
            lemma_chain_reaches(cs, t, k);
        }
    }
    if all_match_at_tier(cs, t) {
        assert(cs[0] is Some);
        assert forall|k: int| 0 <= k < cs.len() - 1 implies {
            &&& (#[trigger] cs[k]) is Some
            &&& cs[k + 1] is Some
            &&& digest_at_tier(cs[k]->Some_0, t) == digest_at_tier(cs[k + 1]->Some_0, t)
        } by {
            assert(cs[k] is Some);
            assert(cs[k + 1] is Some);
        }
    }
}

fn digest_at_tier_vec(content: &Vec<u8>, tier: HashTier) -> (r: Vec<u8>)
    ensures
        r@ == digest_at_tier(content@, tier),
{
    match tier.megabytes() {
        Some(m) => {
            let mb = m as usize;
            generate_partial_hash(content, mb)
        },
        None => generate_full_hash(content),
    }
}

/// Whether every member content was readable and all of them produce one
/// digest at the given tier.
pub fn pairwise_match(contents: &Vec<Option<Vec<u8>>>, tier: HashTier) -> (r: bool)
    requires
        contents@.len() >= 1,
    ensures
        r == all_match_at_tier(views_of(contents@), tier),
{
    let ghost vs = views_of(contents@);
    let h0 = match &contents[0] {
        Some(c) => digest_at_tier_vec(c, tier),
        None => {
            proof {
                assert(vs[0] is None);
            }
            return false;
        },
    };
    let mut k: usize = 1;
    while k < contents.len()
        invariant
            1 <= k && k <= contents@.len(),
            vs == views_of(contents@),
            vs.len() == contents@.len(),
            vs[0] is Some,
            h0@ == digest_at_tier(vs[0]->Some_0, tier),
            forall|j: int|
                0 <= j < k ==> {
                    &&& #[trigger] vs[j] is Some
                    &&& digest_at_tier(vs[j]->Some_0, tier) == digest_at_tier(vs[0]->Some_0, tier)
                },
        decreases contents@.len() - k,
    {
        match &contents[k] {
            Some(c) => {
                let h = digest_at_tier_vec(c, tier);
                if !bytes_eq(&h, &h0) {
                    proof {
                        assert(vs[k as int] is Some && digest_at_tier(vs[k as int]->Some_0, tier)
                            != digest_at_tier(vs[0]->Some_0, tier));
                    }
                    return false;
                }
            },
            None => {
                proof {
                    assert(vs[k as int] is None);
                }
                return false;
            },
        }
        k += 1;
    }
    true
}

} // verus!
