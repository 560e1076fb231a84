use vstd::prelude::*;

use crate::classify::{classify_spec, danger_spec, episode_of, token_mismatch};
use crate::extract::{extract_spec, is_exception, TokenView};
use crate::hashing::{all_match_at_tier, digest_at_tier};
use crate::model::{Classification, HashTier, SizeGroupView, group_paths, wf_group};
use crate::stem::path_stem;

verus! {

/// A mismatch of the first-megabyte digests of a two-member group is
/// conclusive: the group classifies `No`, whatever the filename heuristics
/// said of the two members.
pub proof fn lemma_prefix_mismatch_is_no(g: SizeGroupView, cs: Seq<Option<Seq<u8>>>)
    requires
        wf_group(g),
        g.members.len() == 2,
        cs.len() == 2,
        cs[0] is Some,
        cs[1] is Some,
        digest_at_tier(cs[1]->Some_0, HashTier::Prefix1MB) != digest_at_tier(
            cs[0]->Some_0,
            HashTier::Prefix1MB,
        ),
    ensures
        classify_spec(
            danger_spec(group_paths(g)),
            all_match_at_tier(cs, HashTier::Prefix1MB),
        ) == Classification::No,
{
    assert(!all_match_at_tier(cs, HashTier::Prefix1MB)) by {
        assert(cs[1] is Some);
    }
}

/// Two files of one byte length whose stems yield one and the same episode
/// token, and whose first-megabyte digests agree, classify `VeryLikely`.
pub proof fn lemma_matching_episode_is_very_likely(g: SizeGroupView, cs: Seq<Option<Seq<u8>>>)
    requires
        wf_group(g),
        g.members.len() == 2,
        cs.len() == 2,
        extract_spec(group_paths(g)[0]) is Episode,
        extract_spec(group_paths(g)[1]) == extract_spec(group_paths(g)[0]),
        all_match_at_tier(cs, HashTier::Prefix1MB),
    ensures
        classify_spec(
            danger_spec(group_paths(g)),
            all_match_at_tier(cs, HashTier::Prefix1MB),
        ) == Classification::VeryLikely,
{
    let paths = group_paths(g);
    assert(paths.len() == 2);
    assert forall|k: int| 0 <= k < paths.len() implies #[trigger] episode_of(paths[k])
        == episode_of(paths[0]) by {
        if k == 1 {
            assert(extract_spec(paths[1]) == extract_spec(paths[0]));
        }
    }
    assert(!token_mismatch(paths));
}

/// A group of three or more members never classifies `VeryLikely` directly,
/// even with every token matching and every first-megabyte digest agreeing:
/// it always routes through `Maybe`.
pub proof fn lemma_three_or_more_routes_maybe(g: SizeGroupView, cs: Seq<Option<Seq<u8>>>)
    requires
        wf_group(g),
        g.members.len() >= 3,
        cs.len() == g.members.len(),
        forall|k: int|
            0 <= k < g.members.len() ==> #[trigger] extract_spec(group_paths(g)[k])
                == extract_spec(group_paths(g)[0]),
        all_match_at_tier(cs, HashTier::Prefix1MB),
    ensures
        classify_spec(
            danger_spec(group_paths(g)),
            all_match_at_tier(cs, HashTier::Prefix1MB),
        ) == Classification::Maybe,
        classify_spec(
            danger_spec(group_paths(g)),
            all_match_at_tier(cs, HashTier::Prefix1MB),
        ) != Classification::VeryLikely,
{
    assert(group_paths(g).len() > 2);
}

/// Two exception-listed files whose stems yield differing episode tokens do
/// not raise danger: with agreeing first-megabyte digests they classify
/// `VeryLikely`.
pub proof fn lemma_exception_mismatch_is_very_likely(g: SizeGroupView, cs: Seq<Option<Seq<u8>>>)
    requires
        wf_group(g),
        g.members.len() == 2,
        cs.len() == 2,
        extract_spec(group_paths(g)[0]) is Episode,
        extract_spec(group_paths(g)[1]) is Episode,
        extract_spec(group_paths(g)[1]) != extract_spec(group_paths(g)[0]),
        forall|k: int|
            0 <= k < g.members.len() ==> #[trigger] is_exception(path_stem(group_paths(g)[k])),
        all_match_at_tier(cs, HashTier::Prefix1MB),
    ensures
        classify_spec(
            danger_spec(group_paths(g)),
            all_match_at_tier(cs, HashTier::Prefix1MB),
        ) == Classification::VeryLikely,
{
    let paths = group_paths(g);
    assert(paths.len() == 2);
    assert(is_exception(path_stem(paths[0])));
    assert(!token_mismatch(paths));
}

} // verus!
