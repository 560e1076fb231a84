use vstd::prelude::*;

use crate::bytes::{bytes_eq, opt_bytes_eq};
use crate::extract::{
    find_air_date, find_episode, is_exception, generate_probable_air_date,
    generate_probable_episode, is_paw_patrol_bar_rescue,
};
use crate::hashing::{all_match_at_tier, views_of, pairwise_match};
use crate::model::{Classification, Decision, HashTier, SizeGroup, group_paths};
use crate::stem::path_stem;
use crate::title::{probable_name, generate_probable_name};

verus! {

/// The air-date token a path's stem yields, if any.
pub open spec fn air_date_of(path: Seq<u8>) -> Option<Seq<u8>> {
    find_air_date(path_stem(path))
}

/// The episode token a path's stem yields, if any.
pub open spec fn episode_of(path: Seq<u8>) -> Option<Seq<u8>> {
    find_episode(path_stem(path))
}

/// Some member yields a token unequal to the first member's, compared in the
/// kind the first member exhibits (air date over episode over title).
/// Mismatched episode tokens are excused when any member is
/// exception-listed.
pub open spec fn token_mismatch(paths: Seq<Seq<u8>>) -> bool {
    if paths.len() == 0 {
        false
    } else if air_date_of(paths[0]) is Some {
        exists|k: int|
            0 <= k < paths.len() && #[trigger] air_date_of(paths[k]) != air_date_of(paths[0])
    } else if episode_of(paths[0]) is Some {
        &&& exists|k: int|
            0 <= k < paths.len() && #[trigger] episode_of(paths[k]) != episode_of(paths[0])
        &&& forall|k: int|
            0 <= k < paths.len() ==> !(#[trigger] is_exception(path_stem(paths[k])))
    } else {
        exists|k: int|
            0 <= k < paths.len() && #[trigger] probable_name(paths[k]) != probable_name(paths[0])
    }
}

/// Danger: heuristic disagreement within the group, or a group of more than
/// two members, which pairwise token agreement alone cannot resolve.
pub open spec fn danger_spec(paths: Seq<Seq<u8>>) -> bool {
    paths.len() > 2 || token_mismatch(paths)
}

/// The first stage of the classification ladder: a first-megabyte digest
/// mismatch is conclusive `No`; agreement without danger is `VeryLikely`;
/// agreement with danger is `Maybe`, pending a deeper tier.
pub open spec fn classify_spec(danger: bool, match1: bool) -> Classification {
    if !match1 {
        Classification::No
    } else if !danger {
        Classification::VeryLikely
    } else {
        Classification::Maybe
    }
}

/// Whether the group's filename heuristics flag danger.
pub fn flags_danger(group: &SizeGroup) -> (r: bool)
    requires
        group@.members.len() >= 1,
    ensures
        r == danger_spec(group_paths(group@)),
{
    let ghost paths = group_paths(group@);
    let n = group.members.len();
    proof {
        assert(paths.len() == group.members@.len());
    }
    if n > 2 {
        return true;
    }
    if n == 1 {
        return false;
    }
    let m0 = &group.members[0];
    let m1 = &group.members[1];
    let p0 = &m0.path;
    let p1 = &m1.path;
    proof {
        assert(paths[0] == group.members@[0].path@);
        assert(paths[1] == group.members@[1].path@);
    }
    let d0 = generate_probable_air_date(p0);
    if d0.is_some() {
        let d1 = generate_probable_air_date(p1);
        let eq = opt_bytes_eq(&d1, &d0);
        proof {
            if eq {
                assert(air_date_of(paths[1]) == air_date_of(paths[0]));
            } else {
                assert(air_date_of(paths[1]) != air_date_of(paths[0]));
            }
        }
        return !eq;
    }
    let e0 = generate_probable_episode(p0);
    if e0.is_some() {
        let e1 = generate_probable_episode(p1);
        let eq = opt_bytes_eq(&e1, &e0);
        if eq {
            proof {
                assert(episode_of(paths[1]) == episode_of(paths[0]));
            }
            return false;
        }
        let exc0 = is_paw_patrol_bar_rescue(p0);
        if exc0 {
            proof {
                assert(is_exception(path_stem(paths[0])));
            }
            return false;
        }
        let exc1 = is_paw_patrol_bar_rescue(p1);
        if exc1 {
            proof {
                assert(is_exception(path_stem(paths[1])));
            }
            return false;
        }
        proof {
            assert(episode_of(paths[1]) != episode_of(paths[0]));
            assert forall|k: int| 0 <= k < paths.len() implies !is_exception(
                path_stem(paths[k]),
            ) by {
                if k != 0 {
                    assert(k == 1);
                }
            }
        }
        return true;
    }
    let t0 = generate_probable_name(p0);
    let t1 = generate_probable_name(p1);
    let eq = bytes_eq(&t1, &t0);
    proof {
        if eq {
            assert(probable_name(paths[1]) == probable_name(paths[0]));
        } else {
            assert(probable_name(paths[1]) != probable_name(paths[0]));
        }
    }
    !eq
}

/// The first classification stage, on the two facts it depends on.
pub fn classify_initial(danger: bool, match1: bool) -> (c: Classification)
    ensures
        c == classify_spec(danger, match1),
{
    if !match1 {
        Classification::No
    } else if !danger {
        Classification::VeryLikely
    } else {
        Classification::Maybe
    }
}

/// Classify one size group from its filenames and the first megabyte of each
/// member's content (`None` where the bytes could not be read: an unreadable
/// member never lets the group match).
pub fn verify_duplicate(group: &SizeGroup, prefix1: &Vec<Option<Vec<u8>>>) -> (c: Classification)
    requires
        group@.members.len() >= 1,
        prefix1@.len() == group@.members.len(),
    ensures
        c == classify_spec(
            danger_spec(group_paths(group@)),
            all_match_at_tier(views_of(prefix1@), HashTier::Prefix1MB),
        ),
{
    let danger = flags_danger(group);
    let match1 = pairwise_match(prefix1, HashTier::Prefix1MB);
    classify_initial(danger, match1)
}

/// How a decision resolves a `Maybe` group, given whether the digests agreed
/// at the decision's tier (the flag is ignored unless a tier was requested).
pub open spec fn resolve_spec(d: Decision, deeper_match: bool) -> Classification {
    match d {
        Decision::Skip => Classification::No,
        Decision::Hash(_) => if deeper_match {
            Classification::VeryLikely
        } else {
            Classification::No
        },
        Decision::ForceAccept => Classification::VeryLikely,
    }
}

/// The tier of content a decision asks for, if any.
pub open spec fn decision_tier_spec(d: Decision) -> Option<HashTier> {
    match d {
        Decision::Hash(t) => Some(t),
        _ => None,
    }
}

pub fn decision_tier(d: &Decision) -> (t: Option<HashTier>)
    ensures
        t == decision_tier_spec(*d),
{
    match d {
        Decision::Hash(t) => Some(*t),
        _ => None,
    }
}

/// Resolve a `Maybe` group from the operator's (or policy's) decision and
/// the outcome of the digest comparison it asked for.
pub fn resolve_maybe(d: &Decision, deeper_match: bool) -> (c: Classification)
    ensures
        c == resolve_spec(*d, deeper_match),
{
    match d {
        Decision::Skip => Classification::No,
        Decision::Hash(_) => if deeper_match {
            Classification::VeryLikely
        } else {
            Classification::No
        },
        Decision::ForceAccept => Classification::VeryLikely,
    }
}

/// The automatic escalation policy for a `Maybe` group: compare the first
/// ten megabytes of every member; agreement accepts the group, any mismatch
/// is conclusive `No`.
pub fn escalate_automatic(prefix10: &Vec<Option<Vec<u8>>>) -> (c: Classification)
    requires
        prefix10@.len() >= 1,
    ensures
        c == resolve_spec(
            Decision::Hash(HashTier::Prefix10MB),
            all_match_at_tier(views_of(prefix10@), HashTier::Prefix10MB),
        ),
{
    let m = pairwise_match(prefix10, HashTier::Prefix10MB);
    resolve_maybe(&Decision::Hash(HashTier::Prefix10MB), m)
}

} // verus!
