use vstd::prelude::*;

use crate::bytes::clone_bytes;
use crate::grouping::{emits_size, files_of_size};
use crate::model::{
    CandidateFile, CandidateFileView, SizeGroup, all_same_inode, file_views, wf_group,
};

verus! {

/// The inode state the merge executor leaves for one committed group: every
/// member now carries the first member's inode; paths and lengths are
/// untouched.
pub open spec fn merged_members(ms: Seq<CandidateFileView>) -> Seq<CandidateFileView> {
    ms.map_values(
        |m: CandidateFileView|
            CandidateFileView {
                path: m.path,
                byte_length: m.byte_length,
                inode_id: ms[0].inode_id,
            },
    )
}

/// The members of a committed group as they stand after the merge: member
/// `0` survives, every other member is relinked onto its inode.
pub fn apply_merge(group: &SizeGroup) -> (merged: Vec<CandidateFile>)
    requires
        group@.members.len() >= 1,
    ensures
        file_views(merged@) == merged_members(group@.members),
{
    let ghost mm = merged_members(group@.members);
    let survivor_inode = group.members[0].inode_id;
    proof {
        assert(group@.members[0].inode_id == survivor_inode);
    }
    let mut merged: Vec<CandidateFile> = Vec::new();
    let mut k: usize = 0;
    proof {
        assert(file_views(merged@) =~= mm.take(0));
    }
    while k < group.members.len()
        invariant
            k <= group.members@.len(),
            mm == merged_members(group@.members),
            mm.len() == group.members@.len(),
            survivor_inode == group@.members[0].inode_id,
            file_views(merged@) == mm.take(k as int),
        decreases group.members@.len() - k,
    {
        let m = &group.members[k];
        let ghost old_mv = file_views(merged@);
        let d = CandidateFile {
            path: clone_bytes(&m.path),
            byte_length: m.byte_length,
            inode_id: survivor_inode,
        };
        proof {
            assert(d@ == mm[k as int]);
        }
        merged.push(d);
        proof {
            assert(file_views(merged@) =~= old_mv.push(d@));
            assert(mm.take(k + 1) =~= mm.take(k as int).push(mm[k as int]));
        }
        k += 1;
    }
    proof {
        assert(mm.take(group.members@.len() as int) =~= mm);
    }
    merged
}

proof fn lemma_files_of_size_contained(vs: Seq<CandidateFileView>, sz: u64)
    ensures
        forall|j: int|
            0 <= j < files_of_size(vs, sz).len() ==> vs.contains(
                #[trigger] files_of_size(vs, sz)[j],
            ),
    decreases vs.len(),
{
    if vs.len() > 0 {
        let d = vs.drop_last();
        lemma_files_of_size_contained(d, sz);
        let fd = files_of_size(d, sz);
        assert forall|j: int|
            0 <= j < files_of_size(vs, sz).len() implies vs.contains(
            #[trigger] files_of_size(vs, sz)[j],
        ) by {
            if vs.last().byte_length == sz && j == fd.len() {
                assert(files_of_size(vs, sz)[j] == vs.last());
                assert(vs[vs.len() - 1] == vs.last());
            } else {
                assert(files_of_size(vs, sz)[j] == fd[j]);
                assert(d.contains(fd[j]));
                let i0 = choose|i0: int| 0 <= i0 < d.len() && d[i0] == fd[j];
                assert(vs[i0] == fd[j]);
            }
        }
    }
}

/// The merge executor is idempotent on inode state: once a group is merged,
/// every member resolves to the survivor's inode, with paths and byte
/// lengths untouched, and re-running size grouping over the merged members
/// emits no group at all - the collapsed set is dropped without further
/// hashing.
pub proof fn lemma_merge_idempotent(g: crate::model::SizeGroupView)
    requires
        wf_group(g),
    ensures
        merged_members(g.members).len() == g.members.len(),
        forall|k: int|
            0 <= k < g.members.len() ==> {
                &&& (#[trigger] merged_members(g.members)[k]).inode_id == g.members[0].inode_id
                &&& merged_members(g.members)[k].path == g.members[k].path
                &&& merged_members(g.members)[k].byte_length == g.members[k].byte_length
            },
        forall|sz: u64| !(#[trigger] emits_size(merged_members(g.members), sz)),
{
    let mm = merged_members(g.members);
    assert forall|k: int| 0 <= k < mm.len() implies #[trigger] mm[k].inode_id
        == mm[0].inode_id by {
        assert(mm[k].inode_id == g.members[0].inode_id);
        assert(mm[0].inode_id == g.members[0].inode_id);
    }
    assert forall|sz: u64| !(#[trigger] emits_size(mm, sz)) by {
        lemma_files_of_size_contained(mm, sz);
        let sub = files_of_size(mm, sz);
        if sub.len() >= 2 {
            assert forall|j: int| 0 <= j < sub.len() implies #[trigger] sub[j].inode_id
                == sub[0].inode_id by {
                assert(mm.contains(sub[j]));
                assert(mm.contains(sub[0]));
                let a = choose|i: int| 0 <= i < mm.len() && mm[i] == sub[j];
                let b = choose|i: int| 0 <= i < mm.len() && mm[i] == sub[0];
                assert(mm[a].inode_id == mm[0].inode_id);
                assert(mm[b].inode_id == mm[0].inode_id);
            }
            assert(all_same_inode(sub));
        }
    }
}

} // verus!
