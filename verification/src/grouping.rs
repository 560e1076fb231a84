use vstd::prelude::*;

use crate::model::{
    CandidateFile, CandidateFileView, SizeGroup, all_same_inode, file_views, wf_group,
};

verus! {

/// The files of `vs` whose byte length is exactly `sz`, in order.
pub open spec fn files_of_size(vs: Seq<CandidateFileView>, sz: u64) -> Seq<CandidateFileView>
    decreases vs.len(),
{
    if vs.len() == 0 {
        Seq::empty()
    } else if vs.last().byte_length == sz {
        files_of_size(vs.drop_last(), sz).push(vs.last())
    } else {
        files_of_size(vs.drop_last(), sz)
    }
}

/// Whether the grouper emits a group for size `sz`: at least two files of
/// that size, and not already all on one inode.
pub open spec fn emits_size(vs: Seq<CandidateFileView>, sz: u64) -> bool {
    files_of_size(vs, sz).len() >= 2 && !all_same_inode(files_of_size(vs, sz))
}

/// The byte lengths of a run of groups, summed.
pub open spec fn sum_sizes(gs: Seq<SizeGroup>) -> int
    decreases gs.len(),
{
    if gs.len() == 0 {
        0
    } else {
        sum_sizes(gs.drop_last()) + gs.last().byte_length
    }
}

/// What one grouping run reports: the emitted groups, how many files were
/// seen, and the bytes billed to emitted groups.
pub struct GroupingOutcome {
    pub groups: Vec<SizeGroup>,
    pub total_file_count: usize,
    pub total_dupe_size: u128,
}

proof fn lemma_files_of_size_sized(vs: Seq<CandidateFileView>, sz: u64)
    ensures
        forall|j: int|
            0 <= j < files_of_size(vs, sz).len() ==> #[trigger] files_of_size(vs, sz)[j].byte_length
                == sz,
    decreases vs.len(),
{
    if vs.len() > 0 {
        lemma_files_of_size_sized(vs.drop_last(), sz);
        let fd = files_of_size(vs.drop_last(), sz);
        assert forall|j: int|
            0 <= j < files_of_size(vs, sz).len() implies #[trigger] files_of_size(
            vs,
            sz,
        )[j].byte_length == sz by {
            if vs.last().byte_length == sz {
                if j < fd.len() {
                    assert(files_of_size(vs, sz)[j] == fd[j]);
                } else {
                    assert(files_of_size(vs, sz)[j] == vs.last());
                }
            } else {
                assert(files_of_size(vs, sz)[j] == fd[j]);
            }
        }
    }
}

proof fn lemma_files_of_size_member(vs: Seq<CandidateFileView>, sz: u64)
    requires
        files_of_size(vs, sz).len() > 0,
    ensures
        exists|j: int| 0 <= j < vs.len() && #[trigger] vs[j].byte_length == sz,
    decreases vs.len(),
{
    if vs.last().byte_length == sz {
        assert(vs[vs.len() - 1].byte_length == sz);
    } else {
        lemma_files_of_size_member(vs.drop_last(), sz);
        let j = choose|j: int|
            0 <= j < vs.drop_last().len() && #[trigger] vs.drop_last()[j].byte_length == sz;
        assert(vs[j].byte_length == sz);
    }
}

proof fn lemma_sum_sizes_bound(gs: Seq<SizeGroup>)
    ensures
        0 <= sum_sizes(gs) <= gs.len() * 0xffff_ffff_ffff_ffff,
    decreases gs.len(),
{
    if gs.len() > 0 {
        lemma_sum_sizes_bound(gs.drop_last());
    }
}

fn size_seen_before(files: &Vec<CandidateFile>, i: usize) -> (seen: bool)
    requires
        i < files@.len(),
    ensures
        seen == exists|j: int|
            0 <= j < i && #[trigger] file_views(files@)[j].byte_length == file_views(
                files@,
            )[i as int].byte_length,
{
    let sz = files[i].byte_length;
    let mut j: usize = 0;
    while j < i
        invariant
            j <= i,
            i < files@.len(),
            sz == file_views(files@)[i as int].byte_length,
            forall|j2: int| 0 <= j2 < j ==> #[trigger] file_views(files@)[j2].byte_length != sz,
        decreases i - j,
    {
        if files[j].byte_length == sz {
            proof {
                assert(file_views(files@)[j as int].byte_length == sz);
            }
            return true;
        }
        j += 1;
    }
    false
}

fn collect_of_size(files: &Vec<CandidateFile>, sz: u64) -> (members: Vec<CandidateFile>)
    ensures
        file_views(members@) == files_of_size(file_views(files@), sz),
{
    let ghost vs = file_views(files@);
    let mut members: Vec<CandidateFile> = Vec::new();
    let mut m: usize = 0;
    proof {
        assert(file_views(members@) =~= Seq::<CandidateFileView>::empty());
        assert(vs.take(0) =~= Seq::<CandidateFileView>::empty());
    }
    while m < files.len()
        invariant
            m <= files@.len(),
            vs == file_views(files@),
            vs.len() == files@.len(),
            file_views(members@) == files_of_size(vs.take(m as int), sz),
        decreases files@.len() - m,
    {
        let f = &files[m];
        let ghost old_mv = file_views(members@);
        if f.byte_length == sz {
            let d = f.duplicate();
            members.push(d);
            proof {
                assert(file_views(members@) =~= old_mv.push(files@[m as int]@));
            }
        }
        proof {
            assert(vs.take(m + 1).drop_last() =~= vs.take(m as int));
            assert(vs.take(m + 1).last() == vs[m as int]);
            assert(vs[m as int].byte_length == files@[m as int].byte_length);
        }
        m += 1;
    }
    proof {
        assert(vs.take(files@.len() as int) =~= vs);
    }
    members
}

fn all_inodes_equal(members: &Vec<CandidateFile>) -> (r: bool)
    requires
        members@.len() >= 1,
    ensures
        r == all_same_inode(file_views(members@)),
{
    let first_inode = members[0].inode_id;
    proof {
        assert(file_views(members@)[0].inode_id == first_inode);
    }
    let mut k: usize = 1;
    while k < members.len()
        invariant
            1 <= k && k <= members@.len(),
            first_inode == file_views(members@)[0].inode_id,
            forall|j: int| 0 <= j < k ==> #[trigger] file_views(members@)[j].inode_id
                == first_inode,
        decreases members@.len() - k,
    {
        if members[k].inode_id != first_inode {
            proof {
                assert(file_views(members@)[k as int].inode_id != file_views(
                    members@,
                )[0].inode_id);
            }
            return false;
        }
        k += 1;
    }
    true
}

/// Partition the candidate files into size groups. A group is emitted for a
/// byte length exactly when at least two files have it and they do not
/// already share one inode; its members are all the files of that length, in
/// input order. Each emitted length appears once; the counters report every
/// file seen and the bytes billed to emitted groups.
pub fn group_by_size(files: &Vec<CandidateFile>) -> (out: GroupingOutcome)
    ensures
        forall|g: int|
            0 <= g < out.groups@.len() ==> {
                &&& (#[trigger] out.groups@[g])@.members == files_of_size(
                    file_views(files@),
                    out.groups@[g].byte_length,
                )
                &&& emits_size(file_views(files@), out.groups@[g].byte_length)
                &&& wf_group(out.groups@[g]@)
            },
        forall|g1: int, g2: int|
            0 <= g1 < g2 < out.groups@.len() ==> out.groups@[g1].byte_length
                != out.groups@[g2].byte_length,
        forall|sz: u64|
            #[trigger] emits_size(file_views(files@), sz) ==> exists|g: int|
                0 <= g < out.groups@.len() && out.groups@[g].byte_length == sz,
        out.total_file_count == files@.len(),
        out.total_dupe_size as int == sum_sizes(out.groups@),
{
    let ghost vs = file_views(files@);
    let mut groups: Vec<SizeGroup> = Vec::new();
    let mut total: u128 = 0;
    let mut i: usize = 0;
    while i < files.len()
        invariant
            i <= files@.len(),
            vs == file_views(files@),
            vs.len() == files@.len(),
            groups@.len() <= i,
            forall|g: int|
                0 <= g < groups@.len() ==> {
                    &&& (#[trigger] groups@[g])@.members == files_of_size(
                        vs,
                        groups@[g].byte_length,
                    )
                    &&& emits_size(vs, groups@[g].byte_length)
                    &&& exists|j: int|
                        0 <= j < i && #[trigger] vs[j].byte_length == groups@[g].byte_length
                },
            forall|g1: int, g2: int|
                0 <= g1 < g2 < groups@.len() ==> groups@[g1].byte_length
                    != groups@[g2].byte_length,
            forall|sz: u64|
                (#[trigger] emits_size(vs, sz) && exists|j: int|
                    0 <= j < i && #[trigger] vs[j].byte_length == sz) ==> exists|g: int|
                    0 <= g < groups@.len() && #[trigger] groups@[g].byte_length == sz,
            total as int == sum_sizes(groups@),
        decreases files@.len() - i,
    {
        let f = &files[i];
        let sz = f.byte_length;
        proof {
            assert(vs[i as int].byte_length == sz);
        }
        let seen = size_seen_before(files, i);
        let mut emitted = false;
        if !seen {
            let members = collect_of_size(files, sz);
            let emit = if members.len() >= 2 {
                !all_inodes_equal(&members)
            } else {
                false
            };
            proof {
                assert(file_views(members@).len() == members@.len());
                assert(emit == emits_size(vs, sz));
            }
            if emit {
                proof {
                    lemma_sum_sizes_bound(groups@);
                    assert(groups@.len() * 0xffff_ffff_ffff_ffff <= i
                        * 0xffff_ffff_ffff_ffff);
                    assert((i + 1) * 0xffff_ffff_ffff_ffff <= (usize::MAX as int)
                        * 0xffff_ffff_ffff_ffff);
                }
                let ghost old_groups = groups@;
                // no earlier group carries this size: its first occurrence is here
                proof {
                    assert forall|g: int| 0 <= g < groups@.len() implies groups@[g].byte_length
                        != sz by {
                        if groups@[g].byte_length == sz {
                            assert(exists|j: int|
                                0 <= j < i && #[trigger] vs[j].byte_length == sz);
                        }
                    }
                }
                let g = SizeGroup { byte_length: sz, members };
                total = total + (sz as u128);
                groups.push(g);
                emitted = true;
                proof {
                    assert(groups@.drop_last() =~= old_groups);
                    assert(groups@.last() == g);
                    assert(sum_sizes(groups@) == sum_sizes(old_groups) + sz);
                }
            }
        }
        proof {
            assert forall|sz0: u64|
                (#[trigger] emits_size(vs, sz0) && exists|j: int|
                    0 <= j < i + 1 && #[trigger] vs[j].byte_length == sz0) implies exists|g: int|
                0 <= g < groups@.len() && #[trigger] groups@[g].byte_length == sz0 by {
                let j0 = choose|j: int| 0 <= j < i + 1 && #[trigger] vs[j].byte_length == sz0;
                if j0 < i {
                    assert(exists|j: int| 0 <= j < i && #[trigger] vs[j].byte_length == sz0);
                } else {
                    assert(sz0 == sz);
                    if seen {
                        assert(exists|j: int| 0 <= j < i && #[trigger] vs[j].byte_length == sz0);
                    } else {
                        assert(emitted);
                        assert(groups@[groups@.len() - 1].byte_length == sz0);
                    }
                }
            }
        }
        i += 1;
    }
    let out = GroupingOutcome { groups, total_file_count: files.len(), total_dupe_size: total };
    proof {
        assert forall|sz: u64|
            #[trigger] emits_size(file_views(files@), sz) implies exists|g: int|
            0 <= g < out.groups@.len() && out.groups@[g].byte_length == sz by {
            assert(emits_size(vs, sz));
            lemma_files_of_size_member(vs, sz);
            assert(exists|j: int| 0 <= j < i && #[trigger] vs[j].byte_length == sz);
            let g0 = choose|g: int|
                0 <= g < out.groups@.len() && #[trigger] out.groups@[g].byte_length == sz;
            assert(0 <= g0 < out.groups@.len() && out.groups@[g0].byte_length == sz);
        }
        assert forall|g: int| 0 <= g < out.groups@.len() implies wf_group(
            (#[trigger] out.groups@[g])@,
        ) by {
            lemma_files_of_size_sized(vs, out.groups@[g].byte_length);
        }
    }
    out
}

} // verus!
