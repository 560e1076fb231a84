use vstd::prelude::*;

verus! {

/// One candidate file, as the directory walk reports it: its path (raw
/// bytes), its exact length in bytes, and the inode it lives on.
pub struct CandidateFile {
    pub path: Vec<u8>,
    pub byte_length: u64,
    pub inode_id: u64,
}

/// All candidate files that share one exact byte length, in discovery order.
pub struct SizeGroup {
    pub byte_length: u64,
    pub members: Vec<CandidateFile>,
}

/// The mathematical shape of a candidate file.
pub struct CandidateFileView {
    pub path: Seq<u8>,
    pub byte_length: u64,
    pub inode_id: u64,
}

impl View for CandidateFile {
    type V = CandidateFileView;

    open spec fn view(&self) -> CandidateFileView {
        CandidateFileView {
            path: self.path@,
            byte_length: self.byte_length,
            inode_id: self.inode_id,
        }
    }
}

/// The views of a sequence of candidate files.
pub open spec fn file_views(fs: Seq<CandidateFile>) -> Seq<CandidateFileView> {
    fs.map_values(|f: CandidateFile| f@)
}

/// The mathematical shape of a size group.
pub struct SizeGroupView {
    pub byte_length: u64,
    pub members: Seq<CandidateFileView>,
}

impl View for SizeGroup {
    type V = SizeGroupView;

    open spec fn view(&self) -> SizeGroupView {
        SizeGroupView { byte_length: self.byte_length, members: file_views(self.members@) }
    }
}

/// Every member carries the first member's inode (vacuous for an empty
/// group).
pub open spec fn all_same_inode(ms: Seq<CandidateFileView>) -> bool {
    forall|k: int| 0 <= k < ms.len() ==> #[trigger] ms[k].inode_id == ms[0].inode_id
}

/// A well-formed size group: at least two members, each of the group's byte
/// length, not already collapsed onto one inode.
pub open spec fn wf_group(g: SizeGroupView) -> bool {
    &&& g.members.len() >= 2
    &&& forall|k: int| 0 <= k < g.members.len() ==> #[trigger] g.members[k].byte_length == g.byte_length
    &&& !all_same_inode(g.members)
}

/// The member paths of a group, in order.
pub open spec fn group_paths(g: SizeGroupView) -> Seq<Seq<u8>> {
    g.members.map_values(|m: CandidateFileView| m.path)
}

impl CandidateFile {
    /// An explicit copy.
    pub fn duplicate(&self) -> (r: CandidateFile)
        ensures
            r@ == self@,
    {
        CandidateFile {
            path: crate::bytes::clone_bytes(&self.path),
            byte_length: self.byte_length,
            inode_id: self.inode_id,
        }
    }
}

/// The confidence outcome computed once per size group.
#[derive(Clone, Copy, Debug, PartialEq, Eq, Structural)]
pub enum Classification {
    VeryLikely,
    Maybe,
    No,
}

/// The ladder of content checks, in order of increasing cost and
/// discriminating power.
#[derive(Clone, Copy, Debug, PartialEq, Eq, Structural)]
pub enum HashTier {
    Prefix1MB,
    Prefix10MB,
    Prefix100MB,
    Full,
}

/// What the operator (or the automatic policy) decides for a `Maybe` group:
/// leave it alone, verify it at a deeper tier, or accept it as a duplicate
/// set outright.
#[derive(Clone, Copy, Debug, PartialEq, Eq, Structural)]
pub enum Decision {
    Skip,
    Hash(HashTier),
    ForceAccept,
}

impl HashTier {
    /// How many megabytes of the file this tier reads, or `None` for the
    /// whole file.
    pub fn megabytes(&self) -> (r: Option<u64>)
        ensures
            r == self.megabytes_spec(),
    {
        match self {
            HashTier::Prefix1MB => Some(1),
            HashTier::Prefix10MB => Some(10),
            HashTier::Prefix100MB => Some(100),
            HashTier::Full => None,
        }
    }

    pub open spec fn megabytes_spec(self) -> Option<u64> {
        match self {
            HashTier::Prefix1MB => Some(1),
            HashTier::Prefix10MB => Some(10),
            HashTier::Prefix100MB => Some(100),
            HashTier::Full => None,
        }
    }

    /// Position of this tier in the ladder; higher rank means more of the
    /// file is read.
    pub open spec fn rank(self) -> int {
        match self {
            HashTier::Prefix1MB => 0,
            HashTier::Prefix10MB => 1,
            HashTier::Prefix100MB => 2,
            HashTier::Full => 3,
        }
    }
}

/// The ladder's cost grows with its rank: a higher tier reads strictly more
/// of the file, with `Full` reading everything.
pub proof fn lemma_tier_cost_monotonic(a: HashTier, b: HashTier)
    requires
        a.rank() < b.rank(),
    ensures
        b.megabytes_spec() is None || (a.megabytes_spec() is Some
            && a.megabytes_spec()->Some_0 < b.megabytes_spec()->Some_0),
{
}

} // verus!
