use vstd::prelude::*;

use crate::bytes::{sub_vec, DOT, SLASH};

verus! {

/// The final path component: what follows the last `/`, or the whole path
/// when it has none.
pub open spec fn basename(p: Seq<u8>) -> Seq<u8>
    decreases p.len(),
{
    if p.len() == 0 {
        p
    } else if p.contains(SLASH) {
        basename(p.skip(1))
    } else {
        p
    }
}

/// Index of the last `.` in a name, or -1 when it has none.
pub open spec fn last_dot(name: Seq<u8>) -> int
    decreases name.len(),
{
    if name.len() == 0 {
        -1
    } else if name[name.len() - 1] == DOT {
        name.len() - 1
    } else {
        last_dot(name.drop_last())
    }
}

/// The file name with its extension removed: everything before the last `.`,
/// unless that dot starts the name or the name has none.
pub open spec fn stem_of(name: Seq<u8>) -> Seq<u8> {
    if last_dot(name) > 0 {
        name.take(last_dot(name))
    } else {
        name
    }
}

/// The stem of a path's final component, the input of every filename
/// heuristic.
pub open spec fn path_stem(path: Seq<u8>) -> Seq<u8> {
    stem_of(basename(path))
}

proof fn lemma_basename_suffix(p: Seq<u8>, i: int)
    requires
        0 <= i && i <= p.len(),
        forall|j: int| i <= j < p.len() ==> p[j] != SLASH,
        i > 0 ==> p[i - 1] == SLASH,
    ensures
        basename(p) == p.skip(i),
    decreases i,
{
    if i == 0 {
        assert(!p.contains(SLASH));
        assert(p.skip(0) =~= p);
    } else {
        assert(p.contains(SLASH));
        lemma_basename_suffix(p.skip(1), i - 1);
        assert(p.skip(1).skip(i - 1) =~= p.skip(i));
    }
}

proof fn lemma_last_dot_scan(name: Seq<u8>, k: int)
    requires
        0 <= k && k <= name.len(),
        forall|j: int| k <= j < name.len() ==> name[j] != DOT,
    ensures
        last_dot(name) == last_dot(name.take(k)),
    decreases name.len() - k,
{
    if k == name.len() {
        assert(name.take(k) =~= name);
    } else {
        lemma_last_dot_scan(name, k + 1);
        let t = name.take(k + 1);
        assert(t[t.len() - 1] == name[k]);
        assert(t.drop_last() =~= name.take(k));
    }
}

fn basename_start(path: &Vec<u8>) -> (i: usize)
    ensures
        i <= path@.len(),
        forall|j: int| i <= j < path@.len() ==> path@[j] != SLASH,
        i > 0 ==> path@[i - 1] == SLASH,
{
    let mut k: usize = path.len();
    while k > 0
        invariant
            k <= path@.len(),
            forall|j: int| k <= j < path@.len() ==> path@[j] != SLASH,
        decreases k,
    {
        if path[k - 1] == SLASH {
            return k;
        }
        k -= 1;
    }
    0
}

/// The stem of the path's final component, as `path_stem` describes it.
pub fn file_stem(path: &Vec<u8>) -> (r: Vec<u8>)
    ensures
        r@ == path_stem(path@),
{
    let start = basename_start(path);
    let name = sub_vec(path, start, path.len());
    proof {
        lemma_basename_suffix(path@, start as int);
        assert(name@ =~= path@.skip(start as int));
    }
    let mut k: usize = name.len();
    while k > 0
        invariant
            k <= name@.len(),
            name@ == basename(path@),
            forall|j: int| k <= j < name@.len() ==> name@[j] != DOT,
        decreases k,
    {
        if name[k - 1] == DOT {
            proof {
                lemma_last_dot_scan(name@, k as int);
                let t = name@.take(k as int);
                assert(t[t.len() - 1] == name@[k - 1]);
                assert(last_dot(name@) == k - 1);
            }
            if k - 1 > 0 {
                let r = sub_vec(&name, 0, k - 1);
                proof {
                    assert(r@ =~= name@.take(k - 1));
                }
                return r;
            } else {
                return name;
            }
        }
        k -= 1;
    }
    proof {
        lemma_last_dot_scan(name@, 0);
        assert(name@.take(0).len() == 0);
    }
    name
}

} // verus!
