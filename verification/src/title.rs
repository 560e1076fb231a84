use vstd::prelude::*;

use crate::bytes::{
    is_digit, is_space, lower_byte, digit, space, to_lower, sub_vec, COMMA, DASH, DOT, EXCL,
    PAREN_OPEN, SPACE,
};
use crate::stem::{path_stem, file_stem};

verus! {

/// Step 1 of title normalization: `.`, `-`, `,` and `!` become spaces.
pub open spec fn depunct_byte(b: u8) -> u8 {
    if b == DOT || b == DASH || b == COMMA || b == EXCL {
        SPACE
    } else {
        b
    }
}

pub open spec fn depunct(s: Seq<u8>) -> Seq<u8> {
    s.map_values(|b: u8| depunct_byte(b))
}

/// Step 2: every occurrence of the noisy release-group marker `cls` is
/// removed, scanning left to right.
pub open spec fn strip_marker(s: Seq<u8>) -> Seq<u8>
    decreases s.len(),
{
    if s.len() >= 3 && s[0] == 99 && s[1] == 108 && s[2] == 115 {
        strip_marker(s.skip(3))
    } else if s.len() == 0 {
        s
    } else {
        seq![s[0]] + strip_marker(s.skip(1))
    }
}

/// Step 3: each doubled space becomes a single space, scanning left to
/// right.
pub open spec fn collapse_spaces(s: Seq<u8>) -> Seq<u8>
    decreases s.len(),
{
    if s.len() >= 2 && s[0] == SPACE && s[1] == SPACE {
        seq![SPACE] + collapse_spaces(s.skip(2))
    } else if s.len() == 0 {
        s
    } else {
        seq![s[0]] + collapse_spaces(s.skip(1))
    }
}

/// A ` (` pair starts at index `i`.
pub open spec fn paren_at(s: Seq<u8>, i: int) -> bool {
    0 <= i && i + 2 <= s.len() && s[i] == SPACE && s[i + 1] == PAREN_OPEN
}

/// Step 4: everything from the first ` (` on is dropped, shedding trailing
/// annotations such as a parenthesised year.
pub open spec fn paren_cut(s: Seq<u8>) -> Seq<u8>
    decreases s.len(),
{
    if paren_at(s, 0) {
        Seq::empty()
    } else if s.len() == 0 {
        s
    } else {
        seq![s[0]] + paren_cut(s.skip(1))
    }
}

/// Step 5: everything from the first ASCII digit on is dropped.
pub open spec fn digit_cut(s: Seq<u8>) -> Seq<u8>
    decreases s.len(),
{
    if s.len() > 0 && is_digit(s[0]) {
        Seq::empty()
    } else if s.len() == 0 {
        s
    } else {
        seq![s[0]] + digit_cut(s.skip(1))
    }
}

/// Step 6: ASCII lowercasing.
pub open spec fn lower_all(s: Seq<u8>) -> Seq<u8> {
    s.map_values(|b: u8| lower_byte(b))
}

pub open spec fn trim_front(s: Seq<u8>) -> Seq<u8>
    decreases s.len(),
{
    if s.len() > 0 && is_space(s[0]) {
        trim_front(s.skip(1))
    } else {
        s
    }
}

pub open spec fn trim_back(s: Seq<u8>) -> Seq<u8>
    decreases s.len(),
{
    if s.len() > 0 && is_space(s.last()) {
        trim_back(s.drop_last())
    } else {
        s
    }
}

/// Step 7: leading and trailing whitespace is dropped.
pub open spec fn trim_spaces(s: Seq<u8>) -> Seq<u8> {
    trim_back(trim_front(s))
}

/// The whole normalization pipeline of the title heuristic, applied to a
/// filename stem.
pub open spec fn normalize_title(stem: Seq<u8>) -> Seq<u8> {
    trim_spaces(lower_all(digit_cut(paren_cut(collapse_spaces(strip_marker(depunct(stem)))))))
}

/// The title token the heuristic derives from a path: the normalized stem of
/// its final component.
pub open spec fn probable_name(path: Seq<u8>) -> Seq<u8> {
    normalize_title(path_stem(path))
}

fn depunct_vec(s: &Vec<u8>) -> (r: Vec<u8>)
    ensures
        r@ == depunct(s@),
{
    let mut r: Vec<u8> = Vec::new();
    let mut i: usize = 0;
    proof {
        assert(r@ =~= depunct(s@.take(0)));
    }
    while i < s.len()
        invariant
            i <= s@.len(),
            r@ == depunct(s@.take(i as int)),
        decreases s@.len() - i,
    {
        let b = s[i];
        if b == DOT || b == DASH || b == COMMA || b == EXCL {
            r.push(SPACE);
        } else {
            r.push(b);
        }
        i += 1;
        proof {
            assert(depunct(s@.take(i as int)) =~= depunct(s@.take(i - 1)).push(
                depunct_byte(s@[i - 1]),
            ));
        }
    }
    proof {
        assert(s@.take(s@.len() as int) =~= s@);
    }
    r
}

fn strip_marker_vec(s: &Vec<u8>) -> (r: Vec<u8>)
    ensures
        r@ == strip_marker(s@),
{
    let mut r: Vec<u8> = Vec::new();
    let mut i: usize = 0;
    proof {
        assert(s@.skip(0) =~= s@);
    }
    while i < s.len()
        invariant
            i <= s@.len(),
            strip_marker(s@) == r@ + strip_marker(s@.skip(i as int)),
        decreases s@.len() - i,
    {
        if s.len() - i >= 3 && s[i] == 99 && s[i + 1] == 108 && s[i + 2] == 115 {
            proof {
                assert(s@.skip(i as int).skip(3) =~= s@.skip(i + 3));
            }
            i += 3;
        } else {
            let b = s[i];
            proof {
                assert(s@.skip(i as int).skip(1) =~= s@.skip(i + 1));
                assert(r@ + (seq![b] + strip_marker(s@.skip(i + 1))) =~= r@.push(b)
                    + strip_marker(s@.skip(i + 1)));
            }
            r.push(b);
            i += 1;
        }
    }
    proof {
        assert(s@.skip(s@.len() as int).len() == 0);
        assert(r@ + strip_marker(s@.skip(s@.len() as int)) =~= r@);
    }
    r
}

fn collapse_vec(s: &Vec<u8>) -> (r: Vec<u8>)
    ensures
        r@ == collapse_spaces(s@),
{
    let mut r: Vec<u8> = Vec::new();
    let mut i: usize = 0;
    proof {
        assert(s@.skip(0) =~= s@);
    }
    while i < s.len()
        invariant
            i <= s@.len(),
            collapse_spaces(s@) == r@ + collapse_spaces(s@.skip(i as int)),
        decreases s@.len() - i,
    {
        if s.len() - i >= 2 && s[i] == SPACE && s[i + 1] == SPACE {
            proof {
                assert(s@.skip(i as int).skip(2) =~= s@.skip(i + 2));
                assert(r@ + (seq![SPACE] + collapse_spaces(s@.skip(i + 2))) =~= r@.push(SPACE)
                    + collapse_spaces(s@.skip(i + 2)));
            }
            r.push(SPACE);
            i += 2;
        } else {
            let b = s[i];
            proof {
                assert(s@.skip(i as int).skip(1) =~= s@.skip(i + 1));
                assert(r@ + (seq![b] + collapse_spaces(s@.skip(i + 1))) =~= r@.push(b)
                    + collapse_spaces(s@.skip(i + 1)));
            }
            r.push(b);
            i += 1;
        }
    }
    proof {
        assert(s@.skip(s@.len() as int).len() == 0);
        assert(r@ + collapse_spaces(s@.skip(s@.len() as int)) =~= r@);
    }
    r
}

proof fn lemma_paren_cut_prefix(s: Seq<u8>, j: int)
    requires
        0 <= j && j <= s.len(),
        forall|k: int| 0 <= k < j ==> !paren_at(s, k),
        j == s.len() || paren_at(s, j),
    ensures
        paren_cut(s) == s.take(j),
    decreases j,
{
    if j == 0 {
        assert(s.take(0) =~= Seq::<u8>::empty());
        if !paren_at(s, 0) {
            assert(s.len() == 0);
        }
    } else {
        assert(!paren_at(s, 0));
        let t = s.skip(1);
        assert forall|k: int| 0 <= k < j - 1 implies !paren_at(t, k) by {
            assert(!paren_at(s, k + 1));
        }
        if j < s.len() {
            assert(paren_at(t, j - 1));
        }
        lemma_paren_cut_prefix(t, j - 1);
        assert(seq![s[0]] + t.take(j - 1) =~= s.take(j));
    }
}

fn paren_cut_vec(s: &Vec<u8>) -> (r: Vec<u8>)
    ensures
        r@ == paren_cut(s@),
{
    let mut j: usize = 0;
    while j < s.len()
        invariant
            j <= s@.len(),
            forall|k: int| 0 <= k < j ==> !paren_at(s@, k),
        decreases s@.len() - j,
    {
        if s.len() - j >= 2 && s[j] == SPACE && s[j + 1] == PAREN_OPEN {
            proof {
                lemma_paren_cut_prefix(s@, j as int);
            }
            let r = sub_vec(s, 0, j);
            proof {
                assert(r@ =~= s@.take(j as int));
            }
            return r;
        }
        j += 1;
    }
    proof {
        lemma_paren_cut_prefix(s@, s@.len() as int);
        assert(s@.take(s@.len() as int) =~= s@);
    }
    let r = sub_vec(s, 0, s.len());
    proof {
        assert(r@ =~= s@);
    }
    r
}

proof fn lemma_digit_cut_prefix(s: Seq<u8>, j: int)
    requires
        0 <= j && j <= s.len(),
        forall|k: int| 0 <= k < j ==> !is_digit(s[k]),
        j == s.len() || is_digit(s[j]),
    ensures
        digit_cut(s) == s.take(j),
    decreases j,
{
    if j == 0 {
        assert(s.take(0) =~= Seq::<u8>::empty());
    } else {
        let t = s.skip(1);
        assert forall|k: int| 0 <= k < j - 1 implies !is_digit(t[k]) by {
            assert(t[k] == s[k + 1]);
        }
        lemma_digit_cut_prefix(t, j - 1);
        assert(seq![s[0]] + t.take(j - 1) =~= s.take(j));
    }
}

fn digit_cut_vec(s: &Vec<u8>) -> (r: Vec<u8>)
    ensures
        r@ == digit_cut(s@),
{
    let mut j: usize = 0;
    while j < s.len()
        invariant
            j <= s@.len(),
            forall|k: int| 0 <= k < j ==> !is_digit(s@[k]),
        decreases s@.len() - j,
    {
        if digit(s[j]) {
            proof {
                lemma_digit_cut_prefix(s@, j as int);
            }
            let r = sub_vec(s, 0, j);
            proof {
                assert(r@ =~= s@.take(j as int));
            }
            return r;
        }
        j += 1;
    }
    proof {
        lemma_digit_cut_prefix(s@, s@.len() as int);
        assert(s@.take(s@.len() as int) =~= s@);
    }
    let r = sub_vec(s, 0, s.len());
    proof {
        assert(r@ =~= s@);
    }
    r
}

fn lower_vec(s: &Vec<u8>) -> (r: Vec<u8>)
    ensures
        r@ == lower_all(s@),
{
    let mut r: Vec<u8> = Vec::new();
    let mut i: usize = 0;
    proof {
        assert(r@ =~= lower_all(s@.take(0)));
    }
    while i < s.len()
        invariant
            i <= s@.len(),
            r@ == lower_all(s@.take(i as int)),
        decreases s@.len() - i,
    {
        r.push(to_lower(s[i]));
        i += 1;
        proof {
            assert(lower_all(s@.take(i as int)) =~= lower_all(s@.take(i - 1)).push(
                lower_byte(s@[i - 1]),
            ));
        }
    }
    proof {
        assert(s@.take(s@.len() as int) =~= s@);
    }
    r
}

proof fn lemma_trim_front_skip(s: Seq<u8>, a: int)
    requires
        0 <= a && a <= s.len(),
        forall|k: int| 0 <= k < a ==> is_space(s[k]),
        a == s.len() || !is_space(s[a]),
    ensures
        trim_front(s) == s.skip(a),
    decreases a,
{
    if a == 0 {
        assert(s.skip(0) =~= s);
    } else {
        let t = s.skip(1);
        assert forall|k: int| 0 <= k < a - 1 implies is_space(t[k]) by {
            assert(t[k] == s[k + 1]);
        }
        lemma_trim_front_skip(t, a - 1);
        assert(t.skip(a - 1) =~= s.skip(a));
    }
}

proof fn lemma_trim_back_take(s: Seq<u8>, b: int)
    requires
        0 <= b && b <= s.len(),
        forall|k: int| b <= k < s.len() ==> is_space(s[k]),
        b == 0 || !is_space(s[b - 1]),
    ensures
        trim_back(s) == s.take(b),
    decreases s.len(),
{
    if b == s.len() {
        assert(s.take(b) =~= s);
    } else {
        assert(is_space(s.last()));
        let t = s.drop_last();
        lemma_trim_back_take(t, b);
        assert(t.take(b) =~= s.take(b));
    }
}

fn trim_vec(s: &Vec<u8>) -> (r: Vec<u8>)
    ensures
        r@ == trim_spaces(s@),
{
    let mut a: usize = 0;
    while a < s.len() && space(s[a])
        invariant
            a <= s@.len(),
            forall|k: int| 0 <= k < a ==> is_space(s@[k]),
        decreases s@.len() - a,
    {
        a += 1;
    }
    let mut b: usize = s.len();
    while b > a && space(s[b - 1])
        invariant
            a <= b && b <= s@.len(),
            forall|k: int| b <= k < s@.len() ==> is_space(s@[k]),
        decreases b,
    {
        b -= 1;
    }
    proof {
        lemma_trim_front_skip(s@, a as int);
        let t = s@.skip(a as int);
        assert forall|k: int| (b - a) <= k < t.len() implies is_space(t[k]) by {
            assert(t[k] == s@[k + a]);
        }
        if b > a {
            assert(t[b - a - 1] == s@[b - 1]);
        }
        lemma_trim_back_take(t, b - a);
        assert(t.take(b - a) =~= s@.subrange(a as int, b as int));
    }
    sub_vec(s, a, b)
}

/// The title heuristic of the extractor: the normalized, lowercased stem of
/// the path's final component, with noise removed.
pub fn generate_probable_name(path: &Vec<u8>) -> (r: Vec<u8>)
    ensures
        r@ == probable_name(path@),
{
    let stem = file_stem(path);
    let s1 = depunct_vec(&stem);
    let s2 = strip_marker_vec(&s1);
    let s3 = collapse_vec(&s2);
    let s4 = paren_cut_vec(&s3);
    let s5 = digit_cut_vec(&s4);
    let s6 = lower_vec(&s5);
    trim_vec(&s6)
}

} // verus!
