use vstd::prelude::*;

verus! {

// ASCII codes used by the filename heuristics.
pub const EXCL: u8 = 33;  // '!'
pub const PAREN_OPEN: u8 = 40;  // '('
pub const COMMA: u8 = 44;  // ','
pub const DASH: u8 = 45;  // '-'
pub const DOT: u8 = 46;  // '.'
pub const SLASH: u8 = 47;  // '/'
pub const SPACE: u8 = 32;  // ' '
pub const ZERO: u8 = 48;  // '0'
pub const NINE: u8 = 57;  // '9'
pub const UPPER_A: u8 = 65;  // 'A'
pub const UPPER_Z: u8 = 90;  // 'Z'
pub const LOWER_A: u8 = 97;  // 'a'
pub const LOWER_Z: u8 = 122;  // 'z'

/// An ASCII decimal digit.
pub open spec fn is_digit(b: u8) -> bool {
    ZERO <= b && b <= NINE
}

/// ASCII lowercasing of one byte; every other byte is unchanged.
pub open spec fn lower_byte(b: u8) -> u8 {
    if UPPER_A <= b && b <= UPPER_Z {
        (b + 32) as u8
    } else {
        b
    }
}

/// ASCII uppercasing of one byte; every other byte is unchanged.
pub open spec fn upper_byte(b: u8) -> u8 {
    if LOWER_A <= b && b <= LOWER_Z {
        (b - 32) as u8
    } else {
        b
    }
}

/// ASCII whitespace: space, tab, line feed, vertical tab, form feed,
/// carriage return.
pub open spec fn is_space(b: u8) -> bool {
    b == SPACE || (9 <= b && b <= 13)
}

pub fn digit(b: u8) -> (r: bool)
    ensures
        r == is_digit(b),
{
    ZERO <= b && b <= NINE
}

pub fn to_lower(b: u8) -> (r: u8)
    ensures
        r == lower_byte(b),
{
    if UPPER_A <= b && b <= UPPER_Z {
        b + 32
    } else {
        b
    }
}

pub fn to_upper(b: u8) -> (r: u8)
    ensures
        r == upper_byte(b),
{
    if LOWER_A <= b && b <= LOWER_Z {
        b - 32
    } else {
        b
    }
}

pub fn space(b: u8) -> (r: bool)
    ensures
        r == is_space(b),
{
    b == SPACE || (9 <= b && b <= 13)
}

/// Byte-for-byte equality of two vectors.
pub fn bytes_eq(a: &Vec<u8>, b: &Vec<u8>) -> (r: bool)
    ensures
        r == (a@ == b@),
{
    if a.len() != b.len() {
        return false;
    }
    let mut i: usize = 0;
    while i < a.len()
        invariant
            i <= a.len(),
            a@.len() == b@.len(),
            forall|j: int| 0 <= j < i ==> a@[j] == b@[j],
        decreases a.len() - i,
    {
        if a[i] != b[i] {
            return false;
        }
        i += 1;
    }
    proof {
        assert(a@ =~= b@);
    }
    true
}

/// The bytes of `v` from index `a` (inclusive) to `b` (exclusive).
pub fn sub_vec(v: &Vec<u8>, a: usize, b: usize) -> (r: Vec<u8>)
    requires
        a <= b && b <= v.len(),
    ensures
        r@ == v@.subrange(a as int, b as int),
{
    let mut r: Vec<u8> = Vec::new();
    let mut i: usize = a;
    proof {
        assert(r@ =~= v@.subrange(a as int, a as int));
    }
    while i < b
        invariant
            a <= i && i <= b && b <= v.len(),
            r@ == v@.subrange(a as int, i as int),
        decreases b - i,
    {
        r.push(v[i]);
        i += 1;
        proof {
            assert(v@.subrange(a as int, i as int) =~= v@.subrange(a as int, i - 1).push(
                v@[i - 1],
            ));
        }
    }
    r
}

/// An explicit copy of a byte vector.
pub fn clone_bytes(v: &Vec<u8>) -> (r: Vec<u8>)
    ensures
        r@ == v@,
{
    let r = sub_vec(v, 0, v.len());
    proof {
        assert(v@.subrange(0, v@.len() as int) =~= v@);
    }
    r
}

/// The view of an optional byte vector.
pub open spec fn opt_view(o: Option<Vec<u8>>) -> Option<Seq<u8>> {
    match o {
        Some(v) => Some(v@),
        None => None,
    }
}

/// Equality of two optional byte vectors, compared by contents.
pub fn opt_bytes_eq(a: &Option<Vec<u8>>, b: &Option<Vec<u8>>) -> (r: bool)
    ensures
        r == (opt_view(*a) == opt_view(*b)),
{
    match (a, b) {
        (Some(x), Some(y)) => bytes_eq(x, y),
        (None, None) => true,
        _ => false,
    }
}

} // verus!
