use vstd::prelude::*;

use crate::bytes::{is_digit, lower_byte, upper_byte, digit, to_lower, to_upper, DASH, DOT};
use crate::stem::{path_stem, file_stem};
use crate::title::{normalize_title, probable_name, generate_probable_name};
use crate::bytes::opt_view;

verus! {

/// A `SxxExx` episode code starts at index `i` (case-insensitive).
pub open spec fn episode_at(s: Seq<u8>, i: int) -> bool {
    &&& 0 <= i
    &&& i + 6 <= s.len()
    &&& lower_byte(s[i]) == 115  // 's'
    &&& is_digit(s[i + 1])
    &&& is_digit(s[i + 2])
    &&& lower_byte(s[i + 3]) == 101  // 'e'
    &&& is_digit(s[i + 4])
    &&& is_digit(s[i + 5])
}

/// The episode token taken at index `i`: the matched code, uppercased.
pub open spec fn episode_token_at(s: Seq<u8>, i: int) -> Seq<u8> {
    seq![
        upper_byte(s[i]),
        s[i + 1],
        s[i + 2],
        upper_byte(s[i + 3]),
        s[i + 4],
        s[i + 5],
    ]
}

/// The leftmost episode code in `s`, uppercased, if any.
pub open spec fn find_episode(s: Seq<u8>) -> Option<Seq<u8>>
    decreases s.len(),
{
    if s.len() < 6 {
        None
    } else if episode_at(s, 0) {
        Some(episode_token_at(s, 0))
    } else {
        find_episode(s.skip(1))
    }
}

/// A date separator: `.` or `-`.
pub open spec fn is_sep(b: u8) -> bool {
    b == DOT || b == DASH
}

/// A `YYYY.MM.DD` air date (separators `.` or `-`) starts at index `i`.
pub open spec fn date_at(s: Seq<u8>, i: int) -> bool {
    &&& 0 <= i
    &&& i + 10 <= s.len()
    &&& is_digit(s[i])
    &&& is_digit(s[i + 1])
    &&& is_digit(s[i + 2])
    &&& is_digit(s[i + 3])
    &&& is_sep(s[i + 4])
    &&& is_digit(s[i + 5])
    &&& is_digit(s[i + 6])
    &&& is_sep(s[i + 7])
    &&& is_digit(s[i + 8])
    &&& is_digit(s[i + 9])
}

/// The air-date token taken at index `i`: the eight digits, in order, with
/// the separators dropped.
pub open spec fn date_token_at(s: Seq<u8>, i: int) -> Seq<u8> {
    seq![
        s[i],
        s[i + 1],
        s[i + 2],
        s[i + 3],
        s[i + 5],
        s[i + 6],
        s[i + 8],
        s[i + 9],
    ]
}

/// The leftmost air date in `s`, as its digits, if any.
pub open spec fn find_air_date(s: Seq<u8>) -> Option<Seq<u8>>
    decreases s.len(),
{
    if s.len() < 10 {
        None
    } else if date_at(s, 0) {
        Some(date_token_at(s, 0))
    } else {
        find_air_date(s.skip(1))
    }
}

/// The exception pattern `paw patrol` (any byte between the words,
/// case-insensitive) starts at index `i`.
pub open spec fn paw_at(s: Seq<u8>, i: int) -> bool {
    &&& 0 <= i
    &&& i + 10 <= s.len()
    &&& lower_byte(s[i]) == 112  // 'p'
    &&& lower_byte(s[i + 1]) == 97  // 'a'
    &&& lower_byte(s[i + 2]) == 119  // 'w'
    &&& lower_byte(s[i + 4]) == 112  // 'p'
    &&& lower_byte(s[i + 5]) == 97  // 'a'
    &&& lower_byte(s[i + 6]) == 116  // 't'
    &&& lower_byte(s[i + 7]) == 114  // 'r'
    &&& lower_byte(s[i + 8]) == 111  // 'o'
    &&& lower_byte(s[i + 9]) == 108  // 'l'
}

/// The exception pattern `bar rescue` (any byte between the words,
/// case-insensitive) starts at index `i`.
pub open spec fn bar_at(s: Seq<u8>, i: int) -> bool {
    &&& 0 <= i
    &&& i + 10 <= s.len()
    &&& lower_byte(s[i]) == 98  // 'b'
    &&& lower_byte(s[i + 1]) == 97  // 'a'
    &&& lower_byte(s[i + 2]) == 114  // 'r'
    &&& lower_byte(s[i + 4]) == 114  // 'r'
    &&& lower_byte(s[i + 5]) == 101  // 'e'
    &&& lower_byte(s[i + 6]) == 115  // 's'
    &&& lower_byte(s[i + 7]) == 99  // 'c'
    &&& lower_byte(s[i + 8]) == 117  // 'u'
    &&& lower_byte(s[i + 9]) == 101  // 'e'
}

/// One of the exception patterns starts at index `i`.
pub open spec fn exception_at(s: Seq<u8>, i: int) -> bool {
    paw_at(s, i) || bar_at(s, i)
}

/// A stem names one of the franchises whose episode codes are known to be
/// unreliable.
pub open spec fn is_exception(s: Seq<u8>) -> bool {
    exists|i: int| exception_at(s, i)
}

/// The heuristic identity token of one file: exactly one kind, chosen by
/// priority air date, then episode code, then normalized title.
pub enum IdentityToken {
    AirDate(Vec<u8>),
    Episode(Vec<u8>),
    Title(Vec<u8>),
}

/// The mathematical shape of an `IdentityToken`.
pub enum TokenView {
    AirDate(Seq<u8>),
    Episode(Seq<u8>),
    Title(Seq<u8>),
}

impl View for IdentityToken {
    type V = TokenView;

    open spec fn view(&self) -> TokenView {
        match self {
            IdentityToken::AirDate(v) => TokenView::AirDate(v@),
            IdentityToken::Episode(v) => TokenView::Episode(v@),
            IdentityToken::Title(v) => TokenView::Title(v@),
        }
    }
}

/// The token the heuristics derive from a path's stem.
pub open spec fn extract_spec(path: Seq<u8>) -> TokenView {
    let st = path_stem(path);
    match find_air_date(st) {
        Some(d) => TokenView::AirDate(d),
        None => match find_episode(st) {
            Some(e) => TokenView::Episode(e),
            None => TokenView::Title(normalize_title(st)),
        },
    }
}

/// The leftmost `SxxExx` episode code of the path's stem, uppercased.
pub fn generate_probable_episode(path: &Vec<u8>) -> (r: Option<Vec<u8>>)
    ensures
        opt_view(r) == find_episode(path_stem(path@)),
{
    let stem = file_stem(path);
    let mut i: usize = 0;
    proof {
        assert(stem@.skip(0) =~= stem@);
    }
    while stem.len() - i >= 6
        invariant
            i <= stem@.len(),
            find_episode(path_stem(path@)) == find_episode(stem@.skip(i as int)),
        decreases stem@.len() - i,
    {
        if to_lower(stem[i]) == 115 && digit(stem[i + 1]) && digit(stem[i + 2]) && to_lower(
            stem[i + 3],
        ) == 101 && digit(stem[i + 4]) && digit(stem[i + 5]) {
            let mut t: Vec<u8> = Vec::new();
            t.push(to_upper(stem[i]));
            t.push(stem[i + 1]);
            t.push(stem[i + 2]);
            t.push(to_upper(stem[i + 3]));
            t.push(stem[i + 4]);
            t.push(stem[i + 5]);
            proof {
                assert(episode_at(stem@.skip(i as int), 0));
                assert(episode_token_at(stem@.skip(i as int), 0) =~= episode_token_at(
                    stem@,
                    i as int,
                ));
                assert(t@ =~= episode_token_at(stem@, i as int));
            }
            return Some(t);
        }
        proof {
            assert(!episode_at(stem@.skip(i as int), 0));
            assert(stem@.skip(i as int).skip(1) =~= stem@.skip(i + 1));
        }
        i += 1;
    }
    None
}

/// The leftmost air date of the path's stem, as its eight digits.
pub fn generate_probable_air_date(path: &Vec<u8>) -> (r: Option<Vec<u8>>)
    ensures
        opt_view(r) == find_air_date(path_stem(path@)),
{
    let stem = file_stem(path);
    let mut i: usize = 0;
    proof {
        assert(stem@.skip(0) =~= stem@);
    }
    while stem.len() - i >= 10
        invariant
            i <= stem@.len(),
            find_air_date(path_stem(path@)) == find_air_date(stem@.skip(i as int)),
        decreases stem@.len() - i,
    {
        if digit(stem[i]) && digit(stem[i + 1]) && digit(stem[i + 2]) && digit(stem[i + 3]) && (
        stem[i + 4] == DOT || stem[i + 4] == DASH) && digit(stem[i + 5]) && digit(stem[i + 6]) && (
        stem[i + 7] == DOT || stem[i + 7] == DASH) && digit(stem[i + 8]) && digit(stem[i + 9]) {
            let mut t: Vec<u8> = Vec::new();
            t.push(stem[i]);
            t.push(stem[i + 1]);
            t.push(stem[i + 2]);
            t.push(stem[i + 3]);
            t.push(stem[i + 5]);
            t.push(stem[i + 6]);
            t.push(stem[i + 8]);
            t.push(stem[i + 9]);
            proof {
                assert(date_at(stem@.skip(i as int), 0));
                assert(date_token_at(stem@.skip(i as int), 0) =~= date_token_at(stem@, i as int));
                assert(t@ =~= date_token_at(stem@, i as int));
            }
            return Some(t);
        }
        proof {
            assert(!date_at(stem@.skip(i as int), 0));
            assert(stem@.skip(i as int).skip(1) =~= stem@.skip(i + 1));
        }
        i += 1;
    }
    None
}

/// Whether the path's stem names an exception-listed franchise.
pub fn is_paw_patrol_bar_rescue(path: &Vec<u8>) -> (r: bool)
    ensures
        r == is_exception(path_stem(path@)),
{
    let stem = file_stem(path);
    let mut i: usize = 0;
    while stem.len() - i >= 10
        invariant
            i <= stem@.len(),
            stem@ == path_stem(path@),
            forall|k: int| 0 <= k < i ==> !paw_at(stem@, k) && !bar_at(stem@, k),
        decreases stem@.len() - i,
    {
        if to_lower(stem[i]) == 112 && to_lower(stem[i + 1]) == 97 && to_lower(stem[i + 2]) == 119
            && to_lower(stem[i + 4]) == 112 && to_lower(stem[i + 5]) == 97 && to_lower(
            stem[i + 6],
        ) == 116 && to_lower(stem[i + 7]) == 114 && to_lower(stem[i + 8]) == 111 && to_lower(
            stem[i + 9],
        ) == 108 {
            proof {
                assert(exception_at(stem@, i as int));
            }
            return true;
        }
        if to_lower(stem[i]) == 98 && to_lower(stem[i + 1]) == 97 && to_lower(stem[i + 2]) == 114
            && to_lower(stem[i + 4]) == 114 && to_lower(stem[i + 5]) == 101 && to_lower(
            stem[i + 6],
        ) == 115 && to_lower(stem[i + 7]) == 99 && to_lower(stem[i + 8]) == 117 && to_lower(
            stem[i + 9],
        ) == 101 {
            proof {
                assert(exception_at(stem@, i as int));
            }
            return true;
        }
        i += 1;
    }
    proof {
        assert forall|k: int| !exception_at(stem@, k) by {
            if 0 <= k < i {
            } else {
                assert(k < 0 || k + 10 > stem@.len());
            }
        }
    }
    false
}

/// The identity token of one file, from its filename alone: an air date if
/// the stem holds one, else an episode code if it holds one, else the
/// normalized title.
pub fn extract(path: &Vec<u8>) -> (t: IdentityToken)
    ensures
        t@ == extract_spec(path@),
{
    if let Some(d) = generate_probable_air_date(path) {
        return IdentityToken::AirDate(d);
    }
    if let Some(e) = generate_probable_episode(path) {
        return IdentityToken::Episode(e);
    }
    IdentityToken::Title(generate_probable_name(path))
}

} // verus!
