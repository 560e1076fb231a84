use dedupe::extract::{
    extract, generate_probable_air_date, generate_probable_episode, is_paw_patrol_bar_rescue,
    IdentityToken,
};
use dedupe::stem::file_stem;
use dedupe::title::generate_probable_name;

#[test]
fn stem_strips_directory_and_extension() {
    assert_eq!(file_stem(&b"/videos/ShowA.S01E01.mkv".to_vec()), b"ShowA.S01E01".to_vec());
    assert_eq!(file_stem(&b"plain.mkv".to_vec()), b"plain".to_vec());
    assert_eq!(file_stem(&b"noextension".to_vec()), b"noextension".to_vec());
    assert_eq!(file_stem(&b"/a/b/.hidden".to_vec()), b".hidden".to_vec());
    assert_eq!(file_stem(&b"a.b.c".to_vec()), b"a.b".to_vec());
}

#[test]
fn episode_found_and_uppercased() {
    let e = generate_probable_episode(&b"/tv/showa.s01e01.720p.mkv".to_vec());
    assert_eq!(e, Some(b"S01E01".to_vec()));
}

#[test]
fn episode_absent() {
    let e = generate_probable_episode(&b"/tv/Movie.2019.mkv".to_vec());
    assert_eq!(e, None);
}

#[test]
fn episode_leftmost_match_wins() {
    let e = generate_probable_episode(&b"S02E05.S09E09.mkv".to_vec());
    assert_eq!(e, Some(b"S02E05".to_vec()));
}

#[test]
fn air_date_with_dots_and_dashes() {
    let d = generate_probable_air_date(&b"/tv/Show.2019.03.07.mkv".to_vec());
    assert_eq!(d, Some(b"20190307".to_vec()));
    let d2 = generate_probable_air_date(&b"/tv/Show.2019-03-07.mkv".to_vec());
    assert_eq!(d2, Some(b"20190307".to_vec()));
}

#[test]
fn air_date_absent() {
    let d = generate_probable_air_date(&b"/tv/ShowA.S01E01.mkv".to_vec());
    assert_eq!(d, None);
}

#[test]
fn title_normalization_full_pipeline() {
    // punctuation to spaces, marker removed, doubled space collapsed,
    // parenthesised year dropped, lowercased, trimmed
    let t = generate_probable_name(&b"/m/Some-Movie cls (2019).mkv".to_vec());
    assert_eq!(t, b"some movie".to_vec());
}

#[test]
fn title_cut_at_first_digit() {
    let t = generate_probable_name(&b"Show 2 Continues.mkv".to_vec());
    assert_eq!(t, b"show".to_vec());
}

#[test]
fn title_plain_words() {
    let t = generate_probable_name(&b"The.Best.Show.mkv".to_vec());
    assert_eq!(t, b"the best show".to_vec());
}

#[test]
fn title_collapses_doubled_spaces_in_one_pass() {
    let t = generate_probable_name(&b"A...B.mkv".to_vec());
    assert_eq!(t, b"a  b".to_vec());
}

#[test]
fn title_of_empty_path() {
    let t = generate_probable_name(&b"".to_vec());
    assert_eq!(t, b"".to_vec());
}

#[test]
fn title_degenerate_empty_token() {
    let t = generate_probable_name(&b"2019.mkv".to_vec());
    assert_eq!(t, b"".to_vec());
}

#[test]
fn exception_list_matches_known_franchises() {
    assert!(is_paw_patrol_bar_rescue(&b"/tv/Paw.Patrol.S01E02.mkv".to_vec()));
    assert!(is_paw_patrol_bar_rescue(&b"/tv/PAW_PATROL_s02e01.mkv".to_vec()));
    assert!(is_paw_patrol_bar_rescue(&b"/tv/bar rescue S03E04.mkv".to_vec()));
    assert!(!is_paw_patrol_bar_rescue(&b"/tv/ShowA.S01E01.mkv".to_vec()));
}

#[test]
fn extract_prefers_air_date_over_episode() {
    let t = extract(&b"X.2020-01-02.S01E01.mkv".to_vec());
    assert!(matches!(t, IdentityToken::AirDate(d) if d == b"20200102".to_vec()));
}

#[test]
fn extract_prefers_episode_over_title() {
    let t = extract(&b"ShowA.S01E01.mkv".to_vec());
    assert!(matches!(t, IdentityToken::Episode(e) if e == b"S01E01".to_vec()));
}

#[test]
fn extract_falls_back_to_title() {
    let t = extract(&b"The.Best.Show.mkv".to_vec());
    assert!(matches!(t, IdentityToken::Title(n) if n == b"the best show".to_vec()));
}
