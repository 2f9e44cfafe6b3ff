use hangul_syllable::idlist::move_vec;
use hangul_syllable::typing::{
    is_cho, is_compat_consonant, is_hangul_syllable, is_jong_block, is_jung, normalize_cho, normalize_jong,
    normalize_jung, parse_hangul_query_to_char, shadow_offsets, to_final_jamo, to_initial_jamo, to_medial_jamo,
    type_test_tokens, TypeToken,
};

#[test]
fn hangul_syllable_boundaries() {
    assert!(is_hangul_syllable('가'));
    assert!(is_hangul_syllable('힣'));
    assert!(!is_hangul_syllable('힤'));
    assert!(!is_hangul_syllable('ㄱ'));
}

#[test]
fn cho_ranges() {
    assert!(is_cho('ㄱ'));
    assert!(is_cho('\u{1100}'));
    assert!(is_cho('\u{115E}'));
    assert!(is_cho('\u{A960}'));
    assert!(!is_cho('ㅏ'));
    assert!(!is_cho('가'));
}

#[test]
fn jung_ranges() {
    assert!(is_jung('ㅏ'));
    assert!(is_jung('\u{1161}'));
    assert!(is_jung('\u{11A7}'));
    assert!(is_jung('\u{D7B0}'));
    assert!(!is_jung('ㄱ'));
}

#[test]
fn jong_block_ranges() {
    assert!(is_jong_block('\u{11A8}'));
    assert!(is_jong_block('\u{11FF}'));
    assert!(is_jong_block('\u{D7CB}'));
    assert!(is_jong_block('\u{D7FB}'));
    assert!(!is_jong_block('ㄱ'));
}

#[test]
fn compat_consonant_range() {
    assert!(is_compat_consonant('ㄱ'));
    assert!(is_compat_consonant('ㅎ'));
    assert!(!is_compat_consonant('ㅏ'));
}

#[test]
fn normalize_block_jamo_to_compat() {
    assert_eq!(normalize_cho('\u{1100}'), 'ㄱ');
    assert_eq!(normalize_cho('\u{1112}'), 'ㅎ');
    assert_eq!(normalize_cho('\u{1113}'), '\u{1113}');
    assert_eq!(normalize_jung('\u{1161}'), 'ㅏ');
    assert_eq!(normalize_jung('\u{1175}'), 'ㅣ');
    assert_eq!(normalize_jong('\u{11A8}'), 'ㄱ');
    assert_eq!(normalize_jong('\u{11C2}'), 'ㅎ');
    assert_eq!(normalize_jong('\u{11C3}'), '\u{11C3}');
}

#[test]
fn compat_to_block_jamo() {
    assert_eq!(to_initial_jamo('ㄱ'), '\u{1100}');
    assert_eq!(to_initial_jamo('ㅎ'), '\u{1112}');
    assert_eq!(to_medial_jamo('ㅏ'), '\u{1161}');
    assert_eq!(to_final_jamo('ㄱ'), '\u{11A8}');
    assert_eq!(to_final_jamo('ㅎ'), '\u{11C2}');
    assert_eq!(to_initial_jamo('A'), 'A');
}

#[test]
fn shadow_offsets_rays() {
    let mut dirs = [false; 8];
    dirs[2] = true;
    dirs[4] = true;
    assert_eq!(shadow_offsets(2, &dirs), vec![(1, 0), (2, 0), (0, 1), (0, 2)]);
    assert!(shadow_offsets(0, &[true; 8]).is_empty());
    assert_eq!(shadow_offsets(1, &[true; 8]).len(), 8);
    assert_eq!(shadow_offsets(1, &[true; 8])[7], (-1, -1));
}

#[test]
fn type_test_tokens_split_text() {
    let toks = type_test_tokens("가 \nA\u{1100}\u{1161}\u{11A8}ㄱㅏㄴㅏ");
    assert_eq!(
        toks,
        vec![
            TypeToken::Syllable('가'),
            TypeToken::Space,
            TypeToken::LineBreak,
            TypeToken::Other('A'),
            TypeToken::Jamo('ㄱ', 'ㅏ', Some('ㄱ')),
            TypeToken::Jamo('ㄱ', 'ㅏ', None),
            TypeToken::Jamo('ㄴ', 'ㅏ', None),
        ]
    );
}

#[test]
fn type_test_tokens_compat_final_at_end() {
    assert_eq!(type_test_tokens("ㄱㅏㄴ"), vec![TypeToken::Jamo('ㄱ', 'ㅏ', Some('ㄴ'))]);
    assert_eq!(type_test_tokens("ㄱ"), vec![TypeToken::Other('ㄱ')]);
}

#[test]
fn query_by_syllable_and_code() {
    assert_eq!(parse_hangul_query_to_char(" 가 "), Some('가'));
    assert_eq!(parse_hangul_query_to_char("AC00"), Some('가'));
    assert_eq!(parse_hangul_query_to_char("u+ac01"), Some('각'));
    assert_eq!(parse_hangul_query_to_char("U+D7A4"), None);
    assert_eq!(parse_hangul_query_to_char(""), None);
    assert_eq!(parse_hangul_query_to_char("ㄱ"), None);
    assert_eq!(parse_hangul_query_to_char("0000AC00"), None);
}

#[test]
fn move_vec_forward() {
    let mut v = vec![1, 2, 3, 4, 5];
    move_vec(&mut v, 0, 3);
    assert_eq!(v, vec![2, 3, 4, 1, 5]);
}

#[test]
fn move_vec_backward() {
    let mut v = vec![1, 2, 3, 4, 5];
    move_vec(&mut v, 4, 1);
    assert_eq!(v, vec![1, 5, 2, 3, 4]);
}

#[test]
fn move_vec_same_position() {
    let mut v = vec![1, 2, 3];
    move_vec(&mut v, 1, 1);
    assert_eq!(v, vec![1, 2, 3]);
}

#[test]
fn move_vec_out_of_bounds_from() {
    let mut v = vec![1, 2, 3];
    move_vec(&mut v, 5, 0);
    assert_eq!(v, vec![1, 2, 3]);
}

#[test]
fn move_vec_to_clamps_to_end() {
    let mut v = vec![1, 2, 3];
    move_vec(&mut v, 0, 100);
    assert_eq!(v, vec![2, 3, 1]);
}

#[test]
fn move_vec_empty() {
    let mut v: Vec<i32> = vec![];
    move_vec(&mut v, 0, 0);
    assert_eq!(v, vec![]);
}
