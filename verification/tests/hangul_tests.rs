use hangul_syllable::hangul::{
    all_hangul_syllables, cho_allowed, decompose_hangul, get_jamo_char, jong_allowed, jong_allowed_with_none,
    jung_allowed,
};
use hangul_syllable::types::{kind_to_name, HangulComponent};

fn syllable(cho: u32, jung: u32, jong: u32) -> char {
    char::from_u32(0xAC00 + cho * 21 * 28 + jung * 28 + jong).unwrap()
}

#[test]
fn kind_values() {
    assert_eq!(HangulComponent::Cho.kind(), 0);
    assert_eq!(HangulComponent::Jung.kind(), 1);
    assert_eq!(HangulComponent::Jong.kind(), 2);
}

#[test]
fn kind_to_name_all() {
    assert_eq!(kind_to_name(HangulComponent::Cho), "초성");
    assert_eq!(kind_to_name(HangulComponent::Jung), "중성");
    assert_eq!(kind_to_name(HangulComponent::Jong), "종성");
}

#[test]
fn from_kind_0_is_cho() {
    assert_eq!(HangulComponent::from_kind(0), Some(HangulComponent::Cho));
}

#[test]
fn from_kind_1_is_jung() {
    assert_eq!(HangulComponent::from_kind(1), Some(HangulComponent::Jung));
}

#[test]
fn from_kind_2_is_jong() {
    assert_eq!(HangulComponent::from_kind(2), Some(HangulComponent::Jong));
}

#[test]
fn from_kind_invalid_returns_none() {
    assert_eq!(HangulComponent::from_kind(255), None);
}

#[test]
fn decompose_ga() {
    assert_eq!(decompose_hangul('가'), Some((0, 0, 0)));
}

#[test]
fn decompose_hih() {
    assert_eq!(decompose_hangul('힣'), Some((18, 20, 27)));
}

#[test]
fn decompose_out_of_range_above() {
    let c = char::from_u32(0xD7A4).unwrap();
    assert_eq!(decompose_hangul(c), None);
}

#[test]
fn decompose_ascii() {
    assert_eq!(decompose_hangul('A'), None);
}

#[test]
fn decompose_standalone_jamo() {
    assert_eq!(decompose_hangul('ㄱ'), None);
}

#[test]
fn decompose_below_range() {
    let c = char::from_u32(0xABFF).unwrap();
    assert_eq!(decompose_hangul(c), None);
}

#[test]
fn decompose_all_syllables_roundtrip() {
    let mut count = 0usize;
    for c in all_hangul_syllables() {
        let (cho, jung, jong) = decompose_hangul(c).expect("should decompose");
        assert!(cho < 19, "cho={cho} out of range");
        assert!(jung < 21, "jung={jung} out of range");
        assert!(jong < 28, "jong={jong} out of range");
        assert_eq!(c, syllable(cho as u32, jung as u32, jong as u32));
        count += 1;
    }
    assert_eq!(count, 11172);
}

#[test]
fn get_cho_first() {
    assert_eq!(get_jamo_char(HangulComponent::Cho, 0), 'ㄱ');
}

#[test]
fn get_cho_last() {
    assert_eq!(get_jamo_char(HangulComponent::Cho, 18), 'ㅎ');
}

#[test]
fn get_cho_oob() {
    assert_eq!(get_jamo_char(HangulComponent::Cho, 19), '?');
}

#[test]
fn get_jung_first() {
    assert_eq!(get_jamo_char(HangulComponent::Jung, 0), 'ㅏ');
}

#[test]
fn get_jung_last() {
    assert_eq!(get_jamo_char(HangulComponent::Jung, 20), 'ㅣ');
}

#[test]
fn get_jung_oob() {
    assert_eq!(get_jamo_char(HangulComponent::Jung, 21), '?');
}

#[test]
fn get_jong_zero_is_space() {
    assert_eq!(get_jamo_char(HangulComponent::Jong, 0), ' ');
}

#[test]
fn get_jong_last() {
    assert_eq!(get_jamo_char(HangulComponent::Jong, 27), 'ㅎ');
}

#[test]
fn get_jong_oob_is_space() {
    assert_eq!(get_jamo_char(HangulComponent::Jong, 28), ' ');
}

#[test]
fn cho_allowed_count() {
    assert_eq!(cho_allowed().len(), 19);
}

#[test]
fn jung_allowed_count() {
    assert_eq!(jung_allowed().len(), 21);
}

#[test]
fn jong_allowed_count() {
    assert_eq!(jong_allowed().len(), 27);
}

#[test]
fn jong_allowed_no_space() {
    assert!(!jong_allowed().contains(&' '));
}

#[test]
fn jong_allowed_with_none_count() {
    assert_eq!(jong_allowed_with_none().len(), 28);
}

#[test]
fn jong_allowed_with_none_starts_with_null() {
    assert_eq!(jong_allowed_with_none()[0], '\0');
}
