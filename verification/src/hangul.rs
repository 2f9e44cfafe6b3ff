use vstd::prelude::*;

use crate::types::HangulComponent;

verus! {

/// Marker used for "this syllable has no final consonant".
pub const NO_JONG: char = '\0';

pub const HANGUL_SYLLABLE_START: u32 = 0xAC00;

pub const HANGUL_SYLLABLE_END: u32 = 0xD7A3;

/// Number of precomposed modern Hangul syllables (19 * 21 * 28).
pub open spec fn syllable_count() -> nat {
    11172
}

/// Is `v` the code of a Unicode scalar value (a valid `char`)?
pub open spec fn is_scalar_value(v: int) -> bool {
    0 <= v <= 0x10FFFF && !(0xD800 <= v <= 0xDFFF)
}

/// The `char` whose code is `v` (meaningful when `is_scalar_value(v)`).
pub open spec fn char_of(v: int) -> char {
    v as char
}

/// Converts a code point into a `char`.
///
/// Trusted: calls `char::from_u32`, whose documentation says it returns `None`
/// exactly when the value is not a Unicode scalar value (above `0x10FFFF` or a
/// surrogate), and otherwise the `char` with that code.
#[verifier::external_body]
pub(crate) fn char_from_u32(v: u32) -> (r: Option<char>)
    ensures
        r is Some <==> is_scalar_value(v as int),
        r matches Some(c) ==> c as u32 == v && c == char_of(v as int),
{
    char::from_u32(v)
}

/// Is `c` one of the 11172 precomposed syllables U+AC00..=U+D7A3?
pub open spec fn is_syllable_code(code: int) -> bool {
    HANGUL_SYLLABLE_START <= code <= HANGUL_SYLLABLE_END
}

/// Splits a precomposed syllable into its (initial, medial, final) indices.
pub open spec fn spec_decompose(c: char) -> Option<(usize, usize, usize)> {
    let code = c as u32 as int;
    if is_syllable_code(code) {
        let offset = code - 0xAC00;
        Some(((offset / 28 / 21) as usize, ((offset / 28) % 21) as usize, (offset % 28) as usize))
    } else {
        None
    }
}

/// The code point of the syllable made of the given indices.
pub open spec fn compose_code(cho: int, jung: int, jong: int) -> int {
    0xAC00 + cho * 21 * 28 + jung * 28 + jong
}

/// Every code in U+AC00..=U+D7A3 is a valid `char`, in order.
pub fn all_hangul_syllables() -> (r: Vec<char>)
    ensures
        r@.len() == syllable_count(),
        forall|i: int| 0 <= i < r@.len() ==> (#[trigger] r@[i]) as u32 == 0xAC00 + i,
{
    let mut out: Vec<char> = Vec::new();
    let mut cp: u32 = HANGUL_SYLLABLE_START;
    while cp <= HANGUL_SYLLABLE_END
        invariant
            0xAC00 <= cp <= 0xD7A4,
            out@.len() == cp - 0xAC00,
            forall|i: int| 0 <= i < out@.len() ==> (#[trigger] out@[i]) as u32 == 0xAC00 + i,
        decreases 0xD7A4 - cp,
    {
        let c = char_from_u32(cp).unwrap();
        out.push(c);
        cp = cp + 1;
    }
    out
}

pub fn decompose_hangul(c: char) -> (r: Option<(usize, usize, usize)>)
    ensures
        r == spec_decompose(c),
{
    let code = c as u32;
    if HANGUL_SYLLABLE_START <= code && code <= HANGUL_SYLLABLE_END {
        let offset = code - 0xAC00;
        let jong = (offset % 28) as usize;
        let jung = ((offset / 28) % 21) as usize;
        let cho = ((offset / 28) / 21) as usize;
        Some((cho, jung, jong))
    } else {
        None
    }
}

/// Decomposition and composition are inverse to each other on the syllable block:
/// a syllable decomposes into in-range indices that compose back to it, and any
/// in-range indices compose to a syllable that decomposes to them.
pub proof fn lemma_decompose_compose(c: char, cho: int, jung: int, jong: int)
    ensures
        spec_decompose(c) matches Some(t) ==> {
            &&& t.0 < 19 && t.1 < 21 && t.2 < 28
            &&& c as u32 as int == compose_code(t.0 as int, t.1 as int, t.2 as int)
        },
        (0 <= cho < 19 && 0 <= jung < 21 && 0 <= jong < 28 && c as u32 as int == compose_code(
            cho,
            jung,
            jong,
        )) ==> spec_decompose(c) == Some((cho as usize, jung as usize, jong as usize)),
        spec_decompose(c) is None <==> !is_syllable_code(c as u32 as int),
{
    let code = c as u32 as int;
    if is_syllable_code(code) {
        let offset = code - 0xAC00;
        assert(0 <= offset < 11172);
        assert(offset == (offset / 28) * 28 + offset % 28) by (nonlinear_arith);
        let q = offset / 28;
        assert(q == (q / 21) * 21 + q % 21) by (nonlinear_arith);
        assert(0 <= q < 399) by (nonlinear_arith)
            requires
                0 <= offset < 11172,
                q == offset / 28,
        ;
        assert(q / 21 < 19) by (nonlinear_arith)
            requires
                0 <= q < 399,
        ;
        assert(compose_code(q / 21, q % 21, offset % 28) == code) by (nonlinear_arith)
            requires
                offset == q * 28 + offset % 28,
                q == (q / 21) * 21 + q % 21,
                offset == code - 0xAC00,
        ;
    }
    if 0 <= cho < 19 && 0 <= jung < 21 && 0 <= jong < 28 && code == compose_code(cho, jung, jong) {
        let offset = code - 0xAC00;
        assert(offset == (cho * 21 + jung) * 28 + jong) by (nonlinear_arith)
            requires
                offset == cho * 21 * 28 + jung * 28 + jong,
        ;
        assert(0 <= cho * 21 + jung < 399) by (nonlinear_arith)
            requires
                0 <= cho < 19,
                0 <= jung < 21,
        ;
        assert(offset / 28 == cho * 21 + jung && offset % 28 == jong) by (nonlinear_arith)
            requires
                offset == (cho * 21 + jung) * 28 + jong,
                0 <= jong < 28,
                0 <= cho * 21 + jung,
        ;
        assert((cho * 21 + jung) / 21 == cho && (cho * 21 + jung) % 21 == jung) by (nonlinear_arith)
            requires
                0 <= jung < 21,
                0 <= cho,
        ;
        assert(is_syllable_code(code)) by (nonlinear_arith)
            requires
                offset == (cho * 21 + jung) * 28 + jong,
                0 <= cho * 21 + jung < 399,
                0 <= jong < 28,
                offset == code - 0xAC00,
        ;
    }
}

} // verus!

verus! {

/// The 19 modern initial consonants in syllable-index order.
pub open spec fn cho_table() -> Seq<char> {
    seq!['ㄱ', 'ㄲ', 'ㄴ', 'ㄷ', 'ㄸ', 'ㄹ', 'ㅁ', 'ㅂ', 'ㅃ', 'ㅅ', 'ㅆ', 'ㅇ', 'ㅈ', 'ㅉ', 'ㅊ', 'ㅋ', 'ㅌ', 'ㅍ', 'ㅎ']
}

/// The 21 modern medial vowels in syllable-index order.
pub open spec fn jung_table() -> Seq<char> {
    seq![
        'ㅏ', 'ㅐ', 'ㅑ', 'ㅒ', 'ㅓ', 'ㅔ', 'ㅕ', 'ㅖ', 'ㅗ', 'ㅘ', 'ㅙ', 'ㅚ', 'ㅛ', 'ㅜ', 'ㅝ', 'ㅞ', 'ㅟ', 'ㅠ', 'ㅡ', 'ㅢ', 'ㅣ',
    ]
}

/// The 28 final slots in syllable-index order; slot 0 is "no final consonant".
pub open spec fn jong_table() -> Seq<char> {
    seq![
        NO_JONG, 'ㄱ', 'ㄲ', 'ㄳ', 'ㄴ', 'ㄵ', 'ㄶ', 'ㄷ', 'ㄹ', 'ㄺ', 'ㄻ', 'ㄼ', 'ㄽ', 'ㄾ', 'ㄿ', 'ㅀ', 'ㅁ', 'ㅂ', 'ㅄ', 'ㅅ', 'ㅆ', 'ㅇ',
        'ㅈ', 'ㅊ', 'ㅋ', 'ㅌ', 'ㅍ', 'ㅎ',
    ]
}

/// The display character of the jamo at syllable index `idx`: `'?'` for an unknown
/// initial or medial index, `' '` for "no final" and for an unknown final index.
pub open spec fn spec_jamo_char(component: HangulComponent, idx: int) -> char {
    match component {
        HangulComponent::Cho => if 0 <= idx < 19 { cho_table()[idx] } else { '?' },
        HangulComponent::Jung => if 0 <= idx < 21 { jung_table()[idx] } else { '?' },
        HangulComponent::Jong => if 1 <= idx < 28 { jong_table()[idx] } else { ' ' },
    }
}

pub fn cho_allowed() -> (r: Vec<char>)
    ensures
        r@ == cho_table(),
{
    let v = vec!['ㄱ', 'ㄲ', 'ㄴ', 'ㄷ', 'ㄸ', 'ㄹ', 'ㅁ', 'ㅂ', 'ㅃ', 'ㅅ', 'ㅆ', 'ㅇ', 'ㅈ', 'ㅉ', 'ㅊ', 'ㅋ', 'ㅌ', 'ㅍ', 'ㅎ'];
    assert(v@ =~= cho_table());
    v
}

pub fn jung_allowed() -> (r: Vec<char>)
    ensures
        r@ == jung_table(),
{
    let v = vec![
        'ㅏ', 'ㅐ', 'ㅑ', 'ㅒ', 'ㅓ', 'ㅔ', 'ㅕ', 'ㅖ', 'ㅗ', 'ㅘ', 'ㅙ', 'ㅚ', 'ㅛ', 'ㅜ', 'ㅝ', 'ㅞ', 'ㅟ', 'ㅠ', 'ㅡ', 'ㅢ', 'ㅣ',
    ];
    assert(v@ =~= jung_table());
    v
}

/// The final slots including the leading "no final" marker.
pub fn jong_allowed_with_none() -> (r: Vec<char>)
    ensures
        r@ == jong_table(),
{
    let v = vec![
        NO_JONG, 'ㄱ', 'ㄲ', 'ㄳ', 'ㄴ', 'ㄵ', 'ㄶ', 'ㄷ', 'ㄹ', 'ㄺ', 'ㄻ', 'ㄼ', 'ㄽ', 'ㄾ', 'ㄿ', 'ㅀ', 'ㅁ', 'ㅂ', 'ㅄ', 'ㅅ', 'ㅆ', 'ㅇ',
        'ㅈ', 'ㅊ', 'ㅋ', 'ㅌ', 'ㅍ', 'ㅎ',
    ];
    assert(v@ =~= jong_table());
    v
}

/// The 27 real final consonants (the table without its "no final" slot).
pub fn jong_allowed() -> (r: Vec<char>)
    ensures
        r@ == jong_table().skip(1),
{
    let all = jong_allowed_with_none();
    let mut v: Vec<char> = Vec::new();
    let mut i: usize = 1;
    while i < all.len()
        invariant
            all@ == jong_table(),
            1 <= i <= all@.len(),
            v@ == jong_table().subrange(1, i as int),
        decreases all@.len() - i,
    {
        v.push(all[i]);
        i = i + 1;
    }
    assert(v@ =~= jong_table().skip(1));
    v
}

pub fn get_jamo_char(component: HangulComponent, idx: usize) -> (c: char)
    ensures
        c == spec_jamo_char(component, idx as int),
{
    match component {
        HangulComponent::Cho => {
            let t = cho_allowed();
            if idx < t.len() {
                t[idx]
            } else {
                '?'
            }
        },
        HangulComponent::Jung => {
            let t = jung_allowed();
            if idx < t.len() {
                t[idx]
            } else {
                '?'
            }
        },
        HangulComponent::Jong => {
            let t = jong_allowed_with_none();
            if idx < t.len() && t[idx] != NO_JONG {
                t[idx]
            } else {
                ' '
            }
        },
    }
}

/// The code points `lo..=hi` as characters (all of them must be scalar values).
pub open spec fn code_range(lo: int, hi: int) -> Seq<char> {
    Seq::new((hi - lo + 1) as nat, |i: int| char_of(lo + i))
}

/// Appends the characters U+`lo`..=U+`hi` to `v`.
fn push_code_range(v: &mut Vec<char>, lo: u32, hi: u32)
    requires
        lo <= hi < 0xD800,
    ensures
        final(v)@ == old(v)@ + code_range(lo as int, hi as int),
{
    let ghost start = old(v)@;
    let mut cp = lo;
    while cp <= hi
        invariant
            lo <= cp <= hi + 1,
            hi < 0xD800,
            v@ == start + code_range(lo as int, cp - 1),
        decreases hi + 1 - cp,
    {
        let c = char_from_u32(cp).unwrap();
        v.push(c);
        proof {
            assert(code_range(lo as int, cp as int) =~= code_range(lo as int, cp - 1).push(c));
        }
        cp = cp + 1;
    }
}

/// Modern initials followed by the archaic initials U+1113..=U+115E and U+A960..=U+A97C.
pub open spec fn cho_ext_table() -> Seq<char> {
    cho_table() + code_range(0x1113, 0x115E) + code_range(0xA960, 0xA97C)
}

/// Modern medials followed by the archaic medials U+1176..=U+11A7 and U+D7B0..=U+D7C6.
pub open spec fn jung_ext_table() -> Seq<char> {
    jung_table() + code_range(0x1176, 0x11A7) + code_range(0xD7B0, 0xD7C6)
}

/// Modern finals (without "no final") followed by the archaic finals U+11C3..=U+11FF
/// and U+D7CB..=U+D7FB.
pub open spec fn jong_ext_table() -> Seq<char> {
    jong_table().skip(1) + code_range(0x11C3, 0x11FF) + code_range(0xD7CB, 0xD7FB)
}

pub fn cho_allowed_ext() -> (r: Vec<char>)
    ensures
        r@ == cho_ext_table(),
{
    let mut v = cho_allowed();
    push_code_range(&mut v, 0x1113, 0x115E);
    push_code_range(&mut v, 0xA960, 0xA97C);
    v
}

pub fn jung_allowed_ext() -> (r: Vec<char>)
    ensures
        r@ == jung_ext_table(),
{
    let mut v = jung_allowed();
    push_code_range(&mut v, 0x1176, 0x11A7);
    push_code_range(&mut v, 0xD7B0, 0xD7C6);
    v
}

pub fn jong_allowed_ext() -> (r: Vec<char>)
    ensures
        r@ == jong_ext_table(),
{
    let mut v = jong_allowed();
    push_code_range(&mut v, 0x11C3, 0x11FF);
    push_code_range(&mut v, 0xD7CB, 0xD7FB);
    v
}

/// The extended finals preceded by the "no final" marker.
pub fn jong_allowed_with_none_ext() -> (r: Vec<char>)
    ensures
        r@ == seq![NO_JONG] + jong_ext_table(),
{
    let mut v: Vec<char> = Vec::new();
    v.push(NO_JONG);
    let mut rest = jong_allowed_ext();
    v.append(&mut rest);
    v
}

/// The modern jamo allowed in a group of the given component.
pub open spec fn allowed_table(t: HangulComponent) -> Seq<char> {
    match t {
        HangulComponent::Cho => cho_table(),
        HangulComponent::Jung => jung_table(),
        HangulComponent::Jong => jong_table().skip(1),
    }
}

/// The modern and archaic jamo allowed in a group of the given component.
pub open spec fn allowed_ext_table(t: HangulComponent) -> Seq<char> {
    match t {
        HangulComponent::Cho => cho_ext_table(),
        HangulComponent::Jung => jung_ext_table(),
        HangulComponent::Jong => jong_ext_table(),
    }
}

pub fn allowed_chars_for_target(t: HangulComponent) -> (r: Vec<char>)
    ensures
        r@ == allowed_table(t),
{
    match t {
        HangulComponent::Cho => cho_allowed(),
        HangulComponent::Jung => jung_allowed(),
        HangulComponent::Jong => jong_allowed(),
    }
}

pub fn allowed_chars_extended(t: HangulComponent) -> (r: Vec<char>)
    ensures
        r@ == allowed_ext_table(t),
{
    match t {
        HangulComponent::Cho => cho_allowed_ext(),
        HangulComponent::Jung => jung_allowed_ext(),
        HangulComponent::Jong => jong_allowed_ext(),
    }
}

} // verus!

verus! {

/// No jamo a group may hold is `/`.
pub proof fn lemma_tables_lack_slash(t: HangulComponent)
    ensures
        !allowed_table(t).contains('/'),
        !allowed_ext_table(t).contains('/'),
{
    assert(forall|v: int| 0x1100 <= v <= 0xD7FB ==> #[trigger] char_of(v) != '/');
    assert(!cho_table().contains('/'));
    assert(!jung_table().contains('/'));
    assert(!jong_table().skip(1).contains('/'));
}

} // verus!
