use vstd::prelude::*;
use vstd::std_specs::iter::IteratorSpec;

use crate::hangul::{allowed_chars_for_target, allowed_table, char_from_u32, char_of, cho_table, jong_table, jung_table};
use crate::file_format::{hex_digit_value, hex_value, is_whitespace, is_ws};
use crate::seqs::{first_index, lemma_first_index_is, lemma_first_index_props};
use crate::text::string_push;
use crate::types::HangulComponent;

verus! {

/// The character's code lies in `lo..=hi`.
pub open spec fn code_in(ch: char, lo: int, hi: int) -> bool {
    lo <= ch as u32 <= hi
}

/// A precomposed modern syllable (U+AC00 to U+D7A3).
pub open spec fn spec_is_hangul_syllable(ch: char) -> bool {
    code_in(ch, 0xAC00, 0xD7A3)
}

/// An initial: a jamo-block initial (U+1100 to U+115E, U+A960 to U+A97C) or a
/// compatibility consonant (U+3131 to U+314E).
pub open spec fn spec_is_cho(ch: char) -> bool {
    code_in(ch, 0x1100, 0x115E) || code_in(ch, 0xA960, 0xA97C) || code_in(ch, 0x3131, 0x314E)
}

/// A medial: a jamo-block medial (U+1161 to U+11A7, U+D7B0 to U+D7C6) or a
/// compatibility vowel (U+314F to U+3163).
pub open spec fn spec_is_jung(ch: char) -> bool {
    code_in(ch, 0x1161, 0x11A7) || code_in(ch, 0xD7B0, 0xD7C6) || code_in(ch, 0x314F, 0x3163)
}

/// A jamo-block final (U+11A8 to U+11FF, U+D7CB to U+D7FB).
pub open spec fn spec_is_jong_block(ch: char) -> bool {
    code_in(ch, 0x11A8, 0x11FF) || code_in(ch, 0xD7CB, 0xD7FB)
}

/// A compatibility consonant (U+3131 to U+314E).
pub open spec fn spec_is_compat_consonant(ch: char) -> bool {
    code_in(ch, 0x3131, 0x314E)
}

pub fn is_hangul_syllable(ch: char) -> (r: bool)
    ensures
        r == spec_is_hangul_syllable(ch),
{
    let cp = ch as u32;
    0xAC00 <= cp && cp <= 0xD7A3
}

pub fn is_cho(ch: char) -> (r: bool)
    ensures
        r == spec_is_cho(ch),
{
    let cp = ch as u32;
    (0x1100 <= cp && cp <= 0x115E) || (0xA960 <= cp && cp <= 0xA97C) || (0x3131 <= cp && cp <= 0x314E)
}

pub fn is_jung(ch: char) -> (r: bool)
    ensures
        r == spec_is_jung(ch),
{
    let cp = ch as u32;
    (0x1161 <= cp && cp <= 0x11A7) || (0xD7B0 <= cp && cp <= 0xD7C6) || (0x314F <= cp && cp <= 0x3163)
}

pub fn is_jong_block(ch: char) -> (r: bool)
    ensures
        r == spec_is_jong_block(ch),
{
    let cp = ch as u32;
    (0x11A8 <= cp && cp <= 0x11FF) || (0xD7CB <= cp && cp <= 0xD7FB)
}

pub fn is_compat_consonant(ch: char) -> (r: bool)
    ensures
        r == spec_is_compat_consonant(ch),
{
    let cp = ch as u32;
    0x3131 <= cp && cp <= 0x314E
}

/// A modern jamo-block jamo (its code `base + i` within `count` codes) as the modern
/// compatibility jamo at index `i` of `table`; any other character unchanged.
pub open spec fn spec_normalize(ch: char, base: int, table: Seq<char>) -> char {
    let code = ch as u32 as int;
    if base <= code < base + table.len() {
        table[code - base]
    } else {
        ch
    }
}

/// A modern jamo-block initial (U+1100 to U+1112) as its compatibility jamo.
pub fn normalize_cho(ch: char) -> (r: char)
    ensures
        r == spec_normalize(ch, 0x1100, cho_table()),
{
    let cp = ch as u32;
    if 0x1100 <= cp && cp <= 0x1112 {
        let t = allowed_chars_for_target(HangulComponent::Cho);
        t[(cp - 0x1100) as usize]
    } else {
        ch
    }
}

/// A modern jamo-block medial (U+1161 to U+1175) as its compatibility jamo.
pub fn normalize_jung(ch: char) -> (r: char)
    ensures
        r == spec_normalize(ch, 0x1161, jung_table()),
{
    let cp = ch as u32;
    if 0x1161 <= cp && cp <= 0x1175 {
        let t = allowed_chars_for_target(HangulComponent::Jung);
        t[(cp - 0x1161) as usize]
    } else {
        ch
    }
}

/// A modern jamo-block final (U+11A8 to U+11C2) as its compatibility jamo.
pub fn normalize_jong(ch: char) -> (r: char)
    ensures
        r == spec_normalize(ch, 0x11A8, jong_table().skip(1)),
{
    let cp = ch as u32;
    if 0x11A8 <= cp && cp <= 0x11C2 {
        let t = allowed_chars_for_target(HangulComponent::Jong);
        t[(cp - 0x11A8) as usize]
    } else {
        ch
    }
}

/// A compatibility jamo of the component's modern table as the jamo-block jamo at the
/// same index from `base`; any other character unchanged.
pub open spec fn spec_to_block(ch: char, kind: HangulComponent, base: int) -> char {
    match first_index(allowed_table(kind), |c: char| c == ch) {
        Some(i) => char_of(base + i),
        None => ch,
    }
}

fn to_block_jamo(ch: char, kind: HangulComponent, base: u32) -> (r: char)
    requires
        base == 0x1100 || base == 0x1161 || base == 0x11A8,
    ensures
        r == spec_to_block(ch, kind, base as int),
{
    let t = allowed_chars_for_target(kind);
    let ghost f = |c: char| c == ch;
    proof {
        lemma_first_index_props(t@, f);
        assert(cho_table().len() == 19 && jung_table().len() == 21 && jong_table().len() == 28);
    }
    let mut i: usize = 0;
    while i < t.len()
        invariant
            t@ == allowed_table(kind),
            t@.len() <= 27,
            base == 0x1100 || base == 0x1161 || base == 0x11A8,
            i <= t@.len(),
            f == (|c: char| c == ch),
            forall|j: int| 0 <= j < i ==> t@[j] != ch,
        decreases t@.len() - i,
    {
        if t[i] == ch {
            proof {
                lemma_first_index_is(t@, f, i as int);
            }
            let code = base + i as u32;
            assert(crate::hangul::is_scalar_value(code as int));
            match char_from_u32(code) {
                Some(c) => {
                    return c;
                },
                None => {
                    return ch;
                },
            }
        }
        i = i + 1;
    }
    proof {
        crate::seqs::lemma_first_index_none(t@, f);
    }
    ch
}

/// A modern compatibility initial as its jamo-block initial (from U+1100).
pub fn to_initial_jamo(ch: char) -> (r: char)
    ensures
        r == spec_to_block(ch, HangulComponent::Cho, 0x1100),
{
    to_block_jamo(ch, HangulComponent::Cho, 0x1100)
}

/// A modern compatibility medial as its jamo-block medial (from U+1161).
pub fn to_medial_jamo(ch: char) -> (r: char)
    ensures
        r == spec_to_block(ch, HangulComponent::Jung, 0x1161),
{
    to_block_jamo(ch, HangulComponent::Jung, 0x1161)
}

/// A modern compatibility final as its jamo-block final (from U+11A8).
pub fn to_final_jamo(ch: char) -> (r: char)
    ensures
        r == spec_to_block(ch, HangulComponent::Jong, 0x11A8),
{
    to_block_jamo(ch, HangulComponent::Jong, 0x11A8)
}

} // verus!

verus! {

/// The step of shadow direction `i`, clockwise from up.
pub open spec fn shadow_dir(i: int) -> (int, int) {
    if i == 0 {
        (0, -1)
    } else if i == 1 {
        (1, -1)
    } else if i == 2 {
        (1, 0)
    } else if i == 3 {
        (1, 1)
    } else if i == 4 {
        (0, 1)
    } else if i == 5 {
        (-1, 1)
    } else if i == 6 {
        (-1, 0)
    } else {
        (-1, -1)
    }
}

/// The offsets `1..=px` steps away in direction `i`.
pub open spec fn shadow_ray(i: int, px: int) -> Seq<(i32, i32)> {
    Seq::new(px as nat, |s: int| ((shadow_dir(i).0 * (s + 1)) as i32, (shadow_dir(i).1 * (s + 1)) as i32))
}

/// The shadow offsets of the first `k` directions, each enabled one in turn.
pub open spec fn shadow_rays(px: int, dirs: Seq<bool>, k: int) -> Seq<(i32, i32)>
    decreases k,
{
    if k <= 0 {
        Seq::empty()
    } else {
        shadow_rays(px, dirs, k - 1) + if dirs[k - 1] {
            shadow_ray(k - 1, px)
        } else {
            Seq::empty()
        }
    }
}

/// The pixel offsets of a text shadow `px` pixels deep in each enabled direction (up,
/// up-right, right, ... clockwise), direction by direction; none when `px` is not
/// positive.
pub fn shadow_offsets(px: i32, dirs: &[bool; 8]) -> (r: Vec<(i32, i32)>)
    ensures
        r@ == if px <= 0 {
            Seq::empty()
        } else {
            shadow_rays(px as int, dirs@, 8)
        },
{
    let mut out: Vec<(i32, i32)> = Vec::new();
    if px <= 0 {
        return out;
    }
    let dxs: [i32; 8] = [0, 1, 1, 1, 0, -1, -1, -1];
    let dys: [i32; 8] = [-1, -1, 0, 1, 1, 1, 0, -1];
    let mut i: usize = 0;
    while i < 8
        invariant
            0 < px,
            i <= 8,
            dxs@ == seq![0i32, 1i32, 1i32, 1i32, 0i32, -1i32, -1i32, -1i32],
            dys@ == seq![-1i32, -1i32, 0i32, 1i32, 1i32, 1i32, 0i32, -1i32],
            dirs@.len() == 8,
            out@ == shadow_rays(px as int, dirs@, i as int),
        decreases 8 - i,
    {
        let dx = dxs[i];
        let dy = dys[i];
        assert(dx == shadow_dir(i as int).0 && dy == shadow_dir(i as int).1);
        let ghost base = out@;
        if dirs[i] {
            let mut k: i64 = 1;
            while k <= px as i64
                invariant
                    1 <= k,
                    k <= px + 1,
                    0 < px <= i32::MAX,
                    -1 <= dx <= 1,
                    -1 <= dy <= 1,
                    dx == shadow_dir(i as int).0,
                    dy == shadow_dir(i as int).1,
                    out@ == base + shadow_ray(i as int, px as int).take(k - 1),
                decreases px + 1 - k,
            {
                let step = k as i32;
                let x: i32 = if dx == 1 {
                    step
                } else if dx == -1 {
                    -step
                } else {
                    0
                };
                let y: i32 = if dy == 1 {
                    step
                } else if dy == -1 {
                    -step
                } else {
                    0
                };
                assert(x == dx * step && y == dy * step) by (nonlinear_arith)
                    requires
                        -1 <= dx <= 1,
                        -1 <= dy <= 1,
                        x == (if dx == 1 { step as int } else if dx == -1 { -step } else { 0 }),
                        y == (if dy == 1 { step as int } else if dy == -1 { -step } else { 0 }),
                ;
                out.push((x, y));
                assert(shadow_ray(i as int, px as int).take(k as int) =~= shadow_ray(i as int, px as int).take(
                    k - 1,
                ).push((x, y)));
                k = k + 1;
            }
            assert(shadow_ray(i as int, px as int).take(px as int) =~= shadow_ray(i as int, px as int));
        } else {
            assert(out@ =~= base + Seq::empty());
        }
        i = i + 1;
    }
    out
}

} // verus!

verus! {

/// One piece of typed text, as the type test draws it.
#[derive(Clone, Copy, PartialEq, Eq, Debug, Structural)]
pub enum TypeToken {
    /// A line break.
    LineBreak,
    /// A space.
    Space,
    /// A precomposed syllable.
    Syllable(char),
    /// A jamo sequence (initial, medial, optional final), each normalized to its modern
    /// compatibility jamo where it has one.
    Jamo(char, char, Option<char>),
    /// Any other character.
    Other(char),
}

/// Whether the character after an initial and a medial at `i` closes the syllable as its
/// final: a jamo-block final, or a compatibility consonant that no medial follows.
pub open spec fn final_at(cs: Seq<char>, i: int) -> bool {
    i < cs.len() && (spec_is_jong_block(cs[i]) || (spec_is_compat_consonant(cs[i]) && !(i + 1 < cs.len()
        && spec_is_jung(cs[i + 1]))))
}

/// The piece of the text that starts at position `i` (which lies in it), with the
/// number of characters it takes.
pub open spec fn token_at(cs: Seq<char>, i: int) -> (TypeToken, int) {
    let c = cs[i];
    if c == '\n' {
        (TypeToken::LineBreak, 1)
    } else if c == ' ' {
        (TypeToken::Space, 1)
    } else if spec_is_hangul_syllable(c) {
        (TypeToken::Syllable(c), 1)
    } else if spec_is_cho(c) && i + 1 < cs.len() && spec_is_jung(cs[i + 1]) {
        if final_at(cs, i + 2) {
            (
                TypeToken::Jamo(
                    spec_normalize(c, 0x1100, cho_table()),
                    spec_normalize(cs[i + 1], 0x1161, jung_table()),
                    Some(spec_normalize(cs[i + 2], 0x11A8, jong_table().skip(1))),
                ),
                3,
            )
        } else {
            (
                TypeToken::Jamo(
                    spec_normalize(c, 0x1100, cho_table()),
                    spec_normalize(cs[i + 1], 0x1161, jung_table()),
                    None,
                ),
                2,
            )
        }
    } else {
        (TypeToken::Other(c), 1)
    }
}

/// The pieces of the text from position `i` on.
pub open spec fn tokens_from(cs: Seq<char>, i: int) -> Seq<TypeToken>
    decreases cs.len() - i,
{
    if i < 0 || i >= cs.len() {
        Seq::empty()
    } else {
        seq![token_at(cs, i).0] + tokens_from(cs, i + token_at(cs, i).1)
    }
}

pub fn chars_of(s: &str) -> (r: Vec<char>)
    ensures
        r@ == s@,
{
    let mut out: Vec<char> = Vec::new();
    let mut it = s.chars();
    let ghost mut k: int = 0;
    loop
        invariant
            0 <= k <= s@.len(),
            it.remaining() == s@.skip(k),
            out@ == s@.take(k),
        ensures
            out@ == s@,
        decreases s@.len() - k,
    {
        match it.next() {
            None => {
                assert(s@.take(k) =~= s@);
                break;
            },
            Some(ch) => {
                out.push(ch);
                proof {
                    assert(s@.take(k + 1) =~= s@.take(k).push(ch));
                    k = k + 1;
                }
            },
        }
    }
    out
}

/// Splits typed text into what the type test draws: line breaks, spaces, syllables,
/// jamo sequences (an initial and a medial, with a final when one closes the syllable),
/// and other characters.
pub fn type_test_tokens(text: &str) -> (r: Vec<TypeToken>)
    ensures
        r@ == tokens_from(text@, 0),
{
    let cs = chars_of(text);
    let mut out: Vec<TypeToken> = Vec::new();
    let mut i: usize = 0;
    while i < cs.len()
        invariant
            cs@ == text@,
            i <= cs@.len(),
            tokens_from(cs@, 0) == out@ + tokens_from(cs@, i as int),
        decreases cs@.len() - i,
    {
        let c = cs[i];
        let ghost i0 = i as int;
        let (tok, used): (TypeToken, usize) = if c == '\n' {
            (TypeToken::LineBreak, 1)
        } else if c == ' ' {
            (TypeToken::Space, 1)
        } else if is_hangul_syllable(c) {
            (TypeToken::Syllable(c), 1)
        } else if is_cho(c) && i + 1 < cs.len() && is_jung(cs[i + 1]) {
            let has_final = i + 2 < cs.len() && (is_jong_block(cs[i + 2]) || (is_compat_consonant(cs[i + 2]) && !(i
                + 3 < cs.len() && is_jung(cs[i + 3]))));
            assert(has_final == final_at(cs@, i + 2));
            let jong = if has_final {
                Some(normalize_jong(cs[i + 2]))
            } else {
                None
            };
            let t = TypeToken::Jamo(normalize_cho(c), normalize_jung(cs[i + 1]), jong);
            let k: usize = if has_final {
                3
            } else {
                2
            };
            (t, k)
        } else {
            (TypeToken::Other(c), 1)
        };
        assert(token_at(cs@, i0) == (tok, used as int));
        let ghost before = out@;
        out.push(tok);
        i = i + used;
        assert(tokens_from(cs@, 0) =~= out@ + tokens_from(cs@, i as int));
    }
    out
}

} // verus!

verus! {

/// The text without its leading white space.
pub open spec fn trim_start(s: Seq<char>) -> Seq<char>
    decreases s.len(),
{
    if s.len() > 0 && is_ws(s[0]) {
        trim_start(s.skip(1))
    } else {
        s
    }
}

/// The text without its trailing white space.
pub open spec fn trim_end(s: Seq<char>) -> Seq<char>
    decreases s.len(),
{
    if s.len() > 0 && is_ws(s.last()) {
        trim_end(s.drop_last())
    } else {
        s
    }
}

/// The text without white space at either end (`str::trim`).
pub open spec fn trimmed(s: Seq<char>) -> Seq<char> {
    trim_end(trim_start(s))
}

/// The text with white space cut from both ends.
pub fn trim_chars(s: &str) -> (r: Vec<char>)
    ensures
        r@ == trimmed(s@),
{
    let cs = chars_of(s);
    let mut a: usize = 0;
    assert(cs@.skip(0) =~= cs@);
    while a < cs.len() && is_whitespace(cs[a])
        invariant
            a <= cs@.len(),
            trim_start(cs@) == trim_start(cs@.skip(a as int)),
        decreases cs@.len() - a,
    {
        assert(cs@.skip(a as int).skip(1) =~= cs@.skip(a + 1));
        a = a + 1;
    }
    let mut b: usize = cs.len();
    let ghost t = cs@.skip(a as int);
    assert(trim_start(cs@) == t);
    while b > a && is_whitespace(cs[b - 1])
        invariant
            a <= b <= cs@.len(),
            t == cs@.skip(a as int),
            trim_end(t) == trim_end(cs@.subrange(a as int, b as int)),
        decreases b,
    {
        assert(cs@.subrange(a as int, b as int).drop_last() =~= cs@.subrange(a as int, b - 1));
        b = b - 1;
    }
    let mut out: Vec<char> = Vec::new();
    let mut k: usize = a;
    while k < b
        invariant
            a <= k <= b <= cs@.len(),
            out@ == cs@.subrange(a as int, k as int),
        decreases b - k,
    {
        out.push(cs[k]);
        assert(cs@.subrange(a as int, k + 1) =~= cs@.subrange(a as int, k as int).push(cs@[k as int]));
        k = k + 1;
    }
    assert(t =~= cs@.subrange(a as int, cs@.len() as int));
    out
}

/// `str::to_uppercase`: the text in upper case by the Unicode case tables.
pub uninterp spec fn uppercase(s: Seq<char>) -> Seq<char>;

/// `str::to_uppercase`.
#[verifier::external_body]
fn to_uppercase(s: &str) -> (r: String)
    ensures
        r@ == uppercase(s@),
{
    s.to_uppercase()
}

/// An ASCII hexadecimal digit.
pub open spec fn is_hex_digit(c: char) -> bool {
    hex_digit_value(c) >= 0
}

/// The query without a leading `U+`.
pub open spec fn query_digits(u: Seq<char>) -> Seq<char> {
    if u.len() >= 2 && u[0] == 'U' && u[1] == '+' {
        u.skip(2)
    } else {
        u
    }
}

/// Every character is an ASCII hexadecimal digit.
pub open spec fn all_hex(h: Seq<char>) -> bool {
    forall|i: int| 0 <= i < h.len() ==> is_hex_digit(#[trigger] h[i])
}

/// The code that an upper-cased query gives: after an optional `U+`, two to six
/// hexadecimal digits naming a modern syllable.
pub open spec fn hex_query(u: Seq<char>) -> Option<char> {
    let h = query_digits(u);
    if 2 <= h.len() <= 6 && all_hex(h) && 0xAC00 <= hex_value(h) <= 0xD7A3 {
        Some(char_of(hex_value(h)))
    } else {
        None
    }
}

/// The syllable an upper-cased query names by its code (`AC00`, `U+AC00`), if any.
pub fn hangul_from_hex_query(upper: &str) -> (r: Option<char>)
    ensures
        r == hex_query(upper@),
{
    let u = chars_of(upper);
    let start: usize = if u.len() >= 2 && u[0] == 'U' && u[1] == '+' {
        2
    } else {
        0
    };
    let ghost h = u@.skip(start as int);
    assert(h == query_digits(upper@));
    let n = u.len() - start;
    if n < 2 || n > 6 {
        return None;
    }
    let mut v: u32 = 0;
    let mut i: usize = start;
    while i < u.len()
        invariant
            u@ == upper@,
            h == u@.skip(start as int),
            h == query_digits(upper@),
            start <= i <= u@.len(),
            u@.len() - start <= 6,
            v == hex_value(h.take(i - start)),
            v < pow16(i - start),
            forall|k: int| 0 <= k < i - start ==> is_hex_digit(#[trigger] h[k]),
        decreases u@.len() - i,
    {
        let c = u[i];
        let d: u32 = if '0' <= c && c <= '9' {
            (c as u32) - ('0' as u32)
        } else if 'a' <= c && c <= 'f' {
            (c as u32) - ('a' as u32) + 10
        } else if 'A' <= c && c <= 'F' {
            (c as u32) - ('A' as u32) + 10
        } else {
            assert(h[i - start] == c);
            assert(!is_hex_digit(h[i - start]));
            assert(0 <= i - start < h.len());
            assert(!all_hex(h));
            assert(hex_query(upper@) is None);
            return None;
        };
        proof {
            assert(h.take(i - start + 1).drop_last() =~= h.take(i - start));
            assert(h.take(i - start + 1).last() == c);
            assert(d == hex_digit_value(c));
            lemma_pow16_step((i - start) as int, v as int, d as int);
        }
        v = v * 16 + d;
        i = i + 1;
    }
    assert(h.take(h.len() as int) =~= h);
    assert(hex_value(h) == v);
    assert(all_hex(h));
    if 0xAC00 <= v && v <= 0xD7A3 {
        char_from_u32(v)
    } else {
        None
    }
}

/// `16` to the power `n`.
pub open spec fn pow16(n: int) -> int
    decreases n,
{
    if n <= 0 {
        1
    } else {
        16 * pow16(n - 1)
    }
}

proof fn lemma_pow16_step(n: int, v: int, d: int)
    requires
        0 <= n < 6,
        0 <= v < pow16(n),
        0 <= d < 16,
    ensures
        0 <= v * 16 + d < pow16(n + 1),
        pow16(n + 1) <= 0x100_0000,
{
    reveal_with_fuel(pow16, 7);
    let p = pow16(n);
    let q = pow16(n + 1);
    assert(q == 16 * p);
    assert(v * 16 + d < q) by (nonlinear_arith)
        requires
            0 <= v < p,
            0 <= d < 16,
            q == 16 * p,
    ;
}

/// What a search query names: the syllable itself when the trimmed query is one modern
/// syllable, else the syllable whose code the upper-cased query gives (see `hex_query`).
pub open spec fn query_char(q: Seq<char>) -> Option<char> {
    let s = trimmed(q);
    if s.len() == 0 {
        None
    } else if s.len() == 1 && spec_is_hangul_syllable(s[0]) {
        Some(s[0])
    } else {
        hex_query(uppercase(s))
    }
}

/// The syllable a search query names: a syllable typed as itself, or its code in
/// hexadecimal with or without `U+`, in either case; white space around it is ignored.
pub fn parse_hangul_query_to_char(q: &str) -> (r: Option<char>)
    ensures
        r == query_char(q@),
{
    let s = trim_chars(q);
    if s.len() == 0 {
        return None;
    }
    if s.len() == 1 && is_hangul_syllable(s[0]) {
        return Some(s[0]);
    }
    let mut text = String::new();
    let mut i: usize = 0;
    while i < s.len()
        invariant
            i <= s@.len(),
            text@ == s@.take(i as int),
        decreases s@.len() - i,
    {
        string_push(&mut text, s[i]);
        assert(s@.take(i + 1) =~= s@.take(i as int).push(s@[i as int]));
        i = i + 1;
    }
    assert(s@.take(s@.len() as int) =~= s@);
    let upper = to_uppercase(text.as_str());
    hangul_from_hex_query(upper.as_str())
}

} // verus!
