use vstd::prelude::*;
use std::collections::BTreeSet;
use vstd::std_specs::iter::IteratorSpec;

use crate::order::{lemma_pixel_order_lawful, pixel_order_lawful};
use crate::text::{decimal_value, push_radix_padded, radix_digits, string_from, string_push, string_push_str, zero_pad};
use crate::types::{spec_kind, HangulComponent};

verus! {

/// Unicode white space (the `White_Space` property, as `char::is_whitespace` has it).
pub open spec fn is_ws(c: char) -> bool {
    let v = c as u32;
    (0x9 <= v <= 0xD) || v == 0x20 || v == 0x85 || v == 0xA0 || v == 0x1680 || (0x2000 <= v
        <= 0x200A) || v == 0x2028 || v == 0x2029 || v == 0x202F || v == 0x205F || v == 0x3000
}

pub fn is_whitespace(c: char) -> (r: bool)
    ensures
        r == is_ws(c),
{
    let v = c as u32;
    (0x9 <= v && v <= 0xD) || v == 0x20 || v == 0x85 || v == 0xA0 || v == 0x1680 || (0x2000 <= v
        && v <= 0x200A) || v == 0x2028 || v == 0x2029 || v == 0x202F || v == 0x205F || v == 0x3000
}

/// Splitting state after reading `s`: the finished tokens and the token being read.
pub open spec fn ws_scan(s: Seq<char>) -> (Seq<Seq<char>>, Seq<char>)
    decreases s.len(),
{
    if s.len() == 0 {
        (Seq::empty(), Seq::empty())
    } else {
        let prev = ws_scan(s.drop_last());
        let c = s.last();
        if is_ws(c) {
            if prev.1.len() > 0 {
                (prev.0.push(prev.1), Seq::empty())
            } else {
                prev
            }
        } else {
            (prev.0, prev.1.push(c))
        }
    }
}

/// The maximal runs of non-white-space characters of `s`, in order.
pub open spec fn ws_tokens(s: Seq<char>) -> Seq<Seq<char>> {
    let st = ws_scan(s);
    if st.1.len() > 0 {
        st.0.push(st.1)
    } else {
        st.0
    }
}

/// The tokens of `s` separated by white space.
pub fn split_whitespace(s: &str) -> (r: Vec<Vec<char>>)
    ensures
        r@.map_values(|t: Vec<char>| t@) == ws_tokens(s@),
{
    let mut done: Vec<Vec<char>> = Vec::new();
    let mut cur: Vec<char> = Vec::new();
    let mut it = s.chars();
    let ghost mut k: int = 0;
    loop
        invariant
            0 <= k <= s@.len(),
            it.remaining() == s@.skip(k),
            done@.map_values(|t: Vec<char>| t@) == ws_scan(s@.take(k)).0,
            cur@ == ws_scan(s@.take(k)).1,
        ensures
            done@.map_values(|t: Vec<char>| t@) == ws_scan(s@).0,
            cur@ == ws_scan(s@).1,
        decreases s@.len() - k,
    {
        let ghost before = done@.map_values(|t: Vec<char>| t@);
        match it.next() {
            None => {
                proof {
                    assert(s@.take(k) =~= s@);
                }
                break ;
            },
            Some(c) => {
                proof {
                    assert(s@.take(k + 1).drop_last() =~= s@.take(k));
                    assert(s@.take(k + 1).last() == c);
                }
                if is_whitespace(c) {
                    if cur.len() > 0 {
                        let mut fresh: Vec<char> = Vec::new();
                        std::mem::swap(&mut fresh, &mut cur);
                        let ghost t = fresh@;
                        done.push(fresh);
                        assert(done@.map_values(|t: Vec<char>| t@) =~= before.push(t));
                    }
                } else {
                    cur.push(c);
                }
                proof {
                    k = k + 1;
                }
            },
        }
    }
    if cur.len() > 0 {
        let ghost before = done@.map_values(|t: Vec<char>| t@);
        let ghost t = cur@;
        done.push(cur);
        assert(done@.map_values(|t: Vec<char>| t@) =~= before.push(t));
    }
    done
}

/// Is `c` an ASCII decimal digit?
pub open spec fn is_digit(c: char) -> bool {
    '0' <= c <= '9'
}

/// The text after an optional leading `+`.
pub open spec fn unsigned_digits(t: Seq<char>) -> Seq<char> {
    if t.len() > 0 && t[0] == '+' {
        t.skip(1)
    } else {
        t
    }
}

/// `u8`'s `FromStr`: an optional `+`, then one or more decimal digits whose value fits.
pub open spec fn parse_u8(t: Seq<char>) -> Option<u8> {
    let d = unsigned_digits(t);
    if d.len() > 0 && (forall|i: int| 0 <= i < d.len() ==> is_digit(#[trigger] d[i])) && decimal_value(d)
        <= 255 {
        Some(decimal_value(d) as u8)
    } else {
        None
    }
}

proof fn lemma_decimal_value_bounds(d: Seq<char>)
    requires
        forall|i: int| 0 <= i < d.len() ==> is_digit(#[trigger] d[i]),
    ensures
        decimal_value(d) >= 0,
        forall|j: int| 0 <= j <= d.len() ==> decimal_value(d) >= decimal_value(#[trigger] d.take(j)),
    decreases d.len(),
{
    if d.len() > 0 {
        let init = d.drop_last();
        lemma_decimal_value_bounds(init);
        assert forall|j: int| 0 <= j <= d.len() implies decimal_value(d) >= decimal_value(
            #[trigger] d.take(j),
        ) by {
            if j < d.len() {
                assert(init.take(j) =~= d.take(j));
            } else {
                assert(d.take(j) =~= d);
            }
        }
    }
}

fn parse_u8_str(t: &Vec<char>) -> (r: Option<u8>)
    ensures
        r == parse_u8(t@),
{
    let mut i: usize = 0;
    if t.len() > 0 && t[0] == '+' {
        i = 1;
    }
    let ghost d = unsigned_digits(t@);
    let start = i;
    assert(d =~= t@.skip(start as int));
    if i >= t.len() {
        assert(d.len() == 0);
        assert(parse_u8(t@) is None);
        return None;
    }
    let mut acc: u32 = 0;
    while i < t.len()
        invariant
            start == (if t@.len() > 0 && t@[0] == '+' {
                1usize
            } else {
                0usize
            }),
            d == t@.skip(start as int),
            d == unsigned_digits(t@),
            start <= i <= t@.len(),
            acc <= 255,
            acc == decimal_value(d.take(i - start)),
            forall|k: int| 0 <= k < i - start ==> is_digit(#[trigger] d[k]),
        decreases t@.len() - i,
    {
        let c = t[i];
        if !('0' <= c && c <= '9') {
            assert(d[i - start] == c);
            assert(!is_digit(d[i - start]));
            assert(parse_u8(t@) is None);
            return None;
        }
        let v = (c as u32) - ('0' as u32);
        proof {
            assert(d.take(i - start + 1).drop_last() =~= d.take(i - start));
            assert(d.take(i - start + 1).last() == c);
        }
        let next = acc * 10 + v;
        if next > 255 {
            proof {
                assert(d[i - start] == c);
                assert forall|k: int| 0 <= k < i - start + 1 implies is_digit(#[trigger] d[k]) by {}
                assert(decimal_value(d.take(i - start + 1)) == acc * 10 + v);
                if forall|k: int| 0 <= k < d.len() ==> is_digit(#[trigger] d[k]) {
                    lemma_decimal_value_bounds(d);
                    assert(decimal_value(d) >= decimal_value(d.take(i - start + 1)));
                }
                assert(parse_u8(t@) is None);
            }
            return None;
        }
        acc = next;
        i = i + 1;
    }
    proof {
        assert(d.take(i - start) =~= d);
    }
    Some(acc as u8)
}

/// The text form of a glyph key: `<kind number>/<jamo>/<group id>`.
pub open spec fn key_text(kind: HangulComponent, jamo: char, gid: Seq<char>) -> Seq<char> {
    seq![digit_of(spec_kind(kind))] + seq!['/', jamo, '/'] + gid
}

/// The decimal digit character for a value below ten.
pub open spec fn digit_of(d: u8) -> char {
    crate::text::digit_table(false)[d as int]
}

pub fn key_to_str(kind: HangulComponent, jamo: char, gid: &str) -> (r: String)
    ensures
        r@ == key_text(kind, jamo, gid@),
{
    let mut s = String::new();
    let c = match kind {
        HangulComponent::Cho => '0',
        HangulComponent::Jung => '1',
        HangulComponent::Jong => '2',
    };
    string_push(&mut s, c);
    string_push(&mut s, '/');
    string_push(&mut s, jamo);
    string_push(&mut s, '/');
    string_push_str(&mut s, gid);
    assert(s@ =~= key_text(kind, jamo, gid@));
    s
}

/// The position of the first `'/'` in `s`, if any.
pub open spec fn slash_pos(s: Seq<char>) -> Option<int> {
    crate::seqs::first_index(s, |c: char| c == '/')
}

/// Reading a glyph key back: the text up to the first `/` is the kind number (as
/// `u8` parses it), the text up to the next `/` starts with the jamo, and the rest is the
/// group id; `None` when a part is missing or does not fit.
pub open spec fn key_parse(s: Seq<char>) -> Option<(HangulComponent, char, Seq<char>)> {
    match slash_pos(s) {
        None => None,
        Some(i1) => {
            let rest = s.skip(i1 + 1);
            match slash_pos(rest) {
                None => None,
                Some(i2) => {
                    let jamo_str = rest.take(i2);
                    let gid = rest.skip(i2 + 1);
                    match parse_u8(s.take(i1)) {
                        Some(k) => if k <= 2 && jamo_str.len() > 0 {
                            Some(
                                (
                                    if k == 0 {
                                        HangulComponent::Cho
                                    } else if k == 1 {
                                        HangulComponent::Jung
                                    } else {
                                        HangulComponent::Jong
                                    },
                                    jamo_str[0],
                                    gid,
                                ),
                            )
                        } else {
                            None
                        },
                        None => None,
                    }
                },
            }
        },
    }
}

fn find_slash(s: &Vec<char>, from: usize) -> (r: Option<usize>)
    requires
        from <= s@.len(),
    ensures
        match slash_pos(s@.skip(from as int)) {
            Some(i) => r == Some((from + i) as usize),
            None => r is None,
        },
{
    let ghost t = s@.skip(from as int);
    let mut i = from;
    while i < s.len()
        invariant
            from <= i <= s@.len(),
            t == s@.skip(from as int),
            forall|k: int| 0 <= k < i - from ==> t[k] != '/',
        decreases s@.len() - i,
    {
        if s[i] == '/' {
            proof {
                let f = |c: char| c == '/';
                assert(t[i - from] == '/');
                assert(f(t[i - from]));
                assert forall|j: int| 0 <= j < i - from implies !f(t[j]) by {}
                crate::seqs::lemma_first_index_is(t, f, i - from);
            }
            return Some(i);
        }
        i = i + 1;
    }
    proof {
        let f = |c: char| c == '/';
        assert forall|j: int| 0 <= j < t.len() implies !f(t[j]) by {}
        crate::seqs::lemma_first_index_none(t, f);
    }
    None
}

fn chars_of(s: &str) -> (r: Vec<char>)
    ensures
        r@ == s@,
{
    let mut out: Vec<char> = Vec::new();
    let mut it = s.chars();
    let ghost mut k: int = 0;
    loop
        invariant
            0 <= k <= s@.len(),
            it.remaining() == s@.skip(k),
            out@ == s@.take(k),
        ensures
            out@ == s@,
        decreases s@.len() - k,
    {
        match it.next() {
            None => {
                assert(s@.take(k) =~= s@);
                break ;
            },
            Some(c) => {
                out.push(c);
                proof {
                    assert(s@.take(k + 1) =~= s@.take(k).push(c));
                    k = k + 1;
                }
            },
        }
    }
    out
}

fn string_of(v: &Vec<char>, lo: usize, hi: usize) -> (r: String)
    requires
        lo <= hi <= v@.len(),
    ensures
        r@ == v@.subrange(lo as int, hi as int),
{
    let mut s = String::new();
    let mut i = lo;
    while i < hi
        invariant
            lo <= i <= hi <= v@.len(),
            s@ == v@.subrange(lo as int, i as int),
        decreases hi - i,
    {
        string_push(&mut s, v[i]);
        assert(v@.subrange(lo as int, i + 1) =~= v@.subrange(lo as int, i as int).push(v@[i as int]));
        i = i + 1;
    }
    s
}

pub fn key_from_str(s: &str) -> (r: Option<(HangulComponent, char, String)>)
    ensures
        match key_parse(s@) {
            Some(k) => r matches Some(x) && x.0 == k.0 && x.1 == k.1 && x.2@ == k.2,
            None => r is None,
        },
{
    let v = chars_of(s);
    assert(v@.skip(0) =~= v@);
    let i1 = match find_slash(&v, 0) {
        Some(i) => i,
        None => {
            return None;
        },
    };
    proof {
        lemma_slash_props(v@);
        assert(i1 < v@.len());
    }
    let from = i1 + 1;
    let r2 = find_slash(&v, from);
    let ghost rest = v@.skip(from as int);
    proof {
        lemma_slash_props(rest);
    }
    let i2 = match r2 {
        Some(i) => i,
        None => {
            assert(key_parse(s@) is None);
            return None;
        },
    };
    proof {
        let j = slash_pos(rest)->0;
        assert(slash_pos(rest) == Some(j));
        assert(0 <= j < rest.len());
        assert(i2 == from + j);
        assert(i1 + 1 <= i2 < v@.len());
        assert(rest.take(j) =~= v@.subrange(i1 + 1, i2 as int));
        assert(rest.skip(j + 1) =~= v@.subrange(i2 + 1, v@.len() as int));
    }
    let mut head: Vec<char> = Vec::new();
    let mut k: usize = 0;
    while k < i1
        invariant
            k <= i1 < i2 < v@.len(),
            head@ == v@.take(k as int),
        decreases i1 - k,
    {
        head.push(v[k]);
        assert(v@.take(k + 1) =~= v@.take(k as int).push(v@[k as int]));
        k = k + 1;
    }
    let kind_u8 = match parse_u8_str(&head) {
        Some(x) => x,
        None => {
            return None;
        },
    };
    let kind = match HangulComponent::from_kind(kind_u8) {
        Some(k) => k,
        None => {
            return None;
        },
    };
    if i2 == i1 + 1 {
        return None;
    }
    let jamo = v[i1 + 1];
    let n = v.len();
    assert(i2 < n);
    let gid = string_of(&v, i2 + 1, n);
    Some((kind, jamo, gid))
}

/// What `slash_pos` tells about its result.
proof fn lemma_slash_props(s: Seq<char>)
    ensures
        slash_pos(s) matches Some(i) ==> 0 <= i < s.len() && s[i] == '/' && forall|j: int|
            0 <= j < i ==> s[j] != '/',
{
    crate::seqs::lemma_first_index_props(s, |c: char| c == '/');
}

} // verus!

verus! {

/// A glyph key written with `key_to_str` reads back with `key_from_str` as the same key,
/// unless its jamo is `/` itself.
pub proof fn lemma_key_text_roundtrip(kind: HangulComponent, jamo: char, gid: Seq<char>)
    requires
        jamo != '/',
    ensures
        key_parse(key_text(kind, jamo, gid)) == Some((kind, jamo, gid)),
{
    let s = key_text(kind, jamo, gid);
    let d = digit_of(spec_kind(kind));
    let f = |c: char| c == '/';
    let t = crate::text::digit_table(false);
    assert(t[0] == '0' && t[1] == '1' && t[2] == '2');
    assert(s[0] == d && s[1] == '/');
    assert(d != '/');
    crate::seqs::lemma_first_index_is(s, f, 1);
    let rest = s.skip(2);
    assert(rest[0] == jamo && rest[1] == '/');
    crate::seqs::lemma_first_index_is(rest, f, 1);
    assert(rest.take(1) =~= seq![jamo]);
    assert(rest.skip(2) =~= gid);
    let head = s.take(1);
    assert(head =~= seq![d]);
    assert(unsigned_digits(head) =~= head);
    assert(head.drop_last() =~= Seq::<char>::empty());
    assert(decimal_value(head) == decimal_value(head.drop_last()) * 10 + (head.last() as int - '0' as int));
}

} // verus!

verus! {

/// The value of a hexadecimal digit (either case), or -1 for any other character.
pub open spec fn hex_digit_value(c: char) -> int {
    if '0' <= c <= '9' {
        c as int - '0' as int
    } else if 'a' <= c <= 'f' {
        c as int - 'a' as int + 10
    } else if 'A' <= c <= 'F' {
        c as int - 'A' as int + 10
    } else {
        -1
    }
}

/// The number a string of hexadecimal digits stands for.
pub open spec fn hex_value(s: Seq<char>) -> int
    decreases s.len(),
{
    if s.len() == 0 {
        0
    } else {
        hex_value(s.drop_last()) * 16 + hex_digit_value(s.last())
    }
}

/// `u64::from_str_radix(t, 16)`: an optional `+`, then one or more hexadecimal digits
/// whose value fits.
pub open spec fn parse_hex(t: Seq<char>) -> Option<u64> {
    let d = unsigned_digits(t);
    if d.len() > 0 && (forall|i: int| 0 <= i < d.len() ==> hex_digit_value(#[trigger] d[i]) >= 0)
        && hex_value(d) <= u64::MAX {
        Some(hex_value(d) as u64)
    } else {
        None
    }
}

proof fn lemma_hex_value_monotone(d: Seq<char>)
    requires
        forall|i: int| 0 <= i < d.len() ==> hex_digit_value(#[trigger] d[i]) >= 0,
    ensures
        hex_value(d) >= 0,
        forall|j: int| 0 <= j <= d.len() ==> hex_value(d) >= hex_value(#[trigger] d.take(j)),
    decreases d.len(),
{
    if d.len() > 0 {
        let init = d.drop_last();
        lemma_hex_value_monotone(init);
        assert forall|j: int| 0 <= j <= d.len() implies hex_value(d) >= hex_value(#[trigger] d.take(j)) by {
            if j < d.len() {
                assert(init.take(j) =~= d.take(j));
            } else {
                assert(d.take(j) =~= d);
            }
        }
    }
}

fn hex_digit(c: char) -> (r: Option<u64>)
    ensures
        match r {
            Some(v) => v as int == hex_digit_value(c) && v < 16,
            None => hex_digit_value(c) < 0,
        },
{
    if '0' <= c && c <= '9' {
        Some((c as u32 - '0' as u32) as u64)
    } else if 'a' <= c && c <= 'f' {
        Some((c as u32 - 'a' as u32 + 10) as u64)
    } else if 'A' <= c && c <= 'F' {
        Some((c as u32 - 'A' as u32 + 10) as u64)
    } else {
        None
    }
}

pub fn parse_hex_token(t: &Vec<char>) -> (r: Option<u64>)
    ensures
        r == parse_hex(t@),
{
    let mut i: usize = 0;
    if t.len() > 0 && t[0] == '+' {
        i = 1;
    }
    let ghost d = unsigned_digits(t@);
    let start = i;
    assert(d =~= t@.skip(start as int));
    if i >= t.len() {
        assert(parse_hex(t@) is None);
        return None;
    }
    let mut acc: u64 = 0;
    while i < t.len()
        invariant
            d == t@.skip(start as int),
            d == unsigned_digits(t@),
            start <= i <= t@.len(),
            start <= 1,
            acc == hex_value(d.take(i - start)),
            forall|k: int| 0 <= k < i - start ==> hex_digit_value(#[trigger] d[k]) >= 0,
        decreases t@.len() - i,
    {
        let c = t[i];
        assert(d[i - start] == c);
        let v = match hex_digit(c) {
            Some(v) => v,
            None => {
                assert(parse_hex(t@) is None);
                return None;
            },
        };
        proof {
            assert(d.take(i - start + 1).drop_last() =~= d.take(i - start));
            assert(d.take(i - start + 1).last() == c);
            assert(hex_value(d.take(i - start + 1)) == acc * 16 + v);
        }
        if acc > (u64::MAX - v) / 16 {
            proof {
                assert(acc * 16 + v > u64::MAX) by (nonlinear_arith)
                    requires
                        acc > (u64::MAX - v) / 16,
                        v < 16,
                ;
                if forall|k: int| 0 <= k < d.len() ==> hex_digit_value(#[trigger] d[k]) >= 0 {
                    lemma_hex_value_monotone(d);
                    assert(hex_value(d) >= hex_value(d.take(i - start + 1)));
                }
                assert(parse_hex(t@) is None);
            }
            return None;
        }
        assert(acc * 16 + v <= u64::MAX) by (nonlinear_arith)
            requires
                acc <= (u64::MAX - v) / 16,
                v < 16,
        ;
        acc = acc * 16 + v;
        i = i + 1;
    }
    proof {
        assert(d.take(i - start) =~= d);
    }
    Some(acc)
}

/// Is bit `k` of `mask` set?
pub open spec fn bit_set(mask: u64, k: u64) -> bool {
    mask & (1u64 << k) != 0
}

/// Column `x` of a row of `bc` bits is lit: bit `bc - 1 - x` of the mask is set.
pub open spec fn col_lit(mask: u64, bc: int, x: int) -> bool {
    bit_set(mask, (bc - 1 - x) as u64)
}

/// The pixels one row token stands for: for a token of `n` characters that parses as
/// hexadecimal, column `x` (below `4 n`) is lit when bit `4 n - 1 - x` is set.
pub open spec fn token_pixels(t: Seq<char>, y: int) -> Set<(i32, i32)> {
    match parse_hex(t) {
        None => Set::empty(),
        Some(mask) => Set::new(
            |p: (i32, i32)|
                p.1 == y as i32 && 0 <= p.0 < 4 * t.len() && col_lit(mask, (4 * t.len()) as int, p.0 as int),
        ),
    }
}

/// The pixels of the row tokens, the token at index `y` being row `y`.
pub open spec fn rows_pixels(tokens: Seq<Seq<char>>) -> Set<(i32, i32)>
    decreases tokens.len(),
{
    if tokens.len() == 0 {
        Set::empty()
    } else {
        rows_pixels(tokens.drop_last()).union(token_pixels(tokens.last(), tokens.len() - 1))
    }
}

/// Every token that parses has at most 16 digits, so its bits fit a `u64` shift.
pub open spec fn rows_fit(tokens: Seq<Seq<char>>) -> bool {
    forall|i: int| 0 <= i < tokens.len() && (#[trigger] parse_hex(tokens[i])) is Some ==> tokens[i].len() <= 16
}

/// The pixel rows of a stored glyph read back from their text: whitespace-separated
/// hexadecimal tokens, one per row.
pub fn rows_to_pixels(s: &str) -> (r: BTreeSet<(i32, i32)>)
    requires
        rows_fit(ws_tokens(s@)),
    ensures
        r@ == rows_pixels(ws_tokens(s@)),
{
    proof {
        lemma_pixel_order_lawful();
    }
    let tokens = split_whitespace(s);
    let ghost ts = ws_tokens(s@);
    assert(tokens@.len() == ts.len());
    let mut set: BTreeSet<(i32, i32)> = BTreeSet::new();
    let mut y: usize = 0;
    while y < tokens.len()
        invariant
            pixel_order_lawful(),
            tokens@.map_values(|t: Vec<char>| t@) == ts,
            rows_fit(ts),
            y <= tokens@.len(),
            set@ == rows_pixels(ts.take(y as int)),
        decreases tokens@.len() - y,
    {
        let token = &tokens[y];
        assert(token@ == ts[y as int]);
        let ghost before = set@;
        let yi = y as i32;
        proof {
            assert(ts.take(y + 1).drop_last() =~= ts.take(y as int));
            assert(ts.take(y + 1).last() == ts[y as int]);
        }
        match parse_hex_token(token) {
            Some(mask) => {
                assert(token@.len() <= 16);
                let bit_count = token.len() * 4;
                let mut bit: usize = 0;
                while bit < bit_count
                    invariant
                        pixel_order_lawful(),
                        bit_count == 4 * token@.len(),
                        bit_count <= 64,
                        bit <= bit_count,
                        parse_hex(token@) == Some(mask),
                        yi == y as i32,
                        set@ == before.union(
                            token_pixels(token@, y as int).filter(|p: (i32, i32)| p.0 < bit),
                        ),
                    decreases bit_count - bit,
                {
                    let k = (bit_count - 1 - bit) as u64;
                    if mask & (1u64 << k) != 0 {
                        set.insert((bit as i32, yi));
                    }
                    proof {
                        let tp = token_pixels(token@, y as int);
                        assert(set@ =~= before.union(tp.filter(|p: (i32, i32)| p.0 < bit + 1)));
                    }
                    bit = bit + 1;
                }
                proof {
                    let tp = token_pixels(token@, y as int);
                    assert(tp.filter(|p: (i32, i32)| p.0 < bit) =~= tp);
                }
            },
            None => {
                assert(token_pixels(token@, y as int) =~= Set::empty());
                assert(set@ =~= before.union(token_pixels(token@, y as int)));
            },
        }
        y = y + 1;
    }
    proof {
        assert(ts.take(y as int) =~= ts);
    }
    set
}

} // verus!

verus! {

/// How many hexadecimal digits a row of a canvas `w` pixels wide takes.
pub open spec fn hex_width(w: i32) -> nat {
    if w <= 0 {
        0
    } else {
        ((w + 3) / 4) as nat
    }
}

/// The bit mask of row `y` over its first `n` columns: column `x` lit sets bit
/// `bc - 1 - x`.
pub open spec fn row_mask(p: Set<(i32, i32)>, y: i32, n: int, bc: int) -> u64
    decreases n,
{
    if n <= 0 {
        0
    } else {
        let m = row_mask(p, y, n - 1, bc);
        if p.contains(((n - 1) as i32, y)) {
            m | (1u64 << ((bc - 1 - (n - 1)) as u64))
        } else {
            m
        }
    }
}

/// Row `y` of a canvas `w` wide as zero-padded lower-case hexadecimal.
pub open spec fn row_text(p: Set<(i32, i32)>, y: i32, w: i32) -> Seq<char> {
    zero_pad(radix_digits(row_mask(p, y, w as int, (4 * hex_width(w)) as int) as nat, 16, false), hex_width(w))
}

/// The first `h` rows, separated by single spaces.
pub open spec fn rows_text(p: Set<(i32, i32)>, w: i32, h: int) -> Seq<char>
    decreases h,
{
    if h <= 0 {
        Seq::empty()
    } else if h == 1 {
        row_text(p, 0, w)
    } else {
        rows_text(p, w, h - 1) + seq![' '] + row_text(p, (h - 1) as i32, w)
    }
}

/// The text a glyph's pixels are stored as: one hexadecimal token per row of the canvas.
pub fn pixels_to_str(pixels: &BTreeSet<(i32, i32)>, canvas_w: i32, canvas_h: i32) -> (r: String)
    requires
        -6 <= canvas_w <= 64,
    ensures
        r@ == rows_text(pixels@, canvas_w, canvas_h as int),
{
    proof {
        lemma_pixel_order_lawful();
    }
    let hex_digits: usize = if canvas_w <= 0 {
        0
    } else {
        ((canvas_w + 3) / 4) as usize
    };
    let bit_count: i32 = (hex_digits * 4) as i32;
    let mut s = String::new();
    let mut y: i32 = 0;
    while y < canvas_h
        invariant
            pixel_order_lawful(),
            -6 <= canvas_w <= 64,
            hex_digits == hex_width(canvas_w),
            bit_count == 4 * hex_width(canvas_w),
            0 <= y,
            y <= canvas_h || canvas_h < 0,
            canvas_h < 0 ==> y == 0,
            s@ == rows_text(pixels@, canvas_w, y as int),
        decreases canvas_h - y,
    {
        let mut mask: u64 = 0;
        let mut x: i32 = 0;
        while x < canvas_w
            invariant
                pixel_order_lawful(),
                0 <= x,
                x <= canvas_w || canvas_w < 0,
                canvas_w < 0 ==> x == 0,
                canvas_w <= 64,
                bit_count == 4 * hex_width(canvas_w),
                mask == row_mask(pixels@, y, x as int, bit_count as int),
            decreases canvas_w - x,
        {
            if pixels.contains(&(x, y)) {
                mask = mask | (1u64 << ((bit_count - 1 - x) as u64));
            }
            x = x + 1;
        }
        if y > 0 {
            string_push(&mut s, ' ');
        }
        push_radix_padded(&mut s, mask, 16, false, hex_digits);
        proof {
            if canvas_w < 0 {
                assert(mask == row_mask(pixels@, y, canvas_w as int, bit_count as int));
            }
        }
        y = y + 1;
    }
    s
}

} // verus!

verus! {

proof fn lemma_or_bit(m: u64, a: u64, b: u64)
    requires
        a < 64,
        b < 64,
    ensures
        ((m | (1u64 << a)) & (1u64 << b) != 0) <==> ((m & (1u64 << b) != 0) || a == b),
{
    assert(((m | (1u64 << a)) & (1u64 << b) != 0) <==> ((m & (1u64 << b) != 0) || a == b))
        by (bit_vector)
        requires
            a < 64,
            b < 64,
    ;
}

proof fn lemma_or_below(m: u64, a: u64, bc: u64)
    requires
        a < bc < 64,
        m >> bc == 0,
    ensures
        (m | (1u64 << a)) >> bc == 0,
{
    assert((m | (1u64 << a)) >> bc == 0) by (bit_vector)
        requires
            a < bc < 64,
            m >> bc == 0,
    ;
}

proof fn lemma_zero_bits(b: u64)
    requires
        b < 64,
    ensures
        !bit_set(0, b),
{
    assert((0u64 & (1u64 << b)) == 0) by (bit_vector);
}

/// Bit `bc - 1 - x` of the row mask is set exactly when column `x` is among the first `n`
/// and lit; no bit at `bc` or above is set.
proof fn lemma_row_mask_bits(p: Set<(i32, i32)>, y: i32, n: int, bc: int)
    requires
        0 <= n <= bc <= 64,
    ensures
        forall|x: int|
            0 <= x < bc ==> (#[trigger] col_lit(row_mask(p, y, n, bc), bc, x) <==> (x < n
                && p.contains((x as i32, y)))),
        bc < 64 ==> row_mask(p, y, n, bc) >> (bc as u64) == 0,
    decreases n,
{
    if n == 0 {
        assert forall|x: int| 0 <= x < bc implies !#[trigger] col_lit(row_mask(p, y, n, bc), bc, x) by {
            lemma_zero_bits((bc - 1 - x) as u64);
        }
        if bc < 64 {
            let b = bc as u64;
            assert((0u64 >> b) == 0) by (bit_vector);
        }
    } else {
        lemma_row_mask_bits(p, y, n - 1, bc);
        let m = row_mask(p, y, n - 1, bc);
        let a = (bc - 1 - (n - 1)) as u64;
        if p.contains(((n - 1) as i32, y)) {
            assert forall|x: int| 0 <= x < bc implies (#[trigger] col_lit(row_mask(p, y, n, bc), bc, x) <==> (x
                < n && p.contains((x as i32, y)))) by {
                lemma_or_bit(m, a, (bc - 1 - x) as u64);
                assert(row_mask(p, y, n, bc) == m | (1u64 << a));
                assert(col_lit(m, bc, x) <==> (x < n - 1 && p.contains((x as i32, y))));
                assert((a == (bc - 1 - x) as u64) <==> x == n - 1);
            }
            if bc < 64 {
                lemma_or_below(m, a, bc as u64);
            }
        }
    }
}

} // verus!

verus! {

proof fn lemma_hex_digit(d: int)
    requires
        0 <= d < 16,
    ensures
        hex_digit_value(crate::text::digit_table(false)[d]) == d,
        !is_ws(crate::text::digit_table(false)[d]),
        crate::text::digit_table(false)[d] != '+',
{
    let t = crate::text::digit_table(false);
    assert(t[0] == '0' && t[1] == '1' && t[2] == '2' && t[3] == '3' && t[4] == '4');
    assert(t[5] == '5' && t[6] == '6' && t[7] == '7' && t[8] == '8' && t[9] == '9');
    assert(t[10] == 'a' && t[11] == 'b' && t[12] == 'c' && t[13] == 'd' && t[14] == 'e' && t[15] == 'f');
}

/// The hexadecimal digits of `m` read back give `m`; they are all hexadecimal digits.
proof fn lemma_hex_value_digits(m: nat)
    ensures
        hex_value(radix_digits(m, 16, false)) == m,
        radix_digits(m, 16, false).len() >= 1,
        forall|i: int|
            0 <= i < radix_digits(m, 16, false).len() ==> hex_digit_value(
                #[trigger] radix_digits(m, 16, false)[i],
            ) >= 0 && !is_ws(radix_digits(m, 16, false)[i]) && radix_digits(m, 16, false)[i] != '+',
    decreases m,
{
    let s = radix_digits(m, 16, false);
    if m < 16 {
        lemma_hex_digit(m as int);
        assert(s == seq![crate::text::digit_table(false)[m as int]]);
        assert(s.drop_last() =~= Seq::<char>::empty());
        assert(hex_value(s) == hex_value(s.drop_last()) * 16 + hex_digit_value(s.last()));
    } else {
        lemma_hex_value_digits(m / 16);
        lemma_hex_digit((m % 16) as int);
        let t = radix_digits(m / 16, 16, false);
        assert(s == t.push(crate::text::digit_table(false)[(m % 16) as int]));
        assert(s.drop_last() =~= t);
        assert(hex_value(s) == hex_value(t) * 16 + hex_digit_value(s.last()));
        assert(m == (m / 16) * 16 + m % 16);
        assert forall|i: int| 0 <= i < s.len() implies hex_digit_value(#[trigger] s[i]) >= 0 && !is_ws(s[i])
            && s[i] != '+' by {
            if i < t.len() {
                assert(s[i] == t[i]);
            }
        }
    }
}

/// Leading zeros do not change a hexadecimal value.
proof fn lemma_hex_value_zeros(k: nat, s: Seq<char>)
    ensures
        hex_value(Seq::new(k, |i: int| '0') + s) == hex_value(s),
    decreases s.len(), k,
{
    let z = Seq::new(k, |i: int| '0');
    if s.len() == 0 {
        assert(z + s =~= z);
        if k > 0 {
            lemma_hex_value_zeros((k - 1) as nat, s);
            assert(z.drop_last() =~= Seq::new((k - 1) as nat, |i: int| '0') + s);
        }
    } else {
        lemma_hex_value_zeros(k, s.drop_last());
        assert((z + s).drop_last() =~= z + s.drop_last());
    }
}

/// A value with no bit at `4 k` or above has at most `k` hexadecimal digits.
proof fn lemma_hex_len(m: u64, k: nat)
    requires
        1 <= k <= 16,
        k == 16 || m >> ((4 * k) as u64) == 0,
    ensures
        radix_digits(m as nat, 16, false).len() <= k,
    decreases k,
{
    if m >= 16 {
        let q = m >> 4u64;
        assert(m >> 4u64 == m / 16) by (bit_vector);
        if k == 1 {
            assert(m >> 4u64 == 0 ==> m < 16) by (bit_vector);
        } else {
            let b = (4 * k) as u64;
            if k == 16 {
                assert((m >> 4u64) >> 60u64 == 0) by (bit_vector);
            } else {
                assert((m >> b) == 0 && 8 <= b <= 60 ==> (m >> 4u64) >> ((b - 4) as u64) == 0) by (bit_vector);
            }
            lemma_hex_len(q, (k - 1) as nat);
            assert(radix_digits(m as nat, 16, false) == radix_digits((m / 16) as nat, 16, false).push(
                crate::text::digit_table(false)[(m % 16) as int],
            ));
        }
    }
}

} // verus!

verus! {

/// No white space in `t`.
pub open spec fn no_ws(t: Seq<char>) -> bool {
    forall|i: int| 0 <= i < t.len() ==> !is_ws(#[trigger] t[i])
}

proof fn lemma_scan_append_word(s: Seq<char>, t: Seq<char>)
    requires
        no_ws(t),
    ensures
        ws_scan(s + t) == (ws_scan(s).0, ws_scan(s).1 + t),
    decreases t.len(),
{
    if t.len() == 0 {
        assert(s + t =~= s);
        assert(ws_scan(s).1 + t =~= ws_scan(s).1);
    } else {
        let init = t.drop_last();
        lemma_scan_append_word(s, init);
        assert((s + t).drop_last() =~= s + init);
        assert((s + t).last() == t.last());
        assert(!is_ws(t[t.len() - 1]));
        assert((ws_scan(s).1 + init).push(t.last()) =~= ws_scan(s).1 + t);
    }
}

/// Facts about one row's text: it is a non-empty run of hexadecimal digits that parses
/// to the row mask, `hex_width(w)` characters long for a canvas at least one pixel wide.
proof fn lemma_row_text(p: Set<(i32, i32)>, y: i32, w: i32)
    requires
        0 <= w <= 64,
    ensures
        row_text(p, y, w).len() >= 1,
        no_ws(row_text(p, y, w)),
        w >= 1 ==> row_text(p, y, w).len() == hex_width(w),
        w == 0 ==> row_text(p, y, w).len() == 1,
        parse_hex(row_text(p, y, w)) == Some(row_mask(p, y, w as int, (4 * hex_width(w)) as int)),
{
    let hw = hex_width(w);
    let bc = (4 * hw) as int;
    let m = row_mask(p, y, w as int, bc);
    let ds = radix_digits(m as nat, 16, false);
    let t = row_text(p, y, w);
    lemma_hex_value_digits(m as nat);
    assert(w >= 1 ==> 1 <= hw <= 16 && w <= bc);
    if w == 0 {
        assert(m == 0);
        assert(ds == seq![crate::text::digit_table(false)[0]]);
        assert(t == ds);
    } else {
        lemma_row_mask_bits(p, y, w as int, bc);
        lemma_hex_len(m, hw);
    }
    let z = Seq::new((hw - ds.len()) as nat, |i: int| '0');
    if ds.len() < hw {
        assert(t == z + ds);
        lemma_hex_value_zeros((hw - ds.len()) as nat, ds);
        assert forall|i: int| 0 <= i < t.len() implies !is_ws(#[trigger] t[i]) && hex_digit_value(t[i]) >= 0 by {
            if i >= z.len() {
                assert(t[i] == ds[i - z.len()]);
            }
        }
    } else {
        assert(t == ds);
    }
    assert(t[0] != '+');
    assert(unsigned_digits(t) == t);
}

/// The tokens of the stored rows are the rows, in order.
proof fn lemma_rows_tokens(p: Set<(i32, i32)>, w: i32, h: int)
    requires
        0 <= w <= 64,
        1 <= h <= i32::MAX + 1,
    ensures
        ws_scan(rows_text(p, w, h)) == (
            Seq::new((h - 1) as nat, |y: int| row_text(p, y as i32, w)),
            row_text(p, (h - 1) as i32, w),
        ),
    decreases h,
{
    lemma_row_text(p, (h - 1) as i32, w);
    if h == 1 {
        lemma_scan_append_word(Seq::empty(), row_text(p, 0, w));
        assert(Seq::<char>::empty() + row_text(p, 0, w) =~= row_text(p, 0, w));
        assert(Seq::<char>::empty() + row_text(p, 0, w) =~= row_text(p, 0, w));
        assert(Seq::new(0, |y: int| row_text(p, y as i32, w)) =~= Seq::<Seq<char>>::empty());
        assert(ws_scan(Seq::<char>::empty()).1 + row_text(p, 0, w) =~= row_text(p, 0, w));
    } else {
        lemma_rows_tokens(p, w, h - 1);
        lemma_row_text(p, (h - 2) as i32, w);
        let prev = rows_text(p, w, h - 1);
        let sp = prev + seq![' '];
        assert(sp.drop_last() =~= prev);
        assert(is_ws(' '));
        assert(ws_scan(sp) == (
            Seq::new((h - 2) as nat, |y: int| row_text(p, y as i32, w)).push(row_text(p, (h - 2) as i32, w)),
            Seq::<char>::empty(),
        ));
        assert(Seq::new((h - 2) as nat, |y: int| row_text(p, y as i32, w)).push(row_text(p, (h - 2) as i32, w))
            =~= Seq::new((h - 1) as nat, |y: int| row_text(p, y as i32, w)));
        lemma_scan_append_word(sp, row_text(p, (h - 1) as i32, w));
        assert(Seq::<char>::empty() + row_text(p, (h - 1) as i32, w) =~= row_text(p, (h - 1) as i32, w));
    }
}

/// The pixels of row `y`'s token are the lit pixels of that row on the canvas.
proof fn lemma_row_token_pixels(p: Set<(i32, i32)>, y: i32, w: i32)
    requires
        0 <= w <= 64,
        0 <= y,
    ensures
        token_pixels(row_text(p, y, w), y as int) == p.filter(|q: (i32, i32)| 0 <= q.0 < w && q.1 == y),
{
    lemma_row_text(p, y, w);
    let t = row_text(p, y, w);
    let hw = hex_width(w);
    let bc = (4 * hw) as int;
    let m = row_mask(p, y, w as int, bc);
    let tp = token_pixels(t, y as int);
    let f = p.filter(|q: (i32, i32)| 0 <= q.0 < w && q.1 == y);
    if w == 0 {
        assert(m == 0);
        assert forall|q: (i32, i32)| !tp.contains(q) by {
            if 0 <= q.0 < 4 {
                lemma_zero_bits((4 - 1 - q.0) as u64);
            }
        }
        assert(tp =~= f);
    } else {
        lemma_row_mask_bits(p, y, w as int, bc);
        assert(bc == 4 * t.len());
        assert forall|q: (i32, i32)| tp.contains(q) <==> f.contains(q) by {
            if q.1 == y && 0 <= q.0 < bc {
                assert(col_lit(m, bc, q.0 as int) <==> (q.0 < w && p.contains((q.0 as i32, y))));
                assert((q.0 as i32, y) == q);
            }
        }
        assert(tp =~= f);
    }
}

/// Storing a glyph's pixels as row text and reading them back gives exactly its pixels
/// that lie on the canvas, and the text always reads back without overflow.
pub proof fn lemma_pixel_rows_roundtrip(p: Set<(i32, i32)>, w: i32, h: i32)
    requires
        0 <= w <= 64,
    ensures
        rows_fit(ws_tokens(rows_text(p, w, h as int))),
        rows_pixels(ws_tokens(rows_text(p, w, h as int))) == p.filter(
            |q: (i32, i32)| 0 <= q.0 < w && 0 <= q.1 < h,
        ),
    decreases h,
{
    let canvas = p.filter(|q: (i32, i32)| 0 <= q.0 < w && 0 <= q.1 < h);
    if h <= 0 {
        assert(ws_scan(Seq::<char>::empty()).1.len() == 0);
        assert(canvas =~= Set::empty());
    } else {
        lemma_rows_tokens(p, w, h as int);
        let toks = ws_tokens(rows_text(p, w, h as int));
        lemma_row_text(p, (h - 1) as i32, w);
        assert(toks =~= Seq::new(h as nat, |y: int| row_text(p, y as i32, w)));
        lemma_pixel_rows_roundtrip(p, w, (h - 1) as i32);
        let ptoks = ws_tokens(rows_text(p, w, (h - 1) as int));
        if h > 1 {
            lemma_rows_tokens(p, w, (h - 1) as int);
            lemma_row_text(p, (h - 2) as i32, w);
        } else {
            assert(ws_scan(Seq::<char>::empty()).1.len() == 0);
        }
        assert(ptoks =~= Seq::new((h - 1) as nat, |y: int| row_text(p, y as i32, w)));
        assert(toks.drop_last() =~= ptoks);
        lemma_row_token_pixels(p, (h - 1) as i32, w);
        assert(rows_pixels(toks) =~= canvas);
        assert forall|i: int| 0 <= i < toks.len() && (#[trigger] parse_hex(toks[i])) is Some implies toks[i].len()
            <= 16 by {
            lemma_row_text(p, i as i32, w);
            assert(toks[i] == row_text(p, i as i32, w));
        }
    }
}

} // verus!

verus! {

/// Does the row text read back without overflow (see `rows_fit`)?
pub fn rows_fit_text(s: &str) -> (r: bool)
    ensures
        r == rows_fit(ws_tokens(s@)),
{
    let tokens = split_whitespace(s);
    let ghost ts = ws_tokens(s@);
    let mut i: usize = 0;
    while i < tokens.len()
        invariant
            ts == ws_tokens(s@),
            tokens@.map_values(|t: Vec<char>| t@) == ts,
            i <= tokens@.len(),
            forall|k: int| 0 <= k < i && (#[trigger] parse_hex(ts[k])) is Some ==> ts[k].len() <= 16,
        decreases tokens@.len() - i,
    {
        assert(tokens@[i as int]@ == ts[i as int]);
        if parse_hex_token(&tokens[i]).is_some() && tokens[i].len() > 16 {
            proof {
                let k = i as int;
                assert(tokens@.map_values(|t: Vec<char>| t@)[k] == ts[k]);
                assert(parse_hex(ts[k]) is Some && ts[k].len() > 16);
                assert(!rows_fit(ts));
            }
            return false;
        }
        i = i + 1;
    }
    true
}

} // verus!
