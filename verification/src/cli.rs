use vstd::prelude::*;

use crate::export::CharScope;
use crate::file_format::{parse_hex, parse_hex_token};
use crate::typing::chars_of;

verus! {

/// How the characters are exported.
#[derive(Clone, Copy, PartialEq, Eq, Debug, Structural)]
pub enum ExportMode {
    /// All characters on one sprite sheet.
    Sheet,
    /// One PNG file per character.
    Individual,
}

/// Which characters are exported.
#[derive(Clone, Copy, PartialEq, Eq, Debug, Structural)]
pub enum ExportTarget {
    /// All 11,172 modern syllables.
    All,
    /// Only the characters given on the command line.
    Custom,
}

impl Default for ExportTarget {
    fn default() -> (r: Self)
        ensures
            r == ExportTarget::All,
    {
        ExportTarget::All
    }
}

/// The mode's name as the progress messages show it.
pub fn format_mode(mode: ExportMode) -> (r: &'static str)
    ensures
        r@ == (match mode {
            ExportMode::Sheet => "시트"@,
            ExportMode::Individual => "개별"@,
        }),
{
    match mode {
        ExportMode::Sheet => "시트",
        ExportMode::Individual => "개별",
    }
}

/// The export scope and its text for the options: characters given with `--chars` are
/// exported whatever the target; otherwise the target's scope with no text, except that
/// the custom target needs characters (`None`).
pub fn export_scope(target: ExportTarget, chars: Option<String>) -> (r: Option<(CharScope, String)>)
    ensures
        chars matches Some(t) ==> r == Some((CharScope::Custom, t)),
        chars is None ==> match target {
            ExportTarget::Custom => r is None,
            ExportTarget::All => r matches Some(p) && p.1@ == Seq::<char>::empty() && p.0 == CharScope::All,
        },
{
    match chars {
        Some(text) => Some((CharScope::Custom, text)),
        None => match target {
            ExportTarget::All => Some((CharScope::All, String::new())),
            ExportTarget::Custom => None,
        },
    }
}

/// The text without its leading `#` characters.
pub open spec fn strip_hashes(s: Seq<char>) -> Seq<char>
    decreases s.len(),
{
    if s.len() > 0 && s[0] == '#' {
        strip_hashes(s.skip(1))
    } else {
        s
    }
}

/// The colour value of `RRGGBB` text (after any `#`s): its hexadecimal value when it reads
/// as a `u32`, else white.
pub open spec fn color_value(s: Seq<char>) -> int {
    match parse_hex(strip_hashes(s)) {
        Some(v) => if v <= u32::MAX {
            v as int
        } else {
            0xFFFFFF
        },
        None => 0xFFFFFF,
    }
}

/// An opaque RGBA colour from `RRGGBB` hexadecimal text, with or without `#`; text that
/// does not read as a hexadecimal `u32` gives white.
pub fn parse_hex_color(hex: &str) -> (r: [u8; 4])
    ensures
        r@ == seq![
            (color_value(hex@) / 0x10000 % 0x100) as u8,
            (color_value(hex@) / 0x100 % 0x100) as u8,
            (color_value(hex@) % 0x100) as u8,
            255u8,
        ],
{
    let cs = chars_of(hex);
    let mut a: usize = 0;
    assert(cs@.skip(0) =~= cs@);
    while a < cs.len() && cs[a] == '#'
        invariant
            cs@ == hex@,
            a <= cs@.len(),
            strip_hashes(hex@) == strip_hashes(cs@.skip(a as int)),
        decreases cs@.len() - a,
    {
        assert(cs@.skip(a as int).skip(1) =~= cs@.skip(a + 1));
        a = a + 1;
    }
    let mut rest: Vec<char> = Vec::new();
    let mut k: usize = a;
    while k < cs.len()
        invariant
            a <= k <= cs@.len(),
            rest@ == cs@.subrange(a as int, k as int),
        decreases cs@.len() - k,
    {
        rest.push(cs[k]);
        assert(cs@.subrange(a as int, k + 1) =~= cs@.subrange(a as int, k as int).push(cs@[k as int]));
        k = k + 1;
    }
    assert(rest@ =~= cs@.skip(a as int));
    assert(strip_hashes(hex@) == rest@);
    let n: u32 = match parse_hex_token(&rest) {
        Some(v) => if v <= 0xFFFF_FFFF {
            v as u32
        } else {
            0xFF_FFFF
        },
        None => 0xFF_FFFF,
    };
    assert(n == color_value(hex@));
    let red = (n >> 16) & 0xFF;
    let green = (n >> 8) & 0xFF;
    let blue = n & 0xFF;
    proof {
        assert((n >> 16) & 0xFF == n / 0x10000 % 0x100) by (bit_vector);
        assert((n >> 8) & 0xFF == n / 0x100 % 0x100) by (bit_vector);
        assert(n & 0xFF == n % 0x100) by (bit_vector);
    }
    let r = [red as u8, green as u8, blue as u8, 255];
    assert(r@ =~= seq![(n / 0x10000 % 0x100) as u8, (n / 0x100 % 0x100) as u8, (n % 0x100) as u8, 255u8]);
    r
}

} // verus!
