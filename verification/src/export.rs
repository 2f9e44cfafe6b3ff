use vstd::prelude::*;

use vstd::std_specs::iter::IteratorSpec;

use crate::glyph::KeyView;
use crate::hangul::{all_hangul_syllables, decompose_hangul, get_jamo_char};
use crate::project::{lemma_syllable_result, syllable_layout};
use crate::render::{compose_pixels, coords, layout_pixels, RenderContext};
use crate::rule_system::RuleSystem;
use crate::text::{push_radix_padded, radix_digits, string_push, zero_pad};

verus! {

/// An RGBA image, eight bits a channel, held by the image crate.
#[verifier::external_body]
pub struct RgbaImage {
    img: image::RgbaImage,
}

/// What an RGBA image holds: the colour of each of its pixels, by `(x, y)`.
pub uninterp spec fn image_pixels(img: RgbaImage) -> Map<(u32, u32), [u8; 4]>;

/// The width and height an RGBA image was made with.
pub uninterp spec fn image_size(img: RgbaImage) -> (u32, u32);

/// The coordinates of a `w` by `h` image.
pub open spec fn in_bounds(w: u32, h: u32) -> spec_fn((u32, u32)) -> bool {
    |p: (u32, u32)| p.0 < w && p.1 < h
}

/// `ImageBuffer::from_pixel`: an image of the given size whose every pixel is `color`.
/// It panics when the image's bytes (four per pixel) do not fit a `usize`, which the
/// `requires` leaves out.
#[verifier::external_body]
fn image_filled(width: u32, height: u32, color: [u8; 4]) -> (img: RgbaImage)
    requires
        4 * (width as int) * (height as int) <= usize::MAX,
    ensures
        image_size(img) == (width, height),
        image_pixels(img) == Map::new(in_bounds(width, height), |p: (u32, u32)| color),
{
    RgbaImage { img: image::ImageBuffer::from_pixel(width, height, image::Rgba(color)) }
}

/// `ImageBuffer::put_pixel`: sets the pixel at `(x, y)`, which must lie in the image (it
/// panics otherwise).
#[verifier::external_body]
fn image_put(img: &mut RgbaImage, x: u32, y: u32, color: [u8; 4])
    requires
        x < image_size(*old(img)).0,
        y < image_size(*old(img)).1,
    ensures
        image_size(*final(img)) == image_size(*old(img)),
        image_pixels(*final(img)) == image_pixels(*old(img)).insert((x, y), color),
{
    img.img.put_pixel(x, y, image::Rgba(color));
}

/// `ImageBuffer::get_pixel`: the colour of the pixel at `(x, y)`, which must lie in the
/// image (it panics otherwise).
#[verifier::external_body]
fn image_get(img: &RgbaImage, x: u32, y: u32) -> (c: [u8; 4])
    requires
        x < image_size(*img).0,
        y < image_size(*img).1,
    ensures
        c == image_pixels(*img)[(x, y)],
{
    img.img.get_pixel(x, y).0
}

/// How an exported character's file is named.
#[derive(Clone, Copy, PartialEq, Eq, Debug, Structural)]
pub enum FileNameFormat {
    /// `가.png`
    Char,
    /// `AC00.png`
    Hex,
    /// `UAC00.png`
    UHex,
    /// `U+AC00.png`
    UPlusHex,
}

impl Default for FileNameFormat {
    fn default() -> (r: Self)
        ensures
            r == FileNameFormat::Char,
    {
        FileNameFormat::Char
    }
}

/// The code point in upper-case hexadecimal, at least four digits.
pub open spec fn hex4(ch: char) -> Seq<char> {
    zero_pad(radix_digits(ch as u32 as nat, 16, true), 4)
}

/// The file name of `ch` in the given format.
pub open spec fn file_name(f: FileNameFormat, ch: char) -> Seq<char> {
    let png = seq!['.', 'p', 'n', 'g'];
    match f {
        FileNameFormat::Char => seq![ch] + png,
        FileNameFormat::Hex => hex4(ch) + png,
        FileNameFormat::UHex => seq!['U'] + hex4(ch) + png,
        FileNameFormat::UPlusHex => seq!['U', '+'] + hex4(ch) + png,
    }
}

impl FileNameFormat {
    /// The file name of `ch`: the character itself or its code point, with `.png`.
    pub fn format(&self, ch: char) -> (r: String)
        ensures
            r@ == file_name(*self, ch),
    {
        let mut s = String::new();
        let code = ch as u32;
        match self {
            FileNameFormat::Char => {
                string_push(&mut s, ch);
            },
            FileNameFormat::Hex => {
                push_radix_padded(&mut s, code as u64, 16, true, 4);
            },
            FileNameFormat::UHex => {
                string_push(&mut s, 'U');
                push_radix_padded(&mut s, code as u64, 16, true, 4);
            },
            FileNameFormat::UPlusHex => {
                string_push(&mut s, 'U');
                string_push(&mut s, '+');
                push_radix_padded(&mut s, code as u64, 16, true, 4);
            },
        }
        string_push(&mut s, '.');
        string_push(&mut s, 'p');
        string_push(&mut s, 'n');
        string_push(&mut s, 'g');
        assert(s@ =~= file_name(*self, ch));
        s
    }
}

/// How a character sheet is exported: cell size, colours, sheet columns, file names.
pub struct ExportConfig {
    pub canvas_w: u32,
    pub canvas_h: u32,
    pub color_text: [u8; 4],
    pub color_bg: [u8; 4],
    pub columns: u32,
    pub name_format: FileNameFormat,
}

/// Which characters are exported.
#[derive(Clone, PartialEq, Eq, Debug, Structural)]
pub enum CharScope {
    /// All modern syllables.
    All,
    /// The syllables of a given text.
    Custom,
}

impl Default for CharScope {
    fn default() -> (r: Self)
        ensures
            r == CharScope::All,
    {
        CharScope::All
    }
}

/// Is the character a modern Hangul syllable (U+AC00 to U+D7A3)?
pub open spec fn is_syllable(c: char) -> bool {
    0xAC00 <= c as u32 <= 0xD7A3
}

/// The syllables of `s` in order of first occurrence, each once.
pub open spec fn distinct_syllables(s: Seq<char>) -> Seq<char>
    decreases s.len(),
{
    if s.len() == 0 {
        Seq::empty()
    } else {
        let prev = distinct_syllables(s.drop_last());
        let c = s.last();
        if is_syllable(c) && !prev.contains(c) {
            prev.push(c)
        } else {
            prev
        }
    }
}

fn seq_contains_char(v: &Vec<char>, c: char) -> (r: bool)
    ensures
        r == v@.contains(c),
{
    let mut i: usize = 0;
    while i < v.len()
        invariant
            i <= v@.len(),
            forall|k: int| 0 <= k < i ==> v@[k] != c,
        decreases v@.len() - i,
    {
        if v[i] == c {
            return true;
        }
        i = i + 1;
    }
    false
}

/// The syllables of `text` in order of first occurrence, each once; other characters are
/// skipped.
pub fn custom_char_list(text: &str) -> (r: Vec<char>)
    ensures
        r@ == distinct_syllables(text@),
{
    let mut out: Vec<char> = Vec::new();
    let mut it = text.chars();
    let ghost mut k: int = 0;
    loop
        invariant
            0 <= k <= text@.len(),
            it.remaining() == text@.skip(k),
            out@ == distinct_syllables(text@.take(k)),
        ensures
            out@ == distinct_syllables(text@),
        decreases text@.len() - k,
    {
        match it.next() {
            None => {
                assert(text@.take(k) =~= text@);
                break;
            },
            Some(ch) => {
                proof {
                    assert(text@.take(k + 1).drop_last() =~= text@.take(k));
                    assert(text@.take(k + 1).last() == ch);
                }
                let code = ch as u32;
                if 0xAC00 <= code && code <= 0xD7A3 && !seq_contains_char(&out, ch) {
                    out.push(ch);
                }
                proof {
                    k = k + 1;
                }
            },
        }
    }
    out
}

/// The characters to export. For `All`, the 11,172 modern syllables in code order; for
/// `Custom`, the syllables of `text` in order of first occurrence, each once.
pub fn get_char_list(scope: &CharScope, text: &str) -> (r: Vec<char>)
    ensures
        *scope == CharScope::All ==> r@.len() == 11172 && forall|j: int|
            0 <= j < 11172 ==> (#[trigger] r@[j]) as u32 == 0xAC00 + j,
        *scope == CharScope::Custom ==> r@ == distinct_syllables(text@),
{
    match scope {
        CharScope::All => all_hangul_syllables(),
        CharScope::Custom => custom_char_list(text),
    }
}

} // verus!

verus! {

/// The pixels the character lights when laid out with `rules` over `store` on a `w` by
/// `h` canvas: none when it is not a syllable or nothing lays it out.
pub open spec fn char_pixels(
    rules: RuleSystem,
    store: Map<KeyView, Set<(i32, i32)>>,
    ch: char,
    w: i32,
    h: i32,
) -> Set<(i32, i32)> {
    match syllable_layout(rules, store, ch) {
        None => Set::empty(),
        Some(l) => layout_pixels(store, l, w, h),
    }
}

/// Image pixel `p` is lit: its coordinates, as canvas coordinates, are among the pixels
/// `s`, and the image's width and height are within `i32`.
pub open spec fn lit(s: Set<(i32, i32)>, w: u32, h: u32, p: (u32, u32)) -> bool {
    w <= i32::MAX && h <= i32::MAX && s.contains((p.0 as i32, p.1 as i32))
}

/// A `w` by `h` image in colour `bg` with the pixels `s` drawn in colour `fg`.
pub open spec fn rendered(s: Set<(i32, i32)>, w: u32, h: u32, fg: [u8; 4], bg: [u8; 4]) -> Map<(u32, u32), [u8; 4]> {
    Map::new(in_bounds(w, h), |p: (u32, u32)| if lit(s, w, h, p) { fg } else { bg })
}

/// The image pixels that drawing the canvas pixels `c` in turn sets: those that fall
/// inside a `w` by `h` image.
pub open spec fn painted(c: Seq<(i32, i32)>, w: u32, h: u32) -> Set<(u32, u32)>
    decreases c.len(),
{
    if c.len() == 0 {
        Set::empty()
    } else {
        let prev = painted(c.drop_last(), w, h);
        let q = c.last();
        if 0 <= q.0 && 0 <= q.1 && q.0 < w as i32 && q.1 < h as i32 {
            prev.insert((q.0 as u32, q.1 as u32))
        } else {
            prev
        }
    }
}

proof fn lemma_cast_in(x: i32, w: u32)
    requires
        0 <= x,
        x < w as i32,
    ensures
        w <= 0x7fff_ffff,
        (x as u32) < w,
        (x as u32) as i32 == x,
{
    assert(0 <= x && x < (w as i32) ==> w <= 0x7fff_ffff && (x as u32) < w && ((x as u32) as i32) == x)
        by (bit_vector);
}

proof fn lemma_cast_back(p: u32, w: u32)
    requires
        p < w,
        w <= 0x7fff_ffff,
    ensures
        0 <= p as i32,
        (p as i32) < w as i32,
        (p as i32) as u32 == p,
{
    assert(p < w && w <= 0x7fff_ffff ==> 0 <= (p as i32) && (p as i32) < (w as i32) && ((p as i32) as u32) == p)
        by (bit_vector);
}

/// Drawing the canvas pixels `c` sets exactly the lit pixels of the image.
proof fn lemma_painted(c: Seq<(i32, i32)>, w: u32, h: u32)
    ensures
        painted(c, w, h) == Set::new(|p: (u32, u32)| p.0 < w && p.1 < h && lit(c.to_set(), w, h, p)),
    decreases c.len(),
{
    let target = Set::new(|p: (u32, u32)| p.0 < w && p.1 < h && lit(c.to_set(), w, h, p));
    if c.len() == 0 {
        assert(c.to_set() =~= Set::empty());
        assert(painted(c, w, h) =~= target);
    } else {
        let d = c.drop_last();
        let q = c.last();
        lemma_painted(d, w, h);
        assert(c =~= d.push(q));
        d.lemma_push_to_set_commute(q);
        assert(c.to_set() == d.to_set().insert(q));
        if 0 <= q.0 && 0 <= q.1 && q.0 < w as i32 && q.1 < h as i32 {
            lemma_cast_in(q.0, w);
            lemma_cast_in(q.1, h);
        }
        assert forall|p: (u32, u32)| painted(c, w, h).contains(p) <==> target.contains(p) by {
            if p.0 < w && p.1 < h && w <= 0x7fff_ffff && h <= 0x7fff_ffff {
                lemma_cast_back(p.0, w);
                lemma_cast_back(p.1, h);
            }
        }
        assert(painted(c, w, h) =~= target);
    }
}

/// Draws one character: a `cfg.canvas_w` by `cfg.canvas_h` image in the background
/// colour, with the pixels of the character's layout in the text colour.
pub fn render_single_char(ctx: &RenderContext<'_>, ch: char, cfg: &ExportConfig) -> (img: RgbaImage)
    requires
        ctx.store.wf(),
        4 * (cfg.canvas_w as int) * (cfg.canvas_h as int) <= usize::MAX,
    ensures
        image_size(img) == (cfg.canvas_w, cfg.canvas_h),
        image_pixels(img) == rendered(
            char_pixels(ctx.engine.rules, ctx.store@, ch, ctx.canvas_w, ctx.canvas_h),
            cfg.canvas_w,
            cfg.canvas_h,
            cfg.color_text,
            cfg.color_bg,
        ),
{
    let w = cfg.canvas_w;
    let h = cfg.canvas_h;
    let mut img = image_filled(w, h, cfg.color_bg);
    let ghost s = char_pixels(ctx.engine.rules, ctx.store@, ch, ctx.canvas_w, ctx.canvas_h);
    let res = ctx.engine.layout_char(ctx.store, ch, decompose_hangul, get_jamo_char);
    proof {
        lemma_syllable_result(ctx.engine.rules, ctx.store@, ch, res);
    }
    match res {
        None => {
            proof {
                assert(s =~= Set::empty());
                assert(image_pixels(img) =~= rendered(s, w, h, cfg.color_text, cfg.color_bg));
            }
        },
        Some(layout) => {
            let pixels = compose_pixels(ctx.store, &layout, ctx.canvas_w, ctx.canvas_h);
            let ghost c = coords(pixels@);
            assert(c.to_set() == s);
            let mut i: usize = 0;
            while i < pixels.len()
                invariant
                    c == coords(pixels@),
                    i <= pixels@.len(),
                    w == cfg.canvas_w,
                    h == cfg.canvas_h,
                    image_size(img) == (w, h),
                    image_pixels(img) == Map::new(
                        in_bounds(w, h),
                        |p: (u32, u32)| if painted(c.take(i as int), w, h).contains(p) { cfg.color_text } else { cfg.color_bg },
                    ),
                decreases pixels@.len() - i,
            {
                let px = pixels[i];
                let ghost before = image_pixels(img);
                proof {
                    assert(c.take(i + 1).drop_last() =~= c.take(i as int));
                    assert(c.take(i + 1).last() == (px.x, px.y));
                }
                if px.x >= 0 && px.y >= 0 && px.x < w as i32 && px.y < h as i32 {
                    proof {
                        lemma_cast_in(px.x, w);
                        lemma_cast_in(px.y, h);
                    }
                    image_put(&mut img, px.x as u32, px.y as u32, cfg.color_text);
                    assert(image_pixels(img) =~= Map::new(
                        in_bounds(w, h),
                        |p: (u32, u32)| if painted(c.take(i + 1), w, h).contains(p) { cfg.color_text } else { cfg.color_bg },
                    ));
                } else {
                    assert(painted(c.take(i + 1), w, h) == painted(c.take(i as int), w, h));
                    assert(image_pixels(img) =~= Map::new(
                        in_bounds(w, h),
                        |p: (u32, u32)| if painted(c.take(i + 1), w, h).contains(p) { cfg.color_text } else { cfg.color_bg },
                    ));
                }
                i = i + 1;
            }
            proof {
                assert(c.take(pixels@.len() as int) =~= c);
                lemma_painted(c, w, h);
                assert(image_pixels(img) =~= rendered(s, w, h, cfg.color_text, cfg.color_bg));
            }
        },
    }
    img
}

} // verus!

verus! {

/// The number of sheet columns: `columns`, or one when it is zero.
pub open spec fn sheet_cols(columns: u32) -> u32 {
    if columns == 0 {
        1
    } else {
        columns
    }
}

/// The number of sheet rows that `count` cells take, `cols` to a row.
pub open spec fn sheet_rows(count: int, cols: int) -> int {
    count / cols + if count % cols != 0 {
        1int
    } else {
        0int
    }
}

/// The cell that image pixel `p` of the sheet lies in, counting row by row.
pub open spec fn cell_of(p: (u32, u32), cols: int, cw: int, ch: int) -> int {
    (p.1 as int / ch) * cols + p.0 as int / cw
}

/// The image of one character, as `render_single_char` draws it.
pub open spec fn cell_image(ctx: &RenderContext, cfg: &ExportConfig, c: char) -> Map<(u32, u32), [u8; 4]> {
    rendered(
        char_pixels(ctx.engine.rules, ctx.store@, c, ctx.canvas_w, ctx.canvas_h),
        cfg.canvas_w,
        cfg.canvas_h,
        cfg.color_text,
        cfg.color_bg,
    )
}

/// The colour of sheet pixel `p`: the pixel of its cell's character image at the same
/// place in the cell when that pixel is not fully transparent, else the background.
pub open spec fn sheet_value(ctx: &RenderContext, cfg: &ExportConfig, chars: Seq<char>, p: (u32, u32)) -> [u8; 4] {
    let t = cell_of(p, sheet_cols(cfg.columns) as int, cfg.canvas_w as int, cfg.canvas_h as int);
    if 0 <= t < chars.len() {
        let c = cell_image(ctx, cfg, chars[t])[(p.0 % cfg.canvas_w, p.1 % cfg.canvas_h)];
        if c[3] != 0 {
            c
        } else {
            cfg.color_bg
        }
    } else {
        cfg.color_bg
    }
}

/// The sheet's size and the image sizes it needs fit the machine: at most `u32::MAX`
/// characters, and image widths, heights and byte counts within `u32` and `usize`.
pub open spec fn sheet_size_ok(n: int, cfg: &ExportConfig) -> bool {
    let cols = sheet_cols(cfg.columns) as int;
    let w = cols * cfg.canvas_w;
    let h = sheet_rows(n, cols) * cfg.canvas_h;
    &&& n <= u32::MAX
    &&& 4 * (cfg.canvas_w as int) * (cfg.canvas_h as int) <= usize::MAX
    &&& w <= u32::MAX
    &&& h <= u32::MAX
    &&& 4 * w * h <= usize::MAX
}

/// Does a sheet of `n` cells fit `u32` sizes and addressable memory (see `sheet_size_ok`)?
pub fn sheet_fits(n: usize, cfg: &ExportConfig) -> (r: bool)
    ensures
        r == sheet_size_ok(n as int, cfg),
{
    let cols: u128 = if cfg.columns == 0 {
        1
    } else {
        cfg.columns as u128
    };
    let count: u128 = n as u128;
    let rows: u128 = count / cols + if count % cols != 0 {
        1
    } else {
        0
    };
    let cw: u128 = cfg.canvas_w as u128;
    let ch: u128 = cfg.canvas_h as u128;
    assert(cols <= u32::MAX);
    assert(count <= u64::MAX);
    assert(rows <= count + 1) by (nonlinear_arith)
        requires
            cols >= 1,
            rows == count / cols + if count % cols != 0 {
                1int
            } else {
                0int
            },
    ;
    assert(cols * cw <= 0xffff_ffff_ffff_ffff_ffff_ffff) by (nonlinear_arith)
        requires
            cols <= u32::MAX,
            cw <= u32::MAX,
    ;
    assert(rows * ch <= 0xffff_ffff_ffff_ffff_ffff_ffff_ffff_ffff) by (nonlinear_arith)
        requires
            rows <= u64::MAX + 1,
            ch <= u32::MAX,
    ;
    assert(4 * cw * ch <= 0xffff_ffff_ffff_ffff_ffff_ffff) by (nonlinear_arith)
        requires
            cw <= u32::MAX,
            ch <= u32::MAX,
    ;
    let w: u128 = cols * cw;
    let h: u128 = rows * ch;
    let limit: u128 = usize::MAX as u128;
    if count > u32::MAX as u128 || 4 * cw * ch > limit || w > u32::MAX as u128 || h > u32::MAX as u128 {
        return false;
    }
    assert(4 * w * h <= 0xffff_ffff_ffff_ffff_ffff_ffff) by (nonlinear_arith)
        requires
            w <= u32::MAX,
            h <= u32::MAX,
    ;
    4 * w * h <= limit
}

/// Sheet pixel `p` has been drawn once the cells before `i` are done and, in cell `i`,
/// the rows before `y` and the pixels of row `y` before `x`.
pub open spec fn drawn(i: int, y: int, x: int, p: (u32, u32), cols: int, cw: int, ch: int) -> bool {
    let t = cell_of(p, cols, cw, ch);
    t < i || (t == i && ((p.1 as int) % ch < y || ((p.1 as int) % ch == y && (p.0 as int) % cw < x)))
}

/// Cell `i` covers the pixels at `(i % cols) * cw + x`, `(i / cols) * ch + y`.
proof fn lemma_cell_place(cols: int, cw: int, ch: int, rows: int, i: int, x: int, y: int)
    requires
        cols > 0,
        cw > 0,
        ch > 0,
        0 <= i,
        i / cols < rows,
        0 <= x < cw,
        0 <= y < ch,
    ensures
        0 <= (i % cols) * cw + x < cols * cw,
        0 <= (i / cols) * ch + y < rows * ch,
        ((i % cols) * cw + x) / cw == i % cols,
        ((i % cols) * cw + x) % cw == x,
        ((i / cols) * ch + y) / ch == i / cols,
        ((i / cols) * ch + y) % ch == y,
        (i / cols) * cols + i % cols == i,
{
    let c = i % cols;
    let r = i / cols;
    vstd::arithmetic::div_mod::lemma_fundamental_div_mod(i, cols);
    assert(0 <= c < cols);
    assert(r >= 0) by {
        vstd::arithmetic::div_mod::lemma_div_pos_is_pos(i, cols);
    }
    vstd::arithmetic::div_mod::lemma_fundamental_div_mod_converse(c * cw + x, cw, c, x);
    vstd::arithmetic::div_mod::lemma_fundamental_div_mod_converse(r * ch + y, ch, r, y);
    assert(0 <= c * cw + x < cols * cw) by (nonlinear_arith)
        requires
            0 <= c < cols,
            0 <= x < cw,
    ;
    assert(0 <= r * ch + y < rows * ch) by (nonlinear_arith)
        requires
            0 <= r < rows,
            0 <= y < ch,
    ;
    assert(r * cols + c == i) by (nonlinear_arith)
        requires
            i == cols * r + c,
    ;
}

/// A sheet pixel lies in exactly one cell, at one place in it.
proof fn lemma_cell_unique(cols: int, cw: int, ch: int, rows: int, px: int, py: int)
    requires
        cols > 0,
        cw > 0,
        ch > 0,
        0 <= px < cols * cw,
        0 <= py < rows * ch,
    ensures
        0 <= px / cw < cols,
        0 <= py / ch < rows,
        0 <= (py / ch) * cols + px / cw,
        ((py / ch) * cols + px / cw) % cols == px / cw,
        ((py / ch) * cols + px / cw) / cols == py / ch,
        px == (px / cw) * cw + px % cw,
        py == (py / ch) * ch + py % ch,
        0 <= px % cw < cw,
        0 <= py % ch < ch,
{
    let qx = px / cw;
    let qy = py / ch;
    vstd::arithmetic::div_mod::lemma_fundamental_div_mod(px, cw);
    vstd::arithmetic::div_mod::lemma_fundamental_div_mod(py, ch);
    vstd::arithmetic::div_mod::lemma_div_pos_is_pos(px, cw);
    vstd::arithmetic::div_mod::lemma_div_pos_is_pos(py, ch);
    assert(qx < cols) by (nonlinear_arith)
        requires
            px == cw * qx + px % cw,
            0 <= px % cw,
            px < cols * cw,
            cw > 0,
    ;
    assert(qy < rows) by (nonlinear_arith)
        requires
            py == ch * qy + py % ch,
            0 <= py % ch,
            py < rows * ch,
            ch > 0,
    ;
    assert(0 <= qy * cols) by (nonlinear_arith)
        requires
            0 <= qy,
            0 <= cols,
    ;
    vstd::arithmetic::div_mod::lemma_fundamental_div_mod_converse(qy * cols + qx, cols, qy, qx);
    assert(px == qx * cw + px % cw) by (nonlinear_arith)
        requires
            px == cw * qx + px % cw,
    ;
    assert(py == qy * ch + py % ch) by (nonlinear_arith)
        requires
            py == ch * qy + py % ch,
    ;
}

/// Every character's cell lies on the sheet.
proof fn lemma_rows_cover(n: int, cols: int, i: int)
    requires
        cols > 0,
        0 <= i < n,
    ensures
        i / cols < sheet_rows(n, cols),
{
    vstd::arithmetic::div_mod::lemma_fundamental_div_mod(i, cols);
    vstd::arithmetic::div_mod::lemma_fundamental_div_mod(n, cols);
    let q = i / cols;
    let rows = sheet_rows(n, cols);
    assert(n <= cols * rows) by (nonlinear_arith)
        requires
            n == cols * (n / cols) + n % cols,
            0 <= n % cols < cols,
            rows == n / cols + if n % cols != 0 {
                1int
            } else {
                0int
            },
    ;
    assert(q < rows) by (nonlinear_arith)
        requires
            i == cols * q + i % cols,
            0 <= i % cols,
            i < n,
            n <= cols * rows,
            cols > 0,
    ;
}

} // verus!

verus! {

/// Drawing pixel `(x, y)` of cell `i` draws exactly the sheet pixel at that place.
proof fn lemma_drawn_step(cols: int, cw: int, ch: int, rows: int, i: int, x: int, y: int, p: (u32, u32))
    requires
        cols > 0,
        cw > 0,
        ch > 0,
        0 <= i,
        i / cols < rows,
        0 <= x < cw,
        0 <= y < ch,
        p.0 < cols * cw,
        p.1 < rows * ch,
    ensures
        drawn(i, y, x + 1, p, cols, cw, ch) == (drawn(i, y, x, p, cols, cw, ch) || (p.0 == (i % cols) * cw + x
            && p.1 == (i / cols) * ch + y)),
        drawn(i, y, cw, p, cols, cw, ch) == drawn(i, y + 1, 0, p, cols, cw, ch),
        drawn(i, ch, 0, p, cols, cw, ch) == drawn(i + 1, 0, 0, p, cols, cw, ch),
{
    lemma_cell_unique(cols, cw, ch, rows, p.0 as int, p.1 as int);
    lemma_cell_place(cols, cw, ch, rows, i, x, y);
}

/// Draws a sheet of the characters' images, `columns` cells to a row (at least one), in
/// order, row by row; a cell pixel that is fully transparent leaves the background. With
/// no characters the sheet is a single background pixel.
pub fn build_sheet_image(ctx: &RenderContext<'_>, chars: &[char], cfg: &ExportConfig) -> (img: RgbaImage)
    requires
        ctx.store.wf(),
        chars@.len() > 0 ==> sheet_size_ok(chars@.len() as int, cfg),
    ensures
        chars@.len() == 0 ==> image_size(img) == (1u32, 1u32) && image_pixels(img) == Map::new(
            in_bounds(1, 1),
            |p: (u32, u32)| cfg.color_bg,
        ),
        chars@.len() > 0 ==> ({
            let cols = sheet_cols(cfg.columns) as int;
            let w = (cols * cfg.canvas_w) as u32;
            let h = (sheet_rows(chars@.len() as int, cols) * cfg.canvas_h) as u32;
            &&& image_size(img) == (w, h)
            &&& image_pixels(img) == Map::new(in_bounds(w, h), |p: (u32, u32)| sheet_value(ctx, cfg, chars@, p))
        }),
{
    if chars.len() == 0 {
        let img = image_filled(1, 1, cfg.color_bg);
        assert(image_pixels(img) =~= Map::new(in_bounds(1, 1), |p: (u32, u32)| cfg.color_bg));
        return img;
    }
    let count = chars.len() as u64;
    let cols: u32 = if cfg.columns == 0 {
        1
    } else {
        cfg.columns
    };
    let cols64 = cols as u64;
    let rows64: u64 = count / cols64 + if count % cols64 != 0 {
        1u64
    } else {
        0u64
    };
    let cw = cfg.canvas_w;
    let ch = cfg.canvas_h;
    let ghost n = chars@.len() as int;
    let ghost gcols = cols as int;
    let ghost gcw = cw as int;
    let ghost gch = ch as int;
    let ghost rows = rows64 as int;
    assert(rows == sheet_rows(n, gcols));
    proof {
        assert(0 <= gcols * gcw) by (nonlinear_arith)
            requires
                0 <= gcols,
                0 <= gcw,
        ;
        assert(0 <= rows * gch) by (nonlinear_arith)
            requires
                0 <= rows,
                0 <= gch,
        ;
    }
    let w = (cols64 * (cw as u64)) as u32;
    let h = (rows64 * (ch as u64)) as u32;
    let mut sheet = image_filled(w, h, cfg.color_bg);
    let ghost vals = |p: (u32, u32)| sheet_value(ctx, cfg, chars@, p);
    let mut i: usize = 0;
    while i < chars.len()
        invariant
            n == chars@.len(),
            0 < n <= u32::MAX,
            sheet_size_ok(n, cfg),
            cols == sheet_cols(cfg.columns),
            gcols == cols as int,
            gcw == cw as int,
            gch == ch as int,
            cw == cfg.canvas_w,
            ch == cfg.canvas_h,
            rows == sheet_rows(n, gcols),
            w as int == gcols * gcw,
            h as int == rows * gch,
            ctx.store.wf(),
            vals == (|p: (u32, u32)| sheet_value(ctx, cfg, chars@, p)),
            i <= n,
            image_size(sheet) == (w, h),
            image_pixels(sheet) == Map::new(
                in_bounds(w, h),
                |p: (u32, u32)| if drawn(i as int, 0, 0, p, gcols, gcw, gch) { vals(p) } else { cfg.color_bg },
            ),
        decreases n - i,
    {
        let c = chars[i];
        let cell = render_single_char(ctx, c, cfg);
        let col = (i as u32) % cols;
        let row = (i as u32) / cols;
        proof {
            lemma_rows_cover(n, gcols, i as int);
            assert(row as int == i as int / gcols);
            assert(col as int == i as int % gcols);
        }
        let ghost gi = i as int;
        let mut y: u32 = 0;
        while y < ch
            invariant
                n == chars@.len(),
                0 <= gi < n,
                gi == i as int,
                sheet_size_ok(n, cfg),
                gcols == cols as int,
                cols == sheet_cols(cfg.columns),
                cw == cfg.canvas_w,
                ch == cfg.canvas_h,
                gcols > 0,
                gcw == cw as int,
                gch == ch as int,
                rows == sheet_rows(n, gcols),
                gi / gcols < rows,
                row as int == gi / gcols,
                col as int == gi % gcols,
                w as int == gcols * gcw,
                h as int == rows * gch,
                y <= ch,
                vals == (|p: (u32, u32)| sheet_value(ctx, cfg, chars@, p)),
                image_size(cell) == (cw, ch),
                image_pixels(cell) == cell_image(ctx, cfg, chars@[gi]),
                image_size(sheet) == (w, h),
                image_pixels(sheet) == Map::new(
                    in_bounds(w, h),
                    |p: (u32, u32)| if drawn(gi, y as int, 0, p, gcols, gcw, gch) { vals(p) } else { cfg.color_bg },
                ),
            decreases ch - y,
        {
            let mut x: u32 = 0;
            while x < cw
                invariant
                    n == chars@.len(),
                    0 <= gi < n,
                    sheet_size_ok(n, cfg),
                    gcols == cols as int,
                    cols == sheet_cols(cfg.columns),
                    cw == cfg.canvas_w,
                    ch == cfg.canvas_h,
                    gcols > 0,
                    gcw == cw as int,
                    gch == ch as int,
                    gch > 0,
                    rows == sheet_rows(n, gcols),
                    gi / gcols < rows,
                    row as int == gi / gcols,
                    col as int == gi % gcols,
                    w as int == gcols * gcw,
                    h as int == rows * gch,
                    y < ch,
                    x <= cw,
                    vals == (|p: (u32, u32)| sheet_value(ctx, cfg, chars@, p)),
                    image_size(cell) == (cw, ch),
                    image_pixels(cell) == cell_image(ctx, cfg, chars@[gi]),
                    image_size(sheet) == (w, h),
                    image_pixels(sheet) == Map::new(
                        in_bounds(w, h),
                        |p: (u32, u32)| if drawn(gi, y as int, x as int, p, gcols, gcw, gch) { vals(p) } else { cfg.color_bg },
                    ),
                decreases cw - x,
            {
                let px = image_get(&cell, x, y);
                proof {
                    lemma_cell_place(gcols, gcw, gch, rows, gi, x as int, y as int);
                }
                let sx = col * cw + x;
                let sy = row * ch + y;
                let ghost sp = (sx, sy);
                proof {
                    assert(cell_of(sp, gcols, gcw, gch) == gi);
                    assert(sx % cw == x && sy % ch == y);
                    assert(vals(sp) == (if px[3] != 0 { px } else { cfg.color_bg }));
                    assert forall|p: (u32, u32)| in_bounds(w, h)(p) implies drawn(gi, y as int, x + 1, p, gcols, gcw, gch) == (
                    drawn(gi, y as int, x as int, p, gcols, gcw, gch) || p == sp) by {
                        lemma_drawn_step(gcols, gcw, gch, rows, gi, x as int, y as int, p);
                    }
                }
                if px[3] != 0 {
                    image_put(&mut sheet, sx, sy, px);
                }
                assert(image_pixels(sheet) =~= Map::new(
                    in_bounds(w, h),
                    |p: (u32, u32)| if drawn(gi, y as int, x + 1, p, gcols, gcw, gch) { vals(p) } else { cfg.color_bg },
                ));
                x = x + 1;
            }
            proof {
                assert forall|p: (u32, u32)| in_bounds(w, h)(p) implies drawn(gi, y as int, gcw, p, gcols, gcw, gch) == drawn(
                    gi,
                    y + 1,
                    0,
                    p,
                    gcols,
                    gcw,
                    gch,
                ) by {
                    lemma_drawn_step(gcols, gcw, gch, rows, gi, 0, y as int, p);
                }
                assert(image_pixels(sheet) =~= Map::new(
                    in_bounds(w, h),
                    |p: (u32, u32)| if drawn(gi, y + 1, 0, p, gcols, gcw, gch) { vals(p) } else { cfg.color_bg },
                ));
            }
            y = y + 1;
        }
        proof {
            if gch > 0 && gcw > 0 {
                assert forall|p: (u32, u32)| in_bounds(w, h)(p) implies drawn(gi, gch, 0, p, gcols, gcw, gch) == drawn(
                    gi + 1,
                    0,
                    0,
                    p,
                    gcols,
                    gcw,
                    gch,
                ) by {
                    lemma_drawn_step(gcols, gcw, gch, rows, gi, 0, 0, p);
                }
            } else {
                assert forall|p: (u32, u32)| !(#[trigger] in_bounds(w, h)(p)) by {
                    if gch == 0 {
                        assert(rows * gch == 0);
                    } else {
                        assert(gcols * gcw == 0) by (nonlinear_arith)
                            requires
                                gcw == 0,
                        ;
                    }
                }
            }
            assert(image_pixels(sheet) =~= Map::new(
                in_bounds(w, h),
                |p: (u32, u32)| if drawn(gi + 1, 0, 0, p, gcols, gcw, gch) { vals(p) } else { cfg.color_bg },
            ));
        }
        i = i + 1;
    }
    proof {
        assert forall|p: (u32, u32)| in_bounds(w, h)(p) implies drawn(n, 0, 0, p, gcols, gcw, gch) || vals(p)
            == cfg.color_bg by {
            if gcw > 0 && gch > 0 {
                lemma_cell_unique(gcols, gcw, gch, rows, p.0 as int, p.1 as int);
            }
        }
        assert(image_pixels(sheet) =~= Map::new(in_bounds(w, h), vals));
    }
    sheet
}

} // verus!

verus! {

/// The PNG file that the image crate writes for an RGBA image of the given size and
/// pixels.
pub uninterp spec fn png_of(size: (u32, u32), pixels: Map<(u32, u32), [u8; 4]>) -> Seq<u8>;

/// `ImageBuffer::write_to` with `ImageFormat::Png` into memory: the image's PNG file, a
/// function of its size and pixels alone. When the encoder refuses the image the bytes
/// written until then are returned, which the name covers as well.
#[verifier::external_body]
pub fn encode_png(image: &RgbaImage) -> (bytes: Vec<u8>)
    ensures
        bytes@ == png_of(image_size(*image), image_pixels(*image)),
{
    let mut bytes = Vec::new();
    image.img.write_to(&mut std::io::Cursor::new(&mut bytes), image::ImageFormat::Png).unwrap_or(());
    bytes
}

/// The PNG file of one character's image (see `render_single_char`).
pub fn char_png_bytes(ctx: &RenderContext<'_>, ch: char, cfg: &ExportConfig) -> (bytes: Vec<u8>)
    requires
        ctx.store.wf(),
        4 * (cfg.canvas_w as int) * (cfg.canvas_h as int) <= usize::MAX,
    ensures
        bytes@ == png_of((cfg.canvas_w, cfg.canvas_h), cell_image(ctx, cfg, ch)),
{
    let img = render_single_char(ctx, ch, cfg);
    encode_png(&img)
}

/// The PNG file of the characters' sheet (see `build_sheet_image`).
pub fn sheet_png_bytes(ctx: &RenderContext<'_>, chars: &[char], cfg: &ExportConfig) -> (bytes: Vec<u8>)
    requires
        ctx.store.wf(),
        chars@.len() > 0 ==> sheet_size_ok(chars@.len() as int, cfg),
    ensures
        chars@.len() == 0 ==> bytes@ == png_of((1u32, 1u32), Map::new(in_bounds(1, 1), |p: (u32, u32)| cfg.color_bg)),
        chars@.len() > 0 ==> ({
            let cols = sheet_cols(cfg.columns) as int;
            let w = (cols * cfg.canvas_w) as u32;
            let h = (sheet_rows(chars@.len() as int, cols) * cfg.canvas_h) as u32;
            bytes@ == png_of((w, h), Map::new(in_bounds(w, h), |p: (u32, u32)| sheet_value(ctx, cfg, chars@, p)))
        }),
{
    let img = build_sheet_image(ctx, chars, cfg);
    encode_png(&img)
}

} // verus!
