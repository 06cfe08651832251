//! A text console drawn into the frame buffer of the graphics output device.
//!
//! Position and colour arithmetic is modular on `u32`, as the kernel computes
//! it.
use vstd::prelude::*;
use vstd::wrapping::u32_specs::{wrapping_add, wrapping_mul};
use crate::hw::uefi::GraphicsOutputModeInformation;

verus! {

/// Number of glyphs of a font: the printable ASCII characters from `!` to
/// `~`, then the glyph drawn for any other character.
pub const GLYPH_COUNT: usize = 0x5F;

/// Glyph drawn for a character without a glyph of its own.
pub const UNKNOWN_GLYPH: usize = 0x5E;

/// A bitmap font: `glyphs[g][i][j]` is the intensity of column `i`, row `j`
/// of glyph `g`; each glyph is `length` columns wide and `height` rows high.
pub struct Font {
    pub length: u32,
    pub height: u32,
    pub glyphs: Vec<Vec<Vec<u32>>>,
}

impl Font {
    /// Every glyph has `length` columns of `height` rows.
    pub open spec fn wf(&self) -> bool {
        &&& self.glyphs@.len() >= GLYPH_COUNT
        &&& forall|g: int|
            0 <= g < self.glyphs@.len() ==> #[trigger] self.glyphs@[g]@.len() == self.length
        &&& forall|g: int, i: int|
            0 <= g < self.glyphs@.len() && 0 <= i < self.length ==> #[trigger] self.glyphs@[g]@[i]@.len()
                == self.height
    }

    pub open spec fn intensity(&self, g: int, i: int, j: int) -> u32 {
        self.glyphs@[g]@[i]@[j]
    }
}

/// Writes text into a frame buffer of `info.horizontal_resolution` pixels
/// per line, from the position (`x`, `y`), in colour `c`.
pub struct GopConsoleWriter {
    pub info: GraphicsOutputModeInformation,
    pub framebuffer: Vec<u32>,
    pub x: u32,
    pub y: u32,
    pub c: u32,
}

/// The glyph of a character: printable ASCII from `!` on, else the unknown
/// glyph.
pub open spec fn glyph_index(ch: char) -> int {
    if 0x21 <= (ch as u32) <= 0x7E {
        ch as u32 - 0x21
    } else {
        UNKNOWN_GLYPH as int
    }
}

/// The pixel value drawn in colour `c` at intensity `v`: each colour
/// channel scaled by the intensity, combined, then multiplied by the colour.
pub open spec fn shade(c: u32, v: u32) -> u32 {
    wrapping_mul(
        c,
        wrapping_mul(c & 0xFF, v) | wrapping_mul(c & 0xFF00, v) | wrapping_mul(c & 0xFF_0000, v)
            | wrapping_mul(c & 0xFF00_0000, v),
    )
}

/// Index in the frame buffer of the pixel (`x`, `y`) on lines of `width`
/// pixels.
pub open spec fn pixel_index(x: u32, y: u32, width: u32) -> int {
    wrapping_add(wrapping_mul(y, width), x) as int
}

/// Draws rows `j..` of column `i` of glyph `g` placed at (`x`, `y`): the
/// frame buffer after it, whether drawing stopped at a pixel off the screen
/// (a row at or beyond the horizontal resolution, or a column at or beyond
/// the vertical resolution), and whether a pixel fell outside the frame
/// buffer.
pub open spec fn draw_column(
    fb: Seq<u32>,
    info: GraphicsOutputModeInformation,
    c: u32,
    font: Font,
    g: int,
    x: u32,
    y: u32,
    i: u32,
    j: u32,
) -> (Seq<u32>, bool, bool)
    decreases font.height - j,
{
    if j >= font.height {
        (fb, false, false)
    } else {
        let px = wrapping_add(x, i);
        let py = wrapping_add(y, j);
        if py >= info.horizontal_resolution || px >= info.vertical_resolution {
            (fb, true, false)
        } else {
            let k = pixel_index(px, py, info.horizontal_resolution);
            if k >= fb.len() {
                (fb, false, true)
            } else {
                draw_column(
                    fb.update(k, shade(c, font.intensity(g, i as int, j as int))),
                    info,
                    c,
                    font,
                    g,
                    x,
                    y,
                    i,
                    (j + 1) as u32,
                )
            }
        }
    }
}

/// Draws columns `i..` of glyph `g` placed at (`x`, `y`), column by column;
/// the outcome as for `draw_column`.
pub open spec fn draw_glyph(
    fb: Seq<u32>,
    info: GraphicsOutputModeInformation,
    c: u32,
    font: Font,
    g: int,
    x: u32,
    y: u32,
    i: u32,
) -> (Seq<u32>, bool, bool)
    decreases font.length - i,
{
    if i >= font.length {
        (fb, false, false)
    } else {
        let r = draw_column(fb, info, c, font, g, x, y, i, 0);
        if r.1 || r.2 {
            r
        } else {
            draw_glyph(r.0, info, c, font, g, x, y, (i + 1) as u32)
        }
    }
}

/// Writes the characters `s[k..]` from (`x`, `y`): the frame buffer, the
/// position after it, and whether a pixel fell outside the frame buffer.
/// A space advances by one glyph, a tab by four, a newline starts the next
/// line of glyphs at column 0; any other character advances by one glyph and
/// is drawn at the advanced position. Writing ends at the first pixel off
/// the screen.
pub open spec fn write_from(
    fb: Seq<u32>,
    x: u32,
    y: u32,
    info: GraphicsOutputModeInformation,
    c: u32,
    font: Font,
    s: Seq<char>,
    k: int,
) -> (Seq<u32>, u32, u32, bool)
    decreases s.len() - k,
{
    if k < 0 || k >= s.len() {
        (fb, x, y, false)
    } else {
        let ch = s[k];
        if ch == ' ' {
            write_from(fb, wrapping_add(x, font.length), y, info, c, font, s, k + 1)
        } else if ch == '\t' {
            write_from(fb, wrapping_add(x, wrapping_mul(4, font.length)), y, info, c, font, s, k + 1)
        } else if ch == '\n' {
            write_from(fb, 0, wrapping_add(y, font.height), info, c, font, s, k + 1)
        } else {
            let x2 = wrapping_add(x, font.length);
            let r = draw_glyph(fb, info, c, font, glyph_index(ch), x2, y, 0);
            if r.1 || r.2 {
                (r.0, x2, y, r.2)
            } else {
                write_from(r.0, x2, y, info, c, font, s, k + 1)
            }
        }
    }
}

/// Writing `s` with writer `w`: when a line of glyphs no longer fits below
/// the current line (the line plus the font height reaches the vertical
/// resolution), the screen is cleared and writing starts again at the top.
pub open spec fn write_result(w: GopConsoleWriter, font: Font, s: Seq<char>) -> (
    Seq<u32>,
    u32,
    u32,
    bool,
) {
    if wrapping_add(w.y, font.height) >= w.info.vertical_resolution {
        write_from(
            Seq::new(w.framebuffer@.len(), |i: int| 0u32),
            w.x,
            0,
            w.info,
            w.c,
            font,
            s,
            0,
        )
    } else {
        write_from(w.framebuffer@, w.x, w.y, w.info, w.c, font, s, 0)
    }
}

fn glyph_of(ch: char) -> (g: usize)
    ensures
        g == glyph_index(ch),
        g < GLYPH_COUNT,
{
    let v = ch as u32;
    if 0x21 <= v && v <= 0x7E {
        (v - 0x21) as usize
    } else {
        UNKNOWN_GLYPH
    }
}

fn shade_of(c: u32, v: u32) -> (r: u32)
    ensures
        r == shade(c, v),
{
    let m = (c & 0xFF).wrapping_mul(v) | (c & 0xFF00).wrapping_mul(v) | (c & 0xFF_0000).wrapping_mul(v)
        | (c & 0xFF00_0000).wrapping_mul(v);
    c.wrapping_mul(m)
}

/// Sets every pixel of `fb` to 0.
fn clear(fb: &mut Vec<u32>)
    ensures
        final(fb)@ == Seq::new(old(fb)@.len(), |i: int| 0u32),
{
    let ghost len = fb.len();
    let mut i: usize = 0;
    while i < fb.len()
        invariant
            fb@.len() == len,
            i <= len,
            forall|j: int| 0 <= j < i ==> fb@[j] == 0u32,
        decreases len - i,
    {
        fb.set(i, 0);
        i = i + 1;
    }
    assert(fb@ =~= Seq::new(len as nat, |i: int| 0u32));
}


impl GopConsoleWriter {
    /// Writes `s` in `font` (see `write_result`), stopping at the first
    /// pixel that falls outside the frame buffer; whether one did.
    pub fn write(&mut self, font: &Font, s: &str) -> (outside: bool)
        requires
            font.wf(),
        ensures
            outside == write_result(*old(self), *font, s@).3,
            final(self).framebuffer@ == write_result(*old(self), *font, s@).0,
            final(self).x == write_result(*old(self), *font, s@).1,
            final(self).y == write_result(*old(self), *font, s@).2,
            final(self).info == old(self).info,
            final(self).c == old(self).c,
    {
        let ghost total = write_result(*old(self), *font, s@);
        let l = font.length;
        let h = font.height;
        if self.y.wrapping_add(h) >= self.info.vertical_resolution {
            self.y = 0;
            clear(&mut self.framebuffer);
        }
        let n = s.unicode_len();
        let mut k: usize = 0;
        while k < n
            invariant
                font.wf(),
                l == font.length,
                h == font.height,
                n == s@.len(),
                k <= n,
                self.info == old(self).info,
                self.c == old(self).c,
                write_from(self.framebuffer@, self.x, self.y, self.info, self.c, *font, s@, k as int)
                    == total,
                total == write_result(*old(self), *font, s@),
            decreases n - k,
        {
            let ch = s.get_char(k);
            let ghost fbk = self.framebuffer@;
            let ghost xk = self.x;
            let ghost yk = self.y;
            let ghost info = self.info;
            let ghost c = self.c;
            if ch == ' ' {
                self.x = self.x.wrapping_add(l);
                assert(write_from(fbk, xk, yk, info, c, *font, s@, k as int) == write_from(
                    fbk, self.x, yk, info, c, *font, s@, k + 1));
            } else if ch == '\t' {
                self.x = self.x.wrapping_add(4u32.wrapping_mul(l));
                assert(write_from(fbk, xk, yk, info, c, *font, s@, k as int) == write_from(
                    fbk, self.x, yk, info, c, *font, s@, k + 1));
            } else if ch == '\n' {
                self.x = 0;
                self.y = self.y.wrapping_add(h);
                assert(write_from(fbk, xk, yk, info, c, *font, s@, k as int) == write_from(
                    fbk, 0, self.y, info, c, *font, s@, k + 1));
            } else {
                let g = glyph_of(ch);
                self.x = self.x.wrapping_add(l);
                let ghost x2 = self.x;
                let ghost gr = draw_glyph(fbk, info, c, *font, g as int, x2, yk, 0);
                assert(write_from(fbk, xk, yk, info, c, *font, s@, k as int) == if gr.1 || gr.2 {
                    (gr.0, x2, yk, gr.2)
                } else {
                    write_from(gr.0, x2, yk, info, c, *font, s@, k + 1)
                });
                let mut i: u32 = 0;
                while i < l
                    invariant
                        font.wf(),
                        l == font.length,
                        h == font.height,
                        g < GLYPH_COUNT,
                        self.info == info,
                        self.c == c,
                        self.x == x2,
                        self.y == yk,
                        info == old(self).info,
                        c == old(self).c,
                        draw_glyph(self.framebuffer@, info, c, *font, g as int, x2, yk, i) == gr,
                        gr.1 || gr.2 ==> total == (gr.0, x2, yk, gr.2),
                        !(gr.1 || gr.2) ==> total == write_from(gr.0, x2, yk, info, c, *font, s@, k + 1),
                        total == write_result(*old(self), *font, s@),
                    decreases l - i,
                {
                    let ghost fbi = self.framebuffer@;
                    let ghost cr = draw_column(fbi, info, c, *font, g as int, x2, yk, i, 0);
                    assert(gr == if cr.1 || cr.2 {
                        cr
                    } else {
                        draw_glyph(cr.0, info, c, *font, g as int, x2, yk, (i + 1) as u32)
                    });
                    let mut j: u32 = 0;
                    while j < h
                        invariant
                            font.wf(),
                            l == font.length,
                            h == font.height,
                            i < l,
                            g < GLYPH_COUNT,
                            self.info == info,
                            self.c == c,
                            self.x == x2,
                            self.y == yk,
                            info == old(self).info,
                            c == old(self).c,
                            draw_column(self.framebuffer@, info, c, *font, g as int, x2, yk, i, j) == cr,
                            cr.1 || cr.2 ==> gr == cr,
                            gr.1 || gr.2 ==> total == (gr.0, x2, yk, gr.2),
                            total == write_result(*old(self), *font, s@),
                        decreases h - j,
                    {
                        let px = self.x.wrapping_add(i);
                        let py = self.y.wrapping_add(j);
                        if py >= self.info.horizontal_resolution || px >= self.info.vertical_resolution {
                            assert(cr == (self.framebuffer@, true, false));
                            return false;
                        }
                        let idx = py.wrapping_mul(self.info.horizontal_resolution).wrapping_add(px) as usize;
                        assert(idx == pixel_index(px, py, info.horizontal_resolution));
                        if idx >= self.framebuffer.len() {
                            assert(cr == (self.framebuffer@, false, true));
                            return true;
                        }
                        let glyph = &font.glyphs[g];
                        assert(glyph@.len() == l);
                        let column = &glyph[i as usize];
                        assert(column@.len() == h);
                        let v = column[j as usize];
                        assert(v == font.intensity(g as int, i as int, j as int));
                        let value = shade_of(self.c, v);
                        let ghost fbj = self.framebuffer@;
                        assert(draw_column(fbj, info, c, *font, g as int, x2, yk, i, j) == draw_column(
                            fbj.update(idx as int, value), info, c, *font, g as int, x2, yk, i, (j + 1) as u32));
                        self.framebuffer.set(idx, value);
                        j = j + 1;
                    }
                    assert(cr == (self.framebuffer@, false, false));
                    i = i + 1;
                }
                assert(gr == (self.framebuffer@, false, false));
            }
            k = k + 1;
        }
        false
    }
}

/// Index in the frame buffer of the pixel of column `i`, row `j` of a glyph
/// placed at (`x`, `y`): the pixel's row times the line width, plus its
/// column, on 32 bits.
pub open spec fn glyph_pixel(info: GraphicsOutputModeInformation, x: u32, y: u32, i: int, j: int) -> int {
    wrapping_add(wrapping_mul(wrapping_add(y, j as u32), info.horizontal_resolution), wrapping_add(x, i as u32))
        as int
}

/// Every pixel of a glyph of `font` placed at (`x`, `y`) is on the screen
/// and in a frame buffer of `len` pixels.
pub open spec fn glyph_fits(len: int, info: GraphicsOutputModeInformation, font: Font, x: u32, y: u32) -> bool {
    forall|i: int, j: int|
        0 <= i < font.length && 0 <= j < font.height ==> {
            &&& wrapping_add(y, j as u32) < info.horizontal_resolution
            &&& wrapping_add(x, i as u32) < info.vertical_resolution
            &&& #[trigger] glyph_pixel(info, x, y, i, j) < len
        }
}

/// The pixels of a glyph of `font` placed at (`x`, `y`) are distinct
/// places of the frame buffer.
pub open spec fn glyph_pixels_distinct(info: GraphicsOutputModeInformation, font: Font, x: u32, y: u32) -> bool {
    forall|i1: int, j1: int, i2: int, j2: int|
        0 <= i1 < font.length && 0 <= j1 < font.height && 0 <= i2 < font.length && 0 <= j2 < font.height
            && (i1 != i2 || j1 != j2) ==> #[trigger] glyph_pixel(info, x, y, i1, j1) != #[trigger] glyph_pixel(
            info,
            x,
            y,
            i2,
            j2,
        )
}

proof fn lemma_draw_column(
    fb: Seq<u32>,
    info: GraphicsOutputModeInformation,
    c: u32,
    font: Font,
    g: int,
    x: u32,
    y: u32,
    i: u32,
    j: u32,
)
    requires
        i < font.length,
        j <= font.height,
        glyph_fits(fb.len() as int, info, font, x, y),
        glyph_pixels_distinct(info, font, x, y),
    ensures
        !draw_column(fb, info, c, font, g, x, y, i, j).1,
        !draw_column(fb, info, c, font, g, x, y, i, j).2,
        draw_column(fb, info, c, font, g, x, y, i, j).0.len() == fb.len(),
        forall|jj: int|
            j <= jj < font.height ==> draw_column(fb, info, c, font, g, x, y, i, j).0[#[trigger] glyph_pixel(
                info,
                x,
                y,
                i as int,
                jj,
            )] == shade(c, font.glyphs@[g]@[i as int]@[jj]),
        forall|k: int|
            #![trigger draw_column(fb, info, c, font, g, x, y, i, j).0[k]]
            0 <= k < fb.len() && (forall|jj: int| j <= jj < font.height ==> k != #[trigger] glyph_pixel(
                info,
                x,
                y,
                i as int,
                jj,
            )) ==> draw_column(fb, info, c, font, g, x, y, i, j).0[k] == fb[k],
    decreases font.height - j,
{
    if j < font.height {
        let k0 = glyph_pixel(info, x, y, i as int, j as int);
        assert(k0 < fb.len());
        assert(k0 == pixel_index(wrapping_add(x, i), wrapping_add(y, j), info.horizontal_resolution));
        let fb1 = fb.update(k0, shade(c, font.intensity(g, i as int, j as int)));
        lemma_draw_column(fb1, info, c, font, g, x, y, i, (j + 1) as u32);
        let r = draw_column(fb1, info, c, font, g, x, y, i, (j + 1) as u32);
        assert(draw_column(fb, info, c, font, g, x, y, i, j) == r);
        assert forall|jj: int| j <= jj < font.height implies r.0[#[trigger] glyph_pixel(info, x, y, i as int, jj)]
            == shade(c, font.glyphs@[g]@[i as int]@[jj]) by {
            if jj == j {
                assert forall|j2: int| j + 1 <= j2 < font.height implies k0 != #[trigger] glyph_pixel(
                    info,
                    x,
                    y,
                    i as int,
                    j2,
                ) by {
                    assert(glyph_pixel(info, x, y, i as int, j as int) != glyph_pixel(info, x, y, i as int, j2));
                }
                assert(r.0[k0] == fb1[k0]);
            }
        }
        assert forall|k: int|
            0 <= k < fb.len() && (forall|jj: int| j <= jj < font.height ==> k != #[trigger] glyph_pixel(
                info,
                x,
                y,
                i as int,
                jj,
            )) implies r.0[k] == fb[k] by {
            assert(k != glyph_pixel(info, x, y, i as int, j as int));
            assert forall|j2: int| j + 1 <= j2 < font.height implies k != #[trigger] glyph_pixel(
                info,
                x,
                y,
                i as int,
                j2,
            ) by {}
            assert(r.0[k] == fb1[k]);
        }
    }
}

proof fn lemma_draw_glyph(
    fb: Seq<u32>,
    info: GraphicsOutputModeInformation,
    c: u32,
    font: Font,
    g: int,
    x: u32,
    y: u32,
    i: u32,
)
    requires
        i <= font.length,
        glyph_fits(fb.len() as int, info, font, x, y),
        glyph_pixels_distinct(info, font, x, y),
    ensures
        !draw_glyph(fb, info, c, font, g, x, y, i).1,
        !draw_glyph(fb, info, c, font, g, x, y, i).2,
        draw_glyph(fb, info, c, font, g, x, y, i).0.len() == fb.len(),
        forall|ii: int, jj: int|
            i <= ii < font.length && 0 <= jj < font.height ==> draw_glyph(fb, info, c, font, g, x, y, i).0[
            #[trigger] glyph_pixel(info, x, y, ii, jj)] == shade(c, font.glyphs@[g]@[ii]@[jj]),
        forall|k: int|
            #![trigger draw_glyph(fb, info, c, font, g, x, y, i).0[k]]
            0 <= k < fb.len() && (forall|ii: int, jj: int|
                i <= ii < font.length && 0 <= jj < font.height ==> k != #[trigger] glyph_pixel(
                    info,
                    x,
                    y,
                    ii,
                    jj,
                )) ==> draw_glyph(fb, info, c, font, g, x, y, i).0[k] == fb[k],
    decreases font.length - i,
{
    if i < font.length {
        lemma_draw_column(fb, info, c, font, g, x, y, i, 0);
        let cr = draw_column(fb, info, c, font, g, x, y, i, 0);
        lemma_draw_glyph(cr.0, info, c, font, g, x, y, (i + 1) as u32);
        let r = draw_glyph(cr.0, info, c, font, g, x, y, (i + 1) as u32);
        assert(draw_glyph(fb, info, c, font, g, x, y, i) == r);
        assert forall|ii: int, jj: int| i <= ii < font.length && 0 <= jj < font.height implies r.0[
            #[trigger] glyph_pixel(info, x, y, ii, jj)] == shade(c, font.glyphs@[g]@[ii]@[jj]) by {
            if ii == i {
                let k = glyph_pixel(info, x, y, ii, jj);
                assert(cr.0[k] == shade(c, font.glyphs@[g]@[ii]@[jj]));
                assert forall|i2: int, j2: int| i + 1 <= i2 < font.length && 0 <= j2 < font.height implies k
                    != #[trigger] glyph_pixel(info, x, y, i2, j2) by {
                    assert(glyph_pixel(info, x, y, ii, jj) != glyph_pixel(info, x, y, i2, j2));
                }
            }
        }
        assert forall|k: int|
            0 <= k < fb.len() && (forall|ii: int, jj: int|
                i <= ii < font.length && 0 <= jj < font.height ==> k != #[trigger] glyph_pixel(
                    info,
                    x,
                    y,
                    ii,
                    jj,
                )) implies r.0[k] == fb[k] by {
            assert forall|i2: int, j2: int| i + 1 <= i2 < font.length && 0 <= j2 < font.height implies k
                != #[trigger] glyph_pixel(info, x, y, i2, j2) by {}
            assert forall|jj: int| 0 <= jj < font.height implies k != #[trigger] glyph_pixel(
                info,
                x,
                y,
                i as int,
                jj,
            ) by {}
        }
    }
}

/// Writing a character that has a glyph, on a line that fits on the screen:
/// the cursor moves one glyph on and the glyph is drawn there, the pixel of
/// column `i`, row `j` of the glyph taking that column and row of the font's
/// glyph in the writer's colour. Every other pixel is left alone. (Given
/// that every pixel of the glyph is on the screen and in the frame buffer,
/// each at a place of its own.)
pub proof fn law_glyph_drawn_in_place(w: GopConsoleWriter, font: Font, ch: char)
    requires
        font.wf(),
        ch != ' ' && ch != '\t' && ch != '\n',
        wrapping_add(w.y, font.height) < w.info.vertical_resolution,
        glyph_fits(w.framebuffer@.len() as int, w.info, font, wrapping_add(w.x, font.length), w.y),
        glyph_pixels_distinct(w.info, font, wrapping_add(w.x, font.length), w.y),
    ensures
        ({
            let x2 = wrapping_add(w.x, font.length);
            let r = write_result(w, font, seq![ch]);
            &&& !r.3
            &&& r.1 == x2
            &&& r.2 == w.y
            &&& r.0.len() == w.framebuffer@.len()
            &&& forall|i: int, j: int|
                0 <= i < font.length && 0 <= j < font.height ==> r.0[#[trigger] glyph_pixel(w.info, x2, w.y, i, j)]
                    == shade(w.c, font.glyphs@[glyph_index(ch)]@[i]@[j])
            &&& forall|k: int|
                0 <= k < r.0.len() && (forall|i: int, j: int|
                    0 <= i < font.length && 0 <= j < font.height ==> k != #[trigger] glyph_pixel(
                        w.info,
                        x2,
                        w.y,
                        i,
                        j,
                    )) ==> r.0[k] == w.framebuffer@[k]
        }),
{
    let x2 = wrapping_add(w.x, font.length);
    let s = seq![ch];
    let g = glyph_index(ch);
    lemma_draw_glyph(w.framebuffer@, w.info, w.c, font, g, x2, w.y, 0);
    let dr = draw_glyph(w.framebuffer@, w.info, w.c, font, g, x2, w.y, 0);
    assert(write_from(dr.0, x2, w.y, w.info, w.c, font, s, 1) == (dr.0, x2, w.y, false));
    assert(write_result(w, font, s) == write_from(w.framebuffer@, w.x, w.y, w.info, w.c, font, s, 0));
}

} // verus!
