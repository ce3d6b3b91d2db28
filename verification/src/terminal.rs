//! The kernel's text terminal on the frame buffer: 8x8 glyphs on a grid of
//! character cells, a cursor, line wrapping and scrolling.

use vstd::prelude::*;

verus! {

/// Width and height of a character cell in pixels.
pub const CELL: usize = 8;

/// A linear frame buffer of 32-bit pixels, `stride` pixels per scan line.
pub struct FrameBuffer {
    pub pixels: Vec<u32>,
    pub width: usize,
    pub height: usize,
    pub stride: usize,
}

impl FrameBuffer {
    /// The pixels cover `height` scan lines of `stride` pixels, each at
    /// least `width` wide.
    pub open spec fn wf(&self) -> bool {
        &&& self.width <= self.stride
        &&& self.pixels@.len() == self.stride * self.height
    }
}

/// The terminal: the cursor cell (`x`, `y`), the frame buffer, the grid
/// size in cells, and the pixel value text is drawn in.
pub struct Terminal {
    pub x: usize,
    pub y: usize,
    pub fb: FrameBuffer,
    pub width: usize,
    pub height: usize,
    pub fg: u32,
}

/// The glyph of character code `index` in the basic font, as
/// `font8x8::legacy::BASIC_LEGACY` holds it: eight rows, bit `c` of a row
/// lighting column `c`.
pub uninterp spec fn legacy_glyph(index: usize) -> Option<[u8; 8]>;

/// `font8x8::legacy::BASIC_LEGACY.get(index)`: the table holds the 128
/// ASCII glyphs, so there is one exactly below 128. The glyphs themselves
/// are not described further.
#[verifier::external_body]
fn basic_legacy_glyph(index: usize) -> (r: Option<[u8; 8]>)
    ensures
        r == legacy_glyph(index),
        r is Some <==> index < 128,
{
    font8x8::legacy::BASIC_LEGACY.get(index).copied()
}

/// Whether bit `c` of a glyph row is set.
pub open spec fn lit(bits: u8, c: int) -> bool {
    (bits >> (c as u8)) & 1u8 == 1u8
}

/// The pixels with the set bits of one glyph row painted from index `start` on.
pub open spec fn paint_row(px: Seq<u32>, start: int, bits: u8, colour: u32) -> Seq<u32> {
    Seq::new(px.len(), |k: int| if start <= k < start + 8 && lit(bits, k - start) { colour } else { px[k] })
}

/// The pixels with the first `n` rows of a glyph painted at pixel (`x0`, `y0`).
pub open spec fn paint_glyph(
    px: Seq<u32>,
    stride: int,
    x0: int,
    y0: int,
    glyph: [u8; 8],
    colour: u32,
    n: int,
) -> Seq<u32>
    decreases n,
{
    if n <= 0 {
        px
    } else {
        paint_row(
            paint_glyph(px, stride, x0, y0, glyph, colour, n - 1),
            (y0 + n - 1) * stride + x0,
            glyph[n - 1],
            colour,
        )
    }
}

/// The pixels moved up by one cell row, the freed bottom rows black.
pub open spec fn scrolled(px: Seq<u32>, stride: int, fb_height: int) -> Seq<u32> {
    Seq::new(
        px.len(),
        |k: int| if k < stride * (fb_height - 8) { px[k + stride * 8] } else { 0u32 },
    )
}

impl Terminal {
    /// The grid fits the frame buffer, and the cursor lies in the grid.
    pub open spec fn wf(&self) -> bool {
        &&& self.fb.wf()
        &&& self.width == self.fb.width / 8
        &&& self.height == self.fb.height / 8
        &&& self.x < self.width
        &&& self.y < self.height
    }

    /// The pixels after drawing character `c` in `colour` in cell (`x`,
    /// `y`); a character without a glyph draws nothing.
    pub open spec fn drawn(&self, px: Seq<u32>, c: char, x: int, y: int, colour: u32) -> Seq<u32> {
        match legacy_glyph(c as u32 as usize) {
            None => px,
            Some(g) => paint_glyph(px, self.fb.stride as int, x * 8, y * 8, g, colour, 8),
        }
    }

    /// Cursor and pixels after moving past the last row: everything moves
    /// up one row and the cursor goes to the start of the last row.
    pub open spec fn scroll_check(&self, s: (int, int, Seq<u32>)) -> (int, int, Seq<u32>) {
        if s.1 >= self.height {
            (0, s.1 - 1, scrolled(s.2, self.fb.stride as int, self.fb.height as int))
        } else {
            s
        }
    }

    /// Cursor and pixels after writing `c`: a newline moves to the start of
    /// the next row; any other character is drawn at the cursor, which
    /// moves right and wraps to the next row at the end of a row.
    pub open spec fn step(&self, s: (int, int, Seq<u32>), c: char) -> (int, int, Seq<u32>) {
        if c == '\n' {
            self.scroll_check((0, s.1 + 1, s.2))
        } else {
            let px = self.drawn(s.2, c, s.0, s.1, self.fg);
            if s.0 + 1 >= self.width {
                self.scroll_check((0, s.1 + 1, px))
            } else {
                (s.0 + 1, s.1, px)
            }
        }
    }

    /// Cursor and pixels after writing the first `n` characters of `cs`.
    pub open spec fn steps(&self, s: (int, int, Seq<u32>), cs: Seq<char>, n: int) -> (int, int, Seq<u32>)
        decreases n,
    {
        if n <= 0 {
            s
        } else {
            self.step(self.steps(s, cs, n - 1), cs[n - 1])
        }
    }

    /// The cursor and pixels of the terminal.
    pub open spec fn state(&self) -> (int, int, Seq<u32>) {
        (self.x as int, self.y as int, self.fb.pixels@)
    }

    /// The terminal over `fb`: one cell per 8x8 pixels, the cursor at the top left.
    pub fn new(fb: FrameBuffer, fg: u32) -> (r: Terminal)
        ensures
            r.x == 0,
            r.y == 0,
            r.width == fb.width / 8,
            r.height == fb.height / 8,
            r.fb == fb,
            r.fg == fg,
    {
        let width = fb.width / CELL;
        let height = fb.height / CELL;
        Terminal { x: 0, y: 0, fb, width, height, fg }
    }

    /// Draws `c` in `colour` in the cursor's cell; a character without a
    /// glyph draws nothing. The cursor does not move.
    pub fn draw_char(&mut self, c: char, colour: u32)
        requires
            old(self).wf(),
        ensures
            final(self).fb.pixels@ == old(self).drawn(
                old(self).fb.pixels@,
                c,
                old(self).x as int,
                old(self).y as int,
                colour,
            ),
            final(self).fb.pixels@.len() == old(self).fb.pixels@.len(),
            final(self).x == old(self).x,
            final(self).y == old(self).y,
            final(self).fb.width == old(self).fb.width,
            final(self).fb.height == old(self).fb.height,
            final(self).fb.stride == old(self).fb.stride,
            final(self).width == old(self).width,
            final(self).height == old(self).height,
            final(self).fg == old(self).fg,
    {
        let g = match basic_legacy_glyph(c as u32 as usize) {
            Some(g) => g,
            None => return ,
        };
        let x = self.x * CELL;
        let y = self.y * CELL;
        let stride = self.fb.stride;
        let ghost p0 = self.fb.pixels@;
        let len = self.fb.pixels.len();
        proof {
            lemma_cell_in_buffer(self.x as int, self.y as int, self.width as int, self.height as int,
                self.fb.width as int, self.fb.height as int, stride as int);
        }
        let mut i: usize = 0;
        while i < CELL
            invariant
                i <= 8,
                x == old(self).x * 8,
                y == old(self).y * 8,
                x + 8 <= stride,
                (y + 8) * stride <= p0.len(),
                len == p0.len(),
                stride == self.fb.stride,
                self.fb.pixels@.len() == p0.len(),
                self.fb.pixels@ == paint_glyph(p0, stride as int, x as int, y as int, g, colour, i as int),
                self.x == old(self).x,
                self.y == old(self).y,
                self.fb.width == old(self).fb.width,
                self.fb.height == old(self).fb.height,
                self.width == old(self).width,
                self.height == old(self).height,
                self.fg == old(self).fg,
            decreases 8 - i,
        {
            proof {
                lemma_row_in_buffer(y as int, i as int, stride as int, x as int, p0.len() as int);
            }
            paint_row_exec(&mut self.fb.pixels, (y + i) * stride + x, g[i], colour);
            i = i + 1;
        }
    }

    /// Past the last row, moves everything up one row, blackens the freed
    /// bottom rows and puts the cursor at the start of the last row.
    pub fn handle_scrollback(&mut self)
        requires
            old(self).fb.wf(),
            old(self).height == old(self).fb.height / 8,
            old(self).y >= old(self).height ==> old(self).height >= 1,
        ensures
            final(self).state() == old(self).scroll_check(old(self).state()),
            final(self).fb.width == old(self).fb.width,
            final(self).fb.height == old(self).fb.height,
            final(self).fb.stride == old(self).fb.stride,
            final(self).width == old(self).width,
            final(self).height == old(self).height,
            final(self).fg == old(self).fg,
    {
        if self.y < self.height {
            return ;
        }
        let stride = self.fb.stride;
        let n = self.fb.pixels.len();
        proof {
            lemma_scroll_bounds(stride as int, self.fb.height as int);
        }
        let shift = stride * CELL;
        let keep = stride * (self.fb.height - CELL);
        let ghost p0 = self.fb.pixels@;
        let mut k: usize = 0;
        while k < keep
            invariant
                k <= keep,
                keep + shift == n,
                n == p0.len(),
                shift == stride * 8,
                keep == stride * (self.fb.height - 8),
                self.fb.pixels@.len() == n,
                forall|j: int| 0 <= j < k ==> #[trigger] self.fb.pixels@[j] == p0[j + shift],
                forall|j: int| k <= j < n ==> #[trigger] self.fb.pixels@[j] == p0[j],
                self.fb.width == old(self).fb.width,
                self.fb.height == old(self).fb.height,
                self.fb.stride == stride,
                self.width == old(self).width,
                self.height == old(self).height,
                self.fg == old(self).fg,
                self.x == old(self).x,
                self.y == old(self).y,
            decreases keep - k,
        {
            let v = self.fb.pixels[k + shift];
            self.fb.pixels.set(k, v);
            k = k + 1;
        }
        while k < n
            invariant
                keep <= k <= n,
                keep + shift == n,
                n == p0.len(),
                shift == stride * 8,
                keep == stride * (self.fb.height - 8),
                self.fb.pixels@.len() == n,
                forall|j: int| 0 <= j < keep ==> #[trigger] self.fb.pixels@[j] == p0[j + shift],
                forall|j: int| keep <= j < k ==> #[trigger] self.fb.pixels@[j] == 0u32,
                self.fb.width == old(self).fb.width,
                self.fb.height == old(self).fb.height,
                self.fb.stride == stride,
                self.width == old(self).width,
                self.height == old(self).height,
                self.fg == old(self).fg,
                self.x == old(self).x,
                self.y == old(self).y,
            decreases n - k,
        {
            self.fb.pixels.set(k, 0);
            k = k + 1;
        }
        assert(self.fb.pixels@ =~= scrolled(p0, stride as int, self.fb.height as int));
        self.y = self.y - 1;
        self.x = 0;
    }

    /// Writes the characters of `s` one by one at the cursor: a newline
    /// moves to the start of the next row, any other character is drawn in
    /// the terminal's colour and the cursor moves right, wrapping at the end
    /// of a row; past the last row the text scrolls up.
    pub fn write_str(&mut self, s: &str)
        requires
            old(self).wf(),
        ensures
            final(self).wf(),
            final(self).state() == old(self).steps(old(self).state(), s@, s@.len() as int),
            final(self).fb.width == old(self).fb.width,
            final(self).fb.height == old(self).fb.height,
            final(self).fb.stride == old(self).fb.stride,
            final(self).width == old(self).width,
            final(self).height == old(self).height,
            final(self).fg == old(self).fg,
    {
        broadcast use vstd::string::axiom_spec_iter;
        let ghost t0 = *old(self);
        for c in iter: s.chars()
            invariant
                self.wf(),
                self.fb.width == t0.fb.width,
                self.fb.height == t0.fb.height,
                self.fb.stride == t0.fb.stride,
                self.width == t0.width,
                self.height == t0.height,
                self.fg == t0.fg,
                iter.seq() == s@,
                self.state() == t0.steps(t0.state(), s@, iter.index() as int),
        {
            let ghost before = self.state();
            if c == '\n' {
                self.y = self.y + 1;
                self.x = 0;
                self.handle_scrollback();
            } else {
                let fg = self.fg;
                self.draw_char(c, fg);
                self.x = self.x + 1;
                if self.x >= self.width {
                    self.y = self.y + 1;
                    self.x = 0;
                    self.handle_scrollback();
                }
            }
            proof {
                assert(self.state() == t0.step(before, c));
            }
        }
    }

    /// Blackens the frame buffer and moves the cursor to the top left.
    pub fn clear(&mut self)
        ensures
            final(self).x == 0,
            final(self).y == 0,
            final(self).fb.pixels@ == Seq::new(old(self).fb.pixels@.len(), |k: int| 0u32),
            final(self).fb.width == old(self).fb.width,
            final(self).fb.height == old(self).fb.height,
            final(self).fb.stride == old(self).fb.stride,
            final(self).width == old(self).width,
            final(self).height == old(self).height,
            final(self).fg == old(self).fg,
    {
        let n = self.fb.pixels.len();
        let mut k: usize = 0;
        while k < n
            invariant
                k <= n,
                n == self.fb.pixels@.len(),
                n == old(self).fb.pixels@.len(),
                forall|j: int| 0 <= j < k ==> #[trigger] self.fb.pixels@[j] == 0u32,
                self.fb.width == old(self).fb.width,
                self.fb.height == old(self).fb.height,
                self.fb.stride == old(self).fb.stride,
                self.width == old(self).width,
                self.height == old(self).height,
                self.fg == old(self).fg,
            decreases n - k,
        {
            self.fb.pixels.set(k, 0);
            k = k + 1;
        }
        assert(self.fb.pixels@ =~= Seq::new(old(self).fb.pixels@.len(), |j: int| 0u32));
        self.x = 0;
        self.y = 0;
    }
}

/// The cell at (`x`, `y`) of a grid that fits the buffer lies in the buffer.
proof fn lemma_cell_in_buffer(x: int, y: int, width: int, height: int, fb_width: int, fb_height: int, stride: int)
    requires
        0 <= x < width,
        0 <= y < height,
        width == fb_width / 8,
        height == fb_height / 8,
        fb_width <= stride,
        0 <= fb_height,
    ensures
        x * 8 + 8 <= stride,
        (y * 8 + 8) * stride <= stride * fb_height,
{
    assert((y * 8 + 8) * stride <= fb_height * stride) by (nonlinear_arith)
        requires
            0 <= y,
            y + 1 <= fb_height / 8,
            0 <= stride,
            0 <= fb_height,
    ;
    assert(fb_height * stride == stride * fb_height) by (nonlinear_arith);
}

/// Row `i` of a cell at pixel (`x`, `y`) lies in the buffer.
proof fn lemma_row_in_buffer(y: int, i: int, stride: int, x: int, len: int)
    requires
        0 <= y,
        0 <= i < 8,
        0 <= x,
        x + 8 <= stride,
        (y + 8) * stride <= len,
    ensures
        (y + i) * stride + x + 8 <= len,
        0 <= (y + i) * stride,
{
    assert((y + i) * stride + stride <= (y + 8) * stride) by (nonlinear_arith)
        requires
            0 <= i < 8,
            0 <= stride,
    ;
    assert(0 <= (y + i) * stride) by (nonlinear_arith)
        requires
            0 <= y + i,
            0 <= stride,
    ;
}

/// The moved and the blackened part make up the buffer.
proof fn lemma_scroll_bounds(stride: int, fb_height: int)
    requires
        fb_height >= 8,
        stride >= 0,
    ensures
        stride * (fb_height - 8) + stride * 8 == stride * fb_height,
        0 <= stride * (fb_height - 8),
        0 <= stride * 8,
{
    assert(stride * (fb_height - 8) + stride * 8 == stride * fb_height) by (nonlinear_arith);
    assert(0 <= stride * (fb_height - 8)) by (nonlinear_arith)
        requires
            fb_height >= 8,
            stride >= 0,
    ;
}

/// Paints the set bits of a glyph row from index `start` on.
fn paint_row_exec(px: &mut Vec<u32>, start: usize, bits: u8, colour: u32)
    requires
        start + 8 <= old(px)@.len(),
    ensures
        final(px)@ == paint_row(old(px)@, start as int, bits, colour),
{
    let ghost p0 = px@;
    let len = px.len();
    let mut c: u8 = 0;
    while c < 8
        invariant
            c <= 8,
            len == p0.len(),
            start + 8 <= p0.len(),
            px@.len() == p0.len(),
            forall|k: int|
                0 <= k < p0.len() ==> #[trigger] px@[k] == if start <= k < start + c && lit(bits, k - start) {
                    colour
                } else {
                    p0[k]
                },
        decreases 8 - c,
    {
        assert((bits & (1u8 << c) != 0) == ((bits >> c) & 1u8 == 1u8)) by (bit_vector)
            requires
                c < 8,
        ;
        if bits & (1u8 << c) != 0 {
            px.set(start + c as usize, colour);
        }
        c = c + 1;
    }
    assert(px@ =~= paint_row(p0, start as int, bits, colour));
}

} // verus!
