//! The text console behind the framebuffer: a ring of character lines with
//! a cursor, scrolling, colours and dirty-line tracking, and the PSF font
//! header parser. Drawing pixels is left to the caller.
use vstd::prelude::*;
use vstd::arithmetic::div_mod::{
    lemma_fundamental_div_mod, lemma_fundamental_div_mod_converse_div, lemma_fundamental_div_mod_converse_mod,
};

verus! {

/// Columns per line and lines in the ring.
pub const MAX_COLS: usize = 80;
pub const MAX_LINES: usize = 70;

pub const BLACK: u32 = 0x00000000;
pub const WHITE: u32 = 0xFFFFFFFF;
pub const RED: u32 = 0xFFFF5555;
pub const GREEN: u32 = 0xFF55FF55;
pub const BLUE: u32 = 0xFF5555FF;
pub const YELLOW: u32 = 0xFFFFFF55;
pub const CYAN: u32 = 0xFF55FFFF;
pub const MAGENTA: u32 = 0xFFFF55FF;
pub const ORANGE: u32 = 0xFFFF8800;
pub const PINK: u32 = 0xFFFF88CC;
pub const GRAY: u32 = 0xFF888888;
pub const DARK_GRAY: u32 = 0xFF444444;
pub const DARK_RED: u32 = 0xFFAA0000;
pub const DARK_GREEN: u32 = 0xFF00AA00;
pub const DARK_BLUE: u32 = 0xFF000082;
pub const LIME: u32 = 0xFF00FF00;
pub const TEAL: u32 = 0xFF008888;
pub const PURPLE: u32 = 0xFF8800FF;
pub const BROWN: u32 = 0xFF885500;
pub const SKY_BLUE: u32 = 0xFF87CEEB;

/// A character cell with its colours.
#[derive(Copy, Clone, Debug, PartialEq, Eq, Structural)]
pub struct ConsoleChar {
    pub ch: u8,
    pub fg_color: u32,
    pub bg_color: u32,
}

impl ConsoleChar {
    pub fn new(ch: u8, fg_color: u32, bg_color: u32) -> (r: Self)
        ensures
            r == (ConsoleChar { ch, fg_color, bg_color }),
    {
        ConsoleChar { ch, fg_color, bg_color }
    }

    pub open spec fn blank_spec(bg_color: u32) -> ConsoleChar {
        ConsoleChar { ch: 32, fg_color: 0xFFFFFFFF, bg_color }
    }

    /// A white space on `bg_color`.
    pub fn blank(bg_color: u32) -> (r: Self)
        ensures
            r == ConsoleChar::blank_spec(bg_color),
    {
        ConsoleChar { ch: 32, fg_color: 0xFFFFFFFF, bg_color }
    }
}

/// A line as a value: its cells, its width and whether it must be redrawn.
pub struct LineView {
    pub chars: Seq<ConsoleChar>,
    pub width: usize,
    pub dirty: bool,
}

/// One line of `MAX_COLS` cells of which the first `width` are shown.
pub struct ConsoleLine {
    chars: Vec<ConsoleChar>,
    width: usize,
    dirty: bool,
}

/// The line `l` with its first `width` cells blanked on `bg` and marked dirty.
pub open spec fn cleared(l: LineView, bg: u32) -> LineView {
    LineView {
        chars: Seq::new(
            l.chars.len(),
            |i: int| if i < l.width { ConsoleChar::blank_spec(bg) } else { l.chars[i] },
        ),
        dirty: true,
        ..l
    }
}

/// The line `l` marked dirty.
pub open spec fn dirtied(l: LineView) -> LineView {
    LineView { dirty: true, ..l }
}

impl ConsoleLine {
    pub closed spec fn view(&self) -> LineView {
        LineView { chars: self.chars@, width: self.width, dirty: self.dirty }
    }

    /// `MAX_COLS` cells, of which at most all are shown.
    pub open spec fn wf(&self) -> bool {
        self@.chars.len() == MAX_COLS && self@.width <= MAX_COLS
    }

    /// A clean line of blanks on `bg_color`, all columns shown.
    pub fn new(bg_color: u32) -> (r: Self)
        ensures
            r.wf(),
            r@.chars == Seq::new(MAX_COLS as nat, |i: int| ConsoleChar::blank_spec(bg_color)),
            r@.width == MAX_COLS,
            !r@.dirty,
    {
        let mut chars: Vec<ConsoleChar> = Vec::new();
        let mut i: usize = 0;
        while i < MAX_COLS
            invariant
                i <= MAX_COLS,
                chars@ == Seq::new(i as nat, |k: int| ConsoleChar::blank_spec(bg_color)),
            decreases MAX_COLS - i,
        {
            chars.push(ConsoleChar::blank(bg_color));
            i = i + 1;
            assert(chars@ =~= Seq::new(i as nat, |k: int| ConsoleChar::blank_spec(bg_color)));
        }
        ConsoleLine { chars, width: MAX_COLS, dirty: false }
    }

    /// Shows `width` columns, at most `MAX_COLS`.
    pub fn set_width(&mut self, width: usize)
        requires
            old(self).wf(),
        ensures
            final(self).wf(),
            final(self)@ == (LineView { width: if width < MAX_COLS { width } else { MAX_COLS }, ..old(self)@ }),
    {
        self.width = if width < MAX_COLS { width } else { MAX_COLS };
    }

    /// Blanks the shown columns on `bg_color` and marks the line dirty.
    pub fn clear(&mut self, bg_color: u32)
        requires
            old(self).wf(),
        ensures
            final(self).wf(),
            final(self)@ == cleared(old(self)@, bg_color),
    {
        let blank = ConsoleChar::blank(bg_color);
        let mut i: usize = 0;
        while i < self.width
            invariant
                blank == ConsoleChar::blank_spec(bg_color),
                self.wf(),
                self@.width == old(self)@.width,
                i <= self@.width,
                self@.chars.len() == old(self)@.chars.len(),
                forall|k: int| 0 <= k < i ==> self@.chars[k] == ConsoleChar::blank_spec(bg_color),
                forall|k: int| i <= k < self@.chars.len() ==> self@.chars[k] == old(self)@.chars[k],
                self@.dirty == old(self)@.dirty,
            decreases self@.width - i,
        {
            let ghost before = self@.chars;
            self.chars.set(i, blank);
            assert(self@.chars == before.update(i as int, ConsoleChar::blank_spec(bg_color)));
            i = i + 1;
        }
        self.dirty = true;
        assert(self@.chars =~= cleared(old(self)@, bg_color).chars);
    }

    /// Puts `ch` in column `col` if it is shown.
    pub fn set_char(&mut self, col: usize, ch: ConsoleChar)
        requires
            old(self).wf(),
        ensures
            final(self).wf(),
            col < old(self)@.width ==> final(self)@ == (LineView {
                chars: old(self)@.chars.update(col as int, ch),
                dirty: true,
                ..old(self)@
            }),
            col >= old(self)@.width ==> final(self)@ == old(self)@,
    {
        if col < self.width {
            self.chars.set(col, ch);
            self.dirty = true;
        }
    }

    /// The cell in column `col` if it is shown.
    pub fn get_char(&self, col: usize) -> (r: Option<ConsoleChar>)
        requires
            self.wf(),
        ensures
            r == if col < self@.width { Some(self@.chars[col as int]) } else { None::<ConsoleChar> },
    {
        if col < self.width {
            Some(self.chars[col])
        } else {
            None
        }
    }

    pub fn is_dirty(&self) -> (r: bool)
        ensures
            r == self@.dirty,
    {
        self.dirty
    }

    pub fn mark_clean(&mut self)
        ensures
            final(self)@ == (LineView { dirty: false, ..old(self)@ }),
    {
        self.dirty = false;
    }

    pub fn mark_dirty(&mut self)
        ensures
            final(self)@ == dirtied(old(self)@),
    {
        self.dirty = true;
    }

    pub fn width(&self) -> (r: usize)
        ensures
            r == self@.width,
    {
        self.width
    }
}

/// Position `l` places after `start` in the ring of lines.
pub open spec fn ring_idx(start: int, l: int) -> int {
    if start + l >= MAX_LINES {
        start + l - MAX_LINES
    } else {
        start + l
    }
}

/// How many places after `start` the physical line `p` stands.
pub open spec fn ring_offset(start: int, p: int) -> int {
    if p >= start {
        p - start
    } else {
        p + MAX_LINES - start
    }
}

/// The console as a value: the physical lines, the first shown line and the
/// number of lines, the cursor, the number of columns and the colours.
pub struct ConsoleState {
    pub phys: Seq<LineView>,
    pub start: int,
    pub count: int,
    pub col: int,
    pub line: int,
    pub cols: int,
    pub fg: u32,
    pub bg: u32,
}

/// The lines in order, oldest first.
pub open spec fn text(st: ConsoleState) -> Seq<LineView> {
    Seq::new(st.count as nat, |l: int| st.phys[ring_idx(st.start, l)])
}

/// Marks dirty every physical line that is among the first `n` after `start`.
pub open spec fn dirty_window(phys: Seq<LineView>, start: int, n: int) -> Seq<LineView> {
    Seq::new(phys.len(), |p: int| if ring_offset(start, p) < n { dirtied(phys[p]) } else { phys[p] })
}

/// Scrolling: a new blank line is added below the others, or, when the ring
/// is full, the oldest line is blanked and becomes the newest; the cursor
/// goes to the last line and every shown line is marked dirty.
pub open spec fn scroll_spec(st: ConsoleState) -> ConsoleState {
    if st.count < MAX_LINES {
        let k = ring_idx(st.start, st.count);
        ConsoleState {
            phys: dirty_window(st.phys.update(k, cleared(st.phys[k], st.bg)), st.start, st.count + 1),
            count: st.count + 1,
            line: st.count,
            ..st
        }
    } else {
        ConsoleState {
            phys: dirty_window(st.phys.update(st.start, cleared(st.phys[st.start], st.bg)), ring_idx(st.start, 1), st.count),
            start: ring_idx(st.start, 1),
            line: st.count - 1,
            ..st
        }
    }
}

/// Moves the cursor to the start of the next line, scrolling past the last.
pub open spec fn newline_spec(st: ConsoleState) -> ConsoleState {
    let st1 = ConsoleState { col: 0, line: st.line + 1, ..st };
    if st1.line >= st1.count {
        scroll_spec(st1)
    } else {
        st1
    }
}

/// Writes the printable byte `ch` at the cursor in the current colours and
/// advances it, wrapping at the last column.
pub open spec fn put_spec(st: ConsoleState, ch: u8) -> ConsoleState {
    let cc = ConsoleChar { ch, fg_color: st.fg, bg_color: st.bg };
    let phys = if st.line < st.count {
        let k = ring_idx(st.start, st.line);
        let l = st.phys[k];
        if st.col < l.width {
            st.phys.update(k, LineView { chars: l.chars.update(st.col, cc), dirty: true, ..l })
        } else {
            st.phys
        }
    } else {
        st.phys
    };
    let st1 = ConsoleState { phys, col: st.col + 1, ..st };
    if st1.col >= st1.cols {
        newline_spec(st1)
    } else {
        st1
    }
}

/// `n` spaces.
pub open spec fn put_spaces(st: ConsoleState, n: nat) -> ConsoleState
    decreases n,
{
    if n == 0 {
        st
    } else {
        put_spaces(put_spec(st, 32), (n - 1) as nat)
    }
}

/// One byte: newline, carriage return, a tab to the next multiple of four
/// columns, or a character.
pub open spec fn write_char_spec(st: ConsoleState, ch: u8) -> ConsoleState {
    if ch == 10 {
        newline_spec(st)
    } else if ch == 13 {
        ConsoleState { col: 0, ..st }
    } else if ch == 9 {
        put_spaces(st, (4 - (st.col % 4)) as nat)
    } else {
        put_spec(st, ch)
    }
}

/// The bytes of `text` one after another.
pub open spec fn write_text_spec(st: ConsoleState, text: Seq<u8>) -> ConsoleState
    decreases text.len(),
{
    if text.len() == 0 {
        st
    } else {
        write_char_spec(write_text_spec(st, text.drop_last()), text.last())
    }
}

/// The console state of the framebuffer text renderer, with the geometry it
/// draws with.
pub struct ScrollingTextRenderer {
    lines: Vec<ConsoleLine>,
    line_count: usize,
    start_line: usize,
    visible_lines: usize,
    cursor_col: usize,
    cursor_line: usize,
    cols: usize,
    pitch: usize,
    fb_width: usize,
    fb_height: usize,
    line_height: usize,
    char_width: usize,
    pub fg_color: u32,
    pub bg_color: u32,
    left_margin: usize,
    top_margin: usize,
    line_spacing: usize,
    bytes_per_glyph: usize,
    header_size: usize,
    font_data: Vec<u8>,
    back_buffer: Vec<u32>,
}

/// The pixels of the back buffer the console draws into.
pub const BACK_BUFFER_PIXELS: usize = 1920 * 1080;

/// The geometry the console draws with, in pixels and cells.
pub struct RenderGeometry {
    pub fb_width: int,
    pub fb_height: int,
    /// Pixels per framebuffer row: the pitch over four.
    pub ppr: int,
    pub line_height: int,
    pub char_width: int,
    pub line_spacing: int,
    pub left_margin: int,
    pub top_margin: int,
    pub cols: int,
    pub bytes_per_glyph: int,
    pub header_size: int,
}

/// What the console can draw with: a framebuffer whose rows hold at least
/// its width and that fits the back buffer, and a font whose header lies
/// inside it.
pub open spec fn init_ok(fb_width: usize, fb_height: usize, pitch: usize, font: Seq<u8>) -> bool {
    &&& fb_width <= pitch / 4
    &&& fb_height * (pitch / 4) <= BACK_BUFFER_PIXELS
    &&& psf_info(font).3 <= font.len()
}

/// The font layout read from a PSF header: glyph width, glyph height, bytes
/// per glyph and header size.
pub struct FontInfo {
    pub char_width: usize,
    pub charsize: usize,
    pub bytes_per_glyph: usize,
    pub header_size: usize,
}

/// The little-endian 32-bit word at `off`.
pub open spec fn le32(d: Seq<u8>, off: int) -> int {
    d[off] as int + d[off + 1] as int * 0x100 + d[off + 2] as int * 0x10000 + d[off + 3] as int * 0x1000000
}

fn read_le32(d: &[u8], off: usize) -> (r: u32)
    requires
        off + 4 <= d@.len(),
    ensures
        r as int == le32(d@, off as int),
{
    let b0 = d[off] as u32;
    let b1 = d[off + 1] as u32;
    let b2 = d[off + 2] as u32;
    let b3 = d[off + 3] as u32;
    b0 + b1 * 0x100 + b2 * 0x10000 + b3 * 0x1000000
}

/// What `parse_psf` reads from the font bytes: a PSF2 header (magic
/// 72 b5 4a 86, at least 32 bytes) gives width, height, bytes per glyph and
/// header size from its words at 28, 24, 20 and 8; a PSF1 header (magic
/// 36 04, at least 4 bytes) gives 8 columns and its glyph height byte at 3;
/// anything else is taken as an 8x16 font with a 4-byte header.
pub open spec fn psf_info(d: Seq<u8>) -> (int, int, int, int) {
    if d.len() >= 32 && d[0] == 0x72 && d[1] == 0xb5 && d[2] == 0x4a && d[3] == 0x86 {
        (le32(d, 28), le32(d, 24), le32(d, 20), le32(d, 8))
    } else if d.len() >= 4 && d[0] == 0x36 && d[1] == 0x04 {
        (8, d[3] as int, d[3] as int, 4)
    } else {
        (8, 16, 16, 4)
    }
}

pub fn parse_psf(data: &[u8]) -> (r: FontInfo)
    ensures
        (r.char_width as int, r.charsize as int, r.bytes_per_glyph as int, r.header_size as int) == psf_info(data@),
{
    if data.len() >= 32 && data[0] == 0x72 && data[1] == 0xb5 && data[2] == 0x4a && data[3] == 0x86 {
        let width = read_le32(data, 28) as usize;
        let height = read_le32(data, 24) as usize;
        let bpg = read_le32(data, 20) as usize;
        let hs = read_le32(data, 8) as usize;
        return FontInfo { char_width: width, charsize: height, bytes_per_glyph: bpg, header_size: hs };
    }
    if data.len() >= 4 && data[0] == 0x36 && data[1] == 0x04 {
        let cs = data[3] as usize;
        return FontInfo { char_width: 8, charsize: cs, bytes_per_glyph: cs, header_size: 4 };
    }
    FontInfo { char_width: 8, charsize: 16, bytes_per_glyph: 16, header_size: 4 }
}

impl ScrollingTextRenderer {
    pub closed spec fn state(&self) -> ConsoleState {
        ConsoleState {
            phys: self.lines@.map_values(|l: ConsoleLine| l@),
            start: self.start_line as int,
            count: self.line_count as int,
            col: self.cursor_col as int,
            line: self.cursor_line as int,
            cols: self.cols as int,
            fg: self.fg_color,
            bg: self.bg_color,
        }
    }

    pub closed spec fn visible_lines(&self) -> usize {
        self.visible_lines
    }

    /// The ring holds `MAX_LINES` well-formed lines, the first shown line and
    /// the count are in range, the cursor is in range and at most `MAX_COLS`
    /// columns are used.
    pub open spec fn wf(&self) -> bool {
        let st = self.state();
        &&& st.phys.len() == MAX_LINES
        &&& forall|i: int| 0 <= i < MAX_LINES ==> #[trigger] st.phys[i].chars.len() == MAX_COLS && st.phys[i].width <= MAX_COLS
        &&& 0 <= st.start < MAX_LINES
        &&& 0 <= st.count <= MAX_LINES
        &&& 0 <= st.cols <= MAX_COLS
        &&& 0 <= st.line <= MAX_LINES
        &&& 0 <= st.col <= MAX_COLS
        &&& self.visible_lines() <= MAX_LINES
    }

    /// The geometry the console draws with.
    pub closed spec fn geom(&self) -> RenderGeometry {
        RenderGeometry {
            fb_width: self.fb_width as int,
            fb_height: self.fb_height as int,
            ppr: (self.pitch / 4) as int,
            line_height: self.line_height as int,
            char_width: self.char_width as int,
            line_spacing: self.line_spacing as int,
            left_margin: self.left_margin as int,
            top_margin: self.top_margin as int,
            cols: self.cols as int,
            bytes_per_glyph: self.bytes_per_glyph as int,
            header_size: self.header_size as int,
        }
    }

    /// The font's bytes.
    pub closed spec fn font(&self) -> Seq<u8> {
        self.font_data@
    }

    /// The back buffer's pixels.
    pub closed spec fn pixels(&self) -> Seq<u32> {
        self.back_buffer@
    }

    /// The geometry, the font and the pixels together.
    pub open spec fn canvas(&self) -> (RenderGeometry, Seq<u8>, Seq<u32>) {
        (self.geom(), self.font(), self.pixels())
    }

    /// What drawing relies on (see `init_ok`), and that the columns used
    /// fit right of the margin.
    pub open spec fn render_wf(&self) -> bool {
        let g = self.geom();
        &&& self.pixels().len() == BACK_BUFFER_PIXELS
        &&& g.fb_width <= g.ppr
        &&& g.fb_height * g.ppr <= BACK_BUFFER_PIXELS
        &&& g.header_size <= self.font().len()
        &&& g.left_margin == 10 && g.top_margin == 10 && g.line_spacing == 2
        &&& g.cols == self.state().cols
        &&& (g.cols * g.char_width == 0 || g.left_margin + g.cols * g.char_width <= g.fb_width)
    }

    /// Sets up the console for a framebuffer of `fb_width` by `fb_height`
    /// pixels with the given row pitch and a PSF font: 10-pixel margins, 2
    /// pixels between lines, as many lines and columns as fit (at most
    /// `MAX_LINES` and `MAX_COLS`), every line blank on black, white text,
    /// a black back buffer.
    pub fn init(fb_width: usize, fb_height: usize, pitch: usize, _bpp: usize, font: Vec<u8>) -> (r: Self)
        requires
            init_ok(fb_width, fb_height, pitch, font@),
        ensures
            r.wf(),
            r.render_wf(),
            r.font() == font@,
            r.pixels() == Seq::new(BACK_BUFFER_PIXELS as nat, |i: int| 0u32),
            r.geom().char_width == psf_info(font@).0 && r.geom().line_height == psf_info(font@).1,
            r.geom().bytes_per_glyph == psf_info(font@).2 && r.geom().header_size == psf_info(font@).3,
            r.geom().fb_width == fb_width && r.geom().fb_height == fb_height && r.geom().ppr == pitch / 4,
            r.state().start == 0,
            r.state().count == min(rows_for(fb_height, psf_info(font@).1 as usize), MAX_LINES as int),
            r.visible_lines() == r.state().count,
            r.state().cols == min(cols_for(fb_width, psf_info(font@).0 as usize), MAX_COLS as int),
            r.state().col == 0 && r.state().line == 0,
            r.state().fg == WHITE && r.state().bg == BLACK,
            forall|i: int| 0 <= i < MAX_LINES ==> #[trigger] r.state().phys[i] == (LineView {
                chars: Seq::new(MAX_COLS as nat, |k: int| ConsoleChar::blank_spec(BLACK)),
                width: min(cols_for(fb_width, psf_info(font@).0 as usize), MAX_COLS as int) as usize,
                dirty: false,
            }),
    {
        let info = parse_psf(font.as_slice());
        let line_height = info.charsize;
        let left_margin: usize = 10;
        let top_margin: usize = 10;
        let line_spacing: usize = 2;
        let line_stride = line_height.saturating_add(line_spacing);
        let available_height = fb_height.saturating_sub(top_margin);
        let rows = if line_stride > 0 { available_height / line_stride } else { 0 };
        proof {
            if line_height + line_spacing > usize::MAX {
                assert(available_height < line_stride);
                let (a, d) = (available_height as int, line_height + line_spacing);
                assert(a / d == 0) by (nonlinear_arith)
                    requires a < d, a >= 0;
                let m = line_stride as int;
                assert(a / m == 0) by (nonlinear_arith)
                    requires a < m, a >= 0;
            } else {
                assert(line_stride == line_height + line_spacing);
            }
        }
        let available_width = fb_width.saturating_sub(left_margin);
        let cols = if info.char_width > 0 { available_width / info.char_width } else { 80 };
        let cols_clamped = if cols < MAX_COLS { cols } else { MAX_COLS };
        proof {
            if info.char_width > 0 {
                let (a, c) = (available_width as int, info.char_width as int);
                assert((a / c) * c <= a) by (nonlinear_arith)
                    requires a >= 0, c > 0;
                assert(cols_clamped * c <= (a / c) * c) by (nonlinear_arith)
                    requires cols_clamped <= a / c, c > 0, cols_clamped >= 0;
            }
        }
        let mut lines: Vec<ConsoleLine> = Vec::new();
        let mut i: usize = 0;
        while i < MAX_LINES
            invariant
                i <= MAX_LINES,
                cols_clamped <= MAX_COLS,
                lines@.len() == i,
                forall|k: int| 0 <= k < i ==> #[trigger] lines@[k]@ == (LineView {
                    chars: Seq::new(MAX_COLS as nat, |j: int| ConsoleChar::blank_spec(BLACK)),
                    width: cols_clamped,
                    dirty: false,
                }),
            decreases MAX_LINES - i,
        {
            let mut l = ConsoleLine::new(BLACK);
            l.set_width(cols_clamped);
            lines.push(l);
            i = i + 1;
        }
        let mut back_buffer: Vec<u32> = Vec::new();
        let mut k: usize = 0;
        while k < BACK_BUFFER_PIXELS
            invariant
                k <= BACK_BUFFER_PIXELS,
                back_buffer@ == Seq::new(k as nat, |j: int| 0u32),
            decreases BACK_BUFFER_PIXELS - k,
        {
            back_buffer.push(0);
            k = k + 1;
            assert(back_buffer@ =~= Seq::new(k as nat, |j: int| 0u32));
        }
        let visible = if rows < MAX_LINES { rows } else { MAX_LINES };
        ScrollingTextRenderer {
            lines,
            line_count: visible,
            start_line: 0,
            visible_lines: visible,
            cursor_col: 0,
            cursor_line: 0,
            cols: cols_clamped,
            pitch,
            fb_width,
            fb_height,
            line_height,
            char_width: info.char_width,
            fg_color: WHITE,
            bg_color: BLACK,
            left_margin,
            top_margin,
            line_spacing,
            bytes_per_glyph: info.bytes_per_glyph,
            header_size: info.header_size,
            font_data: font,
            back_buffer,
        }
    }

    proof fn lemma_lines_wf(&self)
        requires
            self.wf(),
        ensures
            self.lines@.len() == MAX_LINES,
            forall|k: int| 0 <= k < MAX_LINES ==> (#[trigger] self.lines@[k]).wf() && self.lines@[k]@ == self.state().phys[k],
    {
        assert forall|k: int| 0 <= k < MAX_LINES implies (#[trigger] self.lines@[k]).wf() && self.lines@[k]@ == self.state().phys[k] by {
            assert(self.state().phys[k].chars.len() == MAX_COLS);
        }
    }

    /// The physical line of logical line `logical`.
    fn physical_index(&self, logical: usize) -> (r: usize)
        requires
            self.wf(),
            logical < MAX_LINES,
        ensures
            r as int == ring_idx(self.state().start, logical as int),
            r < MAX_LINES,
    {
        let s = self.start_line;
        assert((s + logical) % 70 == if s + logical >= 70 { s + logical - 70 } else { s + logical }) by (nonlinear_arith)
            requires s < 70, logical < 70;
        (s + logical) % MAX_LINES
    }

    /// Line `logical_line` of the text, oldest first, if there is one.
    pub fn get_line(&self, logical_line: usize) -> (r: Option<&ConsoleLine>)
        requires
            self.wf(),
        ensures
            logical_line < self.state().count ==> (r matches Some(l) && l.wf() && l@ == text(
                self.state(),
            )[logical_line as int]),
            logical_line >= self.state().count ==> r is None,
    {
        if logical_line < self.line_count {
            proof {
                self.lemma_lines_wf();
            }
            let idx = self.physical_index(logical_line);
            Some(&self.lines[idx])
        } else {
            None
        }
    }

    /// Scrolls by one line (see `scroll_spec`).
    pub fn scroll_up(&mut self)
        requires
            old(self).wf(),
        ensures
            final(self).wf(),
            final(self).state() == scroll_spec(old(self).state()),
            final(self).visible_lines() == old(self).visible_lines(),
            final(self).canvas() == old(self).canvas(),
    {
        let count = self.line_count;
        let ghost st = self.state();
        proof { self.lemma_lines_wf(); }
        if count < MAX_LINES {
            let new_count = count + 1;
            self.line_count = new_count;
            let k = self.physical_index(new_count - 1);
            let bg = self.bg_color;
            self.lines[k].clear(bg);
            self.cursor_line = new_count - 1;
            proof {
                assert(self.state().phys =~= st.phys.update(k as int, cleared(st.phys[k as int], st.bg)));
            }
            self.mark_window_dirty(new_count);
            proof {
                assert(self.state() == scroll_spec(st));
            }
        } else {
            let old_start = self.start_line;
            let bg = self.bg_color;
            self.lines[old_start].clear(bg);
            proof {
                assert(self.state().phys =~= st.phys.update(old_start as int, cleared(st.phys[old_start as int], st.bg)));
            }
            let ns = (old_start + 1) % MAX_LINES;
            assert(ns as int == ring_idx(old_start as int, 1));
            self.start_line = ns;
            self.cursor_line = count - 1;
            self.mark_window_dirty(count);
        }
    }

    /// Marks the first `n` lines dirty.
    fn mark_window_dirty(&mut self, n: usize)
        requires
            old(self).wf(),
            n <= MAX_LINES,
        ensures
            final(self).wf(),
            final(self).state() == (ConsoleState {
                phys: dirty_window(old(self).state().phys, old(self).state().start, n as int),
                ..old(self).state()
            }),
            final(self).visible_lines() == old(self).visible_lines(),
            final(self).canvas() == old(self).canvas(),
    {
        let ghost st = self.state();
        let mut i: usize = 0;
        while i < n
            invariant
                self.wf(),
                i <= n <= MAX_LINES,
                self.state() == (ConsoleState { phys: self.state().phys, ..st }),
                self.visible_lines() == old(self).visible_lines(),
                self.canvas() == old(self).canvas(),
                self.state().phys.len() == MAX_LINES,
                forall|p: int| 0 <= p < MAX_LINES ==> #[trigger] self.state().phys[p] == if ring_offset(st.start, p) < i {
                    dirtied(st.phys[p])
                } else {
                    st.phys[p]
                },
            decreases n - i,
        {
            let k = self.physical_index(i);
            let ghost before = self.state().phys;
            proof { self.lemma_lines_wf(); }
            self.lines[k].mark_dirty();
            proof {
                assert(self.state().phys =~= before.update(k as int, dirtied(before[k as int])));
                assert forall|p: int| 0 <= p < MAX_LINES implies #[trigger] self.state().phys[p] == if ring_offset(st.start, p) < i + 1 {
                    dirtied(st.phys[p])
                } else {
                    st.phys[p]
                } by {
                    if p == k {
                        assert(ring_offset(st.start, p) == i);
                    } else {
                        assert(ring_offset(st.start, p) != i);
                    }
                }
            }
            i = i + 1;
        }
        assert(self.state().phys =~= dirty_window(st.phys, st.start, n as int));
    }

    /// Moves to the start of the next line, scrolling when past the last.
    fn newline(&mut self)
        requires
            old(self).wf(),
            old(self).state().line < MAX_LINES,
        ensures
            final(self).wf(),
            final(self).state() == newline_spec(old(self).state()),
            final(self).visible_lines() == old(self).visible_lines(),
            final(self).canvas() == old(self).canvas(),
    {
        self.cursor_col = 0;
        self.cursor_line = self.cursor_line + 1;
        assert(self.state().phys == old(self).state().phys);
        if self.cursor_line >= self.line_count {
            self.scroll_up();
        }
    }

    /// Writes a printable byte at the cursor (see `put_spec`).
    fn put(&mut self, ch: u8)
        requires
            old(self).wf(),
            old(self).state().line < MAX_LINES,
            old(self).state().col < MAX_COLS,
        ensures
            final(self).wf(),
            final(self).state() == put_spec(old(self).state(), ch),
            final(self).visible_lines() == old(self).visible_lines(),
            final(self).canvas() == old(self).canvas(),
    {
        let ghost st = self.state();
        let cc = ConsoleChar::new(ch, self.fg_color, self.bg_color);
        let col = self.cursor_col;
        proof { self.lemma_lines_wf(); }
        if self.cursor_line < self.line_count {
            let k = self.physical_index(self.cursor_line);
            self.lines[k].set_char(col, cc);
            proof {
                let l = st.phys[k as int];
                if (col as int) < l.width {
                    assert(self.state().phys =~= st.phys.update(k as int, LineView { chars: l.chars.update(col as int, cc), dirty: true, ..l }));
                } else {
                    assert(self.state().phys =~= st.phys);
                }
            }
        }
        self.cursor_col = self.cursor_col + 1;
        if self.cursor_col >= self.cols {
            self.newline();
        }
    }

    /// Writes one byte (see `write_char_spec`).
    pub fn write_char(&mut self, ch: u8)
        requires
            old(self).wf(),
            cursor_ok(old(self).state()),
        ensures
            final(self).wf(),
            cursor_ok(final(self).state()),
            final(self).state() == write_char_spec(old(self).state(), ch),
            final(self).visible_lines() == old(self).visible_lines(),
            final(self).canvas() == old(self).canvas(),
    {
        if ch == 10 {
            self.newline();
        } else if ch == 13 {
            self.cursor_col = 0;
        } else if ch == 9 {
            let c = self.cursor_col;
            assert(c & 3 == c % 4) by (bit_vector);
            let spaces = 4 - (c & 3);
            let mut i: usize = 0;
            let ghost st = self.state();
            while i < spaces
                invariant
                    self.wf(),
                    cursor_ok(self.state()),
                    i <= spaces <= 4,
                    self.state() == put_spaces(st, i as nat),
                    self.visible_lines() == old(self).visible_lines(),
                    self.canvas() == old(self).canvas(),
                self.canvas() == old(self).canvas(),
                decreases spaces - i,
            {
                proof { lemma_put_spaces_step(st, i as nat); }
                self.put(32);
                i = i + 1;
            }
        } else {
            self.put(ch);
        }
    }

    /// Writes the bytes of `text` (see `write_text_spec`); the caller redraws
    /// the dirty lines afterwards.
    pub fn write_text(&mut self, text: &[u8])
        requires
            old(self).wf(),
            cursor_ok(old(self).state()),
        ensures
            final(self).wf(),
            cursor_ok(final(self).state()),
            final(self).state() == write_text_spec(old(self).state(), text@),
            final(self).visible_lines() == old(self).visible_lines(),
            final(self).canvas() == old(self).canvas(),
    {
        let ghost st = self.state();
        let mut i: usize = 0;
        while i < text.len()
            invariant
                self.wf(),
                cursor_ok(self.state()),
                i <= text@.len(),
                self.state() == write_text_spec(st, text@.take(i as int)),
                self.visible_lines() == old(self).visible_lines(),
                self.canvas() == old(self).canvas(),
            decreases text@.len() - i,
        {
            proof {
                assert(text@.take(i + 1).drop_last() =~= text@.take(i as int));
                assert(text@.take(i + 1).last() == text@[i as int]);
            }
            self.write_char(text[i]);
            i = i + 1;
        }
        assert(text@.take(text@.len() as int) =~= text@);
    }

    /// The first pixel row of screen row `screen_row`; `None` when it lies
    /// past the addressable range.
    fn row_start(&self, screen_row: usize) -> (r: Option<usize>)
        ensures
            r matches Some(y) ==> y == row_y(self.geom(), screen_row as int),
            r is None ==> row_y(self.geom(), screen_row as int) > usize::MAX,
    {
        if screen_row == 0 {
            return Some(self.top_margin);
        }
        let stride = match self.line_height.checked_add(self.line_spacing) {
            Some(v) => v,
            None => {
                assert(screen_row * (self.line_height + self.line_spacing) >= self.line_height + self.line_spacing)
                    by (nonlinear_arith)
                    requires screen_row >= 1, self.line_height + self.line_spacing >= 0;
                return None;
            },
        };
        let off = match screen_row.checked_mul(stride) {
            Some(v) => v,
            None => {
                return None;
            },
        };
        self.top_margin.checked_add(off)
    }

    /// Draws screen row `screen_row` into the back buffer with the cells
    /// `chars`, of which the first `width` are shown (see
    /// `render_line_spec`). Glyphs of no bytes cannot be drawn: the row must
    /// then lie below the framebuffer.
    pub fn render_line_to_backbuffer(&mut self, screen_row: usize, chars: &[ConsoleChar], width: usize)
        requires
            old(self).wf(),
            old(self).render_wf(),
            chars@.len() == MAX_COLS,
            width <= MAX_COLS,
            screen_row < MAX_LINES,
            old(self).geom().bytes_per_glyph > 0 || row_y(old(self).geom(), screen_row as int) >= old(self).geom().fb_height,
        ensures
            final(self).state() == old(self).state(),
            final(self).visible_lines() == old(self).visible_lines(),
            final(self).geom() == old(self).geom(),
            final(self).font() == old(self).font(),
            final(self).pixels() == render_line_spec(
                old(self).pixels(),
                old(self).font(),
                old(self).geom(),
                screen_row as int,
                chars@,
                width as int,
                old(self).state().bg,
            ),
    {
        let ghost g = self.geom();
        let ghost bb0 = self.pixels();
        let ghost font = self.font();
        let ghost st = self.state();
        let ghost sr = screen_row as int;
        let bg = self.bg_color;
        let start = self.row_start(screen_row);
        if start.is_none() || start.unwrap() >= self.fb_height {
            proof {
                lemma_line_done(bb0, bb0, font, g, sr, chars@, width as int, bg, 0);
            }
            return;
        }
        let y = start.unwrap();
        assert(g.bytes_per_glyph > 0);
        let ppr = self.pitch / 4;
        let font_len = self.font_data.len();
        let max_glyphs = (font_len - self.header_size) / self.bytes_per_glyph;
        let bpl = self.char_width / 8 + if self.char_width % 8 == 0 { 0 } else { 1 };
        assert(bpl == (self.char_width + 7) / 8);
        let rows = if self.line_height < self.fb_height - y { self.line_height } else { self.fb_height - y };
        let cw = self.char_width;
        let cols = self.cols;
        let lm = self.left_margin;
        proof {
            if cols * cw == 0 {
                assert(cols == 0 || cw == 0) by (nonlinear_arith)
                    requires cols * cw == 0;
            }
        }
        let mut py: usize = 0;
        while py < rows
            invariant
                self.geom() == g && self.font() == font && self.state() == st,
                self.visible_lines() == old(self).visible_lines(),
                g.ppr == ppr && g.char_width == cw && g.cols == cols && g.left_margin == lm,
                g.line_height == self.line_height && g.fb_height == self.fb_height && g.fb_width == self.fb_width,
                g.header_size == self.header_size && g.bytes_per_glyph == self.bytes_per_glyph,
                font.len() == font_len,
                font_len >= g.header_size,
                max_glyphs == (font_len - g.header_size) / g.bytes_per_glyph,
                g.bytes_per_glyph > 0,
                bpl == (cw + 7) / 8,
                old(self).render_wf(),
                old(self).geom() == g,
                bb0 == old(self).pixels(),
                chars@.len() == MAX_COLS,
                width <= MAX_COLS,
                bg == st.bg,
                y == row_y(g, sr),
                y < g.fb_height,
                rows == min(g.line_height, g.fb_height - y),
                py <= rows,
                drawn_upto(self.pixels(), bb0, font, g, sr, chars@, width as int, bg, py as int, 0),
            decreases rows - py,
        {
            let pixel_row = y + py;
            let ghost pyi = py as int;
            let mut col: usize = 0;
            while col < cols
                invariant
                    self.geom() == g && self.font() == font && self.state() == st,
                    self.visible_lines() == old(self).visible_lines(),
                    g.ppr == ppr && g.char_width == cw && g.cols == cols && g.left_margin == lm,
                    g.line_height == self.line_height && g.fb_height == self.fb_height && g.fb_width == self.fb_width,
                    g.header_size == self.header_size && g.bytes_per_glyph == self.bytes_per_glyph,
                    font.len() == font_len,
                    font_len >= g.header_size,
                        max_glyphs == (font_len - g.header_size) / g.bytes_per_glyph,
                    g.bytes_per_glyph > 0,
                g.bytes_per_glyph > 0,
                    bpl == (cw + 7) / 8,
                    old(self).render_wf(),
                    old(self).geom() == g,
                    bb0 == old(self).pixels(),
                    chars@.len() == MAX_COLS,
                    width <= MAX_COLS,
                    bg == st.bg,
                    y == row_y(g, sr),
                    pixel_row == y + py,
                    pyi == py,
                    py < rows,
                    rows == min(g.line_height, g.fb_height - y),
                    col <= cols,
                    drawn_upto(self.pixels(), bb0, font, g, sr, chars@, width as int, bg, py as int, (col * cw) as int),
                decreases cols - col,
            {
                assert(col * cw + cw <= cols * cw) by (nonlinear_arith)
                    requires col < cols, cw >= 0;
                assert(col * cw + cw == (col + 1) * cw) by (nonlinear_arith);
                let x_offset = col * cw;
                let mut gx: usize = 0;
                if col < width {
                    let cc = chars[col];
                    let glyph_idx: usize = if (cc.ch as usize) < max_glyphs { cc.ch as usize } else { 0 };
                    assert(glyph_idx * g.bytes_per_glyph <= font_len - g.header_size) by (nonlinear_arith)
                        requires glyph_idx == 0 || glyph_idx < (font_len - g.header_size) / g.bytes_per_glyph,
                            g.bytes_per_glyph > 0, font_len >= g.header_size, glyph_idx >= 0;
                    let glyph_off = self.header_size + glyph_idx * self.bytes_per_glyph;
                    let line_off = py.checked_mul(bpl);
                    while gx < cw
                        invariant
                            self.geom() == g && self.font() == font && self.state() == st,
                            self.visible_lines() == old(self).visible_lines(),
                            g.ppr == ppr && g.char_width == cw && g.cols == cols && g.left_margin == lm,
                            g.line_height == self.line_height && g.fb_height == self.fb_height,
                            g.header_size == self.header_size && g.bytes_per_glyph == self.bytes_per_glyph,
                            font.len() == font_len,
                                        font == self.font_data@,
                            max_glyphs == (font_len - g.header_size) / g.bytes_per_glyph,
                    g.bytes_per_glyph > 0,
                g.bytes_per_glyph > 0,
                            bpl == (cw + 7) / 8,
                            old(self).render_wf(),
                            old(self).geom() == g,
                            bb0 == old(self).pixels(),
                            chars@.len() == MAX_COLS,
                            y == row_y(g, sr),
                            pixel_row == y + py,
                            py < rows,
                            rows == min(g.line_height, g.fb_height - y),
                            col < cols,
                            col < width,
                            x_offset == col * cw,
                            x_offset + cw <= cols * cw,
                            cc == chars@[col as int],
                            glyph_idx == if (cc.ch as int) < max_glyphs { cc.ch as int } else { 0 },
                            glyph_off == g.header_size + glyph_idx * g.bytes_per_glyph,
                            line_off matches Some(lo) ==> lo == py * bpl,
                            line_off is None ==> py * bpl > usize::MAX,
                            glyph_off <= font_len,
                            gx <= cw,
                            drawn_upto(self.pixels(), bb0, font, g, sr, chars@, width as int, bg, py as int, (x_offset + gx) as int),
                        decreases cw - gx,
                    {
                        let byte_idx = match line_off {
                            Some(lo) => match glyph_off.checked_add(lo) {
                                Some(b) => b.checked_add(gx / 8),
                                None => None,
                            },
                            None => None,
                        };
                        let bit_idx = (7 - gx % 8) as u8;
                        let color = match byte_idx {
                            Some(b) if b < font_len => if (self.font_data[b] >> bit_idx) & 1 == 1 {
                                cc.fg_color
                            } else {
                                cc.bg_color
                            },
                            _ => cc.bg_color,
                        };
                        let x = x_offset + gx;
                        proof {
                            lemma_fundamental_div_mod_converse_div(x as int, cw as int, col as int, gx as int);
                            lemma_fundamental_div_mod_converse_mod(x as int, cw as int, col as int, gx as int);
                            assert(color == line_pixel(font, g, chars@, width as int, bg, py as int, x as int));
                            assert((pixel_row + 1) * ppr <= g.fb_height * ppr) by (nonlinear_arith)
                                requires pixel_row < g.fb_height, ppr >= 0;
                            assert(pixel_row * ppr + ppr == (pixel_row + 1) * ppr) by (nonlinear_arith);
                        }
                        let idx = pixel_row * ppr + lm + x;
                        proof {
                            lemma_write_step(self.pixels(), bb0, font, g, sr, chars@, width as int, bg, py as int, x as int,
                                idx as int, color);
                        }
                        self.back_buffer.set(idx, color);
                        gx = gx + 1;
                    }
                } else {
                    while gx < cw
                        invariant
                            self.geom() == g && self.font() == font && self.state() == st,
                            self.visible_lines() == old(self).visible_lines(),
                            g.ppr == ppr && g.char_width == cw && g.cols == cols && g.left_margin == lm,
                            g.line_height == self.line_height && g.fb_height == self.fb_height,
                            old(self).render_wf(),
                            old(self).geom() == g,
                            bb0 == old(self).pixels(),
                            chars@.len() == MAX_COLS,
                            bg == st.bg,
                            bg == self.bg_color,
                            y == row_y(g, sr),
                            pixel_row == y + py,
                            py < rows,
                            rows == min(g.line_height, g.fb_height - y),
                            col < cols,
                            col >= width,
                            x_offset == col * cw,
                            x_offset + cw <= cols * cw,
                            gx <= cw,
                            drawn_upto(self.pixels(), bb0, font, g, sr, chars@, width as int, bg, py as int, (x_offset + gx) as int),
                        decreases cw - gx,
                    {
                        let x = x_offset + gx;
                        proof {
                            lemma_fundamental_div_mod_converse_div(x as int, cw as int, col as int, gx as int);
                            assert((pixel_row + 1) * ppr <= g.fb_height * ppr) by (nonlinear_arith)
                                requires pixel_row < g.fb_height, ppr >= 0;
                            assert(pixel_row * ppr + ppr == (pixel_row + 1) * ppr) by (nonlinear_arith);
                        }
                        let idx = pixel_row * ppr + lm + x;
                        proof {
                            lemma_write_step(self.pixels(), bb0, font, g, sr, chars@, width as int, bg, py as int, x as int,
                                idx as int, bg);
                        }
                        self.back_buffer.set(idx, bg);
                        gx = gx + 1;
                    }
                }
                col = col + 1;
            }
            proof {
                lemma_next_row(self.pixels(), bb0, font, g, sr, chars@, width as int, bg, py as int);
            }
            py = py + 1;
        }
        proof {
            lemma_line_done(self.pixels(), bb0, font, g, sr, chars@, width as int, bg, rows as int);
        }
    }

    /// The pixel rows of screen row `screen_row` to copy from the back
    /// buffer to the framebuffer, from the first to one past the last.
    pub fn flush_line(&self, screen_row: usize) -> (r: (usize, usize))
        requires
            self.render_wf(),
            screen_row < MAX_LINES,
        ensures
            (r.0 as int, r.1 as int) == flush_rows(self.geom(), screen_row as int),
    {
        let y = match self.row_start(screen_row) {
            Some(y) => y,
            None => {
                return (self.fb_height, self.fb_height);
            },
        };
        if y >= self.fb_height {
            return (self.fb_height, self.fb_height);
        }
        let end = if self.line_height < self.fb_height - y { y + self.line_height } else { self.fb_height };
        (y, end)
    }

    /// The back buffer, whose rows the caller copies to the framebuffer.
    pub fn back_buffer(&self) -> (r: &[u32])
        ensures
            r@ == self.pixels(),
    {
        self.back_buffer.as_slice()
    }

    /// The pixels per framebuffer row.
    pub fn pixels_per_row(&self) -> (r: usize)
        ensures
            r == self.geom().ppr,
    {
        self.pitch / 4
    }

    /// Draws the shown lines that changed since they were last drawn, marks
    /// them clean, and answers the screen rows drawn, for the caller to copy
    /// to the framebuffer (see `redraw_upto`).
    pub fn render_dirty(&mut self) -> (r: Vec<usize>)
        requires
            old(self).wf(),
            old(self).render_wf(),
            old(self).geom().bytes_per_glyph > 0 || !draws_glyph_rows(old(self).state(), old(self).visible_lines() as int, old(self).geom()),
        ensures
            final(self).wf(),
            final(self).render_wf(),
            final(self).visible_lines() == old(self).visible_lines(),
            final(self).geom() == old(self).geom(),
            final(self).font() == old(self).font(),
            ({
                let st = old(self).state();
                let vis = old(self).visible_lines() as int;
                let n = st.count - display_start(st, vis);
                let (px, phys, rows) = redraw_upto(st, vis, old(self).pixels(), old(self).font(), old(self).geom(), n as nat);
                &&& final(self).pixels() == px
                &&& final(self).state() == (ConsoleState { phys, ..st })
                &&& r@ == rows
            }),
    {
        let ghost st = self.state();
        let ghost vis = self.visible_lines() as int;
        let ghost g = self.geom();
        let ghost font = self.font();
        let ghost px0 = self.pixels();
        let count = self.line_count;
        let visible_count = if self.visible_lines < count { self.visible_lines } else { count };
        let start = count - visible_count;
        assert(start == display_start(st, vis));
        let mut rows: Vec<usize> = Vec::new();
        let mut k: usize = 0;
        proof {
            self.lemma_lines_wf();
        }
        while k < visible_count
            invariant
                self.wf(),
                self.render_wf(),
                self.visible_lines() == old(self).visible_lines(),
                self.geom() == g && self.font() == font,
                st == old(self).state(),
                vis == old(self).visible_lines(),
                g == old(self).geom() && font == old(self).font() && px0 == old(self).pixels(),
                count == st.count,
                visible_count <= count <= MAX_LINES,
                start == display_start(st, vis),
                visible_count == count - start,
                k <= visible_count,
                st.phys.len() == MAX_LINES,
                0 <= st.start < MAX_LINES,
                g.bytes_per_glyph > 0 || !draws_glyph_rows(st, vis, g),
                ({
                    let (px, phys, rs) = redraw_upto(st, vis, px0, font, g, k as nat);
                    &&& self.pixels() == px
                    &&& self.state() == (ConsoleState { phys, ..st })
                    &&& rows@ == rs
                }),
            decreases visible_count - k,
        {
            proof {
                self.lemma_lines_wf();
            }
            let logical = start + k;
            let idx = self.physical_index(logical);
            let ghost prev = redraw_upto(st, vis, px0, font, g, k as nat);
            proof {
                lemma_redraw_only_cleans(st, vis, px0, font, g, k as nat);
            }
            if self.lines[idx].is_dirty() {
                proof {
                    if g.bytes_per_glyph == 0 && row_y(g, k as int) < g.fb_height {
                        assert(st.phys[ring_idx(st.start, display_start(st, vis) + k)].dirty);
                        assert(draws_glyph_rows(st, vis, g));
                    }
                }
                let width = self.lines[idx].width();
                let mut chars: Vec<ConsoleChar> = Vec::new();
                let mut i: usize = 0;
                while i < MAX_COLS
                    invariant
                        self.wf(),
                        idx < MAX_LINES,
                        width == self.lines@[idx as int]@.width,
                        i <= MAX_COLS,
                        self.lines@.len() == MAX_LINES,
                        self.lines@[idx as int].wf(),
                        chars@ == drawn_cells(self.lines@[idx as int]@).take(i as int),
                    decreases MAX_COLS - i,
                {
                    if i < width {
                        let c = self.lines[idx].get_char(i);
                        match c {
                            Some(cc) => chars.push(cc),
                            None => chars.push(ConsoleChar::blank(0)),
                        }
                    } else {
                        chars.push(ConsoleChar::blank(0));
                    }
                    i = i + 1;
                    assert(chars@ =~= drawn_cells(self.lines@[idx as int]@).take(i as int));
                }
                assert(chars@ =~= drawn_cells(self.lines@[idx as int]@));
                self.render_line_to_backbuffer(k, chars.as_slice(), width);
                rows.push(k);
                proof {
                    self.lemma_lines_wf();
                }
                let ghost before = self.state().phys;
                self.lines[idx].mark_clean();
                proof {
                    assert(self.state().phys =~= before.update(idx as int, LineView { dirty: false, ..before[idx as int] }));
                    assert(self.state() == (ConsoleState { phys: redraw_upto(st, vis, px0, font, g, (k + 1) as nat).1, ..st }));
                }
            }
            k = k + 1;
        }
        rows
    }

    /// Fills the back buffer's rows that the framebuffer shows with
    /// `fill_color`, makes it the background, blanks every line and moves
    /// the cursor home. Answers how many pixels, from the start of the back
    /// buffer, the caller copies to the framebuffer.
    pub fn fill_screen(&mut self, fill_color: u32) -> (r: usize)
        requires
            old(self).wf(),
            old(self).render_wf(),
        ensures
            final(self).wf(),
            final(self).render_wf(),
            cursor_ok(final(self).state()),
            final(self).visible_lines() == old(self).visible_lines(),
            final(self).geom() == old(self).geom(),
            final(self).font() == old(self).font(),
            r == old(self).geom().fb_height * old(self).geom().ppr,
            final(self).pixels() == Seq::new(
                BACK_BUFFER_PIXELS as nat,
                |i: int| if i < r { fill_color } else { old(self).pixels()[i] },
            ),
            final(self).state() == (ConsoleState {
                phys: Seq::new(MAX_LINES as nat, |i: int| cleared(old(self).state().phys[i], fill_color)),
                col: 0,
                line: 0,
                bg: fill_color,
                ..old(self).state()
            }),
    {
        let ghost st = self.state();
        let ghost px0 = self.pixels();
        let pixels_per_row = self.pitch / 4;
        assert(self.fb_height * pixels_per_row <= BACK_BUFFER_PIXELS);
        let total = self.fb_height * pixels_per_row;
        let mut i: usize = 0;
        while i < total
            invariant
                total <= BACK_BUFFER_PIXELS,
                self.pixels().len() == BACK_BUFFER_PIXELS,
                px0 == old(self).pixels(),
                px0.len() == BACK_BUFFER_PIXELS,
                i <= total,
                forall|j: int| 0 <= j < BACK_BUFFER_PIXELS ==> #[trigger] self.pixels()[j] == if j < i { fill_color } else { px0[j] },
                self.state() == st,
                st == old(self).state(),
                self.geom() == old(self).geom() && self.font() == old(self).font(),
                self.visible_lines() == old(self).visible_lines(),
                self.wf(),
                self.render_wf(),
            decreases total - i,
        {
            self.back_buffer.set(i, fill_color);
            i = i + 1;
        }
        assert(self.pixels() =~= Seq::new(BACK_BUFFER_PIXELS as nat, |j: int| if j < total { fill_color } else { px0[j] }));
        self.bg_color = fill_color;
        self.cursor_col = 0;
        self.cursor_line = 0;
        let mut k: usize = 0;
        proof {
            self.lemma_lines_wf();
        }
        while k < MAX_LINES
            invariant
                k <= MAX_LINES,
                self.lines@.len() == MAX_LINES,
                forall|p: int| 0 <= p < MAX_LINES ==> (#[trigger] self.lines@[p]).wf(),
                forall|p: int| 0 <= p < MAX_LINES ==> #[trigger] self.lines@[p]@ == if p < k {
                    cleared(st.phys[p], fill_color)
                } else {
                    st.phys[p]
                },
                st == old(self).state(),
                st.phys.len() == MAX_LINES,
                forall|p: int| 0 <= p < MAX_LINES ==> #[trigger] st.phys[p].chars.len() == MAX_COLS && st.phys[p].width <= MAX_COLS,
                self.line_count == st.count && self.start_line == st.start && self.cols == st.cols,
                self.fg_color == st.fg && self.bg_color == fill_color,
                self.cursor_col == 0 && self.cursor_line == 0,
                self.geom() == old(self).geom() && self.font() == old(self).font(),
                self.pixels() == Seq::new(BACK_BUFFER_PIXELS as nat, |j: int| if j < total { fill_color } else { px0[j] }),
                self.visible_lines() == old(self).visible_lines(),
            decreases MAX_LINES - k,
        {
            self.lines[k].clear(fill_color);
            k = k + 1;
        }
        assert(self.state().phys =~= Seq::new(MAX_LINES as nat, |p: int| cleared(st.phys[p], fill_color)));
        total
    }

    /// Writes `text` and redraws the lines it changed, answering the screen
    /// rows to copy to the framebuffer.
    pub fn write_global(&mut self, text: &[u8]) -> (r: Vec<usize>)
        requires
            old(self).wf(),
            old(self).render_wf(),
            cursor_ok(old(self).state()),
            old(self).geom().bytes_per_glyph > 0 || !draws_glyph_rows(
                write_text_spec(old(self).state(), text@),
                old(self).visible_lines() as int,
                old(self).geom(),
            ),
        ensures
            final(self).wf(),
            final(self).render_wf(),
            cursor_ok(final(self).state()),
            final(self).visible_lines() == old(self).visible_lines(),
            final(self).geom() == old(self).geom(),
            final(self).font() == old(self).font(),
            ({
                let st = write_text_spec(old(self).state(), text@);
                let vis = old(self).visible_lines() as int;
                let n = st.count - display_start(st, vis);
                let (px, phys, rows) = redraw_upto(st, vis, old(self).pixels(), old(self).font(), old(self).geom(), n as nat);
                &&& final(self).pixels() == px
                &&& final(self).state() == (ConsoleState { phys, ..st })
                &&& r@ == rows
            }),
    {
        self.write_text(text);
        self.render_dirty()
    }

    /// The current text and background colours.
    pub fn colors(&self) -> (r: (u32, u32))
        ensures
            r == (self.state().fg, self.state().bg),
    {
        (self.fg_color, self.bg_color)
    }

    pub fn set_colors(&mut self, fg: u32, bg: u32)
        ensures
            final(self).state() == (ConsoleState { fg, bg, ..old(self).state() }),
            final(self).visible_lines() == old(self).visible_lines(),
            final(self).canvas() == old(self).canvas(),
    {
        self.fg_color = fg;
        self.bg_color = bg;
    }
}

/// The first pixel row of screen row `screen_row`.
pub open spec fn row_y(g: RenderGeometry, screen_row: int) -> int {
    g.top_margin + screen_row * (g.line_height + g.line_spacing)
}

/// Whether pixel `(gx, py)` of the glyph for `ch` is set: glyphs follow the
/// header, a character without a glyph is drawn with glyph 0, each glyph row
/// takes whole bytes and the leftmost pixel is the top bit; bits past the
/// end of the font are clear.
pub open spec fn glyph_bit(font: Seq<u8>, g: RenderGeometry, ch: u8, py: int, gx: int) -> bool {
    let max_glyphs = (font.len() - g.header_size) / g.bytes_per_glyph;
    let glyph_idx = if (ch as int) < max_glyphs { ch as int } else { 0 };
    let bytes_per_line = (g.char_width + 7) / 8;
    let byte_idx = g.header_size + glyph_idx * g.bytes_per_glyph + py * bytes_per_line + gx / 8;
    byte_idx < font.len() && (font[byte_idx] >> ((7 - gx % 8) as u8)) & 1 == 1
}

/// The colour of pixel `x` of pixel row `py` of a text line: in a shown
/// cell, the cell's foreground where its glyph is set and its background
/// elsewhere; past the shown cells, the console background `bg`.
pub open spec fn line_pixel(font: Seq<u8>, g: RenderGeometry, chars: Seq<ConsoleChar>, width: int, bg: u32, py: int, x: int) -> u32 {
    let col = x / g.char_width;
    let gx = x % g.char_width;
    if col < width {
        let cc = chars[col];
        if glyph_bit(font, g, cc.ch, py, gx) {
            cc.fg_color
        } else {
            cc.bg_color
        }
    } else {
        bg
    }
}

/// Whether back buffer pixel `p` belongs to screen row `screen_row`: on one
/// of its pixel rows inside the framebuffer, right of the margin, under one
/// of the columns.
pub open spec fn in_line(g: RenderGeometry, screen_row: int, p: int) -> bool {
    let y = row_y(g, screen_row);
    let row = p / g.ppr;
    let xm = p % g.ppr;
    &&& g.ppr > 0
    &&& y <= row < y + g.line_height
    &&& row < g.fb_height
    &&& g.left_margin <= xm
    &&& xm - g.left_margin < g.cols * g.char_width
}

/// The back buffer after drawing screen row `screen_row` with the cells
/// `chars`, of which the first `width` are shown, on background `bg`.
pub open spec fn render_line_spec(
    pixels: Seq<u32>,
    font: Seq<u8>,
    g: RenderGeometry,
    screen_row: int,
    chars: Seq<ConsoleChar>,
    width: int,
    bg: u32,
) -> Seq<u32> {
    Seq::new(
        pixels.len(),
        |p: int|
            if in_line(g, screen_row, p) {
                line_pixel(font, g, chars, width, bg, p / g.ppr - row_y(g, screen_row), p % g.ppr - g.left_margin)
            } else {
                pixels[p]
            },
    )
}

/// The pixel rows of screen row `screen_row` to copy to the framebuffer,
/// from the first to one past the last (none for a row below the
/// framebuffer).
pub open spec fn flush_rows(g: RenderGeometry, screen_row: int) -> (int, int) {
    let y = row_y(g, screen_row);
    if y >= g.fb_height {
        (g.fb_height, g.fb_height)
    } else {
        (y, min(y + g.line_height, g.fb_height))
    }
}

/// The cells drawn for a line: its shown cells, then blanks on black.
pub open spec fn drawn_cells(l: LineView) -> Seq<ConsoleChar> {
    Seq::new(MAX_COLS as nat, |i: int| if i < l.width { l.chars[i] } else { ConsoleChar::blank_spec(0) })
}

/// The first line shown: the last `visible` lines are on screen.
pub open spec fn display_start(st: ConsoleState, visible: int) -> int {
    let visible_count = if visible < st.count { visible } else { st.count };
    st.count - visible_count
}

/// Redrawing the dirty shown lines among the first `k` past the display
/// start: the pixels, the lines (cleaned as drawn) and the screen rows drawn.
pub open spec fn redraw_upto(st: ConsoleState, visible: int, pixels: Seq<u32>, font: Seq<u8>, g: RenderGeometry, k: nat) -> (
    Seq<u32>,
    Seq<LineView>,
    Seq<usize>,
)
    decreases k,
{
    if k == 0 {
        (pixels, st.phys, Seq::empty())
    } else {
        let (px, phys, rows) = redraw_upto(st, visible, pixels, font, g, (k - 1) as nat);
        let logical = display_start(st, visible) + k - 1;
        let idx = ring_idx(st.start, logical);
        let l = phys[idx];
        if !l.dirty {
            (px, phys, rows)
        } else {
            (
                render_line_spec(px, font, g, k - 1, drawn_cells(l), l.width as int, st.bg),
                phys.update(idx, LineView { dirty: false, ..l }),
                rows.push((k - 1) as usize),
            )
        }
    }
}

/// Some shown line that has changed starts inside the framebuffer, so that
/// redrawing it draws glyphs.
pub open spec fn draws_glyph_rows(st: ConsoleState, visible: int, g: RenderGeometry) -> bool {
    exists|k: int|
        0 <= k < st.count - display_start(st, visible) && #[trigger] st.phys[ring_idx(
            st.start,
            display_start(st, visible) + k,
        )].dirty && row_y(g, k) < g.fb_height
}

/// Redrawing only marks lines clean: a line still dirty was dirty before.
proof fn lemma_redraw_only_cleans(st: ConsoleState, visible: int, pixels: Seq<u32>, font: Seq<u8>, g: RenderGeometry, k: nat)
    requires
        st.phys.len() == MAX_LINES,
        0 <= st.start < MAX_LINES,
        0 <= display_start(st, visible),
        display_start(st, visible) + k <= MAX_LINES,
    ensures
        redraw_upto(st, visible, pixels, font, g, k).1.len() == st.phys.len(),
        forall|i: int| 0 <= i < st.phys.len() && #[trigger] redraw_upto(st, visible, pixels, font, g, k).1[i].dirty
            ==> st.phys[i].dirty,
    decreases k,
{
    if k > 0 {
        lemma_redraw_only_cleans(st, visible, pixels, font, g, (k - 1) as nat);
    }
}

/// Pixel `p` of the line comes before pixel `x` of its pixel row `py`.
pub open spec fn done_before(g: RenderGeometry, screen_row: int, p: int, py: int, x: int) -> bool {
    let rowoff = p / g.ppr - row_y(g, screen_row);
    let xoff = p % g.ppr - g.left_margin;
    rowoff < py || (rowoff == py && xoff < x)
}

/// The back buffer holds the line's pixels up to pixel `x` of its pixel
/// row `py`, and the old pixels elsewhere.
pub open spec fn drawn_upto(
    bb: Seq<u32>,
    bb0: Seq<u32>,
    font: Seq<u8>,
    g: RenderGeometry,
    sr: int,
    chars: Seq<ConsoleChar>,
    width: int,
    bg: u32,
    py: int,
    x: int,
) -> bool {
    &&& bb.len() == bb0.len()
    &&& forall|p: int|
        0 <= p < bb0.len() ==> #[trigger] bb[p] == if in_line(g, sr, p) && done_before(g, sr, p, py, x) {
            line_pixel(font, g, chars, width, bg, p / g.ppr - row_y(g, sr), p % g.ppr - g.left_margin)
        } else {
            bb0[p]
        }
}

/// Writing pixel `x` of pixel row `py` moves the drawing on by a pixel.
proof fn lemma_write_step(
    bb: Seq<u32>,
    bb0: Seq<u32>,
    font: Seq<u8>,
    g: RenderGeometry,
    sr: int,
    chars: Seq<ConsoleChar>,
    width: int,
    bg: u32,
    py: int,
    x: int,
    q: int,
    color: u32,
)
    requires
        drawn_upto(bb, bb0, font, g, sr, chars, width, bg, py, x),
        g.ppr > 0,
        0 <= py < g.line_height,
        row_y(g, sr) + py < g.fb_height,
        0 <= x < g.cols * g.char_width,
        g.left_margin + g.cols * g.char_width <= g.ppr,
        0 <= g.left_margin,
        0 <= row_y(g, sr),
        q == (row_y(g, sr) + py) * g.ppr + g.left_margin + x,
        0 <= q < bb0.len(),
        color == line_pixel(font, g, chars, width, bg, py, x),
    ensures
        drawn_upto(bb.update(q, color), bb0, font, g, sr, chars, width, bg, py, x + 1),
{
    let row = row_y(g, sr) + py;
    let xm = g.left_margin + x;
    assert(q == row * g.ppr + xm);
    lemma_fundamental_div_mod_converse_div(q, g.ppr, row, xm);
    lemma_fundamental_div_mod_converse_mod(q, g.ppr, row, xm);
    assert(g.ppr * row == row * g.ppr) by (nonlinear_arith);
    assert forall|p: int| 0 <= p < bb0.len() implies #[trigger] bb.update(q, color)[p] == if in_line(g, sr, p)
        && done_before(g, sr, p, py, x + 1) {
        line_pixel(font, g, chars, width, bg, p / g.ppr - row_y(g, sr), p % g.ppr - g.left_margin)
    } else {
        bb0[p]
    } by {
        if p != q {
            lemma_fundamental_div_mod(p, g.ppr);
            assert(bb.update(q, color)[p] == bb[p]);
            if in_line(g, sr, p) && p / g.ppr - row_y(g, sr) == py && p % g.ppr - g.left_margin == x {
                assert(p == g.ppr * (p / g.ppr) + p % g.ppr);
                assert(p == g.ppr * row + xm);
                assert(false);
            }
        }
    }
}

/// Past the last column of a pixel row, the next row starts.
proof fn lemma_next_row(
    bb: Seq<u32>,
    bb0: Seq<u32>,
    font: Seq<u8>,
    g: RenderGeometry,
    sr: int,
    chars: Seq<ConsoleChar>,
    width: int,
    bg: u32,
    py: int,
)
    requires
        drawn_upto(bb, bb0, font, g, sr, chars, width, bg, py, g.cols * g.char_width),
    ensures
        drawn_upto(bb, bb0, font, g, sr, chars, width, bg, py + 1, 0),
{
    assert forall|p: int| 0 <= p < bb0.len() && in_line(g, sr, p) implies done_before(g, sr, p, py, g.cols * g.char_width)
        == done_before(g, sr, p, py + 1, 0) by {}
}

/// Once every pixel row inside the framebuffer is drawn, the line is.
proof fn lemma_line_done(
    bb: Seq<u32>,
    bb0: Seq<u32>,
    font: Seq<u8>,
    g: RenderGeometry,
    sr: int,
    chars: Seq<ConsoleChar>,
    width: int,
    bg: u32,
    rows: int,
)
    requires
        drawn_upto(bb, bb0, font, g, sr, chars, width, bg, rows, 0),
        rows >= min(g.line_height, g.fb_height - row_y(g, sr)),
    ensures
        bb == render_line_spec(bb0, font, g, sr, chars, width, bg),
{
    assert(bb =~= render_line_spec(bb0, font, g, sr, chars, width, bg));
}

/// Writing `a` then `b` is writing `a + b`.
pub proof fn law_write_text_concat(st: ConsoleState, a: Seq<u8>, b: Seq<u8>)
    ensures
        write_text_spec(st, a + b) == write_text_spec(write_text_spec(st, a), b),
    decreases b.len(),
{
    if b.len() == 0 {
        assert(a + b =~= a);
    } else {
        law_write_text_concat(st, a, b.drop_last());
        assert((a + b).drop_last() =~= a + b.drop_last());
        assert((a + b).last() == b.last());
    }
}

/// Scrolling a full console drops its oldest line: every line moves up one
/// place, the last one is the old first line blanked, and all are marked
/// for redrawing.
pub proof fn law_scroll_full_drops_oldest(st: ConsoleState)
    requires
        st.count == MAX_LINES,
        0 <= st.start < MAX_LINES,
        st.phys.len() == MAX_LINES,
    ensures
        text(scroll_spec(st)).len() == MAX_LINES,
        forall|l: int| 0 <= l < MAX_LINES - 1 ==> #[trigger] text(scroll_spec(st))[l] == dirtied(text(st)[l + 1]),
        text(scroll_spec(st))[MAX_LINES - 1] == dirtied(cleared(text(st)[0], st.bg)),
{
    let s1 = scroll_spec(st);
    let ns = ring_idx(st.start, 1);
    assert forall|l: int| 0 <= l < MAX_LINES - 1 implies #[trigger] text(scroll_spec(st))[l] == dirtied(text(st)[l + 1]) by {
        assert(ring_idx(ns, l) == ring_idx(st.start, l + 1));
        assert(ring_idx(ns, l) != st.start);
    }
    assert(ring_idx(ns, MAX_LINES - 1) == st.start);
}

/// Scrolling a console that is not full adds a blank line below the others
/// and keeps them, all marked for redrawing.
pub proof fn law_scroll_grows(st: ConsoleState)
    requires
        0 <= st.count < MAX_LINES,
        0 <= st.start < MAX_LINES,
        st.phys.len() == MAX_LINES,
    ensures
        text(scroll_spec(st)).len() == st.count + 1,
        forall|l: int| 0 <= l < st.count ==> #[trigger] text(scroll_spec(st))[l] == dirtied(text(st)[l]),
        text(scroll_spec(st))[st.count] == dirtied(cleared(st.phys[ring_idx(st.start, st.count)], st.bg)),
{
    let k = ring_idx(st.start, st.count);
    assert forall|l: int| 0 <= l < st.count implies #[trigger] text(scroll_spec(st))[l] == dirtied(text(st)[l]) by {
        assert(ring_idx(st.start, l) != k);
        assert(ring_offset(st.start, ring_idx(st.start, l)) == l);
    }
    assert(ring_offset(st.start, k) == st.count);
}

/// The cursor is inside the console: on a line below the ring size and a
/// column below the number of columns (or at column 0).
pub open spec fn cursor_ok(st: ConsoleState) -> bool {
    &&& st.line < MAX_LINES
    &&& (st.col < st.cols || st.col == 0)
}

/// Spaces that fit on the line move the cursor right by their number and
/// leave it on its line.
proof fn lemma_put_spaces_no_wrap(st: ConsoleState, n: nat)
    requires
        0 <= st.col,
        st.col + n < st.cols,
    ensures
        put_spaces(st, n).col == st.col + n,
        put_spaces(st, n).line == st.line,
        put_spaces(st, n).cols == st.cols,
    decreases n,
{
    if n > 0 {
        let st1 = put_spec(st, 32);
        assert(st1.col == st.col + 1 && st1.line == st.line && st1.cols == st.cols);
        lemma_put_spaces_no_wrap(st1, (n - 1) as nat);
    }
}

/// A tab moves the cursor to the next column that is a multiple of four,
/// on the same line, when that column is still on the line.
pub proof fn law_tab_to_next_stop(st: ConsoleState)
    requires
        0 <= st.col,
        st.col - st.col % 4 + 4 < st.cols,
    ensures
        write_char_spec(st, 9).col == st.col - st.col % 4 + 4,
        write_char_spec(st, 9).col % 4 == 0,
        st.col < write_char_spec(st, 9).col <= st.col + 4,
        write_char_spec(st, 9).line == st.line,
{
    let n = (4 - st.col % 4) as nat;
    lemma_put_spaces_no_wrap(st, n);
}

proof fn lemma_put_spaces_step(st: ConsoleState, n: nat)
    ensures
        put_spaces(st, n + 1) == put_spec(put_spaces(st, n), 32),
    decreases n,
{
    reveal_with_fuel(put_spaces, 2);
    if n > 0 {
        lemma_put_spaces_step(put_spec(st, 32), (n - 1) as nat);
    }
}

/// Lines of `charsize` pixels plus 2 that fit below a 10-pixel margin.
pub open spec fn rows_for(fb_height: usize, charsize: usize) -> int {
    let avail = if fb_height >= 10 { fb_height - 10 } else { 0 };
    if charsize + 2 > 0 { avail / (charsize + 2) } else { 0 }
}

/// Columns of `char_width` pixels that fit right of a 10-pixel margin.
pub open spec fn cols_for(fb_width: usize, char_width: usize) -> int {
    let avail = if fb_width >= 10 { fb_width - 10 } else { 0 };
    if char_width > 0 { avail / (char_width as int) } else { 80 }
}

pub open spec fn min(a: int, b: int) -> int {
    if a < b { a } else { b }
}

} // verus!
