//! Big-text rendering of the now-playing title.
//!
//! Every character gets a uniform 4-cell-wide, 4-cell-tall slot. A
//! character with an 8×8 bitmap in the `font8x8` Basic Latin, Latin-1 or
//! Hiragana sets is packed into 4×4 cells of Unicode quadrant blocks; any
//! other character is drawn as itself, centered in its blanked slot, so the
//! line stays aligned.

use vstd::prelude::*;

use font8x8::UnicodeFonts;

use crate::text::chars_of;

verus! {

/// Cells that one rendered glyph occupies horizontally.
pub const GLYPH_WIDTH: u16 = 4;

/// Cells that one rendered glyph occupies vertically.
pub const GLYPH_HEIGHT: u16 = 4;

/// The bitmap rows `font8x8::BASIC_FONTS` holds for `c`.
pub uninterp spec fn basic_glyph(c: char) -> Seq<u8>;

/// The bitmap rows `font8x8::LATIN_FONTS` holds for `c`.
pub uninterp spec fn latin_glyph(c: char) -> Seq<u8>;

/// The bitmap rows `font8x8::HIRAGANA_FONTS` holds for `c`.
pub uninterp spec fn hiragana_glyph(c: char) -> Seq<u8>;

/// Whether the Basic Latin set has `c`: U+0000 to U+007F.
pub open spec fn in_basic(c: char) -> bool {
    (c as u32) <= 0x7f
}

/// Whether the Latin-1 set has `c`: U+00A0 to U+00FF except U+00B3 and
/// U+00B4, which its table leaves out.
pub open spec fn in_latin(c: char) -> bool {
    0xa0 <= (c as u32) <= 0xff && (c as u32) != 0xb3 && (c as u32) != 0xb4
}

/// Whether the Hiragana set has `c`: U+3040 to U+309F.
pub open spec fn in_hiragana(c: char) -> bool {
    0x3040 <= (c as u32) <= 0x309f
}

/// `<BasicFonts as UnicodeFonts>::get`: a glyph exactly for U+0000 to
/// U+007F (its table lists each of them once); the bitmap is the table's.
#[verifier::external_body]
fn basic_get(c: char) -> (r: Option<[u8; 8]>)
    ensures
        r is Some <==> in_basic(c),
        r matches Some(g) ==> g@ == basic_glyph(c),
{
    font8x8::BASIC_FONTS.get(c)
}

/// `<LatinFonts as UnicodeFonts>::get`: a glyph exactly for the code
/// points its sorted table lists, U+00A0 to U+00FF without U+00B3 and
/// U+00B4; the bitmap is the table's.
#[verifier::external_body]
fn latin_get(c: char) -> (r: Option<[u8; 8]>)
    ensures
        r is Some <==> in_latin(c),
        r matches Some(g) ==> g@ == latin_glyph(c),
{
    font8x8::LATIN_FONTS.get(c)
}

/// `<HiraganaFonts as UnicodeFonts>::get`: a glyph exactly for U+3040 to
/// U+309F (its table lists each of them once); the bitmap is the table's.
#[verifier::external_body]
fn hiragana_get(c: char) -> (r: Option<[u8; 8]>)
    ensures
        r is Some <==> in_hiragana(c),
        r matches Some(g) ==> g@ == hiragana_glyph(c),
{
    font8x8::HIRAGANA_FONTS.get(c)
}

/// The bitmap used for `c`: from the Basic Latin set, else Latin-1, else
/// Hiragana.
pub open spec fn spec_glyph(c: char) -> Option<Seq<u8>> {
    if in_basic(c) {
        Some(basic_glyph(c))
    } else if in_latin(c) {
        Some(latin_glyph(c))
    } else if in_hiragana(c) {
        Some(hiragana_glyph(c))
    } else {
        None
    }
}

/// Whether `c` has a bitmap glyph.
pub open spec fn renderable(c: char) -> bool {
    in_basic(c) || in_latin(c) || in_hiragana(c)
}

/// Return the 8×8 glyph for `c` from any supported font set, or `None`.
pub fn glyph(c: char) -> (r: Option<[u8; 8]>)
    ensures
        r is Some <==> renderable(c),
        r matches Some(g) ==> spec_glyph(c) == Some(g@),
        r is None ==> spec_glyph(c) is None,
{
    match basic_get(c) {
        Some(g) => Some(g),
        None => match latin_get(c) {
            Some(g) => Some(g),
            None => hiragana_get(c),
        },
    }
}

/// Whether `c` gets the big quadrant rendering rather than the fallback.
pub fn is_renderable(c: char) -> (r: bool)
    ensures
        r == renderable(c),
{
    glyph(c).is_some()
}

/// Whether every character in `text` has a bitmap glyph.
pub fn supports_all(text: &str) -> (r: bool)
    ensures
        r == (forall|i: int| 0 <= i < text@.len() ==> renderable(#[trigger] text@[i])),
{
    let v = chars_of(text);
    let n = v.len();
    let mut i: usize = 0;
    while i < n
        invariant
            n == v@.len(),
            v@ == text@,
            i <= n,
            forall|j: int| 0 <= j < i ==> renderable(#[trigger] text@[j]),
        decreases n - i,
    {
        if !is_renderable(v[i]) {
            return false;
        }
        i = i + 1;
    }
    true
}

/// `n` capped at `u16::MAX`.
pub open spec fn cap_u16(n: int) -> int {
    if n > 65535 {
        65535
    } else {
        n
    }
}

/// Total width in cells that `text` occupies: four cells per character,
/// capped at `u16::MAX`.
pub fn rendered_width(text: &str) -> (r: u16)
    ensures
        r == cap_u16(cap_u16(text@.len() as int) * 4),
{
    let n = text.unicode_len();
    let count: u16 = if n > 65535 {
        65535
    } else {
        n as u16
    };
    if count > 16383 {
        65535
    } else {
        count * GLYPH_WIDTH
    }
}

/// The quadrant block characters, indexed by the set pixels: top-left 1,
/// top-right 2, bottom-left 4, bottom-right 8.
pub open spec fn quadrant_symbols() -> Seq<char> {
    seq![' ', '▘', '▝', '▀', '▖', '▌', '▞', '▛', '▗', '▚', '▐', '▜', '▄', '▙', '▟', '█']
}

/// The quadrant block for the four pixels of a cell.
pub open spec fn spec_quadrant(tl: u8, tr: u8, bl: u8, br: u8) -> char {
    quadrant_symbols()[(if tl > 0 {
        1int
    } else {
        0
    }) + (if tr > 0 {
        2int
    } else {
        0
    }) + (if bl > 0 {
        4int
    } else {
        0
    }) + (if br > 0 {
        8int
    } else {
        0
    })]
}

/// The quadrant block for the four pixels of a cell.
pub fn quadrant(tl: u8, tr: u8, bl: u8, br: u8) -> (r: char)
    ensures
        r == spec_quadrant(tl, tr, bl, br),
{
    let symbols: [char; 16] = [
        ' ',
        '▘',
        '▝',
        '▀',
        '▖',
        '▌',
        '▞',
        '▛',
        '▗',
        '▚',
        '▐',
        '▜',
        '▄',
        '▙',
        '▟',
        '█',
    ];
    let a: usize = if tl > 0 {
        1
    } else {
        0
    };
    let b: usize = if tr > 0 {
        2
    } else {
        0
    };
    let c: usize = if bl > 0 {
        4
    } else {
        0
    };
    let d: usize = if br > 0 {
        8
    } else {
        0
    };
    assert(symbols@ =~= quadrant_symbols());
    symbols[a + b + c + d]
}

/// A rectangle of terminal cells.
#[derive(Debug, Clone, Copy, PartialEq, Eq, Structural)]
pub struct Rect {
    pub x: u16,
    pub y: u16,
    pub width: u16,
    pub height: u16,
}

/// Horizontal placement of the title within its area.
#[derive(Debug, Clone, Copy, PartialEq, Eq, Structural)]
pub enum Alignment {
    Left,
    Center,
    Right,
}

/// What a cell is set to.
#[derive(Debug, Clone, Copy, PartialEq, Eq, Structural)]
pub enum CellSymbol {
    /// The cell shows this character.
    Char(char),
    /// The cell is the hidden second half of a wide character.
    Empty,
}

/// One cell write, in painting order.
#[derive(Debug, Clone, Copy, PartialEq, Eq, Structural)]
pub struct CellPaint {
    pub x: u16,
    pub y: u16,
    pub symbol: CellSymbol,
}

/// Display width that `unicode-width` reports for `c`, for characters that
/// are not control characters.
pub uninterp spec fn unicode_width_of(c: char) -> usize;

/// `<char as UnicodeWidthChar>::width`: `None` exactly for the control
/// characters (below U+0020, and U+007F to U+009F), `Some(1)` for the rest
/// of ASCII, and for the others the width its Unicode tables give.
#[verifier::external_body]
fn char_width(c: char) -> (r: Option<usize>)
    ensures
        r is None <==> ((c as u32) < 0x20 || (0x7f <= (c as u32) && (c as u32) < 0xa0)),
        (0x20 <= (c as u32) && (c as u32) < 0x7f) ==> r == Some(1usize),
        r matches Some(w) ==> w == unicode_width_of(c),
{
    unicode_width::UnicodeWidthChar::width(c)
}

/// Columns a fallback character is centered for: its display width (1 when
/// unknown), held to 1..=4.
pub open spec fn fallback_width(c: char) -> int {
    let w: int = if (c as u32) < 0x20 || (0x7f <= (c as u32) && (c as u32) < 0xa0) {
        1
    } else {
        let u = unicode_width_of(c) as int;
        if u > 65535 {
            1
        } else {
            u
        }
    };
    if w < 1 {
        1
    } else if w > 4 {
        4
    } else {
        w
    }
}

/// Pixel of the 8×8 bitmap `g` at `row`, `col` (non-zero when set).
pub open spec fn pixel(g: Seq<u8>, row: int, col: int) -> u8 {
    g[row] & (1u8 << (col as u8))
}

/// The symbol of cell (`r`, `c`) of a glyph: its four pixels.
pub open spec fn glyph_cell(g: Seq<u8>, r: int, c: int) -> char {
    spec_quadrant(
        pixel(g, 2 * r, 2 * c),
        pixel(g, 2 * r, 2 * c + 1),
        pixel(g, 2 * r + 1, 2 * c),
        pixel(g, 2 * r + 1, 2 * c + 1),
    )
}

/// What cell (`r`, `c`) of a slot is set to: the glyph's block, or a blank.
pub open spec fn slot_cell(g: Option<Seq<u8>>, r: int, c: int) -> CellSymbol {
    match g {
        Some(g) => CellSymbol::Char(glyph_cell(g, r, c)),
        None => CellSymbol::Char(' '),
    }
}

/// Row `r` of a slot at (`bx`, `by`), `ncols` cells wide.
pub open spec fn grid_row(g: Option<Seq<u8>>, bx: int, by: int, r: int, ncols: int) -> Seq<CellPaint> {
    Seq::new(
        ncols as nat,
        |c: int| CellPaint { x: (bx + c) as u16, y: (by + r) as u16, symbol: slot_cell(g, r, c) },
    )
}

/// The first `nrows` rows of a slot, top to bottom.
pub open spec fn grid(g: Option<Seq<u8>>, bx: int, by: int, nrows: int, ncols: int) -> Seq<CellPaint>
    decreases nrows,
{
    if nrows <= 0 {
        Seq::empty()
    } else {
        grid(g, bx, by, nrows - 1, ncols) + grid_row(g, bx, by, nrows - 1, ncols)
    }
}

/// Cells of a 4-cell extent starting at `b` that lie before `max`.
pub open spec fn span_within(b: int, max: int) -> int {
    if b >= max {
        0
    } else if max - b < 4 {
        max - b
    } else {
        4
    }
}

/// The writes of the slot of `c` at (`bx`, `by`): the glyph's blocks; or
/// for a character without glyph, blanks and then the character itself at
/// the slot's second row, centered for its width, with the hidden half of
/// a wide character after it.
pub open spec fn slot_paints(c: char, bx: int, by: int, max_x: int, max_y: int) -> Seq<CellPaint> {
    let nrows = span_within(by, max_y);
    let ncols = span_within(bx, max_x);
    match spec_glyph(c) {
        Some(g) => grid(Some(g), bx, by, nrows, ncols),
        None => {
            let w = fallback_width(c);
            let x = bx + (4 - w) / 2;
            let y = by + 1;
            let tail = if x < max_x && y < max_y {
                seq![CellPaint { x: x as u16, y: y as u16, symbol: CellSymbol::Char(c) }] + if w
                    == 2 && x + 1 < max_x {
                    seq![CellPaint { x: (x + 1) as u16, y: y as u16, symbol: CellSymbol::Empty }]
                } else {
                    Seq::empty()
                }
            } else {
                Seq::empty()
            };
            grid(None, bx, by, nrows, ncols) + tail
        },
    }
}

/// The writes of the first `k` slots.
pub open spec fn slots_paints(
    text: Seq<char>,
    start_x: int,
    by: int,
    max_x: int,
    max_y: int,
    k: int,
) -> Seq<CellPaint>
    decreases k,
{
    if k <= 0 {
        Seq::empty()
    } else {
        slots_paints(text, start_x, by, max_x, max_y, k - 1) + slot_paints(
            text[k - 1],
            start_x + 4 * (k - 1),
            by,
            max_x,
            max_y,
        )
    }
}

/// First column of the title for an alignment.
pub open spec fn start_column(alignment: Alignment, area: Rect, painted_w: int) -> int {
    match alignment {
        Alignment::Left => area.x as int,
        Alignment::Center => area.x + (area.width - painted_w) / 2,
        Alignment::Right => area.x + (area.width - painted_w),
    }
}

/// Whether a plan for `n` characters in `area` draws nothing: the area is
/// empty or less than four rows tall, or the text is empty or longer than
/// `u16::MAX` characters.
pub open spec fn plan_is_empty(n: int, area: Rect) -> bool {
    area.width == 0 || area.height < 4 || n == 0 || n > 65535
}

/// Columns that `n` characters occupy in `area`: four per character,
/// capped at `u16::MAX` and at the area's width.
pub open spec fn painted_width(n: int, area: Rect) -> int {
    let total_w = cap_u16(n * 4);
    if total_w < area.width {
        total_w
    } else {
        area.width as int
    }
}

/// Column of the first slot, saturated at `u16::MAX`.
pub open spec fn plan_start(text: Seq<char>, alignment: Alignment, area: Rect) -> int {
    cap_u16(start_column(alignment, area, painted_width(text.len() as int, area)))
}

/// Number of slots drawn: those that start left of the area's right edge
/// (saturated at `u16::MAX`), at most one per character.
pub open spec fn painted_slots(text: Seq<char>, alignment: Alignment, area: Rect) -> int {
    let n = text.len() as int;
    let room = (cap_u16(area.x + area.width) - plan_start(text, alignment, area) + 3) / 4;
    if room < n {
        room
    } else {
        n
    }
}

/// The cell writes that draw `text` in `area`: nothing when the plan is
/// empty; otherwise the slots of the characters, left to right, for as
/// many slots as start inside the area. The right edge and the bottom of
/// the four-row band saturate at `u16::MAX`.
pub open spec fn spec_paint_plan(text: Seq<char>, alignment: Alignment, area: Rect) -> Seq<CellPaint> {
    if plan_is_empty(text.len() as int, area) {
        Seq::empty()
    } else {
        slots_paints(
            text,
            plan_start(text, alignment, area),
            area.y as int,
            cap_u16(area.x + area.width),
            cap_u16(area.y + 4),
            painted_slots(text, alignment, area),
        )
    }
}

/// Whether drawing `text` in `area` stays within the two sums that are not
/// saturated: the start column (the area's column plus the space left of
/// the title) fits in `u16`, and a slot drawn as a native character has a
/// second row below the area's top row.
pub open spec fn plan_in_range(text: Seq<char>, alignment: Alignment, area: Rect) -> bool {
    let n = text.len() as int;
    plan_is_empty(n, area) || {
        &&& start_column(alignment, area, painted_width(n, area)) <= 65535
        &&& (area.y < 65535 || forall|i: int|
            0 <= i < painted_slots(text, alignment, area) ==> renderable(#[trigger] text[i]))
    }
}

/// Appends the first `nrows` rows of a slot at (`bx`, `by`).
fn push_grid(
    out: &mut Vec<CellPaint>,
    g: Option<[u8; 8]>,
    bx: u16,
    by: u16,
    nrows: u16,
    ncols: u16,
)
    requires
        nrows <= 4,
        ncols <= 4,
        bx + ncols <= 65535,
        by + nrows <= 65535,
    ensures
        final(out)@ == old(out)@ + grid(
            match g {
                Some(a) => Some(a@),
                None => None,
            },
            bx as int,
            by as int,
            nrows as int,
            ncols as int,
        ),
{
    let ghost gv = match g {
        Some(a) => Some(a@),
        None => None::<Seq<u8>>,
    };
    let ghost base = out@;
    let mut r: u16 = 0;
    while r < nrows
        invariant
            nrows <= 4,
            ncols <= 4,
            bx + ncols <= 65535,
            by + nrows <= 65535,
            r <= nrows,
            gv == (match g {
                Some(a) => Some(a@),
                None => None::<Seq<u8>>,
            }),
            out@ == base + grid(gv, bx as int, by as int, r as int, ncols as int),
        decreases nrows - r,
    {
        let ghost row_base = out@;
        let mut c: u16 = 0;
        while c < ncols
            invariant
                nrows <= 4,
                ncols <= 4,
                bx + ncols <= 65535,
                by + nrows <= 65535,
                r < nrows,
                c <= ncols,
                gv == (match g {
                    Some(a) => Some(a@),
                    None => None::<Seq<u8>>,
                }),
                out@ == row_base + grid_row(gv, bx as int, by as int, r as int, c as int),
            decreases ncols - c,
        {
            let symbol = match g {
                Some(a) => {
                    let row_top = (r * 2) as usize;
                    let row_bot = row_top + 1;
                    let col_left = (c * 2) as u8;
                    let col_right = col_left + 1;
                    let tl = a[row_top] & (1u8 << col_left);
                    let tr = a[row_top] & (1u8 << col_right);
                    let bl = a[row_bot] & (1u8 << col_left);
                    let br = a[row_bot] & (1u8 << col_right);
                    CellSymbol::Char(quadrant(tl, tr, bl, br))
                },
                None => CellSymbol::Char(' '),
            };
            assert(symbol == slot_cell(gv, r as int, c as int));
            out.push(CellPaint { x: bx + c, y: by + r, symbol });
            assert(out@ =~= row_base + grid_row(gv, bx as int, by as int, r as int, c + 1));
            c = c + 1;
        }
        assert(grid(gv, bx as int, by as int, r + 1, ncols as int) == grid(
            gv,
            bx as int,
            by as int,
            r as int,
            ncols as int,
        ) + grid_row(gv, bx as int, by as int, r as int, ncols as int));
        assert(out@ =~= base + grid(gv, bx as int, by as int, r + 1, ncols as int));
        r = r + 1;
    }
}

/// Cells of a 4-cell extent starting at `b` that lie before `max`.
fn span_len(b: u16, max: u16) -> (r: u16)
    ensures
        r == span_within(b as int, max as int),
        r <= 4,
{
    if b >= max {
        0
    } else if max - b < 4 {
        max - b
    } else {
        4
    }
}

/// Appends the writes of the slot of `c` at (`bx`, `by`).
fn push_slot(out: &mut Vec<CellPaint>, c: char, bx: u16, by: u16, max_x: u16, max_y: u16)
    requires
        bx < max_x,
        by <= max_y,
    ensures
        final(out)@ == old(out)@ + slot_paints(c, bx as int, by as int, max_x as int, max_y as int),
{
    let nrows = span_len(by, max_y);
    let ncols = span_len(bx, max_x);
    match glyph(c) {
        Some(g) => {
            push_grid(out, Some(g), bx, by, nrows, ncols);
        },
        None => {
            push_grid(out, None, bx, by, nrows, ncols);
            let ghost mid = out@;
            let w = char_width(c);
            let cw: u16 = match w {
                Some(v) => if v > 65535 {
                    1
                } else if v < 1 {
                    1
                } else if v > 4 {
                    4
                } else {
                    v as u16
                },
                None => 1,
            };
            assert(cw == fallback_width(c));
            let x_off = (GLYPH_WIDTH - cw) / 2;
            let x = bx as u32 + x_off as u32;
            let y = by as u32 + 1;
            if x < max_x as u32 && y < max_y as u32 {
                out.push(CellPaint { x: x as u16, y: y as u16, symbol: CellSymbol::Char(c) });
                if cw == 2 && x + 1 < max_x as u32 {
                    out.push(
                        CellPaint { x: (x + 1) as u16, y: y as u16, symbol: CellSymbol::Empty },
                    );
                }
            }
            assert(out@ =~= old(out)@ + slot_paints(
                c,
                bx as int,
                by as int,
                max_x as int,
                max_y as int,
            ));
        },
    }
}

/// A widget that draws one line of text at "big" resolution.
#[derive(Debug)]
pub struct BigTitle {
    text: String,
    alignment: Alignment,
}

impl BigTitle {
    /// The text this title draws.
    pub closed spec fn spec_text(&self) -> Seq<char> {
        self.text@
    }

    /// The alignment this title uses.
    pub closed spec fn spec_alignment(&self) -> Alignment {
        self.alignment
    }

    /// A left-aligned title for `text`.
    pub fn new(text: &str) -> (r: Self)
        ensures
            r.spec_text() == text@,
            r.spec_alignment() == Alignment::Left,
    {
        BigTitle { text: String::from_str(text), alignment: Alignment::Left }
    }

    /// The same title, centered.
    pub fn centered(self) -> (r: Self)
        ensures
            r.spec_text() == self.spec_text(),
            r.spec_alignment() == Alignment::Center,
    {
        BigTitle { text: self.text, alignment: Alignment::Center }
    }

    /// The cell writes that draw this title in `area`, in order.
    pub fn paint_plan(&self, area: Rect) -> (r: Vec<CellPaint>)
        requires
            plan_in_range(self.spec_text(), self.spec_alignment(), area),
        ensures
            r@ == spec_paint_plan(self.spec_text(), self.spec_alignment(), area),
    {
        let mut out: Vec<CellPaint> = Vec::new();
        if area.width == 0 || area.height < GLYPH_HEIGHT {
            return out;
        }
        let chars = chars_of(self.text.as_str());
        let n = chars.len();
        if n == 0 || n > 65535 {
            return out;
        }
        let ghost text = chars@;
        assert(self.text@ == text);
        let total_w: u16 = if n > 16383 {
            65535
        } else {
            (n as u16) * GLYPH_WIDTH
        };
        let painted_w = if total_w < area.width {
            total_w
        } else {
            area.width
        };
        let wide_start: u32 = match self.alignment {
            Alignment::Left => area.x as u32,
            Alignment::Center => area.x as u32 + ((area.width - painted_w) / 2) as u32,
            Alignment::Right => area.x as u32 + (area.width - painted_w) as u32,
        };
        let start_x = wide_start as u16;
        let max_x = area.x.saturating_add(area.width);
        let max_y = area.y.saturating_add(GLYPH_HEIGHT);
        let mut idx: usize = 0;
        while idx < n
            invariant
                n == chars@.len(),
                text == chars@,
                start_x <= max_x,
                start_x as int == plan_start(text, self.alignment, area),
                max_x as int == cap_u16(area.x + area.width),
                max_y as int == cap_u16(area.y + 4),
                area.y <= max_y,
                idx <= n,
                start_x + 4 * idx < max_x + 4,
                idx > 0 ==> start_x + 4 * (idx - 1) < max_x,
                out@ == slots_paints(text, start_x as int, area.y as int, max_x as int, max_y as int, idx as int),
            ensures
                idx <= n,
                idx > 0 ==> start_x + 4 * (idx - 1) < max_x,
                idx == n || start_x + 4 * idx >= max_x,
                out@ == slots_paints(text, start_x as int, area.y as int, max_x as int, max_y as int, idx as int),
            decreases n - idx,
        {
            let cx = start_x as u64 + 4 * (idx as u64);
            if cx >= max_x as u64 {
                break;
            }
            push_slot(&mut out, chars[idx], cx as u16, area.y, max_x, max_y);
            idx = idx + 1;
        }
        proof {
            let d: int = max_x - start_x;
            let room: int = (d + 3) / 4;
            assert(room == (cap_u16(area.x + area.width) - plan_start(text, self.alignment, area) + 3) / 4);
            if idx == 0 {
                assert(d == 0);
            } else {
                assert(4 * (idx - 1) < d);
                assert(idx <= room);
                if idx < n {
                    assert(4 * idx >= d);
                    assert(idx >= room);
                }
            }
            assert(idx as int == painted_slots(text, self.alignment, area));
        }
        out
    }
}

/// Whether every write of `ps` lies in columns `x0..x1` and rows `y0..y1`.
pub open spec fn cells_within(ps: Seq<CellPaint>, x0: int, x1: int, y0: int, y1: int) -> bool {
    forall|k: int|
        0 <= k < ps.len() ==> x0 <= (#[trigger] ps[k]).x < x1 && y0 <= ps[k].y < y1
}

/// Row `r` of a slot lies in its columns and on its row.
proof fn lemma_grid_row_within(g: Option<Seq<u8>>, bx: int, by: int, r: int, ncols: int)
    requires
        0 <= bx,
        0 <= by,
        0 <= r,
        0 <= ncols,
        bx + ncols <= 65535,
        by + r <= 65535,
    ensures
        cells_within(grid_row(g, bx, by, r, ncols), bx, bx + ncols, by + r, by + r + 1),
{
}

/// The rows of a slot lie in its columns and rows.
proof fn lemma_grid_within(g: Option<Seq<u8>>, bx: int, by: int, nrows: int, ncols: int)
    requires
        0 <= bx,
        0 <= by,
        0 <= ncols,
        bx + ncols <= 65535,
        by + nrows <= 65535,
    ensures
        cells_within(grid(g, bx, by, nrows, ncols), bx, bx + ncols, by, by + (if nrows < 0 {
            0
        } else {
            nrows
        })),
    decreases nrows,
{
    if nrows > 0 {
        lemma_grid_within(g, bx, by, nrows - 1, ncols);
        lemma_grid_row_within(g, bx, by, nrows - 1, ncols);
        let a = grid(g, bx, by, nrows - 1, ncols);
        let b = grid_row(g, bx, by, nrows - 1, ncols);
        assert forall|k: int| 0 <= k < (a + b).len() implies bx <= (#[trigger] (a + b)[k]).x < bx
            + ncols && by <= (a + b)[k].y < by + nrows by {
            if k < a.len() {
                assert((a + b)[k] == a[k]);
            } else {
                assert((a + b)[k] == b[k - a.len()]);
            }
        }
    }
}

/// The writes of a slot that starts inside the drawing region stay inside
/// it.
proof fn lemma_slot_within(c: char, bx: int, by: int, max_x: int, max_y: int)
    requires
        0 <= bx < max_x <= 65535,
        0 <= by <= max_y <= 65535,
    ensures
        cells_within(slot_paints(c, bx, by, max_x, max_y), bx, max_x, by, max_y),
{
    let nrows = span_within(by, max_y);
    let ncols = span_within(bx, max_x);
    match spec_glyph(c) {
        Some(g) => {
            lemma_grid_within(Some(g), bx, by, nrows, ncols);
        },
        None => {
            lemma_grid_within(None, bx, by, nrows, ncols);
            let a = grid(None, bx, by, nrows, ncols);
            let ps = slot_paints(c, bx, by, max_x, max_y);
            let t = ps.subrange(a.len() as int, ps.len() as int);
            assert(ps =~= a + t);
            assert forall|k: int| 0 <= k < ps.len() implies bx <= (#[trigger] ps[k]).x < max_x
                && by <= ps[k].y < max_y by {
                if k < a.len() {
                    assert(ps[k] == a[k]);
                }
            }
        },
    }
}

/// The writes of the first `k` slots stay inside the drawing region when
/// the last of them starts inside it.
proof fn lemma_slots_within(
    text: Seq<char>,
    start_x: int,
    by: int,
    max_x: int,
    max_y: int,
    k: int,
)
    requires
        0 <= k <= text.len(),
        0 <= start_x,
        k > 0 ==> start_x + 4 * (k - 1) < max_x,
        max_x <= 65535,
        0 <= by <= max_y <= 65535,
    ensures
        cells_within(slots_paints(text, start_x, by, max_x, max_y, k), start_x, max_x, by, max_y),
    decreases k,
{
    if k > 0 {
        lemma_slots_within(text, start_x, by, max_x, max_y, k - 1);
        let bx = start_x + 4 * (k - 1);
        lemma_slot_within(text[k - 1], bx, by, max_x, max_y);
        let a = slots_paints(text, start_x, by, max_x, max_y, k - 1);
        let b = slot_paints(text[k - 1], bx, by, max_x, max_y);
        assert forall|j: int| 0 <= j < (a + b).len() implies start_x <= (#[trigger] (a
            + b)[j]).x < max_x && by <= (a + b)[j].y < max_y by {
            if j < a.len() {
                assert((a + b)[j] == a[j]);
            } else {
                assert((a + b)[j] == b[j - a.len()]);
            }
        }
    }
}

/// A title draws only inside its area: every cell write of its plan lies in
/// the area's columns and rows.
pub proof fn law_paint_plan_within_area(text: Seq<char>, alignment: Alignment, area: Rect)
    ensures
        cells_within(
            spec_paint_plan(text, alignment, area),
            area.x as int,
            area.x + area.width,
            area.y as int,
            area.y + area.height,
        ),
{
    let n = text.len() as int;
    if !plan_is_empty(n, area) {
        let painted_w = painted_width(n, area);
        let start_x = plan_start(text, alignment, area);
        let max_x = cap_u16(area.x + area.width);
        let max_y = cap_u16(area.y + 4);
        let d = max_x - start_x;
        let k = painted_slots(text, alignment, area);
        assert(1 <= painted_w <= area.width);
        assert(area.x <= start_column(alignment, area, painted_w) < area.x + area.width);
        assert(area.x <= start_x <= max_x);
        assert(k >= 1 ==> 4 * (k - 1) < d);
        lemma_slots_within(text, start_x, area.y as int, max_x, max_y, k);
        let ps = spec_paint_plan(text, alignment, area);
        assert forall|j: int| 0 <= j < ps.len() implies area.x <= (#[trigger] ps[j]).x < area.x
            + area.width && area.y <= ps[j].y < area.y + area.height by {
            assert(start_x <= ps[j].x < max_x && area.y <= ps[j].y < max_y);
        }
    }
}

/// A character without a bitmap glyph is drawn as itself: a one-character
/// title in an area at least one slot wide and four rows tall writes that
/// character, on the slot's second row.
pub proof fn law_unrenderable_char_drawn_as_itself(c: char, alignment: Alignment, area: Rect)
    requires
        !renderable(c),
        area.width >= 4,
        area.height >= 4,
        area.x + area.width <= 65535,
        area.y + area.height <= 65535,
    ensures
        exists|k: int|
            0 <= k < spec_paint_plan(seq![c], alignment, area).len() && (#[trigger] spec_paint_plan(
                seq![c],
                alignment,
                area,
            )[k]).symbol == CellSymbol::Char(c) && spec_paint_plan(seq![c], alignment, area)[k].y
                == area.y + 1,
{
    let text = seq![c];
    assert(painted_width(1, area) == 4);
    let start_x = start_column(alignment, area, 4);
    let max_x = area.x + area.width;
    let max_y = area.y + 4;
    assert(start_x + 4 <= max_x);
    assert(plan_start(text, alignment, area) == start_x);
    let room = (max_x - start_x + 3) / 4;
    assert(room >= 1);
    assert(painted_slots(text, alignment, area) == 1);
    let plan = spec_paint_plan(text, alignment, area);
    assert(plan == slots_paints(text, start_x, area.y as int, max_x, max_y, 1));
    assert(slots_paints(text, start_x, area.y as int, max_x, max_y, 0) == Seq::<CellPaint>::empty());
    let slot = slot_paints(c, start_x, area.y as int, max_x, max_y);
    assert(plan =~= slot);
    let g = grid(None, start_x, area.y as int, 4, 4);
    assert(span_within(area.y as int, max_y) == 4);
    assert(span_within(start_x, max_x) == 4);
    let w = fallback_width(c);
    let x = start_x + (4 - w) / 2;
    assert(x < max_x);
    let k = g.len() as int;
    assert(plan[k] == CellPaint { x: x as u16, y: (area.y + 1) as u16, symbol: CellSymbol::Char(c) });
}

/// Bit `k` of the bitmap row `b`, as 0 or 1; bit 0 is the leftmost pixel
/// of the row.
pub open spec fn bit_at(b: u8, k: int) -> int {
    ((b >> (k as u8)) & 1u8) as int
}

/// Index into [`quadrant_symbols`] of the block for the 2×2 pixels whose
/// top-left pixel is at (`row`, `col`) of `g`: top-left 1, top-right 2,
/// bottom-left 4, bottom-right 8.
pub open spec fn block_index(g: Seq<u8>, row: int, col: int) -> int {
    bit_at(g[row], col) + 2 * bit_at(g[row], col + 1) + 4 * bit_at(g[row + 1], col) + 8 * bit_at(
        g[row + 1],
        col + 1,
    )
}

/// A masked pixel is set exactly when its bit is 1.
proof fn lemma_mask_is_bit(b: u8, k: u8)
    requires
        k < 8,
    ensures
        (b & (1u8 << k) > 0) == (((b >> k) & 1u8) == 1u8),
        ((b >> k) & 1u8) <= 1u8,
{
    assert((b & (1u8 << k) > 0) == (((b >> k) & 1u8) == 1u8)) by (bit_vector)
        requires
            k < 8,
    ;
    assert(((b >> k) & 1u8) <= 1u8) by (bit_vector);
}

/// A slot with a bitmap glyph that has room for all its cells writes its
/// sixteen cells row by row, left to right; cell (`r`, `c`) sits at
/// (`bx + c`, `by + r`) and shows the block of pixel rows `2r`, `2r + 1`
/// and pixel columns `2c`, `2c + 1` of the glyph, pixel column `k` being
/// bit `k` of a row (bit 0 leftmost).
pub proof fn law_glyph_slot_cells(c: char, g: Seq<u8>, bx: int, by: int, max_x: int, max_y: int)
    requires
        spec_glyph(c) == Some(g),
        0 <= bx,
        bx + 4 <= max_x <= 65535,
        0 <= by,
        by + 4 <= max_y <= 65535,
    ensures
        slot_paints(c, bx, by, max_x, max_y).len() == 16,
        forall|r: int, k: int|
            0 <= r < 4 && 0 <= k < 4 ==> (#[trigger] slot_paints(c, bx, by, max_x, max_y)[4 * r
                + k]) == (CellPaint {
                x: (bx + k) as u16,
                y: (by + r) as u16,
                symbol: CellSymbol::Char(quadrant_symbols()[block_index(g, 2 * r, 2 * k)]),
            }),
{
    let ps = slot_paints(c, bx, by, max_x, max_y);
    assert(span_within(by, max_y) == 4);
    assert(span_within(bx, max_x) == 4);
    let gs = Some(g);
    assert(ps == grid(gs, bx, by, 4, 4));
    let r0 = grid_row(gs, bx, by, 0, 4);
    let r1 = grid_row(gs, bx, by, 1, 4);
    let r2 = grid_row(gs, bx, by, 2, 4);
    let r3 = grid_row(gs, bx, by, 3, 4);
    assert(grid(gs, bx, by, 0, 4) == Seq::<CellPaint>::empty());
    assert(grid(gs, bx, by, 1, 4) =~= r0);
    assert(grid(gs, bx, by, 2, 4) =~= r0 + r1);
    assert(grid(gs, bx, by, 3, 4) =~= r0 + r1 + r2);
    assert(ps =~= r0 + r1 + r2 + r3);
    assert forall|r: int, k: int| 0 <= r < 4 && 0 <= k < 4 implies (#[trigger] ps[4 * r + k])
        == CellPaint {
        x: (bx + k) as u16,
        y: (by + r) as u16,
        symbol: CellSymbol::Char(quadrant_symbols()[block_index(g, 2 * r, 2 * k)]),
    } by {
        assert(ps[4 * r + k] == grid_row(gs, bx, by, r, 4)[k]);
        lemma_mask_is_bit(g[2 * r], (2 * k) as u8);
        lemma_mask_is_bit(g[2 * r], (2 * k + 1) as u8);
        lemma_mask_is_bit(g[2 * r + 1], (2 * k) as u8);
        lemma_mask_is_bit(g[2 * r + 1], (2 * k + 1) as u8);
        assert(glyph_cell(g, r, k) == quadrant_symbols()[block_index(g, 2 * r, 2 * k)]);
    }
}

/// The writes of the first slot come first.
proof fn lemma_first_slot_leads(
    text: Seq<char>,
    start_x: int,
    by: int,
    max_x: int,
    max_y: int,
    k: int,
    j: int,
)
    requires
        k >= 1,
        0 <= j < slot_paints(text[0], start_x, by, max_x, max_y).len(),
    ensures
        j < slots_paints(text, start_x, by, max_x, max_y, k).len(),
        slots_paints(text, start_x, by, max_x, max_y, k)[j] == slot_paints(
            text[0],
            start_x,
            by,
            max_x,
            max_y,
        )[j],
    decreases k,
{
    if k == 1 {
        assert(slots_paints(text, start_x, by, max_x, max_y, 0) == Seq::<CellPaint>::empty());
        assert(slots_paints(text, start_x, by, max_x, max_y, 1) =~= slot_paints(
            text[0],
            start_x,
            by,
            max_x,
            max_y,
        ));
    } else {
        lemma_first_slot_leads(text, start_x, by, max_x, max_y, k - 1, j);
    }
}

/// A title whose first character has a bitmap glyph, in an area at least
/// one slot wide and four rows tall, begins its plan with that glyph's
/// sixteen cells at the start column (the area's own column when left
/// aligned): cell (`r`, `c`) at column `c` and row `r` of the slot shows the
/// block of pixel rows `2r`, `2r + 1` and pixel columns `2c`, `2c + 1`,
/// pixel column `k` being bit `k` of a row (bit 0 leftmost).
pub proof fn law_title_begins_with_first_glyph(
    text: Seq<char>,
    alignment: Alignment,
    area: Rect,
    g: Seq<u8>,
)
    requires
        1 <= text.len() <= 65535,
        spec_glyph(text[0]) == Some(g),
        area.width >= 4,
        area.height >= 4,
        area.x + area.width <= 65535,
        area.y + 4 <= 65535,
    ensures
        alignment == Alignment::Left ==> plan_start(text, alignment, area) == area.x,
        forall|r: int, k: int|
            0 <= r < 4 && 0 <= k < 4 ==> (#[trigger] spec_paint_plan(text, alignment, area)[4 * r
                + k]) == (CellPaint {
                x: (plan_start(text, alignment, area) + k) as u16,
                y: (area.y + r) as u16,
                symbol: CellSymbol::Char(quadrant_symbols()[block_index(g, 2 * r, 2 * k)]),
            }),
{
    let n = text.len() as int;
    let pw = painted_width(n, area);
    assert(4 <= pw <= area.width);
    let sx = plan_start(text, alignment, area);
    assert(area.x <= sx && sx + 4 <= area.x + area.width);
    let max_x = area.x + area.width;
    let max_y = area.y + 4;
    let k = painted_slots(text, alignment, area);
    assert(k >= 1);
    law_glyph_slot_cells(text[0], g, sx, area.y as int, max_x, max_y);
    assert forall|r: int, c: int| 0 <= r < 4 && 0 <= c < 4 implies (#[trigger] spec_paint_plan(
        text,
        alignment,
        area,
    )[4 * r + c]) == (CellPaint {
        x: (sx + c) as u16,
        y: (area.y + r) as u16,
        symbol: CellSymbol::Char(quadrant_symbols()[block_index(g, 2 * r, 2 * c)]),
    }) by {
        lemma_first_slot_leads(text, sx, area.y as int, max_x, max_y, k, 4 * r + c);
        assert(slot_paints(text[0], sx, area.y as int, max_x, max_y)[4 * r + c] == (CellPaint {
            x: (sx + c) as u16,
            y: (area.y + r) as u16,
            symbol: CellSymbol::Char(quadrant_symbols()[block_index(g, 2 * r, 2 * c)]),
        }));
    }
}

/// The cell write for cell (`r`, `c`) of the glyph `g` in a slot whose
/// top-left cell is (`bx`, `by`).
pub open spec fn glyph_cell_paint(g: Seq<u8>, bx: int, by: int, r: int, c: int) -> CellPaint {
    CellPaint {
        x: (bx + c) as u16,
        y: (by + r) as u16,
        symbol: CellSymbol::Char(quadrant_symbols()[block_index(g, 2 * r, 2 * c)]),
    }
}

/// The first `k` slots of characters with glyphs, all with room, write
/// sixteen cells each, slot after slot.
proof fn lemma_full_glyph_slots(
    text: Seq<char>,
    sx: int,
    by: int,
    max_x: int,
    max_y: int,
    k: int,
)
    requires
        0 <= k <= text.len(),
        forall|i: int| 0 <= i < k ==> #[trigger] renderable(text[i]),
        0 <= sx,
        sx + 4 * k <= max_x <= 65535,
        0 <= by,
        by + 4 <= max_y <= 65535,
    ensures
        slots_paints(text, sx, by, max_x, max_y, k).len() == 16 * k,
        forall|i: int, r: int, c: int|
            0 <= i < k && 0 <= r < 4 && 0 <= c < 4 ==> #[trigger] slots_paints(
                text,
                sx,
                by,
                max_x,
                max_y,
                k,
            )[16 * i + 4 * r + c] == glyph_cell_paint(
                spec_glyph(text[i]).unwrap(),
                sx + 4 * i,
                by,
                r,
                c,
            ),
    decreases k,
{
    if k > 0 {
        lemma_full_glyph_slots(text, sx, by, max_x, max_y, k - 1);
        let a = slots_paints(text, sx, by, max_x, max_y, k - 1);
        let bx = sx + 4 * (k - 1);
        let g = spec_glyph(text[k - 1]).unwrap();
        assert(renderable(text[k - 1]));
        law_glyph_slot_cells(text[k - 1], g, bx, by, max_x, max_y);
        let b = slot_paints(text[k - 1], bx, by, max_x, max_y);
        let all = slots_paints(text, sx, by, max_x, max_y, k);
        assert(all == a + b);
        assert forall|i: int, r: int, c: int|
            0 <= i < k && 0 <= r < 4 && 0 <= c < 4 implies #[trigger] all[16 * i + 4 * r + c]
            == glyph_cell_paint(spec_glyph(text[i]).unwrap(), sx + 4 * i, by, r, c) by {
            if i < k - 1 {
                assert(all[16 * i + 4 * r + c] == a[16 * i + 4 * r + c]);
            } else {
                assert(all[16 * i + 4 * r + c] == b[4 * r + c]);
            }
        }
    }
}

/// A title of characters that all have bitmap glyphs, in an area wide
/// enough for all of them and four rows tall, draws sixteen cells per
/// character, character after character: the cells of character `i` fill
/// columns `4i` to `4i + 3` from the start column (the area's own column
/// when left aligned) and the area's top four rows, cell (`r`, `c`) of the
/// slot showing the block of pixel rows `2r`, `2r + 1` and pixel columns
/// `2c`, `2c + 1` of the character's glyph.
pub proof fn law_glyph_title_cells(text: Seq<char>, alignment: Alignment, area: Rect)
    requires
        1 <= text.len(),
        forall|i: int| 0 <= i < text.len() ==> #[trigger] renderable(text[i]),
        4 * text.len() <= area.width,
        area.height >= 4,
        area.x + area.width <= 65535,
        area.y + 4 <= 65535,
    ensures
        alignment == Alignment::Left ==> plan_start(text, alignment, area) == area.x,
        spec_paint_plan(text, alignment, area).len() == 16 * text.len(),
        forall|i: int, r: int, c: int|
            0 <= i < text.len() && 0 <= r < 4 && 0 <= c < 4 ==> #[trigger] spec_paint_plan(
                text,
                alignment,
                area,
            )[16 * i + 4 * r + c] == glyph_cell_paint(
                spec_glyph(text[i]).unwrap(),
                plan_start(text, alignment, area) + 4 * i,
                area.y as int,
                r,
                c,
            ),
{
    let n = text.len() as int;
    assert(painted_width(n, area) == 4 * n);
    let sx = plan_start(text, alignment, area);
    assert(area.x <= sx && sx + 4 * n <= area.x + area.width);
    let max_x = area.x + area.width;
    let max_y = area.y + 4;
    assert(painted_slots(text, alignment, area) == n);
    lemma_full_glyph_slots(text, sx, area.y as int, max_x, max_y, n);
}

} // verus!
