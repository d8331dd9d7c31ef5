//! Text of the debug HUD as lit cells of an 8×8 bitmap font.
use vstd::prelude::*;

use crate::frame_stats::SceneRenderStats;
use crate::shader::{decimal, push_decimal};

verus! {

/// The glyph font8x8's basic Latin set holds for `c`, if any.
pub uninterp spec fn basic_glyph(c: char) -> Option<[u8; 8]>;

/// Looks `c` up in `font8x8::BASIC_FONTS` (trusted): the result is the set's glyph for
/// `c`, and there is one exactly for the characters below U+0080, the set's range.
#[verifier::external_body]
fn basic_font_get(c: char) -> (g: Option<[u8; 8]>)
    ensures
        g == basic_glyph(c),
        g is Some <==> (c as u32) < 128,
{
    font8x8::UnicodeFonts::get(&font8x8::BASIC_FONTS, c)
}

/// The glyph drawn for `c`: its own, or the space glyph for characters outside the set.
pub open spec fn drawn_glyph(c: char) -> [u8; 8] {
    match basic_glyph(c) {
        Some(g) => g,
        None => basic_glyph(' ')->0,
    }
}

/// A character of the font's set is drawn with its own glyph; only a character outside
/// the set falls back to the space glyph.
pub proof fn lemma_drawn_glyph_is_own_glyph(c: char)
    ensures
        basic_glyph(c) is Some ==> drawn_glyph(c) == basic_glyph(c)->0,
        basic_glyph(c) is None ==> drawn_glyph(c) == basic_glyph(' ')->0,
{
}

/// One lit pixel of the text: glyph `column` of the line, `row` from the top, `bit` from
/// the left.
#[derive(Clone, Copy, Debug, PartialEq, Eq, Structural)]
pub struct GlyphCell {
    pub column: usize,
    pub row: usize,
    pub bit: u32,
}

/// Pixel `(row, bit)` of the glyph is set (bit 0 is the leftmost column).
pub open spec fn glyph_bit(g: [u8; 8], row: int, bit: int) -> bool {
    g@[row] & (1u8 << (bit as u8)) != 0
}

/// Position of a cell in reading order: by column, then row, then bit.
pub open spec fn cell_index(c: GlyphCell) -> int {
    c.column * 64 + c.row * 8 + c.bit
}

/// `cells` lists, in reading order, exactly the lit pixels of `glyphs` (one glyph per
/// column), up to (not including) reading position `end`.
pub open spec fn lit_cells_before(glyphs: Seq<[u8; 8]>, cells: Seq<GlyphCell>, end: int) -> bool {
    &&& forall|p: int, q: int|
        0 <= p < q < cells.len() ==> cell_index(#[trigger] cells[p]) < cell_index(
            #[trigger] cells[q],
        )
    &&& forall|p: int|
        0 <= p < cells.len() ==> {
            &&& (#[trigger] cells[p]).column < glyphs.len()
            &&& cells[p].row < 8
            &&& cells[p].bit < 8
            &&& cell_index(cells[p]) < end
            &&& glyph_bit(glyphs[cells[p].column as int], cells[p].row as int, cells[p].bit as int)
        }
    &&& forall|col: int, row: int, bit: int|
        0 <= col < glyphs.len() && 0 <= row < 8 && 0 <= bit < 8 && col * 64 + row * 8 + bit < end
            && #[trigger] glyph_bit(glyphs[col], row, bit) ==> cells.contains(
            GlyphCell { column: col as usize, row: row as usize, bit: bit as u32 },
        )
}

/// `cells` lists, in reading order, exactly the lit pixels of `glyphs`.
pub open spec fn lit_cells(glyphs: Seq<[u8; 8]>, cells: Seq<GlyphCell>) -> bool {
    lit_cells_before(glyphs, cells, (glyphs.len() * 64) as int)
}

/// The glyphs drawn for the characters of `text`.
pub open spec fn drawn_glyphs(text: Seq<char>) -> Seq<[u8; 8]> {
    text.map_values(|c: char| drawn_glyph(c))
}

/// Looks up the glyph of every character of `text`; characters outside the basic Latin
/// set get the space glyph.
pub fn glyphs_for(text: &str) -> (glyphs: Vec<[u8; 8]>)
    ensures
        glyphs@ == drawn_glyphs(text@),
        glyphs@.len() == text@.len(),
        forall|i: int|
            0 <= i < text@.len() && (text@[i] as u32) < 128 ==> basic_glyph(text@[i]) is Some
                && #[trigger] glyphs@[i] == basic_glyph(text@[i])->0,
        forall|i: int|
            0 <= i < text@.len() && (text@[i] as u32) >= 128 ==> #[trigger] glyphs@[i]
                == basic_glyph(' ')->0,
{
    let space = match basic_font_get(' ') {
        Some(g) => g,
        None => [0u8; 8],
    };
    let mut glyphs: Vec<[u8; 8]> = Vec::new();
    let ghost t = text@;
    for ch in it: text.chars()
        invariant
            it.seq() == t,
            space == basic_glyph(' ')->0,
            glyphs@ == drawn_glyphs(t.take(it.index() as int)),
            forall|k: int|
                0 <= k < it.index() ==> ((#[trigger] basic_glyph(t[k])) is Some <==> (t[k] as u32)
                    < 128),
    {
        let found = basic_font_get(ch);
        let g = match found {
            Some(g) => g,
            None => space,
        };
        let ghost i: int = glyphs@.len() as int;
        glyphs.push(g);
        proof {
            assert(t.take(i + 1) =~= t.take(i).push(ch));
            assert(t.take(i + 1)[i] == t[i]);
            assert(drawn_glyphs(t.take(i + 1)) =~= drawn_glyphs(t.take(i)).push(g));
        }
    }
    proof {
        assert(t.take(t.len() as int) =~= t);
        assert forall|k: int| 0 <= k < t.len() implies #[trigger] glyphs@[k] == drawn_glyph(t[k]) by {}
    }
    glyphs
}

/// The lit pixels of a line of glyphs, in reading order.
pub fn glyph_cells_of(glyphs: &Vec<[u8; 8]>) -> (cells: Vec<GlyphCell>)
    ensures
        lit_cells(glyphs@, cells@),
{
    let mut cells: Vec<GlyphCell> = Vec::new();
    let ghost gs = glyphs@;
    let mut col: usize = 0;
    while col < glyphs.len()
        invariant
            gs == glyphs@,
            col <= gs.len(),
            lit_cells_before(gs, cells@, col * 64),
        decreases gs.len() - col,
    {
        let g = glyphs[col];
        let mut row: usize = 0;
        while row < 8
            invariant
                gs == glyphs@,
                col < gs.len(),
                g == gs[col as int],
                row <= 8,
                lit_cells_before(gs, cells@, col * 64 + row * 8),
            decreases 8 - row,
        {
            let byte = g[row];
            let mut bit: u32 = 0;
            while bit < 8
                invariant
                    col < gs.len(),
                    g == gs[col as int],
                    row < 8,
                    byte == g@[row as int],
                    bit <= 8,
                    lit_cells_before(gs, cells@, col * 64 + row * 8 + bit),
                decreases 8 - bit,
            {
                let ghost before = cells@;
                if byte & (1u8 << (bit as u8)) != 0 {
                    let cell = GlyphCell { column: col, row, bit };
                    cells.push(cell);
                    proof {
                        assert(cells@.last() == cell);
                        assert forall|c2: int, r2: int, b2: int|
                            0 <= c2 < gs.len() && 0 <= r2 < 8 && 0 <= b2 < 8 && c2 * 64 + r2 * 8
                                + b2 < col * 64 + row * 8 + bit + 1 && #[trigger] glyph_bit(
                                gs[c2],
                                r2,
                                b2,
                            ) implies cells@.contains(
                            GlyphCell { column: c2 as usize, row: r2 as usize, bit: b2 as u32 },
                        ) by {
                            if c2 * 64 + r2 * 8 + b2 < col * 64 + row * 8 + bit {
                                let k = choose|k: int|
                                    0 <= k < before.len() && before[k] == GlyphCell {
                                        column: c2 as usize,
                                        row: r2 as usize,
                                        bit: b2 as u32,
                                    };
                                assert(cells@[k] == before[k]);
                            } else {
                                assert(c2 == col && r2 == row && b2 == bit);
                                assert(cells@[before.len() as int] == cell);
                            }
                        }
                    }
                } else {
                    proof {
                        assert forall|c2: int, r2: int, b2: int|
                            0 <= c2 < gs.len() && 0 <= r2 < 8 && 0 <= b2 < 8 && c2 * 64 + r2 * 8
                                + b2 < col * 64 + row * 8 + bit + 1 && #[trigger] glyph_bit(
                                gs[c2],
                                r2,
                                b2,
                            ) implies cells@.contains(
                            GlyphCell { column: c2 as usize, row: r2 as usize, bit: b2 as u32 },
                        ) by {
                            if c2 * 64 + r2 * 8 + b2 == col * 64 + row * 8 + bit {
                                assert(c2 == col && r2 == row && b2 == bit);
                            }
                        }
                    }
                }
                bit = bit + 1;
            }
            row = row + 1;
        }
        col = col + 1;
    }
    cells
}

/// The lit pixels of a line of HUD text, in reading order; characters outside the basic
/// Latin set are drawn as a space.
pub fn glyph_cells(text: &str) -> (cells: Vec<GlyphCell>)
    ensures
        lit_cells(drawn_glyphs(text@), cells@),
{
    let glyphs = glyphs_for(text);
    glyph_cells_of(&glyphs)
}


/// `s` right-aligned in a field of `width` characters (padded with spaces on the left).
pub open spec fn right_aligned(s: Seq<char>, width: nat) -> Seq<char> {
    if s.len() >= width {
        s
    } else {
        Seq::new((width - s.len()) as nat, |i: int| ' ') + s
    }
}

/// The HUD's draw-call line: `draws` + the total right-aligned in four columns +
/// ` (+1 HUD)  L:` lines ` T:` opaque triangles ` A:` transparent triangles.
pub open spec fn draw_stats_text(s: SceneRenderStats) -> Seq<char> {
    "draws "@ + right_aligned(decimal(s.draw_calls as nat), 4) + " (+1 HUD)  L:"@ + decimal(
        s.lines_drawn as nat,
    ) + " T:"@ + decimal(s.opaque_triangles_drawn as nat) + " A:"@ + decimal(
        s.transparent_triangles_drawn as nat,
    )
}

/// Formats the scene's draw counts for the HUD.
pub fn draw_stats_line(stats: &SceneRenderStats) -> (line: String)
    ensures
        line@ == draw_stats_text(*stats),
{
    let mut total = String::new();
    push_decimal(&mut total, stats.draw_calls as usize);
    let mut line = String::from_str("draws ");
    let n = total.as_str().unicode_len();
    let mut pad: usize = n;
    let ghost spaces: Seq<char> = Seq::empty();
    while pad < 4
        invariant
            n <= pad <= 4 || (n > 4 && pad == n),
            line@ == "draws "@ + spaces,
            spaces == Seq::new((pad - n) as nat, |i: int| ' '),
        decreases 4 - pad,
    {
        line.append(" ");
        proof {
            reveal_strlit(" ");
            spaces = spaces.push(' ');
            assert(spaces =~= Seq::new((pad + 1 - n) as nat, |i: int| ' '));
        }
        pad = pad + 1;
    }
    line.append(total.as_str());
    proof {
        if n >= 4 {
            assert(spaces =~= Seq::<char>::empty());
        }
        assert(spaces + total@ =~= right_aligned(decimal(stats.draw_calls as nat), 4));
    }
    line.append(" (+1 HUD)  L:");
    push_decimal(&mut line, stats.lines_drawn as usize);
    line.append(" T:");
    push_decimal(&mut line, stats.opaque_triangles_drawn as usize);
    line.append(" A:");
    push_decimal(&mut line, stats.transparent_triangles_drawn as usize);
    proof {
        assert(line@ =~= draw_stats_text(*stats));
    }
    line
}

} // verus!
