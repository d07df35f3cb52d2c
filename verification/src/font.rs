use vstd::prelude::*;
use crate::captions::strings;
use crate::text::chars_of;

verus! {

// ---------------------------------------------------------------------------
// The glyphs
// ---------------------------------------------------------------------------

/// The dot-matrix glyph of a character: seven rows of five dots, top row first, the left
/// dot of a row in its bit of weight 16. Letters have one glyph for both cases; a character
/// without a glyph is drawn as a box.
pub open spec fn glyph_rows(c: char) -> Seq<u8> {
    match c {
        ' ' => seq![0, 0, 0, 0, 0, 0, 0],
        'A' | 'a' => seq![0x0E, 0x11, 0x11, 0x1F, 0x11, 0x11, 0x11],
        'B' | 'b' => seq![0x1E, 0x11, 0x11, 0x1E, 0x11, 0x11, 0x1E],
        'C' | 'c' => seq![0x0E, 0x11, 0x10, 0x10, 0x10, 0x11, 0x0E],
        'D' | 'd' => seq![0x1C, 0x12, 0x11, 0x11, 0x11, 0x12, 0x1C],
        'E' | 'e' => seq![0x1F, 0x10, 0x10, 0x1E, 0x10, 0x10, 0x1F],
        'F' | 'f' => seq![0x1F, 0x10, 0x10, 0x1E, 0x10, 0x10, 0x10],
        'G' | 'g' => seq![0x0E, 0x11, 0x10, 0x17, 0x11, 0x11, 0x0F],
        'H' | 'h' => seq![0x11, 0x11, 0x11, 0x1F, 0x11, 0x11, 0x11],
        'I' | 'i' => seq![0x0E, 0x04, 0x04, 0x04, 0x04, 0x04, 0x0E],
        'J' | 'j' => seq![0x07, 0x02, 0x02, 0x02, 0x02, 0x12, 0x0C],
        'K' | 'k' => seq![0x11, 0x12, 0x14, 0x18, 0x14, 0x12, 0x11],
        'L' | 'l' => seq![0x10, 0x10, 0x10, 0x10, 0x10, 0x10, 0x1F],
        'M' | 'm' => seq![0x11, 0x1B, 0x15, 0x15, 0x11, 0x11, 0x11],
        'N' | 'n' => seq![0x11, 0x11, 0x19, 0x15, 0x13, 0x11, 0x11],
        'O' | 'o' => seq![0x0E, 0x11, 0x11, 0x11, 0x11, 0x11, 0x0E],
        'P' | 'p' => seq![0x1E, 0x11, 0x11, 0x1E, 0x10, 0x10, 0x10],
        'Q' | 'q' => seq![0x0E, 0x11, 0x11, 0x11, 0x15, 0x12, 0x0D],
        'R' | 'r' => seq![0x1E, 0x11, 0x11, 0x1E, 0x14, 0x12, 0x11],
        'S' | 's' => seq![0x0F, 0x10, 0x10, 0x0E, 0x01, 0x01, 0x1E],
        'T' | 't' => seq![0x1F, 0x04, 0x04, 0x04, 0x04, 0x04, 0x04],
        'U' | 'u' => seq![0x11, 0x11, 0x11, 0x11, 0x11, 0x11, 0x0E],
        'V' | 'v' => seq![0x11, 0x11, 0x11, 0x11, 0x11, 0x0A, 0x04],
        'W' | 'w' => seq![0x11, 0x11, 0x11, 0x15, 0x15, 0x15, 0x0A],
        'X' | 'x' => seq![0x11, 0x11, 0x0A, 0x04, 0x0A, 0x11, 0x11],
        'Y' | 'y' => seq![0x11, 0x11, 0x11, 0x0A, 0x04, 0x04, 0x04],
        'Z' | 'z' => seq![0x1F, 0x01, 0x02, 0x04, 0x08, 0x10, 0x1F],
        '0' => seq![0x0E, 0x11, 0x13, 0x15, 0x19, 0x11, 0x0E],
        '1' => seq![0x04, 0x0C, 0x04, 0x04, 0x04, 0x04, 0x0E],
        '2' => seq![0x0E, 0x11, 0x01, 0x02, 0x04, 0x08, 0x1F],
        '3' => seq![0x1F, 0x02, 0x04, 0x02, 0x01, 0x11, 0x0E],
        '4' => seq![0x02, 0x06, 0x0A, 0x12, 0x1F, 0x02, 0x02],
        '5' => seq![0x1F, 0x10, 0x1E, 0x01, 0x01, 0x11, 0x0E],
        '6' => seq![0x06, 0x08, 0x10, 0x1E, 0x11, 0x11, 0x0E],
        '7' => seq![0x1F, 0x01, 0x02, 0x04, 0x08, 0x08, 0x08],
        '8' => seq![0x0E, 0x11, 0x11, 0x0E, 0x11, 0x11, 0x0E],
        '9' => seq![0x0E, 0x11, 0x11, 0x0F, 0x01, 0x02, 0x0C],
        '.' => seq![0, 0, 0, 0, 0, 0x0C, 0x0C],
        ',' => seq![0, 0, 0, 0, 0x0C, 0x04, 0x08],
        '!' => seq![0x04, 0x04, 0x04, 0x04, 0, 0, 0x04],
        '?' => seq![0x0E, 0x11, 0x01, 0x02, 0x04, 0, 0x04],
        '\'' | '’' | '‘' => seq![0x0C, 0x04, 0x08, 0, 0, 0, 0],
        '"' | '“' | '”' => seq![0x0A, 0x0A, 0x0A, 0, 0, 0, 0],
        '-' | '–' | '—' => seq![0, 0, 0, 0x1F, 0, 0, 0],
        ':' => seq![0, 0x0C, 0x0C, 0, 0x0C, 0x0C, 0],
        ';' => seq![0, 0x0C, 0x0C, 0, 0x0C, 0x04, 0x08],
        '(' => seq![0x02, 0x04, 0x08, 0x08, 0x08, 0x04, 0x02],
        ')' => seq![0x08, 0x04, 0x02, 0x02, 0x02, 0x04, 0x08],
        '/' => seq![0, 0x01, 0x02, 0x04, 0x08, 0x10, 0],
        '&' => seq![0x0C, 0x12, 0x14, 0x08, 0x15, 0x12, 0x0D],
        '%' => seq![0x18, 0x19, 0x02, 0x04, 0x08, 0x13, 0x03],
        _ => seq![0x1F, 0x11, 0x11, 0x11, 0x11, 0x11, 0x1F],
    }
}

fn glyph(c: char) -> (r: [u8; 7])
    ensures
        r@ == glyph_rows(c),
{
    match c {
        ' ' => [0, 0, 0, 0, 0, 0, 0],
        'A' | 'a' => [0x0E, 0x11, 0x11, 0x1F, 0x11, 0x11, 0x11],
        'B' | 'b' => [0x1E, 0x11, 0x11, 0x1E, 0x11, 0x11, 0x1E],
        'C' | 'c' => [0x0E, 0x11, 0x10, 0x10, 0x10, 0x11, 0x0E],
        'D' | 'd' => [0x1C, 0x12, 0x11, 0x11, 0x11, 0x12, 0x1C],
        'E' | 'e' => [0x1F, 0x10, 0x10, 0x1E, 0x10, 0x10, 0x1F],
        'F' | 'f' => [0x1F, 0x10, 0x10, 0x1E, 0x10, 0x10, 0x10],
        'G' | 'g' => [0x0E, 0x11, 0x10, 0x17, 0x11, 0x11, 0x0F],
        'H' | 'h' => [0x11, 0x11, 0x11, 0x1F, 0x11, 0x11, 0x11],
        'I' | 'i' => [0x0E, 0x04, 0x04, 0x04, 0x04, 0x04, 0x0E],
        'J' | 'j' => [0x07, 0x02, 0x02, 0x02, 0x02, 0x12, 0x0C],
        'K' | 'k' => [0x11, 0x12, 0x14, 0x18, 0x14, 0x12, 0x11],
        'L' | 'l' => [0x10, 0x10, 0x10, 0x10, 0x10, 0x10, 0x1F],
        'M' | 'm' => [0x11, 0x1B, 0x15, 0x15, 0x11, 0x11, 0x11],
        'N' | 'n' => [0x11, 0x11, 0x19, 0x15, 0x13, 0x11, 0x11],
        'O' | 'o' => [0x0E, 0x11, 0x11, 0x11, 0x11, 0x11, 0x0E],
        'P' | 'p' => [0x1E, 0x11, 0x11, 0x1E, 0x10, 0x10, 0x10],
        'Q' | 'q' => [0x0E, 0x11, 0x11, 0x11, 0x15, 0x12, 0x0D],
        'R' | 'r' => [0x1E, 0x11, 0x11, 0x1E, 0x14, 0x12, 0x11],
        'S' | 's' => [0x0F, 0x10, 0x10, 0x0E, 0x01, 0x01, 0x1E],
        'T' | 't' => [0x1F, 0x04, 0x04, 0x04, 0x04, 0x04, 0x04],
        'U' | 'u' => [0x11, 0x11, 0x11, 0x11, 0x11, 0x11, 0x0E],
        'V' | 'v' => [0x11, 0x11, 0x11, 0x11, 0x11, 0x0A, 0x04],
        'W' | 'w' => [0x11, 0x11, 0x11, 0x15, 0x15, 0x15, 0x0A],
        'X' | 'x' => [0x11, 0x11, 0x0A, 0x04, 0x0A, 0x11, 0x11],
        'Y' | 'y' => [0x11, 0x11, 0x11, 0x0A, 0x04, 0x04, 0x04],
        'Z' | 'z' => [0x1F, 0x01, 0x02, 0x04, 0x08, 0x10, 0x1F],
        '0' => [0x0E, 0x11, 0x13, 0x15, 0x19, 0x11, 0x0E],
        '1' => [0x04, 0x0C, 0x04, 0x04, 0x04, 0x04, 0x0E],
        '2' => [0x0E, 0x11, 0x01, 0x02, 0x04, 0x08, 0x1F],
        '3' => [0x1F, 0x02, 0x04, 0x02, 0x01, 0x11, 0x0E],
        '4' => [0x02, 0x06, 0x0A, 0x12, 0x1F, 0x02, 0x02],
        '5' => [0x1F, 0x10, 0x1E, 0x01, 0x01, 0x11, 0x0E],
        '6' => [0x06, 0x08, 0x10, 0x1E, 0x11, 0x11, 0x0E],
        '7' => [0x1F, 0x01, 0x02, 0x04, 0x08, 0x08, 0x08],
        '8' => [0x0E, 0x11, 0x11, 0x0E, 0x11, 0x11, 0x0E],
        '9' => [0x0E, 0x11, 0x11, 0x0F, 0x01, 0x02, 0x0C],
        '.' => [0, 0, 0, 0, 0, 0x0C, 0x0C],
        ',' => [0, 0, 0, 0, 0x0C, 0x04, 0x08],
        '!' => [0x04, 0x04, 0x04, 0x04, 0, 0, 0x04],
        '?' => [0x0E, 0x11, 0x01, 0x02, 0x04, 0, 0x04],
        '\'' | '’' | '‘' => [0x0C, 0x04, 0x08, 0, 0, 0, 0],
        '"' | '“' | '”' => [0x0A, 0x0A, 0x0A, 0, 0, 0, 0],
        '-' | '–' | '—' => [0, 0, 0, 0x1F, 0, 0, 0],
        ':' => [0, 0x0C, 0x0C, 0, 0x0C, 0x0C, 0],
        ';' => [0, 0x0C, 0x0C, 0, 0x0C, 0x04, 0x08],
        '(' => [0x02, 0x04, 0x08, 0x08, 0x08, 0x04, 0x02],
        ')' => [0x08, 0x04, 0x02, 0x02, 0x02, 0x04, 0x08],
        '/' => [0, 0x01, 0x02, 0x04, 0x08, 0x10, 0],
        '&' => [0x0C, 0x12, 0x14, 0x08, 0x15, 0x12, 0x0D],
        '%' => [0x18, 0x19, 0x02, 0x04, 0x08, 0x13, 0x03],
        _ => [0x1F, 0x11, 0x11, 0x11, 0x11, 0x11, 0x1F],
    }
}

/// The weight of dot `gx` (0 to 4, left to right) in a row of a glyph.
pub open spec fn dot_weight(gx: int) -> int {
    if gx == 0 {
        16
    } else if gx == 1 {
        8
    } else if gx == 2 {
        4
    } else if gx == 3 {
        2
    } else {
        1
    }
}

/// Whether dot `gx` of row `gy` of a character's glyph is set.
pub open spec fn glyph_dot(c: char, gx: int, gy: int) -> bool {
    (glyph_rows(c)[gy] as int / dot_weight(gx)) % 2 == 1
}

// ---------------------------------------------------------------------------
// Rendering lines of text
// ---------------------------------------------------------------------------

/// The characters of some lines.
pub open spec fn char_lines(v: Seq<Vec<char>>) -> Seq<Seq<char>> {
    v.map_values(|l: Vec<char>| l@)
}

/// The length of the longest line.
pub open spec fn max_len(ls: Seq<Seq<char>>) -> nat
    decreases ls.len(),
{
    if ls.len() == 0 {
        0
    } else if ls.last().len() > max_len(ls.drop_last()) {
        ls.last().len()
    } else {
        max_len(ls.drop_last())
    }
}

/// The width of the text in characters (at least one).
pub open spec fn text_columns(ls: Seq<Seq<char>>) -> nat {
    if max_len(ls) == 0 {
        1
    } else {
        max_len(ls)
    }
}

/// The height of the text in lines (at least one).
pub open spec fn text_rows(ls: Seq<Seq<char>>) -> nat {
    if ls.len() == 0 {
        1
    } else {
        ls.len()
    }
}

/// The image in dots: a cell of 8 x 10 dots for each character, and a border of one dot.
pub open spec fn dots_wide(ls: Seq<Seq<char>>) -> nat {
    text_columns(ls) * 8 + 2
}

pub open spec fn dots_high(ls: Seq<Seq<char>>) -> nat {
    text_rows(ls) * 10 + 2
}

/// Whether the dot at column `dx`, row `dy` belongs to a glyph. Line `row` starts at dot row
/// `10 * row + 2`; each line is centered, so its first cell starts at dot column
/// `1 + 4 * (columns - length)`; a glyph's five dots stand in columns 1 to 5 of its cell.
pub open spec fn dot_on(ls: Seq<Seq<char>>, dx: int, dy: int) -> bool {
    if dy < 2 {
        false
    } else {
        let row = (dy - 2) / 10;
        let gy = (dy - 2) % 10;
        if row >= ls.len() || gy >= 7 {
            false
        } else {
            let line = ls[row];
            let left = 1 + (text_columns(ls) - line.len()) * 4;
            if dx < left {
                false
            } else {
                let col = (dx - left) / 8;
                let gx = (dx - left) % 8;
                col < line.len() && 1 <= gx <= 5 && glyph_dot(line[col], gx - 1, gy)
            }
        }
    }
}

/// Whether a glyph dot is at, or next to (sideways or diagonally), the dot `dx`, `dy`.
pub open spec fn near_dot(ls: Seq<Seq<char>>, dx: int, dy: int) -> bool {
    ||| dot_on(ls, dx - 1, dy - 1)
    ||| dot_on(ls, dx, dy - 1)
    ||| dot_on(ls, dx + 1, dy - 1)
    ||| dot_on(ls, dx - 1, dy)
    ||| dot_on(ls, dx, dy)
    ||| dot_on(ls, dx + 1, dy)
    ||| dot_on(ls, dx - 1, dy + 1)
    ||| dot_on(ls, dx, dy + 1)
    ||| dot_on(ls, dx + 1, dy + 1)
}

/// The RGBA colour of pixel `px`, `py`, where a dot is `scale` x `scale` pixels: white on a
/// glyph dot, black on the one-dot outline around the glyphs, transparent elsewhere.
pub open spec fn pixel_rgba(ls: Seq<Seq<char>>, scale: int, px: int, py: int) -> Seq<u8> {
    let dx = px / scale;
    let dy = py / scale;
    if dot_on(ls, dx, dy) {
        seq![255u8, 255u8, 255u8, 255u8]
    } else if near_dot(ls, dx, dy) {
        seq![0u8, 0u8, 0u8, 255u8]
    } else {
        seq![0u8, 0u8, 0u8, 0u8]
    }
}

/// Whether the RGBA image of some lines at a scale has at most `u32::MAX` bytes.
pub open spec fn render_fits(ls: Seq<Seq<char>>, scale: int) -> bool {
    dots_wide(ls) * scale * (dots_high(ls) * scale) * 4 <= u32::MAX
}

proof fn lemma_max_len(ls: Seq<Seq<char>>)
    ensures
        forall|i: int| 0 <= i < ls.len() ==> (#[trigger] ls[i]).len() <= max_len(ls),
    decreases ls.len(),
{
    if ls.len() > 0 {
        lemma_max_len(ls.drop_last());
        assert forall|i: int| 0 <= i < ls.len() implies (#[trigger] ls[i]).len() <= max_len(ls) by {
            if i < ls.len() - 1 {
                assert(ls.drop_last()[i] == ls[i]);
            }
        }
    }
}

fn line_chars(lines: &Vec<String>) -> (r: Vec<Vec<char>>)
    ensures
        char_lines(r@) == strings(lines@),
{
    let mut r: Vec<Vec<char>> = Vec::new();
    let mut i: usize = 0;
    while i < lines.len()
        invariant
            0 <= i <= lines@.len(),
            char_lines(r@) == strings(lines@).take(i as int),
        decreases lines@.len() - i,
    {
        let v = chars_of(lines[i].as_str());
        let ghost prev = r@;
        assert(char_lines(prev).len() == prev.len());
        assert(prev.len() == i);
        r.push(v);
        assert(r@ == prev.push(v));
        assert forall|j: int| 0 <= j <= i implies #[trigger] char_lines(r@)[j] == strings(lines@).take(
            i + 1,
        )[j] by {
            if j < i {
                assert(r@[j] == prev[j]);
                assert(char_lines(prev)[j] == strings(lines@).take(i as int)[j]);
            }
        }
        assert(char_lines(r@) =~= strings(lines@).take(i + 1));
        i = i + 1;
    }
    assert(strings(lines@).take(lines@.len() as int) =~= strings(lines@));
    r
}

fn columns_of(ls: &Vec<Vec<char>>) -> (r: usize)
    ensures
        r == text_columns(char_lines(ls@)),
{
    let ghost all = char_lines(ls@);
    let mut m: usize = 0;
    let mut i: usize = 0;
    while i < ls.len()
        invariant
            0 <= i <= ls@.len(),
            all == char_lines(ls@),
            m == max_len(all.take(i as int)),
        decreases ls@.len() - i,
    {
        assert(all.take(i + 1).drop_last() =~= all.take(i as int));
        assert(all.take(i + 1).last() == ls@[i as int]@);
        if ls[i].len() > m {
            m = ls[i].len();
        }
        i = i + 1;
    }
    assert(all.take(ls@.len() as int) =~= all);
    if m == 0 {
        1
    } else {
        m
    }
}

fn dot_at(ls: &Vec<Vec<char>>, cols: u64, dx: u64, dy: u64) -> (r: bool)
    requires
        cols == text_columns(char_lines(ls@)),
        cols <= u32::MAX,
        dx <= u32::MAX,
        forall|i: int| 0 <= i < ls@.len() ==> (#[trigger] ls@[i])@.len() <= cols,
    ensures
        r == dot_on(char_lines(ls@), dx as int, dy as int),
{
    let ghost all = char_lines(ls@);
    if dy < 2 {
        return false;
    }
    let row = (dy - 2) / 10;
    let gy = (dy - 2) % 10;
    if row >= ls.len() as u64 || gy >= 7 {
        return false;
    }
    let line = &ls[row as usize];
    assert(all[row as int] == line@);
    let n = line.len() as u64;
    assert(n <= cols);
    let left = 1 + (cols - n) * 4;
    if dx < left {
        return false;
    }
    let col = (dx - left) / 8;
    let gx = (dx - left) % 8;
    if col >= n || gx < 1 || gx > 5 {
        return false;
    }
    let rows = glyph(line[col as usize]);
    let v = rows[gy as usize];
    let w: u8 = if gx == 1 {
        16
    } else if gx == 2 {
        8
    } else if gx == 3 {
        4
    } else if gx == 4 {
        2
    } else {
        1
    };
    (v / w) % 2 == 1
}

/// Whether the dot at `dx + sx - 1`, `dy + sy - 1` belongs to a glyph (`sx`, `sy` at most 2).
fn dot_near(ls: &Vec<Vec<char>>, cols: u64, dx: u64, dy: u64, sx: u64, sy: u64) -> (r: bool)
    requires
        cols == text_columns(char_lines(ls@)),
        cols <= u32::MAX,
        dx < u32::MAX,
        dy < u32::MAX,
        sx <= 2,
        sy <= 2,
        forall|i: int| 0 <= i < ls@.len() ==> (#[trigger] ls@[i])@.len() <= cols,
    ensures
        r == dot_on(char_lines(ls@), dx + sx - 1, dy + sy - 1),
{
    if (sx == 0 && dx == 0) || (sy == 0 && dy == 0) {
        return false;
    }
    dot_at(ls, cols, dx + sx - 1, dy + sy - 1)
}

/// Renders lines of text, each centered, into an RGBA image of `pixel_rgba` colours; returns
/// its width, its height and its pixels, row by row, or `None` where the image would have
/// more than `u32::MAX` bytes.
pub fn render_lines(lines: &Vec<String>, scale: u32) -> (r: Option<(u32, u32, Vec<u8>)>)
    requires
        1 <= scale,
    ensures
        r is None <==> !render_fits(strings(lines@), scale as int),
        r matches Some((rw, rh, rgba)) ==> ({
            let ls = strings(lines@);
            let w = dots_wide(ls) * scale;
            let h = dots_high(ls) * scale;
            &&& rw == w
            &&& rh == h
            &&& rgba@.len() == w * h * 4
            &&& forall|p: int, k: int|
                0 <= p < w * h && 0 <= k < 4 ==> #[trigger] rgba@[p * 4 + k] == pixel_rgba(
                    ls,
                    scale as int,
                    p % w,
                    p / w,
                )[k]
        }),
{
    let ls = line_chars(lines);
    let ghost all = strings(lines@);
    proof {
        lemma_max_len(all);
    }
    let cols_n = columns_of(&ls);
    let rows_n: usize = if ls.len() == 0 {
        1
    } else {
        ls.len()
    };
    let s = scale as u64;
    let ghost wd = dots_wide(all) as int;
    let ghost hd = dots_high(all) as int;
    let wd128: u128 = cols_n as u128 * 8 + 2;
    let hd128: u128 = rows_n as u128 * 10 + 2;
    assert(wd128 == wd && hd128 == hd);
    assert(wd128 * (s as u128) <= 0x10_0000_0000_0000_0000_0000_0000 && hd128 * (s as u128)
        <= 0x10_0000_0000_0000_0000_0000_0000) by (nonlinear_arith)
        requires
            wd128 <= 0x10_0000_0000_0000_0000,
            hd128 <= 0x10_0000_0000_0000_0000,
            s <= 0xffff_ffff,
    ;
    if wd128 * (s as u128) > 0xffff_ffff || hd128 * (s as u128) > 0xffff_ffff {
        proof {
            assert(wd * s * (hd * s) * 4 > u32::MAX) by (nonlinear_arith)
                requires
                    wd * s > u32::MAX || hd * s > u32::MAX,
                    wd >= 1,
                    hd >= 1,
                    s >= 1,
            ;
        }
        return None;
    }
    let ws: u128 = wd128 * (s as u128);
    let hs: u128 = hd128 * (s as u128);
    assert(ws * hs <= 0xffff_ffff * 0xffff_ffffu128) by (nonlinear_arith)
        requires
            ws <= 0xffff_ffff,
            hs <= 0xffff_ffff,
    ;
    if ws * hs * 4 > 0xffff_ffff {
        return None;
    }
    assert(wd * s * (hd * s) * 4 <= u32::MAX);
    let cols = cols_n as u64;
    let rows = rows_n as u64;
    assert(wd * s <= u32::MAX && hd * s <= u32::MAX && wd <= u32::MAX && hd <= u32::MAX) by (nonlinear_arith)
        requires
            wd * s * (hd * s) * 4 <= u32::MAX,
            wd >= 1,
            hd >= 1,
            s >= 1,
    ;
    let w: u64 = (cols * 8 + 2) * s;
    let h: u64 = (rows * 10 + 2) * s;
    assert(w == wd * s && h == hd * s);
    let total: u64 = w * h;
    assert(w >= 1 && h >= 1) by (nonlinear_arith)
        requires
            w == wd * s,
            h == hd * s,
            wd >= 1,
            hd >= 1,
            s >= 1,
    ;
    assert forall|i: int| 0 <= i < ls@.len() implies (#[trigger] ls@[i])@.len() <= cols by {
        assert(all[i] == ls@[i]@);
    }
    let mut rgba: Vec<u8> = Vec::new();
    let mut p: u64 = 0;
    while p < total
        invariant
            0 <= p <= total,
            total == w * h,
            total * 4 <= u32::MAX,
            w >= 1,
            s >= 1,
            s == scale,
            w == dots_wide(all) * scale,
            h == dots_high(all) * scale,
            w <= u32::MAX,
            h <= u32::MAX,
            cols == text_columns(char_lines(ls@)),
            cols <= u32::MAX,
            all == char_lines(ls@),
            forall|i: int| 0 <= i < ls@.len() ==> (#[trigger] ls@[i])@.len() <= cols,
            rgba@.len() == p * 4,
            forall|q: int, k: int|
                0 <= q < p && 0 <= k < 4 ==> #[trigger] rgba@[q * 4 + k] == pixel_rgba(
                    all,
                    scale as int,
                    q % (w as int),
                    q / (w as int),
                )[k],
        decreases total - p,
    {
        proof {
            assert(forall|i: int| 0 <= i < ls@.len() ==> (#[trigger] all[i]).len() == ls@[i]@.len());
        }
        let px = p % w;
        let py = p / w;
        assert(py < h) by (nonlinear_arith)
            requires
                p < w * h,
                py == p / w,
                w >= 1,
        ;
        let dx = px / s;
        let dy = py / s;
        assert(dx < u32::MAX && dy < u32::MAX) by (nonlinear_arith)
            requires
                px < w,
                py < h,
                w <= u32::MAX,
                h <= u32::MAX,
                dx == px / s,
                dy == py / s,
                s >= 1,
        ;
        let on = dot_at(&ls, cols, dx, dy);
        let near = dot_near(&ls, cols, dx, dy, 0, 0) || dot_near(&ls, cols, dx, dy, 1, 0)
            || dot_near(&ls, cols, dx, dy, 2, 0) || dot_near(&ls, cols, dx, dy, 0, 1)
            || dot_near(&ls, cols, dx, dy, 1, 1) || dot_near(&ls, cols, dx, dy, 2, 1)
            || dot_near(&ls, cols, dx, dy, 0, 2) || dot_near(&ls, cols, dx, dy, 1, 2)
            || dot_near(&ls, cols, dx, dy, 2, 2);
        let ghost want = pixel_rgba(all, scale as int, p as int % (w as int), p as int / (w as int));
        let ghost before = rgba@;
        let (a, b, c, d): (u8, u8, u8, u8) = if on {
            (255, 255, 255, 255)
        } else if near {
            (0, 0, 0, 255)
        } else {
            (0, 0, 0, 0)
        };
        rgba.push(a);
        rgba.push(b);
        rgba.push(c);
        rgba.push(d);
        assert(near == near_dot(all, dx as int, dy as int));
        assert(rgba@ =~= before + seq![a, b, c, d]);
        assert(seq![a, b, c, d] =~= want);
        assert forall|q: int, k: int| 0 <= q < p + 1 && 0 <= k < 4 implies #[trigger] rgba@[q * 4 + k]
            == pixel_rgba(all, scale as int, q % (w as int), q / (w as int))[k] by {
            if q < p {
                assert(rgba@[q * 4 + k] == before[q * 4 + k]);
            } else {
                assert(rgba@[q * 4 + k] == want[k]);
            }
        }
        p = p + 1;
    }
    Some((w as u32, h as u32, rgba))
}

} // verus!
