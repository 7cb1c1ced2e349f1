//! The rasterizer: compositing wrapped lines of glyph tiles over a uniform
//! background into a fresh pixel buffer, and sizing that buffer.
//!
//! Lines are laid downward from the top padding edge; within a line each
//! character occupies the slot at its position in the line, mapped or not,
//! so an unmapped character leaves a blank cell without shifting its
//! neighbours. Rasterizing is a pure transform: the output is a function of
//! the lines, the font, the box, the padding and the background alone, and
//! [`rendered_pixel`] gives each output pixel in closed form.

use vstd::prelude::*;

verus! {

use vstd::arithmetic::div_mod::lemma_fundamental_div_mod_converse;
use vstd::arithmetic::div_mod::lemma_mod_division_less_than_divisor;
use vstd::arithmetic::div_mod::lemma_multiply_divide_lt;

use crate::charmap::char_index;
use crate::charmap::get_char_index;
use crate::charmap::to_upper;
use crate::charmap::upper_char;
use crate::color::Rgba;
use crate::color::blend;
use crate::color::blend_pixel;
use crate::font::FontDefinition;
use crate::pixbuf::Image;

/// The line index whose cells cover output row `y`: cells are laid
/// downward from the top padding edge, one tile height per line.
pub open spec fn cell_row(font: FontDefinition, padding: int, y: int) -> int {
    (y - padding) / (font.tile_height as int)
}

/// The character position whose cell covers output column `x`: cells are
/// laid rightward from the left padding edge, one tile width per character.
pub open spec fn cell_col(font: FontDefinition, padding: int, x: int) -> int {
    (x - padding) / (font.tile_width as int)
}

/// The atlas column that output column `x` reads when its cell shows tile
/// `idx`: the tile's own column (tiles are counted row-major in the grid)
/// plus the offset of `x` within its cell.
pub open spec fn atlas_x(font: FontDefinition, idx: int, padding: int, x: int) -> int {
    (idx % (font.grid_columns as int)) * font.tile_width + (x - padding) % (font.tile_width
        as int)
}

/// The atlas row that output row `y` reads when its cell shows tile `idx`.
pub open spec fn atlas_y(font: FontDefinition, idx: int, padding: int, y: int) -> int {
    (idx / (font.grid_columns as int)) * font.tile_height + (y - padding) % (font.tile_height
        as int)
}

/// The colour the output buffer shows at `(x, y)`: the background, unless
/// `(x, y)` falls in the cell of a line character that is mapped to a tile
/// inside the atlas grid, in which case the matching tile pixel is
/// composited over the background. The cell of the character at position
/// `col` of line `row` starts at `(padding + col * tile_width, padding +
/// row * tile_height)`; characters are uppercased before lookup.
pub open spec fn rendered_pixel(
    lines: Seq<Seq<char>>,
    font: FontDefinition,
    padding: int,
    background: Rgba,
    x: int,
    y: int,
) -> Rgba {
    if x >= padding && y >= padding {
        let col = cell_col(font, padding, x);
        let row = cell_row(font, padding, y);
        if row < lines.len() && col < lines[row].len() {
            match char_index(font.char_map, upper_char(lines[row][col])) {
                Some(idx) => {
                    if idx < font.grid_columns * font.grid_rows {
                        blend(
                            font.atlas.pixel(atlas_x(font, idx, padding, x), atlas_y(font, idx, padding, y)),
                            background,
                        )
                    } else {
                        // The map names a tile beyond the grid: nothing to draw.
                        background
                    }
                },
                None => background,
            }
        } else {
            background
        }
    } else {
        background
    }
}

/// One output pixel, as [`rendered_pixel`] states.
pub fn glyph_pixel(
    lines: &Vec<&str>,
    font: &FontDefinition,
    padding: usize,
    background: Rgba,
    x: usize,
    y: usize,
) -> (p: Rgba)
    requires
        font.wf(),
    ensures
        p == rendered_pixel(
            lines.deep_view(),
            *font,
            padding as int,
            background,
            x as int,
            y as int,
        ),
{
    if x < padding || y < padding {
        return background;
    }
    let gx = x - padding;
    let gy = y - padding;
    let col = gx / font.tile_width;
    let row = gy / font.tile_height;
    if row >= lines.len() {
        return background;
    }
    let line: &str = lines[row];
    proof {
        assert(lines.deep_view()[row as int] == line@);
    }
    if col >= line.unicode_len() {
        return background;
    }
    let c = to_upper(line.get_char(col));
    match get_char_index(c, &font.char_map) {
        None => background,
        Some(idx) => {
            let in_grid = match font.grid_columns.checked_mul(font.grid_rows) {
                Some(tiles) => idx < tiles,
                None => true,
            };
            if !in_grid {
                return background;
            }
            let tile_col = idx % font.grid_columns;
            let tile_row = idx / font.grid_columns;
            proof {
                lemma_mod_division_less_than_divisor(idx as int, font.grid_columns as int);
                lemma_multiply_divide_lt(
                    idx as int,
                    font.grid_columns as int,
                    font.grid_rows as int,
                );
                lemma_mod_division_less_than_divisor(gx as int, font.tile_width as int);
                lemma_mod_division_less_than_divisor(gy as int, font.tile_height as int);
                font.atlas.lemma_dims_bounded();
                assert(tile_col < font.grid_columns);
                assert(tile_row < font.grid_rows);
                assert((tile_col as int) * (font.tile_width as int) + (font.tile_width as int) <= (
                font.grid_columns as int) * (font.tile_width as int)) by (nonlinear_arith)
                    requires
                        0 <= (tile_col as int),
                        (tile_col as int) < (font.grid_columns as int),
                        0 <= (font.tile_width as int),
                ;
                assert((tile_row as int) * (font.tile_height as int) + (font.tile_height as int)
                    <= (font.grid_rows as int) * (font.tile_height as int)) by (nonlinear_arith)
                    requires
                        0 <= (tile_row as int),
                        (tile_row as int) < (font.grid_rows as int),
                        0 <= (font.tile_height as int),
                ;
            }
            let sx = tile_col * font.tile_width + gx % font.tile_width;
            let sy = tile_row * font.tile_height + gy % font.tile_height;
            let source = font.atlas.get_pixel(sx, sy);
            blend_pixel(source, background)
        },
    }
}

/// Composites the lines over a uniform background into a fresh buffer of
/// the given box dimensions, each pixel as [`rendered_pixel`] states.
/// Content past the box's right or bottom edge is clipped.
pub fn rasterize(
    lines: &Vec<&str>,
    font: &FontDefinition,
    box_width: usize,
    box_height: usize,
    padding: usize,
    background: Rgba,
) -> (img: Image)
    requires
        font.wf(),
        box_width * box_height <= usize::MAX,
    ensures
        img.wf(),
        img.spec_width() == box_width,
        img.spec_height() == box_height,
        forall|x: int, y: int|
            0 <= x < box_width && 0 <= y < box_height ==> #[trigger] img.pixel(x, y)
                == rendered_pixel(
                lines.deep_view(),
                *font,
                padding as int,
                background,
                x,
                y,
            ),
{
    let total = box_width * box_height;
    let mut pixels: Vec<Rgba> = Vec::new();
    let mut i: usize = 0;
    while i < total
        invariant
            font.wf(),
            total == box_width * box_height,
            i <= total,
            pixels@.len() == i,
            forall|j: int|
                0 <= j < i ==> #[trigger] pixels@[j] == rendered_pixel(
                    lines.deep_view(),
                    *font,
                    padding as int,
                    background,
                    j % (box_width as int),
                    j / (box_width as int),
                ),
        decreases total - i,
    {
        proof {
            assert(box_width > 0) by (nonlinear_arith)
                requires
                    i < box_width * box_height,
                    0 <= i,
            ;
        }
        let x = i % box_width;
        let y = i / box_width;
        let p = glyph_pixel(lines, font, padding, background, x, y);
        pixels.push(p);
        i = i + 1;
    }
    let img = Image::new(box_width, box_height, pixels);
    proof {
        assert forall|x: int, y: int|
            0 <= x < box_width && 0 <= y < box_height implies #[trigger] img.pixel(x, y)
            == rendered_pixel(
            lines.deep_view(),
            *font,
            padding as int,
            background,
            x,
            y,
        ) by {
            assert(y * (box_width as int) + x < (box_width as int) * (box_height as int))
                by (nonlinear_arith)
                requires
                    0 <= x,
                    x < (box_width as int),
                    0 <= y,
                    y < (box_height as int),
            ;
            let j = y * (box_width as int) + x;
            lemma_fundamental_div_mod_converse(j, box_width as int, y, x);
            assert(img.pixel(x, y) == pixels@[j]);
        }
    }
    img
}

/// An unmapped character leaves a gap: every pixel of its cell keeps the
/// background colour, while the neighbouring cells are laid out as if the
/// character were drawn, so nothing shifts.
pub proof fn lemma_unmapped_char_gap(
    lines: Seq<Seq<char>>,
    font: FontDefinition,
    padding: int,
    background: Rgba,
    x: int,
    y: int,
)
    requires
        x >= padding,
        y >= padding,
        cell_row(font, padding, y) < lines.len(),
        cell_col(font, padding, x) < lines[cell_row(font, padding, y)].len(),
        char_index(
            font.char_map,
            upper_char(lines[cell_row(font, padding, y)][cell_col(font, padding, x)]),
        ) is None,
    ensures
        rendered_pixel(lines, font, padding, background, x, y) == background,
{
}

/// A fully opaque tile pixel is copied into the output exactly: where the
/// cell of `(x, y)` shows tile `idx` and the tile pixel it reads has full
/// alpha, the output pixel equals that atlas pixel, whatever the
/// background.
pub proof fn lemma_opaque_tile_copies(
    lines: Seq<Seq<char>>,
    font: FontDefinition,
    padding: int,
    background: Rgba,
    x: int,
    y: int,
    idx: int,
)
    requires
        x >= padding,
        y >= padding,
        cell_row(font, padding, y) < lines.len(),
        cell_col(font, padding, x) < lines[cell_row(font, padding, y)].len(),
        char_index(
            font.char_map,
            upper_char(lines[cell_row(font, padding, y)][cell_col(font, padding, x)]),
        ) == Some(idx),
        idx < font.grid_columns * font.grid_rows,
        font.atlas.pixel(atlas_x(font, idx, padding, x), atlas_y(font, idx, padding, y)).a == 255,
    ensures
        rendered_pixel(lines, font, padding, background, x, y) == font.atlas.pixel(
            atlas_x(font, idx, padding, x),
            atlas_y(font, idx, padding, y),
        ),
{
    crate::color::lemma_blend_extremes(
        font.atlas.pixel(atlas_x(font, idx, padding, x), atlas_y(font, idx, padding, y)),
        background,
    );
}

/// The character length of the longest line; zero when there are no lines.
pub open spec fn longest_line(lines: Seq<Seq<char>>) -> int
    decreases lines.len(),
{
    if lines.len() == 0 {
        0
    } else {
        let rest = longest_line(lines.drop_last());
        if lines.last().len() >= rest {
            lines.last().len() as int
        } else {
            rest
        }
    }
}

/// The length of the longest line, as [`longest_line`] states.
pub fn longest_line_chars(lines: &Vec<&str>) -> (n: usize)
    ensures
        n == longest_line(lines.deep_view()),
{
    let mut n: usize = 0;
    let mut i: usize = 0;
    let count = lines.len();
    proof {
        assert(lines.deep_view().take(0) =~= Seq::<Seq<char>>::empty());
    }
    while i < count
        invariant
            count == lines@.len(),
            i <= count,
            n == longest_line(lines.deep_view().take(i as int)),
        decreases count - i,
    {
        let ghost prefix = lines.deep_view().take(i as int);
        let len = lines[i].unicode_len();
        proof {
            let next = lines.deep_view().take(i + 1);
            assert(next.drop_last() =~= prefix);
            assert(next.last() == lines.deep_view()[i as int]);
            assert(lines.deep_view()[i as int] == lines@[i as int]@);
        }
        if len > n {
            n = len;
        }
        i = i + 1;
    }
    proof {
        assert(lines.deep_view().take(count as int) =~= lines.deep_view());
    }
    n
}

} // verus!
