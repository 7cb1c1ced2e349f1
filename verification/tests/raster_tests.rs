use bitfont::charmap::CharMap;
use bitfont::color::Rgba;
use bitfont::font::FontDefinition;
use bitfont::pixbuf::Image;
use bitfont::raster::rasterize;

fn opaque(r: u8, g: u8, b: u8) -> Rgba {
    Rgba { r, g, b, a: 255 }
}

fn clear() -> Rgba {
    Rgba { r: 0, g: 0, b: 0, a: 0 }
}

/// A font of two 2x2 tiles side by side in a 4x2 atlas, every atlas pixel a
/// distinct opaque colour, mapped by the restricted layout (A -> tile 0,
/// B -> tile 1).
fn two_tile_font() -> FontDefinition {
    let pixels = vec![
        opaque(1, 0, 0),
        opaque(2, 0, 0),
        opaque(3, 0, 0),
        opaque(4, 0, 0),
        opaque(5, 0, 0),
        opaque(6, 0, 0),
        opaque(7, 0, 0),
        opaque(8, 0, 0),
    ];
    FontDefinition {
        name: String::from("TwoTile"),
        atlas: Image::from_pixels(4, 2, pixels).unwrap(),
        tile_width: 2,
        tile_height: 2,
        grid_columns: 2,
        grid_rows: 1,
        char_map: CharMap::RestrictedSymbols,
    }
}

#[test]
fn image_from_pixels_checks_length() {
    assert!(Image::from_pixels(3, 2, vec![clear(); 6]).is_some());
    assert!(Image::from_pixels(3, 2, vec![clear(); 5]).is_none());
}

#[test]
fn image_bytes_in_rgba_order() {
    let img = Image::from_pixels(
        2,
        1,
        vec![Rgba { r: 1, g: 2, b: 3, a: 4 }, Rgba { r: 5, g: 6, b: 7, a: 8 }],
    )
    .unwrap();
    assert_eq!(img.to_rgba_bytes(), vec![1, 2, 3, 4, 5, 6, 7, 8]);
}

#[test]
fn two_glyphs_copy_their_tiles_exactly() {
    // "AB" over a transparent background with opaque tiles: the output is
    // tile 0 on the left half and tile 1 on the right, pixel for pixel --
    // here the whole atlas, since the tiles sit in atlas order.
    let font = two_tile_font();
    let lines = vec!["AB"];
    let img = rasterize(&lines, &font, 4, 2, 0, clear());
    assert_eq!(img.width(), 4);
    assert_eq!(img.height(), 2);
    for y in 0..2 {
        for x in 0..4 {
            assert_eq!(img.get_pixel(x, y), font.atlas.get_pixel(x, y));
        }
    }
}

#[test]
fn lowercase_renders_as_uppercase() {
    let font = two_tile_font();
    let upper = rasterize(&vec!["AB"], &font, 4, 2, 0, clear());
    let lower = rasterize(&vec!["ab"], &font, 4, 2, 0, clear());
    for y in 0..2 {
        for x in 0..4 {
            assert_eq!(lower.get_pixel(x, y), upper.get_pixel(x, y));
        }
    }
}

#[test]
fn unmapped_char_leaves_gap_without_shifting() {
    // '!' has no tile in the restricted layout: its cell keeps the
    // background, and 'B' after it still lands in the third cell.
    let bg = opaque(9, 9, 9);
    let font = two_tile_font();
    let lines = vec!["A!B"];
    let img = rasterize(&lines, &font, 6, 2, 0, bg);
    for y in 0..2 {
        // cell of 'A': tile 0 (atlas columns 0..2)
        assert_eq!(img.get_pixel(0, y), font.atlas.get_pixel(0, y));
        assert_eq!(img.get_pixel(1, y), font.atlas.get_pixel(1, y));
        // cell of '!': background
        assert_eq!(img.get_pixel(2, y), bg);
        assert_eq!(img.get_pixel(3, y), bg);
        // cell of 'B': tile 1 (atlas columns 2..4)
        assert_eq!(img.get_pixel(4, y), font.atlas.get_pixel(2, y));
        assert_eq!(img.get_pixel(5, y), font.atlas.get_pixel(3, y));
    }
}

#[test]
fn glyphs_clip_at_the_box_edge() {
    // A 3x2 box cuts the second tile in half; nothing is drawn beyond it.
    let font = two_tile_font();
    let img = rasterize(&vec!["AB"], &font, 3, 2, 0, clear());
    assert_eq!(img.width(), 3);
    for y in 0..2 {
        assert_eq!(img.get_pixel(0, y), font.atlas.get_pixel(0, y));
        assert_eq!(img.get_pixel(1, y), font.atlas.get_pixel(1, y));
        assert_eq!(img.get_pixel(2, y), font.atlas.get_pixel(2, y));
    }
}

#[test]
fn padding_offsets_the_glyphs() {
    let bg = opaque(7, 7, 7);
    let font = two_tile_font();
    let img = rasterize(&vec!["A"], &font, 4, 4, 1, bg);
    // the padding ring stays background
    for x in 0..4 {
        assert_eq!(img.get_pixel(x, 0), bg);
    }
    for y in 0..4 {
        assert_eq!(img.get_pixel(0, y), bg);
    }
    // the glyph cell starts at (1, 1)
    assert_eq!(img.get_pixel(1, 1), font.atlas.get_pixel(0, 0));
    assert_eq!(img.get_pixel(2, 1), font.atlas.get_pixel(1, 0));
    assert_eq!(img.get_pixel(1, 2), font.atlas.get_pixel(0, 1));
    assert_eq!(img.get_pixel(2, 2), font.atlas.get_pixel(1, 1));
    // past the glyph, background again
    assert_eq!(img.get_pixel(3, 3), bg);
}

#[test]
fn tile_index_beyond_grid_draws_nothing() {
    // 'C' maps to tile 2, but the grid holds only two tiles: blank cell.
    let bg = opaque(5, 5, 5);
    let font = two_tile_font();
    let img = rasterize(&vec!["C"], &font, 2, 2, 0, bg);
    for y in 0..2 {
        for x in 0..2 {
            assert_eq!(img.get_pixel(x, y), bg);
        }
    }
}

#[test]
fn semi_transparent_glyph_blends_over_background() {
    let pixels = vec![Rgba { r: 100, g: 50, b: 200, a: 128 }];
    let font = FontDefinition {
        name: String::from("OnePixel"),
        atlas: Image::from_pixels(1, 1, pixels).unwrap(),
        tile_width: 1,
        tile_height: 1,
        grid_columns: 1,
        grid_rows: 1,
        char_map: CharMap::RestrictedSymbols,
    };
    let bg = Rgba { r: 10, g: 20, b: 30, a: 255 };
    let img = rasterize(&vec!["A"], &font, 1, 1, 0, bg);
    assert_eq!(img.get_pixel(0, 0), Rgba { r: 55, g: 35, b: 115, a: 255 });
}
