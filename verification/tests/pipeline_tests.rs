use bitfont::charmap::CharMap;
use bitfont::color::Rgba;
use bitfont::font::{FontDefinition, FontError, FontRegistry};
use bitfont::pipeline::{compute_box, render_text, BoxSize, RenderOutcome, TextRequest};
use bitfont::pixbuf::Image;

fn opaque(v: u8) -> Rgba {
    Rgba { r: v, g: v, b: v, a: 255 }
}

fn clear() -> Rgba {
    Rgba { r: 0, g: 0, b: 0, a: 0 }
}

/// A font of two 2x2 tiles in a 4x2 atlas (A -> tile 0, B -> tile 1).
fn two_tile_font(name: &str) -> FontDefinition {
    let pixels = (1..=8).map(|v| opaque(v)).collect();
    FontDefinition {
        name: String::from(name),
        atlas: Image::from_pixels(4, 2, pixels).unwrap(),
        tile_width: 2,
        tile_height: 2,
        grid_columns: 2,
        grid_rows: 1,
        char_map: CharMap::RestrictedSymbols,
    }
}

/// A font of forty 1x1 tiles, one per character of the restricted layout.
fn strip_font(name: &str) -> FontDefinition {
    let pixels = (0..40).map(|v| opaque(v as u8)).collect();
    FontDefinition {
        name: String::from(name),
        atlas: Image::from_pixels(40, 1, pixels).unwrap(),
        tile_width: 1,
        tile_height: 1,
        grid_columns: 40,
        grid_rows: 1,
        char_map: CharMap::RestrictedSymbols,
    }
}

fn request(text: &str, font_name: &str) -> TextRequest {
    TextRequest {
        text: String::from(text),
        font_name: String::from(font_name),
        ..TextRequest::default()
    }
}

#[test]
fn resolve_unregistered_name_is_not_found() {
    let mut registry = FontRegistry::new();
    registry.register(two_tile_font("Tiny"));
    assert!(matches!(registry.resolve("Missing"), Err(FontError::NotFound)));
    // the registry is left as it was: the lookup that failed changed nothing
    assert_eq!(registry.len(), 1);
    assert!(registry.resolve("Tiny").is_ok());
}

#[test]
fn resolve_answers_first_registered_of_a_name() {
    let mut registry = FontRegistry::new();
    registry.register(two_tile_font("Twin"));
    registry.register(strip_font("Twin"));
    let font = registry.resolve("Twin").unwrap();
    assert_eq!(font.tile_width, 2);
}

#[test]
fn auto_box_is_sized_to_the_text() {
    // width = longest line * tile width + 2 * padding,
    // height = tile height + 2 * padding
    let lines = vec!["HELLO"];
    assert_eq!(compute_box(&lines, &BoxSize::Auto, 8, 8, 4), (48, 16));
    assert_eq!(compute_box(&lines, &BoxSize::Auto, 8, 12, 0), (40, 12));
    assert_eq!(compute_box(&vec![""], &BoxSize::Auto, 8, 8, 4), (8, 16));
}

#[test]
fn auto_box_depends_only_on_tile_size() {
    // two different fonts with equal tile sizes give equal auto boxes
    let a = two_tile_font("A");
    let b = FontDefinition { char_map: CharMap::Ascii, ..two_tile_font("B") };
    let lines = vec!["ABC"];
    let box_a = compute_box(&lines, &BoxSize::Auto, a.tile_width, a.tile_height, 3);
    let box_b = compute_box(&lines, &BoxSize::Auto, b.tile_width, b.tile_height, 3);
    assert_eq!(box_a, box_b);
    assert_eq!(box_a, (3 * 2 + 6, 2 + 6));
}

#[test]
fn fixed_box_is_kept_unchanged() {
    let lines = vec!["HELLO"];
    assert_eq!(
        compute_box(&lines, &BoxSize::Fixed { width: 7, height: 9 }, 8, 8, 4),
        (7, 9)
    );
}

#[test]
fn render_defers_while_fonts_load() {
    let registry = FontRegistry::new();
    let mut req = request("AB", "Tiny");
    let outcome = render_text(&registry, false, &mut req);
    assert!(matches!(outcome, RenderOutcome::Pending));
    assert!(!req.rendered);
}

#[test]
fn render_reports_missing_font() {
    let mut registry = FontRegistry::new();
    registry.register(two_tile_font("Tiny"));
    let mut req = request("AB", "Missing");
    let outcome = render_text(&registry, true, &mut req);
    assert!(matches!(outcome, RenderOutcome::NotFound));
    assert!(!req.rendered);
}

#[test]
fn render_auto_box_copies_the_tiles() {
    let mut registry = FontRegistry::new();
    registry.register(two_tile_font("Tiny"));
    let mut req = request("AB", "Tiny");
    let outcome = render_text(&registry, true, &mut req);
    let img = match outcome {
        RenderOutcome::Ready(img) => img,
        _ => panic!("expected a rendered buffer"),
    };
    assert!(req.rendered);
    assert_eq!(img.width(), 4);
    assert_eq!(img.height(), 2);
    let font = registry.resolve("Tiny").unwrap();
    for y in 0..2 {
        for x in 0..4 {
            assert_eq!(img.get_pixel(x, y), font.atlas.get_pixel(x, y));
        }
    }
}

#[test]
fn render_fixed_box_wraps_and_clips() {
    let mut registry = FontRegistry::new();
    registry.register(strip_font("Strip"));
    let bg = clear();
    let mut req = TextRequest {
        text: String::from("AB CD"),
        font_name: String::from("Strip"),
        box_size: BoxSize::Fixed { width: 3, height: 2 },
        padding: 0,
        background: bg,
        rendered: false,
    };
    let outcome = render_text(&registry, true, &mut req);
    let img = match outcome {
        RenderOutcome::Ready(img) => img,
        _ => panic!("expected a rendered buffer"),
    };
    assert_eq!(img.width(), 3);
    assert_eq!(img.height(), 2);
    let font = registry.resolve("Strip").unwrap();
    // first line "AB": tiles 0 and 1; third cell past the line stays bg
    assert_eq!(img.get_pixel(0, 0), font.atlas.get_pixel(0, 0));
    assert_eq!(img.get_pixel(1, 0), font.atlas.get_pixel(1, 0));
    assert_eq!(img.get_pixel(2, 0), bg);
    // second line "CD": tiles 2 and 3
    assert_eq!(img.get_pixel(0, 1), font.atlas.get_pixel(2, 0));
    assert_eq!(img.get_pixel(1, 1), font.atlas.get_pixel(3, 0));
    assert_eq!(img.get_pixel(2, 1), bg);
}

#[test]
fn default_request_is_empty_and_unrendered() {
    let req = TextRequest::default();
    assert_eq!(req.text, "");
    assert_eq!(req.font_name, "");
    assert!(matches!(req.box_size, BoxSize::Auto));
    assert_eq!(req.padding, 0);
    assert_eq!(req.background, clear());
    assert!(!req.rendered);
}
