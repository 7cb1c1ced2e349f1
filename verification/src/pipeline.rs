//! The rendering pipeline: from a text request to a finished pixel buffer.
//!
//! A request names a font, carries the text, an optional box, a padding and
//! a background colour, and is consumed exactly once: a `rendered` flag
//! guards against reprocessing. The pipeline defers while the font assets
//! are still loading, reports an unregistered font name as `NotFound`, and
//! otherwise wraps the text, sizes the box and rasterizes, handing back the
//! finished buffer as `Ready`.

use vstd::prelude::*;

verus! {

use crate::color::Rgba;
use crate::font::FontDefinition;
use crate::font::FontRegistry;
use crate::pixbuf::Image;
use crate::raster::longest_line;
use crate::raster::longest_line_chars;
use crate::raster::rasterize;
use crate::raster::rendered_pixel;
use crate::wrap::wrap_lines;
use crate::wrap::wrap_spec;

/// The pixel rectangle a request renders into: an explicit one, or one
/// sized to the wrapped text.
#[derive(Clone, Copy, Debug, PartialEq, Eq, Structural)]
pub enum BoxSize {
    /// Size the box to the text: the longest line's width plus padding,
    /// one tile's height plus padding.
    Auto,
    /// A fixed box; wrapping derives its line limit from the width.
    Fixed { width: usize, height: usize },
}

/// One request to render a text in a named font. Consumed exactly once:
/// `rendered` is raised when the pipeline has produced the buffer.
pub struct TextRequest {
    pub text: String,
    pub font_name: String,
    pub box_size: BoxSize,
    pub padding: usize,
    pub background: Rgba,
    pub rendered: bool,
}

impl Default for TextRequest {
    /// An empty, unrendered request: no text, no font name, an auto-sized
    /// box, no padding, and a transparent background.
    fn default() -> (r: TextRequest)
        ensures
            r.text@ == Seq::<char>::empty(),
            r.font_name@ == Seq::<char>::empty(),
            r.box_size == BoxSize::Auto,
            r.padding == 0,
            r.background == (Rgba { r: 0, g: 0, b: 0, a: 0 }),
            r.rendered == false,
    {
        TextRequest {
            text: String::new(),
            font_name: String::new(),
            box_size: BoxSize::Auto,
            padding: 0,
            background: Rgba::transparent(),
            rendered: false,
        }
    }
}

/// What became of a request on this tick: the finished buffer, a deferral
/// to a later tick while assets load, or a failed font lookup.
pub enum RenderOutcome {
    /// The rendered buffer; the request is now marked rendered.
    Ready(Image),
    /// The font assets have not arrived yet: try again on a later tick.
    /// The request is left untouched.
    Pending,
    /// No font of the requested name is registered. The request is left
    /// untouched; the caller decides whether to drop or log it.
    NotFound,
}

/// The line limit wrapping uses for a request under a font: how many whole
/// tiles fit across the fixed box's width inside the padding. An auto-sized
/// box puts no limit on the line, which disables wrapping.
pub open spec fn request_max_chars(req: TextRequest, font: FontDefinition) -> int {
    match req.box_size {
        BoxSize::Fixed { width, height: _ } => if width > 2 * req.padding {
            (width - 2 * req.padding) / (font.tile_width as int)
        } else {
            0
        },
        BoxSize::Auto => 0,
    }
}

/// The wrapped lines of a request under a font.
pub open spec fn request_lines(req: TextRequest, font: FontDefinition) -> Seq<Seq<char>> {
    wrap_spec(req.text@, request_max_chars(req, font))
}

/// The output box of a request under a font: a fixed box as given, an auto
/// box sized to the wrapped text.
pub open spec fn request_box(req: TextRequest, font: FontDefinition) -> (int, int) {
    match req.box_size {
        BoxSize::Fixed { width, height } => (width as int, height as int),
        BoxSize::Auto => (
            longest_line(request_lines(req, font)) * font.tile_width + 2 * req.padding,
            font.tile_height + 2 * req.padding,
        ),
    }
}

/// The machine limit on a request under a font: its output box must fit in
/// `usize` arithmetic, side by side and as one buffer.
pub open spec fn request_fits(req: TextRequest, font: FontDefinition) -> bool {
    &&& request_box(req, font).0 <= usize::MAX
    &&& request_box(req, font).1 <= usize::MAX
    &&& request_box(req, font).0 * request_box(req, font).1 <= usize::MAX
}

/// The output dimensions for wrapped lines: a fixed box unchanged, an auto
/// box sized to the longest line's width and one tile's height, padded on
/// all sides.
pub fn compute_box(
    lines: &Vec<&str>,
    requested: &BoxSize,
    tile_width: usize,
    tile_height: usize,
    padding: usize,
) -> (r: (usize, usize))
    requires
        match *requested {
            BoxSize::Auto => longest_line(lines.deep_view()) * tile_width + 2 * padding
                <= usize::MAX && tile_height + 2 * padding <= usize::MAX,
            BoxSize::Fixed { width, height } => true,
        },
    ensures
        match *requested {
            BoxSize::Auto => r.0 == longest_line(lines.deep_view()) * tile_width + 2 * padding
                && r.1 == tile_height + 2 * padding,
            BoxSize::Fixed { width, height } => r == (width, height),
        },
{
    match requested {
        BoxSize::Fixed { width, height } => (*width, *height),
        BoxSize::Auto => {
            let longest = longest_line_chars(lines);
            (longest * tile_width + 2 * padding, tile_height + 2 * padding)
        },
    }
}

/// Serves one text request against the registry: defers while the font
/// assets have not arrived, reports an unregistered font name, and
/// otherwise wraps, sizes and rasterizes, marking the request rendered.
/// Exactly one of the three outcomes occurs, as the contract states.
pub fn render_text(registry: &FontRegistry, fonts_ready: bool, req: &mut TextRequest) -> (r:
    RenderOutcome)
    requires
        registry.wf(),
        !old(req).rendered,
        2 * old(req).padding <= usize::MAX,
        fonts_ready && registry.spec_resolve(old(req).font_name@) is Some ==> request_fits(
            *old(req),
            registry.spec_fonts()[registry.spec_resolve(old(req).font_name@)->0],
        ),
    ensures
        match r {
            RenderOutcome::Pending => !fonts_ready && *final(req) == *old(req),
            RenderOutcome::NotFound => fonts_ready && registry.spec_resolve(old(req).font_name@)
                is None && *final(req) == *old(req),
            RenderOutcome::Ready(img) => {
                &&& fonts_ready
                &&& registry.spec_resolve(old(req).font_name@) is Some
                &&& {
                    let font = registry.spec_fonts()[registry.spec_resolve(
                        old(req).font_name@,
                    )->0];
                    &&& img.wf()
                    &&& img.spec_width() == request_box(*old(req), font).0
                    &&& img.spec_height() == request_box(*old(req), font).1
                    &&& forall|x: int, y: int|
                        0 <= x < img.spec_width() && 0 <= y < img.spec_height()
                            ==> #[trigger] img.pixel(x, y) == rendered_pixel(
                            request_lines(*old(req), font),
                            font,
                            old(req).padding as int,
                            old(req).background,
                            x,
                            y,
                        )
                }
                &&& *final(req) == (TextRequest { rendered: true, ..*old(req) })
            },
        },
{
    if !fonts_ready {
        return RenderOutcome::Pending;
    }
    let font = match registry.resolve(req.font_name.as_str()) {
        Err(_) => { return RenderOutcome::NotFound; },
        Ok(f) => f,
    };
    proof {
        crate::font::lemma_find_named(registry.spec_fonts(), old(req).font_name@);
        assert(font.wf());
    }
    let max_chars: usize = match req.box_size {
        BoxSize::Fixed { width, height: _ } => {
            if width > 2 * req.padding {
                (width - 2 * req.padding) / font.tile_width
            } else {
                0
            }
        },
        BoxSize::Auto => 0,
    };
    let lines = wrap_lines(req.text.as_str(), max_chars);
    proof {
        assert(max_chars as int == request_max_chars(*old(req), *font));
        assert(lines.deep_view() == request_lines(*old(req), *font));
    }
    let (box_width, box_height) = compute_box(
        &lines,
        &req.box_size,
        font.tile_width,
        font.tile_height,
        req.padding,
    );
    let img = rasterize(&lines, font, box_width, box_height, req.padding, req.background);
    req.rendered = true;
    proof {
        assert(*req == (TextRequest { rendered: true, ..*old(req) }));
    }
    RenderOutcome::Ready(img)
}

} // verus!
