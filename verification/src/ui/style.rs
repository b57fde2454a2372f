//! Fonts, colors and metrics of the UI.

use vstd::prelude::*;
use crate::geometry::{Vec2i, Color4b, color};

verus! {

/// A font, by its index in the font atlas.
#[derive(Clone, Copy, Debug, PartialEq, Eq, Structural)]
pub struct FontId(pub usize);

/// The metrics, fonts and color table that controls are drawn with.
#[derive(Clone, Copy)]
pub struct Style {
    pub bold_font: FontId,
    pub normal_font: FontId,
    pub console_font: FontId,
    pub size: Vec2i,
    pub padding: i32,
    pub spacing: i32,
    pub indent: i32,
    pub title_height: i32,
    pub scrollbar_size: i32,
    pub thumb_size: i32,
    pub colors: [Color4b; 14],
}

/// The default color table: text, border, window, title bar, title text,
/// panel, button (plain, hovered, focused), base (plain, hovered, focused),
/// scroll base and scroll thumb.
pub open spec fn default_colors() -> Seq<Color4b> {
    seq![
        Color4b { x: 230, y: 230, z: 230, w: 255 },
        Color4b { x: 25, y: 25, z: 25, w: 255 },
        Color4b { x: 50, y: 50, z: 50, w: 255 },
        Color4b { x: 25, y: 25, z: 25, w: 255 },
        Color4b { x: 240, y: 240, z: 240, w: 255 },
        Color4b { x: 0, y: 0, z: 0, w: 0 },
        Color4b { x: 75, y: 75, z: 75, w: 255 },
        Color4b { x: 95, y: 95, z: 95, w: 255 },
        Color4b { x: 115, y: 115, z: 115, w: 255 },
        Color4b { x: 30, y: 30, z: 30, w: 255 },
        Color4b { x: 35, y: 35, z: 35, w: 255 },
        Color4b { x: 40, y: 40, z: 40, w: 255 },
        Color4b { x: 43, y: 43, z: 43, w: 255 },
        Color4b { x: 30, y: 30, z: 30, w: 255 }
    ]
}

impl Style {
    /// The default style drawn with the given fonts: 68 by 10 cells, padding
    /// 5, spacing 4, indent 24, title bars 24 high, scroll bars 12 wide with
    /// thumbs of at least 8, and the default colors.
    pub fn new(bold_font: FontId, normal_font: FontId, console_font: FontId) -> (s: Style)
        ensures
            s.bold_font == bold_font,
            s.normal_font == normal_font,
            s.console_font == console_font,
            s.size == (Vec2i { x: 68, y: 10 }),
            s.padding == 5,
            s.spacing == 4,
            s.indent == 24,
            s.title_height == 24,
            s.scrollbar_size == 12,
            s.thumb_size == 8,
            s.colors@ == default_colors(),
    {
        let s = Style {
            bold_font,
            normal_font,
            console_font,
            size: Vec2i { x: 68, y: 10 },
            padding: 5,
            spacing: 4,
            indent: 24,
            title_height: 24,
            scrollbar_size: 12,
            thumb_size: 8,
            colors: [
                color(230, 230, 230, 255),
                color(25, 25, 25, 255),
                color(50, 50, 50, 255),
                color(25, 25, 25, 255),
                color(240, 240, 240, 255),
                color(0, 0, 0, 0),
                color(75, 75, 75, 255),
                color(95, 95, 95, 255),
                color(115, 115, 115, 255),
                color(30, 30, 30, 255),
                color(35, 35, 35, 255),
                color(40, 40, 40, 255),
                color(43, 43, 43, 255),
                color(30, 30, 30, 255),
            ],
        };
        assert(s.colors@ =~= default_colors());
        s
    }
}

} // verus!
