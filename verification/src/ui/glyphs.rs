//! Where the UI back end puts the rectangles of its atlas: the glyphs of a
//! text along a line, an icon centred in its box, and a clip rectangle in
//! the frame's bottom-up coordinates.

use vstd::prelude::*;
use crate::geometry::{Recti, Vec2i, div_trunc};
use crate::ui::layout::in_i32;

verus! {

/// A character has a glyph in the atlas when its code is below 127.
pub open spec fn has_glyph(c: char) -> bool {
    (c as u32) < 127
}

/// The glyphs of `text` placed with the pen at `x` on the line `y`: for
/// each character that has a glyph, in order, the box of its atlas
/// rectangle `table[base + code]` at the pen, and that rectangle; the pen
/// then moves right by the glyph's width.
pub open spec fn glyph_quads(text: Seq<char>, table: Seq<Recti>, base: int, x: int, y: i32) -> Seq<(Recti, Recti)>
    decreases text.len(),
{
    if text.len() == 0 {
        Seq::empty()
    } else if has_glyph(text[0]) {
        let src = table[base + (text[0] as u32)];
        seq![(Recti { x: x as i32, y, width: src.width, height: src.height }, src)]
            + glyph_quads(text.drop_first(), table, base, x + src.width, y)
    } else {
        glyph_quads(text.drop_first(), table, base, x, y)
    }
}

/// Every position the pen takes while placing `text` from `x` fits `i32`.
pub open spec fn glyph_pens_fit(text: Seq<char>, table: Seq<Recti>, base: int, x: int) -> bool
    decreases text.len(),
{
    &&& in_i32(x)
    &&& text.len() > 0 ==> if has_glyph(text[0]) {
        glyph_pens_fit(text.drop_first(), table, base, x + table[base + (text[0] as u32)].width)
    } else {
        glyph_pens_fit(text.drop_first(), table, base, x)
    }
}

/// The glyphs of `text` placed from `pos`, as `glyph_quads` says, each as
/// its box and its atlas rectangle; `None` where the pen would leave `i32`.
pub fn place_glyphs(text: &str, table: &[Recti], base: usize, pos: Vec2i) -> (r: Option<Vec<(Recti, Recti)>>)
    requires
        base + 127 <= table@.len(),
    ensures
        match r {
            Some(q) => glyph_pens_fit(text@, table@, base as int, pos.x as int)
                && q@ == glyph_quads(text@, table@, base as int, pos.x as int, pos.y),
            None => !glyph_pens_fit(text@, table@, base as int, pos.x as int),
        },
{
    let n = text.unicode_len();
    let mut out: Vec<(Recti, Recti)> = Vec::new();
    let mut x: i32 = pos.x;
    let mut i: usize = 0;
    let tl = table.len();
    proof {
        assert(text@.skip(0) =~= text@);
        assert(out@ + glyph_quads(text@, table@, base as int, pos.x as int, pos.y)
            =~= glyph_quads(text@, table@, base as int, pos.x as int, pos.y));
    }
    while i < n
        invariant
            i <= n,
            n == text@.len(),
            base + 127 <= table@.len(),
            tl == table@.len(),
            out@ + glyph_quads(text@.skip(i as int), table@, base as int, x as int, pos.y)
                == glyph_quads(text@, table@, base as int, pos.x as int, pos.y),
            glyph_pens_fit(text@.skip(i as int), table@, base as int, x as int)
                == glyph_pens_fit(text@, table@, base as int, pos.x as int),
        decreases n - i,
    {
        let ghost rest = text@.skip(i as int);
        let c = text.get_char(i);
        proof {
            assert(rest[0] == c);
            assert(rest.drop_first() =~= text@.skip(i + 1));
        }
        if (c as u32) < 127 {
            let k = (c as u32) as usize;
            let src = table[base + k];
            let nx = x as i64 + src.width as i64;
            if nx < i32::MIN as i64 || nx > i32::MAX as i64 {
                proof {
                    assert(!glyph_pens_fit(text@.skip(i + 1), table@, base as int, nx as int));
                    assert(src == table@[base + (rest[0] as u32)]);
                }
                return None;
            }
            let dst = Recti { x: x, y: pos.y, width: src.width, height: src.height };
            proof {
                assert(out@.push((dst, src)) + glyph_quads(text@.skip(i + 1), table@, base as int, nx as int, pos.y)
                    =~= out@ + (seq![(dst, src)] + glyph_quads(text@.skip(i + 1), table@, base as int, nx as int, pos.y)));
            }
            out.push((dst, src));
            x = nx as i32;
        }
        i += 1;
    }
    proof {
        assert(text@.skip(n as int) =~= Seq::<char>::empty());
        assert(out@ + Seq::<(Recti, Recti)>::empty() =~= out@);
    }
    Some(out)
}

/// The box of an atlas rectangle `src` centred in `r`, halves rounded
/// toward zero.
pub open spec fn spec_icon_box(r: Recti, src: Recti) -> Recti {
    Recti {
        x: (r.x + div_trunc(r.width - src.width, 2)) as i32,
        y: (r.y + div_trunc(r.height - src.height, 2)) as i32,
        width: src.width,
        height: src.height,
    }
}

/// Centring `src` in `r` takes no overflowing step.
pub open spec fn icon_box_fits(r: Recti, src: Recti) -> bool {
    &&& in_i32(r.width - src.width)
    &&& in_i32(r.height - src.height)
    &&& in_i32(r.x + div_trunc(r.width - src.width, 2))
    &&& in_i32(r.y + div_trunc(r.height - src.height, 2))
}

/// The atlas rectangle `src` centred in `r`; `None` where that takes an
/// overflowing step.
pub fn icon_box(r: Recti, src: Recti) -> (b: Option<Recti>)
    ensures
        match b {
            Some(bx) => icon_box_fits(r, src) && bx == spec_icon_box(r, src),
            None => !icon_box_fits(r, src),
        },
{
    let dw = r.width as i64 - src.width as i64;
    let dh = r.height as i64 - src.height as i64;
    if dw < i32::MIN as i64 || dw > i32::MAX as i64 || dh < i32::MIN as i64 || dh > i32::MAX as i64 {
        return None;
    }
    let dw = dw as i32;
    let dh = dh as i32;
    let x = r.x as i64 + (dw / 2) as i64;
    let y = r.y as i64 + (dh / 2) as i64;
    if x < i32::MIN as i64 || x > i32::MAX as i64 || y < i32::MIN as i64 || y > i32::MAX as i64 {
        return None;
    }
    Some(Recti { x: x as i32, y: y as i32, width: src.width, height: src.height })
}

/// The scissor box of the clip rectangle `rect` in a frame `height` high
/// whose rows count from the bottom: its left edge, its bottom edge, and
/// its size, each extent taken as an unsigned number.
pub open spec fn spec_scissor(rect: Recti, height: i32) -> (i32, i32, u32, u32) {
    (rect.x, (height - (rect.y + rect.height)) as i32, rect.width as u32, rect.height as u32)
}

/// The scissor box of `rect` in a frame `height` high, as `spec_scissor`
/// says; `None` where its bottom edge would overflow.
pub fn scissor(rect: Recti, height: i32) -> (s: Option<(i32, i32, u32, u32)>)
    ensures
        match s {
            Some(b) => in_i32(rect.y + rect.height) && in_i32(height - (rect.y + rect.height))
                && b == spec_scissor(rect, height),
            None => !(in_i32(rect.y + rect.height) && in_i32(height - (rect.y + rect.height))),
        },
{
    let top = rect.y as i64 + rect.height as i64;
    if top < i32::MIN as i64 || top > i32::MAX as i64 {
        return None;
    }
    let bottom = height as i64 - top;
    if bottom < i32::MIN as i64 || bottom > i32::MAX as i64 {
        return None;
    }
    Some((rect.x, bottom as i32, rect.width as u32, rect.height as u32))
}

} // verus!
