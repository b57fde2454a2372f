//! The row/column layout engine: a stack of layouts, each cutting the body of
//! a container into cells, row after row.

use vstd::prelude::*;
use crate::geometry::{Vec2i, Recti, max_i, vec2};
use crate::ui::style::Style;

verus! {

/// Most cells a row can be split into, and most layouts a stack holds.
pub const MAX_WIDTHS: usize = 16;

/// How the next cell of a layout is placed.
#[derive(PartialEq, Eq, Structural, Copy, Clone, Debug)]
pub enum LayoutPosition {
    /// The next cell is the rectangle set with `set_next`, in absolute coordinates.
    Absolute,
    /// The next cell is the rectangle set with `set_next`, relative to the body.
    Relative,
    /// The next cell is the next one of the current row.
    NoPosition,
}

impl Default for LayoutPosition {
    fn default() -> (r: Self)
        ensures
            r == LayoutPosition::NoPosition,
    {
        LayoutPosition::NoPosition
    }
}

/// The state of one layout: its body, the current row and the extent reached so far.
#[derive(Copy, Clone)]
pub struct Layout {
    pub body: Recti,
    pub next: Recti,
    pub position: Vec2i,
    pub size: Vec2i,
    pub max: Vec2i,
    pub widths: [i32; 16],
    pub items: usize,
    pub item_index: usize,
    pub next_row: i32,
    pub next_type: LayoutPosition,
    pub indent: i32,
}

/// The stack of layouts of a container, and the last cell handed out.
#[derive(Clone)]
pub struct LayoutStack {
    stack: Vec<Layout>,
    last_rect: Recti,
}

/// Whether `v` is a value of `i32`.
pub open spec fn in_i32(v: int) -> bool {
    i32::MIN <= v <= i32::MAX
}

pub open spec fn zero_rect() -> Recti {
    Recti { x: 0, y: 0, width: 0, height: 0 }
}

/// `l` is the layout that `push(body, scroll)` puts on the stack: the body
/// moved by the scroll offset, a single row of one cell of default width,
/// everything else zero, and the extent at its floor.
pub open spec fn is_fresh_layout(l: Layout, body: Recti, scroll: Vec2i) -> bool {
    &&& l.body == Recti { x: (body.x - scroll.x) as i32, y: (body.y - scroll.y) as i32, width: body.width, height: body.height }
    &&& l.next == zero_rect()
    &&& l.position == Vec2i { x: 0, y: 0 }
    &&& l.size == Vec2i { x: 0, y: 0 }
    &&& l.max == Vec2i { x: -0x1000000i32, y: -0x1000000i32 }
    &&& l.widths@ == Seq::new(16, |i: int| 0i32)
    &&& l.items == 1
    &&& l.item_index == 0
    &&& l.next_row == 0
    &&& l.next_type == LayoutPosition::NoPosition
    &&& l.indent == 0
}

/// `new` is `old` after starting a row of cells of the given widths and height:
/// the widths are copied in front, the position goes back to the indent on the
/// next row, and the first cell is the next one.
pub open spec fn is_row_of(old: Layout, new: Layout, widths: Seq<i32>, height: i32) -> bool {
    &&& new.widths@ == widths + old.widths@.skip(widths.len() as int)
    &&& new == Layout {
        widths: new.widths,
        items: widths.len() as usize,
        position: Vec2i { x: old.indent, y: old.next_row },
        size: Vec2i { x: old.size.x, y: height },
        item_index: 0,
        ..old
    }
}

/// The layout state that `next` needs: the row fits the width table, and the
/// cell counter neither runs past the row nor overflows.
pub open spec fn layout_ok(l: Layout) -> bool {
    &&& l.items <= MAX_WIDTHS
    &&& l.items > 0 ==> l.item_index <= l.items
    &&& l.item_index < usize::MAX
}

/// The layout once the current row is used up: back to the start of the next row.
pub open spec fn restart_row(l: Layout) -> Layout {
    if l.item_index == l.items {
        Layout { position: Vec2i { x: l.indent, y: l.next_row }, item_index: 0, ..l }
    } else {
        l
    }
}

/// Width of the next cell of the row as stored: the row's entry, or the
/// layout's default width for a row without entries.
pub open spec fn stored_width(l: Layout) -> int {
    if l.items > 0 { l.widths@[l.item_index as int] as int } else { l.size.x as int }
}

/// A zero extent becomes the style's default extent plus padding on both sides.
pub open spec fn defaulted(v: int, style_extent: int, padding: int) -> int {
    if v == 0 { style_extent + padding * 2 } else { v }
}

/// A negative extent counts back from the far edge of the body.
pub open spec fn stretched(v: int, body_extent: int, pos: int) -> int {
    if v < 0 { v + (body_extent - pos + 1) } else { v }
}

/// The next cell of the current row, before the body offset.
pub open spec fn row_cell(l: Layout, style: Style) -> Recti {
    let r = restart_row(l);
    let w = stretched(defaulted(stored_width(r), style.size.x as int, style.padding as int), r.body.width as int, r.position.x as int);
    let h = stretched(defaulted(r.size.y as int, style.size.y as int, style.padding as int), r.body.height as int, r.position.y as int);
    Recti { x: r.position.x, y: r.position.y, width: w as i32, height: h as i32 }
}

/// Every intermediate value of computing `row_cell` fits `i32`.
pub open spec fn row_cell_fits(l: Layout, style: Style) -> bool {
    let r = restart_row(l);
    let w0 = stored_width(r);
    let h0 = r.size.y as int;
    let w1 = defaulted(w0, style.size.x as int, style.padding as int);
    let h1 = defaulted(h0, style.size.y as int, style.padding as int);
    &&& in_i32(style.padding * 2)
    &&& (w0 == 0 ==> in_i32(w1))
    &&& (h0 == 0 ==> in_i32(h1))
    &&& (w1 < 0 ==> in_i32(r.body.width - r.position.x) && in_i32(r.body.width - r.position.x + 1)
        && in_i32(stretched(w1, r.body.width as int, r.position.x as int)))
    &&& (h1 < 0 ==> in_i32(r.body.height - r.position.y) && in_i32(r.body.height - r.position.y + 1)
        && in_i32(stretched(h1, r.body.height as int, r.position.y as int)))
}

/// The layout after handing out the cell `res` (relative to the body): the
/// position moves right past it, the next row moves below it, and the extent
/// grows to cover it.
pub open spec fn advance(l: Layout, res: Recti, style: Style) -> Layout {
    let bx = res.x + l.body.x;
    let by = res.y + l.body.y;
    Layout {
        position: Vec2i { x: (l.position.x + (res.width + style.spacing)) as i32, y: l.position.y },
        next_row: max_i(l.next_row as int, res.y + res.height + style.spacing) as i32,
        max: Vec2i {
            x: max_i(l.max.x as int, bx + res.width) as i32,
            y: max_i(l.max.y as int, by + res.height) as i32,
        },
        ..l
    }
}

/// The cell `res` moved by the body offset.
pub open spec fn offset_cell(l: Layout, res: Recti) -> Recti {
    Recti { x: (res.x + l.body.x) as i32, y: (res.y + l.body.y) as i32, ..res }
}

/// Every intermediate value of `advance` and `offset_cell` fits `i32`.
pub open spec fn advance_fits(l: Layout, res: Recti, style: Style) -> bool {
    let bx = res.x + l.body.x;
    let by = res.y + l.body.y;
    &&& in_i32(res.width + style.spacing)
    &&& in_i32(l.position.x + (res.width + style.spacing))
    &&& in_i32(res.y + res.height)
    &&& in_i32(res.y + res.height + style.spacing)
    &&& in_i32(bx)
    &&& in_i32(by)
    &&& in_i32(bx + res.width)
    &&& in_i32(by + res.height)
}

/// The layout before the position update: the pending explicit cell is
/// consumed, or the row moves on by one cell.
pub open spec fn before_advance(l: Layout) -> Layout {
    if l.next_type != LayoutPosition::NoPosition {
        Layout { next_type: LayoutPosition::NoPosition, ..l }
    } else {
        let r = restart_row(l);
        Layout { item_index: (r.item_index + 1) as usize, ..r }
    }
}

/// The cell before the body offset: the pending explicit cell, or the next cell of the row.
pub open spec fn raw_cell(l: Layout, style: Style) -> Recti {
    if l.next_type != LayoutPosition::NoPosition { l.next } else { row_cell(l, style) }
}

/// What `next` returns for a layout `l`.
pub open spec fn next_cell_of(l: Layout, style: Style) -> Recti {
    if l.next_type == LayoutPosition::Absolute {
        l.next
    } else {
        offset_cell(l, raw_cell(l, style))
    }
}

/// What `next` leaves of the layout `l`.
pub open spec fn next_layout_of(l: Layout, style: Style) -> Layout {
    if l.next_type == LayoutPosition::Absolute {
        Layout { next_type: LayoutPosition::NoPosition, ..l }
    } else {
        advance(before_advance(l), raw_cell(l, style), style)
    }
}

/// `next` runs on `l` without overflow.
pub open spec fn next_fits(l: Layout, style: Style) -> bool {
    &&& layout_ok(l)
    &&& (l.next_type == LayoutPosition::NoPosition ==> row_cell_fits(l, style))
    &&& (l.next_type != LayoutPosition::Absolute ==> advance_fits(before_advance(l), raw_cell(l, style), style))
}

/// What `end_column` leaves of the parent `a` once the child column `b` is popped.
pub open spec fn merged_column(a: Layout, b: Layout) -> Layout {
    Layout {
        position: Vec2i { x: max_i(a.position.x as int, b.position.x + b.body.x - a.body.x) as i32, y: a.position.y },
        next_row: max_i(a.next_row as int, b.next_row + b.body.y - a.body.y) as i32,
        max: Vec2i { x: max_i(a.max.x as int, b.max.x as int) as i32, y: max_i(a.max.y as int, b.max.y as int) as i32 },
        ..a
    }
}

pub open spec fn merge_fits(a: Layout, b: Layout) -> bool {
    &&& in_i32(b.position.x + b.body.x)
    &&& in_i32(b.position.x + b.body.x - a.body.x)
    &&& in_i32(b.next_row + b.body.y)
    &&& in_i32(b.next_row + b.body.y - a.body.y)
}

fn in_i32_exec(v: i64) -> (b: bool)
    ensures
        b == in_i32(v as int),
{
    i32::MIN as i64 <= v && v <= i32::MAX as i64
}

/// Whether the cell `res`, handed out of `l`, can be added to it without overflow.
fn advance_fits_exec(l: &Layout, res: Recti, style: &Style) -> (b: bool)
    ensures
        b == advance_fits(*l, res, *style),
{
    let ws = res.width as i64 + style.spacing as i64;
    let bx = res.x as i64 + l.body.x as i64;
    let by = res.y as i64 + l.body.y as i64;
    in_i32_exec(ws) && in_i32_exec(l.position.x as i64 + ws)
        && in_i32_exec(res.y as i64 + res.height as i64)
        && in_i32_exec(res.y as i64 + res.height as i64 + style.spacing as i64)
        && in_i32_exec(bx) && in_i32_exec(by)
        && in_i32_exec(bx + res.width as i64) && in_i32_exec(by + res.height as i64)
}

/// Whether `next` can run on `l` without overflow.
pub fn next_fits_exec(l: &Layout, style: &Style) -> (b: bool)
    ensures
        b == next_fits(*l, *style),
{
    if !(l.items <= MAX_WIDTHS && (l.items == 0 || l.item_index <= l.items) && l.item_index < usize::MAX) {
        return false;
    }
    if l.next_type == LayoutPosition::Absolute {
        return true;
    }
    if l.next_type == LayoutPosition::Relative {
        let before = Layout { next_type: LayoutPosition::NoPosition, ..*l };
        return advance_fits_exec(&before, l.next, style);
    }
    let restart = l.item_index == l.items;
    let px: i32 = if restart { l.indent } else { l.position.x };
    let py: i32 = if restart { l.next_row } else { l.position.y };
    let idx: usize = if restart { 0 } else { l.item_index };
    let pad2: i64 = style.padding as i64 * 2;
    let w0: i64 = if l.items > 0 { l.widths[idx] as i64 } else { l.size.x as i64 };
    let h0: i64 = l.size.y as i64;
    let w1: i64 = if w0 == 0 { style.size.x as i64 + pad2 } else { w0 };
    let h1: i64 = if h0 == 0 { style.size.y as i64 + pad2 } else { h0 };
    let bw: i64 = l.body.width as i64 - px as i64;
    let bh: i64 = l.body.height as i64 - py as i64;
    let w2: i64 = if w1 < 0 { w1 + (bw + 1) } else { w1 };
    let h2: i64 = if h1 < 0 { h1 + (bh + 1) } else { h1 };
    let row_fits = in_i32_exec(pad2)
        && (w0 != 0 || in_i32_exec(w1))
        && (h0 != 0 || in_i32_exec(h1))
        && (w1 >= 0 || (in_i32_exec(bw) && in_i32_exec(bw + 1) && in_i32_exec(w2)))
        && (h1 >= 0 || (in_i32_exec(bh) && in_i32_exec(bh + 1) && in_i32_exec(h2)));
    if !row_fits {
        return false;
    }
    let r = restart_row_exec(l);
    proof {
        assert(r == restart_row(*l));
    }
    let before = Layout { item_index: r.item_index + 1, ..r };
    let cell = Recti { x: px, y: py, width: w2 as i32, height: h2 as i32 };
    proof {
        assert(cell == row_cell(*l, *style));
        assert(before == before_advance(*l));
    }
    advance_fits_exec(&before, cell, style)
}

fn restart_row_exec(l: &Layout) -> (r: Layout)
    ensures
        r == restart_row(*l),
{
    if l.item_index == l.items {
        Layout { position: Vec2i { x: l.indent, y: l.next_row }, item_index: 0, ..*l }
    } else {
        *l
    }
}

/// Whether `end_column` can merge the column `b` into its parent `a` without overflow.
pub fn merge_fits_exec(a: &Layout, b: &Layout) -> (r: bool)
    ensures
        r == merge_fits(*a, *b),
{
    let x = b.position.x as i64 + b.body.x as i64;
    let y = b.next_row as i64 + b.body.y as i64;
    in_i32_exec(x) && in_i32_exec(x - a.body.x as i64) && in_i32_exec(y) && in_i32_exec(y - a.body.y as i64)
}

fn max_i32(a: i32, b: i32) -> (r: i32)
    ensures
        r == max_i(a as int, b as int),
{
    if a >= b { a } else { b }
}

fn row_for_layout(layout: &mut Layout, widths: &[i32], height: i32)
    requires
        widths@.len() <= MAX_WIDTHS,
    ensures
        is_row_of(*old(layout), *final(layout), widths@, height),
{
    layout.items = widths.len();
    let ghost w0 = layout.widths@;
    let mut i: usize = 0;
    while i < widths.len()
        invariant
            i <= widths@.len() <= 16,
            layout.widths@.len() == 16,
            w0.len() == 16,
            forall|j: int| 0 <= j < i ==> layout.widths@[j] == widths@[j],
            forall|j: int| i <= j < 16 ==> layout.widths@[j] == w0[j],
            layout.items == widths@.len(),
            *layout == (Layout { widths: layout.widths, items: widths@.len() as usize, ..*old(layout) }),
        decreases widths@.len() - i,
    {
        layout.widths[i] = widths[i];
        i += 1;
    }
    layout.position = vec2(layout.indent, layout.next_row);
    layout.size.y = height;
    layout.item_index = 0;
    assert(layout.widths@ =~= widths@ + w0.skip(widths@.len() as int));
}

impl LayoutStack {
    /// The layouts on the stack, bottom first.
    pub closed spec fn layouts(&self) -> Seq<Layout> {
        self.stack@
    }

    /// The last cell handed out by `next`.
    pub closed spec fn last(&self) -> Recti {
        self.last_rect
    }

    pub fn new() -> (s: LayoutStack)
        ensures
            s.layouts() == Seq::<Layout>::empty(),
            s.last() == zero_rect(),
    {
        LayoutStack { stack: Vec::new(), last_rect: Recti::new(0, 0, 0, 0) }
    }

    /// Pushes a layout for the body `body` scrolled by `scroll`, with a single
    /// row of one cell of default width.
    pub fn push(&mut self, body: Recti, scroll: Vec2i)
        requires
            old(self).layouts().len() < MAX_WIDTHS,
            in_i32(body.x - scroll.x),
            in_i32(body.y - scroll.y),
        ensures
            final(self).layouts().len() == old(self).layouts().len() + 1,
            final(self).layouts().drop_last() == old(self).layouts(),
            is_fresh_layout(final(self).layouts().last(), body, scroll),
            final(self).last() == old(self).last(),
    {
        let mut layout = Layout {
            body: Recti::new(0, 0, 0, 0),
            next: Recti::new(0, 0, 0, 0),
            position: vec2(0, 0),
            size: vec2(0, 0),
            max: vec2(0, 0),
            widths: [0; 16],
            items: 0,
            item_index: 0,
            next_row: 0,
            next_type: LayoutPosition::NoPosition,
            indent: 0,
        };
        layout.body = Recti::new(body.x - scroll.x, body.y - scroll.y, body.width, body.height);
        layout.max = vec2(-0x1000000, -0x1000000);
        assert(layout.widths@ =~= Seq::new(16, |i: int| 0i32));
        self.stack.push(layout);
        let widths: [i32; 1] = [0];
        self.row(widths.as_slice(), 0);
        proof {
            let l = self.stack@.last();
            assert(l.widths@ =~= Seq::new(16, |i: int| 0i32));
        }
    }

    /// The innermost layout.
    pub fn top(&self) -> (l: &Layout)
        requires
            self.layouts().len() > 0,
        ensures
            *l == self.layouts().last(),
    {
        let n = self.stack.len();
        &self.stack[n - 1]
    }

    /// The innermost layout, for changing it in place.
    pub fn top_mut(&mut self) -> (l: &mut Layout)
        requires
            old(self).layouts().len() > 0,
        ensures
            *l == old(self).layouts().last(),
            final(self).layouts() == old(self).layouts().update(old(self).layouts().len() - 1, *final(l)),
            final(self).last() == old(self).last(),
    {
        let n = self.stack.len();
        &mut self.stack[n - 1]
    }

    /// Drops the innermost layout; does nothing on an empty stack.
    pub fn pop(&mut self)
        ensures
            final(self).layouts() == (if old(self).layouts().len() > 0 {
                old(self).layouts().drop_last()
            } else {
                old(self).layouts()
            }),
            final(self).last() == old(self).last(),
    {
        self.stack.pop();
    }

    /// Whether `end_column` can merge the innermost layout into its parent
    /// without overflow.
    pub fn column_merge_fits(&self) -> (b: bool)
        requires
            self.layouts().len() >= 2,
        ensures
            b == merge_fits(self.layouts()[self.layouts().len() - 2], self.layouts().last()),
    {
        let n = self.stack.len();
        merge_fits_exec(&self.stack[n - 2], &self.stack[n - 1])
    }

    pub fn len(&self) -> (n: usize)
        ensures
            n == self.layouts().len(),
    {
        self.stack.len()
    }

    /// Starts a column: the next cell of the current layout becomes the body of a new layout.
    pub fn begin_column(&mut self, style: &Style)
        requires
            0 < old(self).layouts().len() < MAX_WIDTHS,
            next_fits(old(self).layouts().last(), *style),
        ensures
            ({
                let l = old(self).layouts().last();
                let n = old(self).layouts().len();
                let cell = next_cell_of(l, *style);
                &&& final(self).layouts().len() == n + 1
                &&& final(self).layouts().drop_last() == old(self).layouts().update(n - 1, next_layout_of(l, *style))
                &&& is_fresh_layout(final(self).layouts().last(), cell, Vec2i { x: 0, y: 0 })
                &&& final(self).last() == cell
            }),
    {
        let layout = self.next(style);
        self.push(layout, vec2(0, 0));
    }

    /// Ends a column: its layout is popped, and the parent layout moves on
    /// past whatever the column covered.
    pub fn end_column(&mut self)
        requires
            old(self).layouts().len() >= 2,
            merge_fits(
                old(self).layouts()[old(self).layouts().len() - 2],
                old(self).layouts().last(),
            ),
        ensures
            ({
                let s = old(self).layouts();
                let n = s.len();
                final(self).layouts() == s.drop_last().update(n - 2, merged_column(s[n - 2], s[n - 1]))
            }),
            final(self).last() == old(self).last(),
    {
        let b = *self.top();
        self.stack.pop();
        let a = self.top_mut();
        a.position.x = max_i32(a.position.x, b.position.x + b.body.x - a.body.x);
        a.next_row = max_i32(a.next_row, b.next_row + b.body.y - a.body.y);
        a.max.x = max_i32(a.max.x, b.max.x);
        a.max.y = max_i32(a.max.y, b.max.y);
    }

    /// Starts a row of cells of the given widths and height in the innermost layout.
    pub fn row(&mut self, widths: &[i32], height: i32)
        requires
            old(self).layouts().len() > 0,
            widths@.len() <= MAX_WIDTHS,
        ensures
            ({
                let s = old(self).layouts();
                let n = s.len();
                &&& final(self).layouts().len() == n
                &&& final(self).layouts().drop_last() == s.drop_last()
                &&& is_row_of(s[n - 1], final(self).layouts()[n - 1], widths@, height)
            }),
            final(self).last() == old(self).last(),
    {
        let layout = self.top_mut();
        row_for_layout(layout, widths, height);
    }

    /// Sets the default width of cells in the innermost layout.
    pub fn width(&mut self, width: i32)
        requires
            old(self).layouts().len() > 0,
        ensures
            ({
                let s = old(self).layouts();
                let l = s.last();
                final(self).layouts() == s.update(s.len() - 1, Layout { size: Vec2i { x: width, y: l.size.y }, ..l })
            }),
            final(self).last() == old(self).last(),
    {
        self.top_mut().size.x = width;
    }

    /// Sets the default height of cells in the innermost layout.
    pub fn height(&mut self, height: i32)
        requires
            old(self).layouts().len() > 0,
        ensures
            ({
                let s = old(self).layouts();
                let l = s.last();
                final(self).layouts() == s.update(s.len() - 1, Layout { size: Vec2i { x: l.size.x, y: height }, ..l })
            }),
            final(self).last() == old(self).last(),
    {
        self.top_mut().size.y = height;
    }

    /// Fixes the next cell of the innermost layout to `r`, placed as `position` says.
    pub fn set_next(&mut self, r: Recti, position: LayoutPosition)
        requires
            old(self).layouts().len() > 0,
        ensures
            ({
                let s = old(self).layouts();
                let l = s.last();
                final(self).layouts() == s.update(s.len() - 1, Layout { next: r, next_type: position, ..l })
            }),
            final(self).last() == old(self).last(),
    {
        let layout = self.top_mut();
        layout.next = r;
        layout.next_type = position;
    }

    /// Hands out the next cell of the innermost layout, in absolute coordinates.
    pub fn next(&mut self, style: &Style) -> (res: Recti)
        requires
            old(self).layouts().len() > 0,
            next_fits(old(self).layouts().last(), *style),
        ensures
            ({
                let s = old(self).layouts();
                let l = s.last();
                &&& res == next_cell_of(l, *style)
                &&& final(self).layouts() == s.update(s.len() - 1, next_layout_of(l, *style))
                &&& final(self).last() == res
            }),
    {
        let idx = self.stack.len() - 1;
        let mut layout = self.stack[idx];
        let ghost l0 = layout;
        let mut res = Recti::new(0, 0, 0, 0);
        if layout.next_type != LayoutPosition::NoPosition {
            let type_0 = layout.next_type;
            layout.next_type = LayoutPosition::NoPosition;
            res = layout.next;
            if type_0 == LayoutPosition::Absolute {
                self.stack.set(idx, layout);
                self.last_rect = res;
                return self.last_rect;
            }
        } else {
            let litems = layout.items;
            let lsize_y = layout.size.y;
            if layout.item_index == layout.items {
                let widths = layout.widths;
                row_for_layout(&mut layout, &widths.as_slice()[0..litems], lsize_y);
                proof {
                    assert(layout.widths@ =~= l0.widths@);
                    assert(layout.widths =~= l0.widths);
                }
            }
            assert(layout == restart_row(l0));
            res.x = layout.position.x;
            res.y = layout.position.y;
            res.width = if layout.items > 0 {
                layout.widths[layout.item_index]
            } else {
                layout.size.x
            };
            res.height = layout.size.y;
            if res.width == 0 {
                res.width = style.size.x + style.padding * 2;
            }
            if res.height == 0 {
                res.height = style.size.y + style.padding * 2;
            }
            if res.width < 0 {
                res.width += layout.body.width - res.x + 1;
            }
            if res.height < 0 {
                res.height += layout.body.height - res.y + 1;
            }
            layout.item_index += 1;
        }
        assert(res == raw_cell(l0, *style));
        assert(layout == before_advance(l0));
        layout.position.x += res.width + style.spacing;
        layout.next_row = max_i32(layout.next_row, res.y + res.height + style.spacing);
        res.x += layout.body.x;
        res.y += layout.body.y;
        layout.max.x = max_i32(layout.max.x, res.x + res.width);
        layout.max.y = max_i32(layout.max.y, res.y + res.height);
        self.stack.set(idx, layout);
        self.last_rect = res;
        return self.last_rect;
    }

    /// The last cell handed out by `next`.
    pub fn last_rect(&self) -> (r: Recti)
        ensures
            r == self.last(),
    {
        self.last_rect
    }
}

/// Pushing a layout and then popping it gives back the stack: the same
/// layouts, and the same last cell. `pushed` is what `push` leaves of
/// `before`, and `popped` what `pop` leaves of `pushed`.
pub proof fn lemma_push_pop(before: LayoutStack, pushed: LayoutStack, popped: LayoutStack)
    requires
        pushed.layouts().len() == before.layouts().len() + 1,
        pushed.layouts().drop_last() == before.layouts(),
        pushed.last() == before.last(),
        popped.layouts() == (if pushed.layouts().len() > 0 {
            pushed.layouts().drop_last()
        } else {
            pushed.layouts()
        }),
        popped.last() == pushed.last(),
    ensures
        popped.layouts() == before.layouts(),
        popped.last() == before.last(),
{
}

/// A cell fixed with `set_next` is handed out by the next `next`, and by it
/// alone. `fixed` is the innermost layout `l` once `set_next(r, p)` has run.
/// An absolute cell comes out as it was given and leaves the position, the
/// next row and the extent of the layout as they were; a relative one comes
/// out moved by the body's offset. Either way the layout that `next` leaves
/// has no fixed cell, so the `next` after it hands out the next cell of the row.
pub proof fn lemma_set_next_used_once(l: Layout, r: Recti, p: LayoutPosition, style: Style)
    requires
        p != LayoutPosition::NoPosition,
    ensures
        ({
            let fixed = Layout { next: r, next_type: p, ..l };
            let after = next_layout_of(fixed, style);
            &&& after.next_type == LayoutPosition::NoPosition
            &&& next_cell_of(after, style) == offset_cell(after, row_cell(after, style))
            &&& p == LayoutPosition::Absolute ==> {
                &&& next_cell_of(fixed, style) == r
                &&& after.position == l.position
                &&& after.next_row == l.next_row
                &&& after.max == l.max
            }
            &&& p == LayoutPosition::Relative ==> next_cell_of(fixed, style) == (Recti {
                x: (r.x + l.body.x) as i32,
                y: (r.y + l.body.y) as i32,
                width: r.width,
                height: r.height,
            })
        }),
{
}

/// A negative extent of a row cell counts back from the far edge of the
/// body: where the row has no fixed cell pending and does not wrap, a
/// stored height `h < 0` gives a cell `h + (body height - y + 1)` high, and
/// a stored width `w < 0` a cell `w + (body width - x + 1)` wide, `x` and
/// `y` being where the cell starts in the body. So a row of height -1
/// whose cell starts inside the body gets a cell that reaches its bottom
/// edge, never a negative height.
pub proof fn lemma_negative_extent_stretches(l: Layout, style: Style)
    requires
        l.next_type == LayoutPosition::NoPosition,
        l.item_index != l.items,
        next_fits(l, style),
    ensures
        l.size.y < 0 ==> next_cell_of(l, style).height == l.size.y + l.body.height - l.position.y + 1,
        l.size.y == -1 && 0 <= l.position.y <= l.body.height ==> next_cell_of(l, style).height >= 0,
        l.size.y == -1 && 0 <= l.position.y <= l.body.height
            ==> next_cell_of(l, style).y + next_cell_of(l, style).height == l.body.y + l.body.height,
        l.items > 0 && l.widths@[l.item_index as int] < 0 ==> next_cell_of(l, style).width
            == l.widths@[l.item_index as int] + l.body.width - l.position.x + 1,
{
}

} // verus!
