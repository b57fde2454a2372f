//! Controls: headers and tree nodes, labels, buttons, check boxes and text
//! boxes.

use vstd::prelude::*;
use crate::geometry::{Vec2i, Recti, Color4b, rect_corner_fits, div_trunc, spec_intersect, vec2};
use crate::ui::flags::{WidgetOption, ResourceState};
use crate::ui::style::{FontId, Style};
use crate::ui::layout::{
    Layout, in_i32, next_fits, next_fits_exec, is_row_of, next_cell_of, next_layout_of, merged_column, merge_fits, MAX_WIDTHS,
};
use crate::ui::pool::{Id, PoolItem, spec_pool_get, is_alloc_slot, has_stale_slot, id_of_hash, spec_hash_seq, spec_be_bytes};
use crate::ui::context::{
    Context, Container, RendererBackEnd, Command, ControlColor, Icon, CONTAINER_COUNT, command_text_ok, frame_cmds,
    frame_fits, clipped_cmds, control_color, same_container, cref_ok, string_clear, Clip, spec_check_clip, text_cmd, spec_color_index, id_base, spec_icon_code, spec_le_bytes, control_frame_cmds, rect_cmds,
};
use crate::ui::num::{string_push_str, string_pop};
use crate::ui::text::{spec_text_width, spec_text_height, TextTok, text_tokens, line_words, line_end_at, line_stop_at, space_at, word_end_at};
use crate::ui::scroll::named_id;

verus! {

/// Whether a header shows its content: when its id is in the tree node
/// pool, or the other way round with `EXPANDED`.
pub open spec fn header_expanded(found: bool, opt: u32) -> bool {
    if opt & 2048 != 0 { !found } else { found }
}

/// The tree node pool after a header `id` that was `found` in slot `k` (or
/// not) and is `active` after this frame's click: an active header keeps or
/// takes a slot marked with this frame, an inactive one gives its slot up.
pub open spec fn header_pool_done(old: Seq<PoolItem>, new: Seq<PoolItem>, id: Id, frame: usize, found: Option<usize>, active: bool) -> bool {
    match found {
        Some(k) => if active {
            new == old.update(k as int, PoolItem { id: old[k as int].id, last_update: frame })
        } else {
            &&& new.len() == old.len()
            &&& forall|j: int| 0 <= j < old.len() && j != k ==> #[trigger] new[j] == old[j]
            &&& new[k as int].id@ == 0
            &&& new[k as int].last_update == 0
        },
        None => if active {
            exists|r: int| #[trigger] is_alloc_slot(old, frame, r) && new == old.update(r, PoolItem { id, last_update: frame })
        } else {
            new == old
        },
    }
}

/// The square at the left end of the cell `r`, as tall as the cell: where a
/// header draws its icon and a check box its box.
pub open spec fn header_icon_rect(r: Recti) -> Recti {
    Recti { x: r.x, y: r.y, width: r.height, height: r.height }
}

/// The command that draws the icon of a header in the cell `r`: a minus
/// when it shows its content, else a plus, in the text color.
pub open spec fn header_icon_cmd<P>(r: Recti, expanded: bool, style: Style) -> Command<P> {
    Command::Icon {
        rect: header_icon_rect(r),
        id: if expanded { Icon::Minus } else { Icon::Plus },
        color: style.colors@[0],
    }
}

/// The label of a header: the cell `r` past its icon.
pub open spec fn header_label_rect(r: Recti, style: Style) -> Recti {
    Recti {
        x: (r.x + (r.height - style.padding)) as i32,
        width: (r.width - (r.height - style.padding)) as i32,
        ..r
    }
}

/// Drawing a header in its cell `r` under the clip rectangle `clip` runs
/// without overflow.
pub open spec fn header_cell_fits_in(style: Style, r: Recti, clip: Recti) -> bool {
    &&& rect_corner_fits(r)
    &&& frame_fits(r)
    &&& rect_corner_fits(clip)
    &&& rect_corner_fits(header_icon_rect(r))
    &&& in_i32(r.height - style.padding)
    &&& in_i32(r.x + (r.height - style.padding))
    &&& in_i32(r.width - (r.height - style.padding))
    &&& rect_corner_fits(header_label_rect(r, style))
}

fn fits_i32(v: i64) -> (b: bool)
    ensures
        b == in_i32(v as int),
{
    i32::MIN as i64 <= v && v <= i32::MAX as i64
}

/// Whether a header can be drawn in `r` under `clip`, as `header_cell_fits_in` says.
pub fn header_cell_fits_exec(style: &Style, r: Recti, clip: Recti) -> (b: bool)
    ensures
        b == header_cell_fits_in(*style, r, clip),
{
    let x = r.x as i64;
    let y = r.y as i64;
    let w = r.width as i64;
    let h = r.height as i64;
    let p = style.padding as i64;
    if !(fits_i32(x + w) && fits_i32(y + h)) {
        return false;
    }
    if !(fits_i32(x - 1) && fits_i32(y - 1) && fits_i32(w + 2) && fits_i32(h + 2)) {
        return false;
    }
    let ex = x - 1;
    let ey = y - 1;
    let ew = if w + 2 > 0 { w + 2 } else { 0 };
    let eh = if h + 2 > 0 { h + 2 } else { 0 };
    if !(fits_i32(ex + 1) && fits_i32(ew - 2) && fits_i32(ex + ew) && fits_i32(ex + ew - 1)
        && fits_i32(ey + 1) && fits_i32(ey + eh) && fits_i32(ey + eh - 1)) {
        return false;
    }
    if !(fits_i32(clip.x as i64 + clip.width as i64) && fits_i32(clip.y as i64 + clip.height as i64)) {
        return false;
    }
    if !(fits_i32(x + h) && fits_i32(y + h)) {
        return false;
    }
    if !(fits_i32(h - p) && fits_i32(x + (h - p)) && fits_i32(w - (h - p))) {
        return false;
    }
    let lx = x + (h - p);
    let lw = w - (h - p);
    fits_i32(lx + lw) && fits_i32(y + h)
}

/// The text of a text box after this frame's input: the typed text
/// appended, then its last character taken away on a backspace.
pub open spec fn edited_text(buf: Seq<char>, input: Seq<char>, backspace: bool) -> Seq<char> {
    let b1 = buf + input;
    if backspace && b1.len() > 0 { b1.drop_last() } else { b1 }
}

/// Where a focused text box draws its text of `tw` by `th` pixels in `r`:
/// left-aligned with padding, or shifted left so that its end stays in
/// view; centred vertically.
pub open spec fn textbox_text_pos(style: Style, r: Recti, tw: int, th: int) -> (int, int) {
    let ofx = r.width - style.padding - tw - 1;
    let x = r.x + (if ofx < style.padding { ofx } else { style.padding as int });
    let y = r.y + div_trunc(r.height - th, 2);
    (x, y)
}

/// The caret of a focused text box: one pixel wide, at the end of its text.
pub open spec fn textbox_caret(style: Style, r: Recti, tw: int, th: int) -> Recti {
    let p = textbox_text_pos(style, r, tw, th);
    Recti { x: (p.0 + tw) as i32, y: p.1 as i32, width: 1, height: th as i32 }
}

/// The caret of a focused text box stays in view: it never lies right of
/// the box's inner right edge (`r.x + r.width - padding - 1`). A text that
/// fits the box starts at the left padding, its caret right after it; a
/// wider text is shifted left so that its caret sits at that edge.
pub proof fn lemma_caret_in_view(style: Style, r: Recti, tw: int, th: int)
    requires
        textbox_text_fits(style, r, tw, th),
    ensures
        textbox_caret(style, r, tw, th).x <= r.x + r.width - style.padding - 1,
        tw <= r.width - 2 * style.padding - 1 ==> {
            &&& textbox_text_pos(style, r, tw, th).0 == r.x + style.padding
            &&& textbox_caret(style, r, tw, th).x == r.x + style.padding + tw
        },
        tw > r.width - 2 * style.padding - 1 ==> textbox_caret(style, r, tw, th).x == r.x + r.width - style.padding - 1,
        textbox_caret(style, r, tw, th).width == 1,
{
}

/// Placing the text and the caret of a focused text box takes no
/// overflowing step.
pub open spec fn textbox_text_fits(style: Style, r: Recti, tw: int, th: int) -> bool {
    let p = textbox_text_pos(style, r, tw, th);
    &&& in_i32(r.width - style.padding)
    &&& in_i32(r.width - style.padding - tw)
    &&& in_i32(r.width - style.padding - tw - 1)
    &&& in_i32(p.0)
    &&& in_i32(r.height - th)
    &&& in_i32(p.1)
    &&& in_i32(p.0 + tw)
    &&& rect_corner_fits(Recti { x: p.0 as i32, y: p.1 as i32, width: tw as i32, height: th as i32 })
    &&& rect_corner_fits(textbox_caret(style, r, tw, th))
}

/// Whether the text and caret of a focused text box can be placed, as
/// `textbox_text_fits` says.
pub fn textbox_text_fits_exec(style: &Style, r: Recti, tw: i32, th: i32) -> (b: bool)
    ensures
        b == textbox_text_fits(*style, r, tw as int, th as int),
{
    let lo = i32::MIN as i64;
    let hi = i32::MAX as i64;
    let a = r.width as i64 - style.padding as i64;
    let b = a - tw as i64;
    let ofx = b - 1;
    let x = r.x as i64 + (if ofx < style.padding as i64 { ofx } else { style.padding as i64 });
    let dh = r.height as i64 - th as i64;
    if a < lo || a > hi || b < lo || b > hi || ofx < lo || ofx > hi || x < lo || x > hi || dh < lo || dh > hi {
        return false;
    }
    let y = r.y as i64 + dh / 2;
    let xe = x + tw as i64;
    let ye = y + th as i64;
    lo <= y && y <= hi && lo <= xe && xe <= hi && lo <= ye && ye <= hi && lo <= xe + 1 && xe + 1 <= hi
}

impl<P, R: RendererBackEnd<P>> Context<P, R> {
    /// `new` is `old` once the current container's innermost layout starts a
    /// row of cells of the given widths and height.
    pub open spec fn row_set(old: &Self, new: &Self, widths: Seq<i32>, height: i32) -> bool {
        let c = old.cur().0 as int;
        let oc = old.containers@[c];
        let nc = new.containers@[c];
        let s = oc.layouts();
        &&& nc.layouts().len() == s.len()
        &&& nc.layouts().drop_last() == s.drop_last()
        &&& is_row_of(s.last(), nc.layouts().last(), widths, height)
        &&& nc.last_cell() == oc.last_cell()
        &&& new.containers@ == old.containers@.update(c, Container { layout_stack: nc.layout_stack, ..oc })
        &&& *new == Context { containers: new.containers, ..*old }
    }

    /// Starts a row of cells of the given widths and height in the current
    /// container.
    pub fn row_config(&mut self, widths: &[i32], height: i32)
        requires
            old(self).wf(),
            old(self).container_stack@.len() > 0,
            old(self).containers@[old(self).cur().0 as int].layouts().len() > 0,
            widths@.len() <= MAX_WIDTHS,
        ensures
            final(self).wf(),
            Self::row_set(old(self), final(self), widths@, height),
    {
        let i = self.get_current_container().0;
        self.containers[i].row_config(widths, height);
        proof {
            assert forall|c: int, k: int| 0 <= c < CONTAINER_COUNT && 0 <= k < self.containers@[c].commands@.len()
                implies command_text_ok(#[trigger] self.containers@[c].commands@[k], self.text_stack@.len()) by {
                assert(self.containers@[c].commands@ == old(self).containers@[c].commands@);
            }
            let c0 = old(self).containers@[i as int];
            assert(self.containers@ =~= old(self).containers@.update(i as int,
                Container { layout_stack: self.containers@[i as int].layout_stack, ..c0 }));
        }
    }

    /// Whether the header `id` is active after this frame's click: a left
    /// press while it has the focus toggles it.
    pub open spec fn header_active(&self, id: Id, found: bool) -> bool {
        found != (self.mouse_pressed@ & 1 != 0 && self.focus == Some(id))
    }

    /// `new` is `old` after the cell `r` of the header `id` is updated and its
    /// tree node state kept: the control is updated, then the pool changes
    /// as `header_pool_done` says.
    pub open spec fn header_updated(old: &Self, new: &Self, id: Id, r: Recti, found: Option<usize>) -> bool {
        exists|m4: Self| {
            &&& #[trigger] Self::control_updated(old, &m4, id, r, WidgetOption::spec_none())
            &&& header_pool_done(m4.treenode_pool.items(), new.treenode_pool.items(), id, m4.frame, found,
                m4.header_active(id, found is Some))
            &&& *new == Context { treenode_pool: new.treenode_pool, ..m4 }
        }
    }

    /// `new` is `old` after the frame of the header `id` in `r`: a tree node
    /// gets a hover frame while hovered, any other header the frame of a button.
    pub open spec fn header_framed(old: &Self, new: &Self, style: Style, id: Id, r: Recti, is_treenode: bool) -> bool {
        if is_treenode {
            if old.hover == Some(id) {
                Self::appended(old, new, old.cur(), frame_cmds(old.clip(), style, r, ControlColor::ButtonHover))
            } else {
                *new == *old
            }
        } else {
            Self::appended(old, new, old.cur(), frame_cmds(old.clip(), style, r,
                control_color(old.focus, old.hover, id, ControlColor::Button)))
        }
    }

    /// `new` and `res` are `old` and the result after the header `label`:
    /// its id is taken, a single-cell row started and its cell `r` taken,
    /// the control updated and its tree node state kept, its frame, its
    /// expand icon and its label drawn; the result is `ACTIVE` when it
    /// shows its content.
    pub open spec fn header_done(
        old: &Self,
        new: &Self,
        style: Style,
        font: FontId,
        label: Seq<char>,
        is_treenode: bool,
        opt: WidgetOption,
        res: ResourceState,
    ) -> bool {
        let id = named_id(old.id_stack@, label);
        let found = spec_pool_get(old.treenode_pool.items(), id);
        let expanded = header_expanded(found is Some, opt@);
        &&& res@ == (if expanded { 1u32 } else { 0u32 })
        &&& new.last_id == Some(id)
        &&& new.container_stack@ == old.container_stack@
        &&& new.containers@.len() == old.containers@.len()
        &&& new.containers@[old.cur().0 as int].layouts().len() == old.containers@[old.cur().0 as int].layouts().len()
        &&& exists|m2: Self, m3: Self, r: Recti, m5: Self, m6: Self, m7: Self| {
            &&& #[trigger] Self::row_set(&old.with_last_id(label), &m2, seq![-1i32], 0)
            &&& #[trigger] Self::next_cell_taken(&m2, &m3, style, r)
            &&& #[trigger] Self::header_updated(&m3, &m5, id, r, found)
            &&& #[trigger] Self::header_framed(&m5, &m6, style, id, r, is_treenode)
            &&& #[trigger] Self::appended(&m6, &m7, m6.cur(), clipped_cmds(m6.clip(), header_icon_rect(r),
                header_icon_cmd(r, expanded, style)))
            &&& Self::label_drawn(&m7, new, style, font, label, header_label_rect(r, style), ControlColor::Text,
                WidgetOption::spec_none())
        }
    }

    /// Drawing the header in its cell `r` runs without overflow.
    pub open spec fn header_cell_fits(&self, style: Style, r: Recti) -> bool {
        header_cell_fits_in(style, r, self.clip())
    }

    /// The header `label` runs without overflow, and an id that becomes
    /// active finds a tree node slot.
    pub open spec fn header_fits(&self, style: Style, label: Seq<char>) -> bool {
        let id = named_id(self.id_stack@, label);
        let found = spec_pool_get(self.treenode_pool.items(), id);
        &&& self.container_stack@.len() > 0
        &&& self.clip_stack@.len() > 0
        &&& self.containers@[self.cur().0 as int].layouts().len() > 0
        &&& forall|m2: Self| #[trigger] Self::row_set(&self.with_last_id(label), &m2, seq![-1i32], 0)
            ==> next_fits(m2.containers@[m2.cur().0 as int].layouts().last(), style)
        &&& forall|m2: Self, m3: Self, r: Recti| #[trigger] Self::row_set(&self.with_last_id(label), &m2, seq![-1i32], 0)
            && #[trigger] Self::next_cell_taken(&m2, &m3, style, r)
            ==> m3.header_cell_fits(style, r)
        &&& forall|m2: Self, m3: Self, r: Recti, m4: Self| #[trigger] Self::row_set(&self.with_last_id(label), &m2, seq![-1i32], 0)
            && #[trigger] Self::next_cell_taken(&m2, &m3, style, r)
            && #[trigger] Self::control_updated(&m3, &m4, id, r, WidgetOption::spec_none())
            ==> (found is None && m4.header_active(id, false) ==> has_stale_slot(m4.treenode_pool.items(), m4.frame))
    }

    proof fn lemma_label_keeps_state(a: &Self, b: &Self, style: Style, font: FontId, text: Seq<char>, rect: Recti,
        colorid: ControlColor, opt: WidgetOption)
        requires
            Self::label_drawn(a, b, style, font, text, rect, colorid, opt),
        ensures
            Self::same_state(a, b),
            Self::same_containers(a, b),
    {
        let (ws, h) = choose|ws: Seq<usize>, h: usize| {
            let tw = #[trigger] spec_text_width(text, ws) as i32;
            let th = #[trigger] spec_text_height(text, h);
            &&& ws.len() == text.len()
            &&& if crate::ui::context::control_text_fits(style, rect, opt@, tw as int, th as int) {
                Self::control_text_drawn(a, b, style, font, text, rect, colorid, opt@, tw, th)
            } else {
                *b == *a
            }
        };
        assert(spec_text_width(text, ws) == spec_text_width(text, ws));
    }

    /// The tree node pool of `new` is that of the state where `header_done`
    /// settles it, and the header's control update sees the press, hover and
    /// focus of `old`.
    proof fn lemma_header_pool(old: &Self, new: &Self, style: Style, font: FontId, label: Seq<char>,
        is_treenode: bool, opt: WidgetOption, res: ResourceState)
        requires
            Self::header_done(old, new, style, font, label, is_treenode, opt, res),
        ensures
            exists|m3: Self, r: Recti, m4: Self| {
                &&& #[trigger] Self::control_updated(&m3, &m4, named_id(old.id_stack@, label), r, WidgetOption::spec_none())
                &&& m3.hover == old.hover
                &&& m3.focus == old.focus
                &&& m3.updated_focus == old.updated_focus
                &&& m3.mouse_pressed == old.mouse_pressed
                &&& m3.mouse_down == old.mouse_down
                &&& m3.treenode_pool == old.treenode_pool
                &&& header_pool_done(m4.treenode_pool.items(), new.treenode_pool.items(), named_id(old.id_stack@, label),
                    m4.frame, spec_pool_get(old.treenode_pool.items(), named_id(old.id_stack@, label)),
                    m4.header_active(named_id(old.id_stack@, label),
                        spec_pool_get(old.treenode_pool.items(), named_id(old.id_stack@, label)) is Some))
            },
    {
        let id = named_id(old.id_stack@, label);
        let found = spec_pool_get(old.treenode_pool.items(), id);
        let expanded = header_expanded(found is Some, opt@);
        let (m2, m3, r, m5, m6, m7) = choose|m2: Self, m3: Self, r: Recti, m5: Self, m6: Self, m7: Self| {
            &&& #[trigger] Self::row_set(&old.with_last_id(label), &m2, seq![-1i32], 0)
            &&& #[trigger] Self::next_cell_taken(&m2, &m3, style, r)
            &&& #[trigger] Self::header_updated(&m3, &m5, id, r, found)
            &&& #[trigger] Self::header_framed(&m5, &m6, style, id, r, is_treenode)
            &&& #[trigger] Self::appended(&m6, &m7, m6.cur(), clipped_cmds(m6.clip(), header_icon_rect(r),
                header_icon_cmd(r, expanded, style)))
            &&& Self::label_drawn(&m7, new, style, font, label, header_label_rect(r, style), ControlColor::Text,
                WidgetOption::spec_none())
        };
        let m4 = choose|m4: Self| {
            &&& #[trigger] Self::control_updated(&m3, &m4, id, r, WidgetOption::spec_none())
            &&& header_pool_done(m4.treenode_pool.items(), m5.treenode_pool.items(), id, m4.frame, found,
                m4.header_active(id, found is Some))
            &&& m5 == Context { treenode_pool: m5.treenode_pool, ..m4 }
        };
        Self::lemma_label_keeps_state(&m7, new, style, font, label, header_label_rect(r, style), ControlColor::Text,
            WidgetOption::spec_none());
        assert(m6.treenode_pool == m5.treenode_pool);
        assert(new.treenode_pool == m5.treenode_pool);
        assert(Self::control_updated(&m3, &m4, id, r, WidgetOption::spec_none()));
    }

    /// A left press on the hovered header toggles it. The press gives the
    /// header the focus; a header whose id was in the tree node pool then
    /// gives its slot up (the slot is emptied), and one whose id was not
    /// takes a slot, so that looking it up finds it.
    pub proof fn lemma_press_toggles_header(old: &Self, new: &Self, style: Style, font: FontId, label: Seq<char>,
        is_treenode: bool, opt: WidgetOption, res: ResourceState)
        requires
            Self::header_done(old, new, style, font, label, is_treenode, opt, res),
            old.hover == Some(named_id(old.id_stack@, label)),
            old.mouse_pressed@ & 1 != 0,
            old.treenode_pool.items().len() <= usize::MAX,
        ensures
            ({
                let id = named_id(old.id_stack@, label);
                let before = old.treenode_pool.items();
                let after = new.treenode_pool.items();
                &&& spec_pool_get(before, id) matches Some(k) ==> {
                    &&& k < after.len()
                    &&& after[k as int].id@ == 0
                    &&& after[k as int].last_update == 0
                }
                &&& spec_pool_get(before, id) is None ==> spec_pool_get(after, id) is Some
            }),
    {
        let id = named_id(old.id_stack@, label);
        let found = spec_pool_get(old.treenode_pool.items(), id);
        Self::lemma_header_pool(old, new, style, font, label, is_treenode, opt, res);
        let (m3, r, m4) = choose|m3: Self, r: Recti, m4: Self| {
            &&& #[trigger] Self::control_updated(&m3, &m4, id, r, WidgetOption::spec_none())
            &&& m3.hover == old.hover
            &&& m3.focus == old.focus
            &&& m3.updated_focus == old.updated_focus
            &&& m3.mouse_pressed == old.mouse_pressed
            &&& m3.mouse_down == old.mouse_down
            &&& m3.treenode_pool == old.treenode_pool
            &&& header_pool_done(m4.treenode_pool.items(), new.treenode_pool.items(), id, m4.frame, found,
                m4.header_active(id, found is Some))
        };
        let v = old.mouse_pressed@;
        assert(v & 1 != 0 ==> v != 0) by (bit_vector);
        assert(m3.mouse_pressed@ != 0);
        assert(m3.hover == Some(id));
        WidgetOption::lemma_spec_none(WidgetOption::spec_none());
        assert(0u32 & 4u32 == 0) by (bit_vector);
        assert(0u32 & 256u32 == 0) by (bit_vector);
        assert(m4.focus == Some(id));
        assert(m4.header_active(id, found is Some) == !(found is Some));
        crate::ui::pool::lemma_get_finds(old.treenode_pool.items(), id);
        if found is None {
            let before = m4.treenode_pool.items();
            let after = new.treenode_pool.items();
            let k = choose|k: int| #[trigger] is_alloc_slot(before, m4.frame, k)
                && after == before.update(k, PoolItem { id, last_update: m4.frame });
            crate::ui::pool::lemma_alloc_then_get(before, after, id, m4.frame, k as usize);
        }
    }

    /// Without a left press, a header keeps its place in the tree node pool:
    /// a header whose id was in it still holds the same slot, and the pool of
    /// one whose id was not is left as it was.
    pub proof fn lemma_no_press_keeps_header(old: &Self, new: &Self, style: Style, font: FontId, label: Seq<char>,
        is_treenode: bool, opt: WidgetOption, res: ResourceState)
        requires
            Self::header_done(old, new, style, font, label, is_treenode, opt, res),
            old.mouse_pressed@ & 1 == 0,
            old.treenode_pool.items().len() <= usize::MAX,
        ensures
            ({
                let id = named_id(old.id_stack@, label);
                let before = old.treenode_pool.items();
                let after = new.treenode_pool.items();
                &&& spec_pool_get(before, id) matches Some(k) ==> k < after.len() && after[k as int].id == id
                &&& spec_pool_get(before, id) is None ==> after == before
            }),
    {
        let id = named_id(old.id_stack@, label);
        let found = spec_pool_get(old.treenode_pool.items(), id);
        Self::lemma_header_pool(old, new, style, font, label, is_treenode, opt, res);
        let (m3, r, m4) = choose|m3: Self, r: Recti, m4: Self| {
            &&& #[trigger] Self::control_updated(&m3, &m4, id, r, WidgetOption::spec_none())
            &&& m3.hover == old.hover
            &&& m3.focus == old.focus
            &&& m3.updated_focus == old.updated_focus
            &&& m3.mouse_pressed == old.mouse_pressed
            &&& m3.mouse_down == old.mouse_down
            &&& m3.treenode_pool == old.treenode_pool
            &&& header_pool_done(m4.treenode_pool.items(), new.treenode_pool.items(), id, m4.frame, found,
                m4.header_active(id, found is Some))
        };
        assert(m4.header_active(id, found is Some) == (found is Some));
        crate::ui::pool::lemma_get_finds(old.treenode_pool.items(), id);
    }

    /// The header `label` in the current container, drawn in `font`; a tree
    /// node when `is_treenode`. `ACTIVE` when it shows its content, as
    /// `header_done` says; `None` where `header_fits` fails, found out on the
    /// way (what was done by then stays done).
    #[verifier::spinoff_prover]
    #[verifier::rlimit(60)]
    pub fn header_checked(&mut self, style: &Style, font: FontId, label: &str, is_treenode: bool, opt: WidgetOption) -> (res: Option<ResourceState>)
        requires
            old(self).wf(),
        ensures
            final(self).wf(),
            match res {
                Some(r) => {
                    &&& old(self).container_stack@.len() > 0
                    &&& old(self).clip_stack@.len() > 0
                    &&& old(self).containers@[old(self).cur().0 as int].layouts().len() > 0
                    &&& Self::header_done(old(self), final(self), *style, font, label@, is_treenode, opt, r)
                },
                None => !old(self).header_fits(*style, label@),
            },
    {
        if self.container_stack.len() == 0 || self.clip_stack.len() == 0 {
            return None;
        }
        if self.containers[self.get_current_container().0].layout_stack.len() == 0 {
            return None;
        }
        let ghost s0 = *self;
        let id = self.get_id_from_str(label);
        proof {
            crate::ui::pool::lemma_id_of_hash(id);
            assert(*self == s0.with_last_id(label@));
        }
        let idx = self.treenode_pool.get(id);
        let widths: [i32; 1] = [-1];
        proof {
            assert(widths@ =~= seq![-1i32]);
        }
        self.row_config(widths.as_slice(), 0);
        let ghost m2 = *self;
        proof {
            assert(Self::row_set(&s0.with_last_id(label@), &m2, seq![-1i32], 0));
        }
        let found = idx.is_some();
        let expanded = if opt.is_expanded() { !found } else { found };
        let ci = self.get_current_container().0;
        if !next_fits_exec(self.containers[ci].layout(), style) {
            return None;
        }
        let r = self.next_cell(style);
        let ghost m3 = *self;
        proof {
            assert(Self::next_cell_taken(&m2, &m3, *style, r));
        }
        if !header_cell_fits_exec(style, r, self.get_clip_rect()) {
            return None;
        }
        let none = WidgetOption::NONE();
        proof {
            WidgetOption::lemma_spec_none(none);
            assert(0u32 & 4u32 == 0) by (bit_vector);
            assert(0u32 & 256u32 == 0) by (bit_vector);
        }
        self.update_control(id, r, none);
        let ghost m4 = *self;
        proof {
            assert(Self::control_updated(&m3, &m4, id, r, WidgetOption::spec_none()));
        }
        let active = found != (self.mouse_pressed.is_left() && self.focus == Some(id));
        if !found && active && !self.treenode_pool.has_stale_slot_exec(self.frame) {
            proof {
                assert(m4.header_active(id, false));
            }
            return None;
        }
        match idx {
            Some(k) => {
                if active {
                    let frame = self.frame;
                    self.treenode_pool.update(k, frame);
                } else {
                    self.treenode_pool.reset(k);
                }
            },
            None => {
                if active {
                    let frame = self.frame;
                    let _ = self.treenode_pool.allocate(id, frame);
                }
            },
        }
        let ghost m5 = *self;
        proof {
            assert(Self::header_updated(&m3, &m5, id, r, idx));
        }
        if is_treenode {
            if self.hover == Some(id) {
                self.draw_frame(style, r, ControlColor::ButtonHover);
            }
        } else {
            self.draw_control_frame(style, id, r, ControlColor::Button, none);
            proof {
                assert(0u32 & 8u32 == 0) by (bit_vector);
            }
        }
        let ghost m6 = *self;
        proof {
            assert(Self::header_framed(&m5, &m6, *style, id, r, is_treenode));
        }
        let icon_rect = Recti::new(r.x, r.y, r.height, r.height);
        self.draw_icon(if expanded { Icon::Minus } else { Icon::Plus }, icon_rect, style.colors[ControlColor::Text.index()]);
        let ghost m7 = *self;
        let mut lr = r;
        lr.x = lr.x + (r.height - style.padding);
        lr.width = lr.width - (r.height - style.padding);
        self.draw_control_text(style, font, label, lr, ControlColor::Text, none);
        proof {
            assert(Self::row_set(&s0.with_last_id(label@), &m2, seq![-1i32], 0));
            assert(Self::next_cell_taken(&m2, &m3, *style, r));
            assert(Self::appended(&m6, &m7, m6.cur(), clipped_cmds(m6.clip(), header_icon_rect(r),
                header_icon_cmd(r, expanded, *style))));
        }
        if expanded {
            Some(ResourceState::ACTIVE())
        } else {
            Some(ResourceState::NONE())
        }
    }

    /// The header `label` in the current container, drawn in `font`; a tree
    /// node when `is_treenode`. `ACTIVE` when it shows its content, as
    /// `header_done` says.
    pub fn header_internal(&mut self, style: &Style, font: FontId, label: &str, is_treenode: bool, opt: WidgetOption) -> (res: ResourceState)
        requires
            old(self).wf(),
            old(self).header_fits(*style, label@),
        ensures
            final(self).wf(),
            Self::header_done(old(self), final(self), *style, font, label@, is_treenode, opt, res),
    {
        match self.header_checked(style, font, label, is_treenode, opt) {
            Some(r) => r,
            None => {
                assert(false);
                ResourceState::NONE()
            },
        }
    }

    /// The header `label` drawn in `font`, as `header_done` says.
    pub fn header_ex(&mut self, style: &Style, font: FontId, label: &str, opt: WidgetOption) -> (res: ResourceState)
        requires
            old(self).wf(),
            old(self).header_fits(*style, label@),
        ensures
            final(self).wf(),
            Self::header_done(old(self), final(self), *style, font, label@, false, opt, res),
    {
        self.header_internal(style, font, label, false, opt)
    }

    /// `new` is `old` once a tree node shows its content: its layout is
    /// indented and its id pushed.
    pub open spec fn treenode_entered(old: &Self, new: &Self, style: Style, id: Id) -> bool {
        let c = old.cur().0 as int;
        let oc = old.containers@[c];
        let nc = new.containers@[c];
        let l = oc.layouts().last();
        &&& nc.layouts() == oc.layouts().update(oc.layouts().len() - 1,
            crate::ui::layout::Layout { indent: (l.indent + style.indent) as i32, ..l })
        &&& nc.last_cell() == oc.last_cell()
        &&& new.containers@ == old.containers@.update(c, Container { layout_stack: nc.layout_stack, ..oc })
        &&& new.id_stack@ == old.id_stack@.push(id)
        &&& *new == Context { containers: new.containers, id_stack: new.id_stack, ..*old }
    }

    /// `new` and `res` are `old` and the result after the tree node `label`:
    /// the header drawn as a tree node in the normal font; when it shows its
    /// content, its layout indented and its id pushed.
    pub open spec fn treenode_begun(old: &Self, new: &Self, style: Style, label: Seq<char>, opt: WidgetOption, res: ResourceState) -> bool {
        exists|m: Self| {
            &&& #[trigger] Self::header_done(old, &m, style, style.normal_font, label, true, opt, res)
            &&& if res@ == 1 {
                Self::treenode_entered(&m, new, style, named_id(old.id_stack@, label))
            } else {
                *new == m
            }
        }
    }

    /// The tree node `label` can begin: its header runs without overflow,
    /// and the indent of a tree node that shows its content fits.
    pub open spec fn treenode_fits(&self, style: Style, label: Seq<char>, opt: WidgetOption) -> bool {
        &&& self.header_fits(style, label)
        &&& forall|m: Self, r: ResourceState| #[trigger] Self::header_done(self, &m, style, style.normal_font, label, true, opt, r)
            && r@ == 1 ==> in_i32(m.containers@[m.cur().0 as int].layouts().last().indent + style.indent)
    }

    /// The tree node `label`, as `treenode_begun` says; `None` where
    /// `treenode_fits` fails, found out on the way (what was done by then
    /// stays done).
    pub fn begin_treenode_checked(&mut self, style: &Style, label: &str, opt: WidgetOption) -> (res: Option<ResourceState>)
        requires
            old(self).wf(),
        ensures
            final(self).wf(),
            match res {
                Some(r) => Self::treenode_begun(old(self), final(self), *style, label@, opt, r),
                None => !old(self).treenode_fits(*style, label@, opt),
            },
    {
        let res = match self.header_checked(style, style.normal_font, label, true, opt) {
            Some(r) => r,
            None => {
                return None;
            },
        };
        let ghost m = *self;
        proof {
            assert(Self::header_done(old(self), &m, *style, style.normal_font, label@, true, opt, res));
            assert(1u32 & 1u32 != 0) by (bit_vector);
            assert(0u32 & 1u32 == 0) by (bit_vector);
        }
        if res.is_active() && self.last_id.is_some() {
            let id = self.last_id.unwrap();
            let i = self.get_current_container().0;
            let indent = self.containers[i].layout().indent;
            if !fits_i32(indent as i64 + style.indent as i64) {
                return None;
            }
            let layout = self.containers[i].layout_mut();
            layout.indent = layout.indent + style.indent;
            self.id_stack.push(id);
            proof {
                assert forall|c: int, k: int| 0 <= c < CONTAINER_COUNT && 0 <= k < self.containers@[c].commands@.len()
                    implies command_text_ok(#[trigger] self.containers@[c].commands@[k], self.text_stack@.len()) by {
                    assert(self.containers@[c].commands@ == m.containers@[c].commands@);
                }
                let oc = m.containers@[i as int];
                assert(self.containers@ =~= m.containers@.update(i as int,
                    Container { layout_stack: self.containers@[i as int].layout_stack, ..oc }));
                assert(id == named_id(old(self).id_stack@, label@));
            }
        }
        Some(res)
    }

    /// The tree node `label`: a header drawn as a tree node in the normal
    /// font; when it shows its content, its layout is indented and its id
    /// pushed.
    pub fn begin_treenode_ex(&mut self, style: &Style, label: &str, opt: WidgetOption) -> (res: ResourceState)
        requires
            old(self).wf(),
            old(self).treenode_fits(*style, label@, opt),
        ensures
            final(self).wf(),
            Self::treenode_begun(old(self), final(self), *style, label@, opt, res),
    {
        match self.begin_treenode_checked(style, label, opt) {
            Some(r) => r,
            None => {
                assert(false);
                ResourceState::NONE()
            },
        }
    }

    /// Ends the current tree node: its layout's indent is taken back and its
    /// id popped.
    pub fn end_treenode(&mut self, style: &Style)
        requires
            old(self).wf(),
            old(self).container_stack@.len() > 0,
            old(self).containers@[old(self).cur().0 as int].layouts().len() > 0,
            in_i32(old(self).containers@[old(self).cur().0 as int].layouts().last().indent - style.indent),
        ensures
            final(self).wf(),
            ({
                let c = old(self).cur().0 as int;
                let oc = old(self).containers@[c];
                let nc = final(self).containers@[c];
                let l = oc.layouts().last();
                &&& nc.layouts() == oc.layouts().update(oc.layouts().len() - 1,
                    crate::ui::layout::Layout { indent: (l.indent - style.indent) as i32, ..l })
                &&& nc.last_cell() == oc.last_cell()
                &&& final(self).containers@ == old(self).containers@.update(c, Container { layout_stack: nc.layout_stack, ..oc })
                &&& final(self).id_stack@ == (if old(self).id_stack@.len() > 0 {
                    old(self).id_stack@.drop_last()
                } else {
                    old(self).id_stack@
                })
                &&& *final(self) == Context { containers: final(self).containers, id_stack: final(self).id_stack, ..*old(self) }
            }),
    {
        let i = self.get_current_container().0;
        let layout = self.containers[i].layout_mut();
        layout.indent = layout.indent - style.indent;
        proof {
            assert forall|c: int, k: int| 0 <= c < CONTAINER_COUNT && 0 <= k < self.containers@[c].commands@.len()
                implies command_text_ok(#[trigger] self.containers@[c].commands@[k], self.text_stack@.len()) by {
                assert(self.containers@[c].commands@ == old(self).containers@[c].commands@);
            }
            let oc = old(self).containers@[i as int];
            assert(self.containers@ =~= old(self).containers@.update(i as int,
                Container { layout_stack: self.containers@[i as int].layout_stack, ..oc }));
        }
        self.pop_id();
    }

    /// The next cell of the current container can be taken, and every cell
    /// it can hand out has a far corner that fits, under a clip rectangle
    /// that fits.
    pub open spec fn cell_fits(&self, style: Style) -> bool {
        &&& self.container_stack@.len() > 0
        &&& self.clip_stack@.len() > 0
        &&& rect_corner_fits(self.clip())
        &&& self.containers@[self.cur().0 as int].layouts().len() > 0
        &&& next_fits(self.containers@[self.cur().0 as int].layouts().last(), style)
        &&& rect_corner_fits(crate::ui::layout::next_cell_of(self.containers@[self.cur().0 as int].layouts().last(), style))
    }

    /// The label `text` in the next cell of the current container.
    pub fn label(&mut self, style: &Style, text: &str)
        requires
            old(self).wf(),
            old(self).cell_fits(*style),
        ensures
            final(self).wf(),
            exists|m: Self, r: Recti| {
                &&& #[trigger] Self::next_cell_taken(old(self), &m, *style, r)
                &&& Self::label_drawn(&m, final(self), *style, style.normal_font, text@, r, ControlColor::Text,
                    WidgetOption::spec_none())
            },
    {
        let r = self.next_cell(style);
        let ghost m = *self;
        let none = WidgetOption::NONE();
        proof {
            WidgetOption::lemma_spec_none(none);
        }
        self.draw_control_text(style, style.normal_font, text, r, ControlColor::Text, none);
        assert(Self::next_cell_taken(old(self), &m, *style, r));
    }

    /// `new` is `old` after the label of a button, where it has one.
    pub open spec fn button_label_done(old: &Self, new: &Self, style: Style, label: Seq<char>, r: Recti, opt: WidgetOption) -> bool {
        if label.len() > 0 {
            Self::label_drawn(old, new, style, style.normal_font, label, r, ControlColor::Text, opt)
        } else {
            *new == *old
        }
    }

    /// `new` is `old` after the check mark of a check box in `bx`, drawn when set.
    pub open spec fn check_mark_done(old: &Self, new: &Self, style: Style, bx: Recti, set: bool) -> bool {
        if set {
            Self::appended(old, new, old.cur(), clipped_cmds(old.clip(), bx,
                Command::Icon { rect: bx, id: Icon::Check, color: style.colors@[0] }))
        } else {
            *new == *old
        }
    }

    /// The id of a button: that of its label, or of its icon's number where
    /// the label is empty.
    pub open spec fn button_id(ids: Seq<Id>, label: Seq<char>, icon: Option<Icon>) -> Id {
        if label.len() > 0 {
            named_id(ids, label)
        } else {
            id_of_hash(spec_hash_seq(id_base(ids), spec_be_bytes(spec_icon_code(icon.unwrap()))))
        }
    }

    /// `new` and `res` are `old` and the result after the button `label`
    /// with `icon`: its id taken, its cell `r` taken, the control updated,
    /// `SUBMIT` on a left press while it has the focus, its frame, its label
    /// and its icon drawn.
    pub open spec fn button_done(
        old: &Self,
        new: &Self,
        style: Style,
        label: Seq<char>,
        icon: Option<Icon>,
        opt: WidgetOption,
        res: ResourceState,
    ) -> bool {
        let id = Self::button_id(old.id_stack@, label, icon);
        exists|m1: Self, r: Recti, m2: Self, m3: Self, m4: Self| {
            &&& #[trigger] Self::next_cell_taken(&Context { last_id: Some(id), ..*old }, &m1, style, r)
            &&& #[trigger] Self::control_updated(&m1, &m2, id, r, opt)
            &&& res@ == (if m2.mouse_pressed@ & 1 != 0 && m2.focus == Some(id) { 2u32 } else { 0u32 })
            &&& #[trigger] Self::appended(&m2, &m3, m2.cur(),
                control_frame_cmds(m2.clip(), style, r, m2.focus, m2.hover, id, ControlColor::Button, opt@))
            &&& #[trigger] Self::button_label_done(&m3, &m4, style, label, r, opt)
            &&& match icon {
                Some(i) => Self::appended(&m4, new, m4.cur(), clipped_cmds(m4.clip(), r,
                    Command::Icon { rect: r, id: i, color: style.colors@[0] })),
                None => *new == m4,
            }
        }
    }

    /// The button `label` with `icon` in the next cell of the current
    /// container, as `button_done` says; a button without a label has an icon.
    pub fn button(&mut self, style: &Style, label: &str, icon: Option<Icon>, opt: WidgetOption) -> (res: ResourceState)
        requires
            old(self).wf(),
            old(self).cell_fits(*style),
            label@.len() > 0 || icon is Some,
            frame_fits(crate::ui::layout::next_cell_of(old(self).containers@[old(self).cur().0 as int].layouts().last(), *style)),
        ensures
            final(self).wf(),
            Self::button_done(old(self), final(self), *style, label@, icon, opt, res),
    {
        let ghost s0 = *self;
        let has_label = label.unicode_len() > 0;
        let id = if has_label {
            self.get_id_from_str(label)
        } else {
            let code = match icon {
                Some(i) => i.code(),
                None => 0,
            };
            self.get_id_u32(code)
        };
        proof {
            crate::ui::pool::lemma_id_of_hash(id);
            assert(id == Self::button_id(s0.id_stack@, label@, icon));
        }
        let ghost m0 = *self;
        let r = self.next_cell(style);
        let ghost m1 = *self;
        self.update_control(id, r, opt);
        let ghost m2 = *self;
        proof {
            assert(Self::next_cell_taken(&Context { last_id: Some(id), ..s0 }, &m1, *style, r));
            assert(Self::control_updated(&m1, &m2, id, r, opt));
        }
        let res = if self.mouse_pressed.is_left() && self.focus == Some(id) {
            ResourceState::SUBMIT()
        } else {
            ResourceState::NONE()
        };
        self.draw_control_frame(style, id, r, ControlColor::Button, opt);
        let ghost m3 = *self;
        if has_label {
            self.draw_control_text(style, style.normal_font, label, r, ControlColor::Text, opt);
        }
        let ghost m4 = *self;
        match icon {
            Some(i) => {
                self.draw_icon(i, r, style.colors[ControlColor::Text.index()]);
            },
            None => {},
        }
        proof {
            assert(Self::appended(&m2, &m3, m2.cur(),
                control_frame_cmds(m2.clip(), *style, r, m2.focus, m2.hover, id, ControlColor::Button, opt@)));
            assert(Self::button_label_done(&m3, &m4, *style, label@, r, opt));
            assert(res@ == (if m2.mouse_pressed@ & 1 != 0 && m2.focus == Some(id) { 2u32 } else { 0u32 }));
            match icon {
                Some(i) => {
                    assert(Self::appended(&m4, self, m4.cur(), clipped_cmds(m4.clip(), r,
                        Command::Icon { rect: r, id: i, color: style.colors@[0] })));
                },
                None => {},
            }
        }
        res
    }

    /// `new` and `res` are `old` and the result after the check box `label`
    /// whose state `state` lives at `addr`: its id taken from the address, its
    /// cell `r` taken, the control updated, a left press while it has the
    /// focus flips the state to `flipped` and gives `CHANGE`, then the box,
    /// its check mark when set, and the label past the box are drawn.
    pub open spec fn checkbox_done(
        old: &Self,
        new: &Self,
        style: Style,
        label: Seq<char>,
        addr: usize,
        state: bool,
        flipped: bool,
        res: ResourceState,
    ) -> bool {
        let id = id_of_hash(spec_hash_seq(id_base(old.id_stack@), spec_le_bytes(addr)));
        exists|m1: Self, r: Recti, m2: Self, m3: Self, m4: Self| {
            let pressed = m2.mouse_pressed@ & 1 != 0 && m2.focus == Some(id);
            &&& #[trigger] Self::next_cell_taken(&Context { last_id: Some(id), ..*old }, &m1, style, r)
            &&& #[trigger] Self::control_updated(&m1, &m2, id, r, WidgetOption::spec_none())
            &&& res@ == (if pressed { 4u32 } else { 0u32 })
            &&& flipped == (if pressed { !state } else { state })
            &&& #[trigger] Self::appended(&m2, &m3, m2.cur(),
                frame_cmds(m2.clip(), style, header_icon_rect(r), control_color(m2.focus, m2.hover, id, ControlColor::Base)))
            &&& #[trigger] Self::check_mark_done(&m3, &m4, style, header_icon_rect(r), flipped)
            &&& Self::label_drawn(&m4, new, style, style.normal_font, label,
                Recti { x: (r.x + r.height) as i32, y: r.y, width: (r.width - r.height) as i32, height: r.height },
                ControlColor::Text, WidgetOption::spec_none())
        }
    }

    /// The check box `label` in the next cell of the current container; its
    /// id comes from `addr`, the address of its state. As `checkbox_done` says.
    pub fn checkbox(&mut self, style: &Style, label: &str, state: &mut bool, addr: usize) -> (res: ResourceState)
        requires
            old(self).wf(),
            old(self).cell_fits(*style),
            ({
                let r = crate::ui::layout::next_cell_of(old(self).containers@[old(self).cur().0 as int].layouts().last(), *style);
                let bx = Recti { x: r.x, y: r.y, width: r.height, height: r.height };
                &&& rect_corner_fits(bx)
                &&& frame_fits(bx)
                &&& in_i32(r.x + r.height)
                &&& in_i32(r.width - r.height)
                &&& rect_corner_fits(Recti { x: (r.x + r.height) as i32, y: r.y, width: (r.width - r.height) as i32, height: r.height })
            }),
        ensures
            final(self).wf(),
            Self::checkbox_done(old(self), final(self), *style, label@, addr, *old(state), *final(state), res),
    {
        let ghost s0 = *self;
        let id = self.get_id_from_addr(addr);
        proof {
            crate::ui::pool::lemma_id_of_hash(id);
        }
        let r = self.next_cell(style);
        let ghost m1 = *self;
        let bx = Recti::new(r.x, r.y, r.height, r.height);
        let none = WidgetOption::NONE();
        proof {
            WidgetOption::lemma_spec_none(none);
            assert(0u32 & 4u32 == 0) by (bit_vector);
            assert(0u32 & 256u32 == 0) by (bit_vector);
            assert(0u32 & 8u32 == 0) by (bit_vector);
        }
        self.update_control(id, r, none);
        let ghost m2 = *self;
        proof {
            assert(Self::next_cell_taken(&Context { last_id: Some(id), ..s0 }, &m1, *style, r));
            assert(Self::control_updated(&m1, &m2, id, r, WidgetOption::spec_none()));
        }
        let mut res = ResourceState::NONE();
        if self.mouse_pressed.is_left() && self.focus == Some(id) {
            res = ResourceState::CHANGE();
            *state = !*state;
        }
        self.draw_control_frame(style, id, bx, ControlColor::Base, none);
        let ghost m3 = *self;
        if *state {
            self.draw_icon(Icon::Check, bx, style.colors[ControlColor::Text.index()]);
        }
        let ghost m4 = *self;
        let lr = Recti::new(r.x + bx.width, r.y, r.width - bx.width, r.height);
        self.draw_control_text(style, style.normal_font, label, lr, ControlColor::Text, none);
        proof {
            assert(bx == header_icon_rect(r));
            assert(Self::appended(&m2, &m3, m2.cur(),
                frame_cmds(m2.clip(), *style, bx, control_color(m2.focus, m2.hover, id, ControlColor::Base))));
            assert(Self::check_mark_done(&m3, &m4, *style, bx, *state));
            assert(res@ == (if m2.mouse_pressed@ & 1 != 0 && m2.focus == Some(id) { 4u32 } else { 0u32 }));
        }
        res
    }

    /// `new` is `old` with the clip rectangle `rect`, cut to the current one,
    /// pushed where they touch.
    pub open spec fn clip_pushed(old: &Self, new: &Self, rect: Recti) -> bool {
        &&& new.clip_stack@ == (match spec_intersect(rect, old.clip()) {
            Some(i) => old.clip_stack@.push(i),
            None => old.clip_stack@,
        })
        &&& *new == Context { clip_stack: new.clip_stack, ..*old }
    }

    /// `new` is `old` after a focused text box in `r` draws `text`, measured
    /// as `tw` by `th`: clipped to `r`, the text and then the caret, and the
    /// clip rectangle popped again.
    pub open spec fn textbox_text_drawn(old: &Self, new: &Self, style: Style, text: Seq<char>, r: Recti, tw: i32, th: i32) -> bool {
        let p = textbox_text_pos(style, r, tw as int, th as int);
        let color = style.colors@[0];
        exists|m1: Self, m2: Self, m3: Self| {
            &&& #[trigger] Self::clip_pushed(old, &m1, r)
            &&& #[trigger] Self::text_drawn(&m1, &m2, m1.clip(), style.normal_font, text,
                Vec2i { x: p.0 as i32, y: p.1 as i32 }, color, tw, th)
            &&& #[trigger] Self::appended(&m2, &m3, m2.cur(), rect_cmds(m2.clip(), textbox_caret(style, r, tw as int, th as int), color))
            &&& Self::clip_popped(&m3, new)
        }
    }

    /// Draws the text and caret of a focused text box, as `textbox_text_drawn` says.
    fn draw_textbox_text(&mut self, style: &Style, text: &str, r: Recti, tw: i32, th: i32)
        requires
            old(self).wf(),
            old(self).container_stack@.len() > 0,
            old(self).clip_stack@.len() > 0,
            rect_corner_fits(r),
            rect_corner_fits(old(self).clip()),
            textbox_text_fits(*style, r, tw as int, th as int),
        ensures
            final(self).wf(),
            Self::textbox_text_drawn(old(self), final(self), *style, text@, r, tw, th),
    {
        let ghost s0 = *self;
        let ofx = r.width - style.padding - tw - 1;
        let textx = r.x + (if ofx < style.padding { ofx } else { style.padding });
        let texty = r.y + (r.height - th) / 2;
        let color = style.colors[ControlColor::Text.index()];
        let _ = self.push_clip_rect(r);
        let ghost m1 = *self;
        proof {
            if spec_intersect(r, s0.clip()) is Some {
                crate::geometry::lemma_intersect_fits(r, s0.clip());
            }
            assert(Self::clip_pushed(&s0, &m1, r));
        }
        self.draw_text_sized(style.normal_font, text, vec2(textx, texty), color, tw, th);
        let ghost m2 = *self;
        self.draw_rect(Recti::new(textx + tw, texty, 1, th), color);
        let ghost m3 = *self;
        self.pop_clip_rect();
        proof {
            assert(Self::text_drawn(&m1, &m2, m1.clip(), style.normal_font, text@,
                Vec2i { x: textx, y: texty }, color, tw, th));
            assert(Self::appended(&m2, &m3, m2.cur(), rect_cmds(m2.clip(), textbox_caret(*style, r, tw as int, th as int), color)));
            assert(Self::clip_popped(&m3, self));
        }
    }

    /// `new` is `old` with hover, focus and the focus flag updated for the
    /// control `id` in `rect`.
    pub open spec fn control_only_updated(old: &Self, new: &Self, id: Id, rect: Recti, opt: WidgetOption) -> bool {
        let (h, f, u) = old.control_update(id, rect, opt);
        *new == Context { hover: h, focus: f, updated_focus: u, ..*old }
    }

    /// `new` is `old` after a text box draws `text`: a focused one its text
    /// and caret in the box the back end measured, whenever they fit (and
    /// nothing where they would overflow), any other its text as a control
    /// label.
    pub open spec fn textbox_text_done(old: &Self, new: &Self, style: Style, text: Seq<char>, id: Id, r: Recti, opt: WidgetOption) -> bool {
        if old.focus == Some(id) {
            exists|ws: Seq<usize>, h: usize| {
                let tw = #[trigger] spec_text_width(text, ws) as i32;
                let th = #[trigger] spec_text_height(text, h);
                &&& ws.len() == text.len()
                &&& if textbox_text_fits(style, r, tw as int, th as int) {
                    Self::textbox_text_drawn(old, new, style, text, r, tw, th)
                } else {
                    *new == *old
                }
            }
        } else {
            Self::label_drawn(old, new, style, style.normal_font, text, r, ControlColor::Text, opt)
        }
    }

    /// The context once a return gives up the focus of the focused text box `id`.
    pub open spec fn returned(&self, id: Id) -> Self {
        if self.focus == Some(id) && self.key_pressed@ & 16 != 0 {
            Context { focus: None, updated_focus: true, ..*self }
        } else {
            *self
        }
    }

    /// `new`, `text` and `res` are `old`, the text and the result after the
    /// text box `id` in `r` holding `buf`: the control is updated holding the
    /// focus; a focused box takes the typed text, loses a character on a
    /// backspace (`CHANGE` for either) and gives up the focus on return
    /// (`SUBMIT`); then its frame and its text are drawn.
    pub open spec fn textbox_done(
        old: &Self,
        new: &Self,
        style: Style,
        buf: Seq<char>,
        text: Seq<char>,
        id: Id,
        r: Recti,
        opt: WidgetOption,
        res: ResourceState,
    ) -> bool {
        exists|o: WidgetOption, m1: Self, m3: Self| {
            let focused = m1.focus == Some(id);
            let backspace = m1.key_pressed@ & 8 != 0;
            let ret = focused && m1.key_pressed@ & 16 != 0;
            let changed = focused && (m1.input_text@.len() > 0 || (backspace && (buf + m1.input_text@).len() > 0));
            &&& o@ == (opt@ | 256)
            &&& #[trigger] Self::control_only_updated(old, &m1, id, r, o)
            &&& text == (if focused { edited_text(buf, m1.input_text@, backspace) } else { buf })
            &&& res@ == (if changed { 4u32 } else { 0u32 }) + (if ret { 2u32 } else { 0u32 })
            &&& #[trigger] Self::appended(&m1.returned(id), &m3, m1.cur(),
                control_frame_cmds(m1.clip(), style, r, m1.returned(id).focus, m1.hover, id, ControlColor::Base, opt@))
            &&& Self::textbox_text_done(&m3, new, style, text, id, r, opt)
        }
    }

    /// The text box `id` in `r` editing `buf`, as `textbox_done` says.
    #[verifier::spinoff_prover]
    #[verifier::rlimit(40)]
    pub fn textbox_raw(&mut self, style: &Style, buf: &mut String, id: Id, r: Recti, opt: WidgetOption) -> (res: ResourceState)
        requires
            old(self).wf(),
            old(self).container_stack@.len() > 0,
            old(self).clip_stack@.len() > 0,
            rect_corner_fits(r),
            rect_corner_fits(old(self).clip()),
            frame_fits(r),
        ensures
            final(self).wf(),
            Self::textbox_done(old(self), final(self), *style, old(buf)@, final(buf)@, id, r, opt, res),
    {
        let ghost s0 = *self;
        let o = opt.union(WidgetOption::HOLD_FOCUS());
        self.update_control(id, r, o);
        let ghost m1 = *self;
        let mut changed = false;
        let mut submitted = false;
        if self.focus == Some(id) {
            if self.input_text.as_str().unicode_len() > 0 {
                string_push_str(buf, self.input_text.as_str());
                changed = true;
            }
            if self.key_pressed.is_backspace() && buf.as_str().unicode_len() > 0 {
                string_pop(buf);
                changed = true;
            }
            if self.key_pressed.is_return() {
                self.set_focus(None);
                submitted = true;
            }
        }
        let res = if changed {
            if submitted {
                ResourceState::CHANGE().union(ResourceState::SUBMIT())
            } else {
                ResourceState::CHANGE()
            }
        } else if submitted {
            ResourceState::SUBMIT()
        } else {
            ResourceState::NONE()
        };
        proof {
            assert(4u32 | 2u32 == 6u32) by (bit_vector);
        }
        let ghost m2 = *self;
        self.draw_control_frame(style, id, r, ControlColor::Base, opt);
        let ghost m3 = *self;
        if self.focus == Some(id) {
            let font = style.normal_font;
            let tw = self.get_text_width(font, buf.as_str());
            let th = self.get_text_height(font, buf.as_str());
            let ghost ws = choose|ws: Seq<usize>| ws.len() == buf@.len() && tw == #[trigger] spec_text_width(buf@, ws) as i32;
            let ghost hv = choose|hv: usize| th == #[trigger] spec_text_height(buf@, hv);
            let ghost m4 = *self;
            if textbox_text_fits_exec(style, r, tw, th) {
                self.draw_textbox_text(style, buf.as_str(), r, tw, th);
            }
            proof {
                assert(spec_text_width(buf@, ws) as i32 == tw);
                assert(spec_text_height(buf@, hv) == th);
                if !textbox_text_fits(*style, r, tw as int, th as int) {
                    assert(*self == m4);
                }
            }
        } else {
            self.draw_control_text(style, style.normal_font, buf.as_str(), r, ControlColor::Text, opt);
        }
        proof {
            assert(Self::control_only_updated(&s0, &m1, id, r, o));
            assert(m2 == m1.returned(id));
            assert(Self::appended(&m1.returned(id), &m3, m1.cur(),
                control_frame_cmds(m1.clip(), *style, r, m1.returned(id).focus, m1.hover, id, ControlColor::Base, opt@)));
            assert(Self::textbox_text_done(&m3, self, *style, buf@, id, r, opt));
        }
        res
    }

    /// The context once the id of the address `addr` is taken.
    pub open spec fn with_addr_id(&self, addr: usize) -> Self {
        Context { last_id: Some(id_of_hash(spec_hash_seq(id_base(self.id_stack@), spec_le_bytes(addr)))), ..*self }
    }

    /// The text box editing `buf` in the next cell of the current container;
    /// its id comes from `addr`, the address of the buffer.
    pub fn textbox_ex(&mut self, style: &Style, buf: &mut String, addr: usize, opt: WidgetOption) -> (res: ResourceState)
        requires
            old(self).wf(),
            old(self).cell_fits(*style),
            frame_fits(crate::ui::layout::next_cell_of(old(self).containers@[old(self).cur().0 as int].layouts().last(), *style)),
        ensures
            final(self).wf(),
            exists|m1: Self, r: Recti| {
                &&& #[trigger] Self::next_cell_taken(&old(self).with_addr_id(addr), &m1, *style, r)
                &&& Self::textbox_done(&m1, final(self), *style, old(buf)@, final(buf)@,
                    id_of_hash(spec_hash_seq(id_base(old(self).id_stack@), spec_le_bytes(addr))), r, opt, res)
            },
    {
        let ghost s0 = *self;
        let id = self.get_id_from_addr(addr);
        proof {
            crate::ui::pool::lemma_id_of_hash(id);
        }
        let r = self.next_cell(style);
        let ghost m1 = *self;
        proof {
            assert(Self::next_cell_taken(&s0.with_addr_id(addr), &m1, *style, r));
        }
        self.textbox_raw(style, buf, id, r, opt)
    }

    /// `new` is `old` once a column starts in the next cell of the current
    /// container: that cell is taken from the innermost layout, and a fresh
    /// layout for it is pushed.
    pub open spec fn column_begun(old: &Self, new: &Self, style: Style) -> bool {
        let c = old.cur().0 as int;
        let oc = old.containers@[c];
        let nc = new.containers@[c];
        let l = oc.layouts().last();
        let n = oc.layouts().len();
        let cell = next_cell_of(l, style);
        &&& nc.layouts().len() == n + 1
        &&& nc.layouts().drop_last() == oc.layouts().update(n - 1, next_layout_of(l, style))
        &&& crate::ui::layout::is_fresh_layout(nc.layouts().last(), cell, Vec2i { x: 0, y: 0 })
        &&& nc.last_cell() == cell
        &&& new.containers@ == old.containers@.update(c, Container { layout_stack: nc.layout_stack, ..oc })
        &&& *new == Context { containers: new.containers, ..*old }
    }

    /// `new` is `old` once the innermost column of the current container
    /// ends: it is popped and merged into its parent.
    pub open spec fn column_ended(old: &Self, new: &Self) -> bool {
        let c = old.cur().0 as int;
        let oc = old.containers@[c];
        let nc = new.containers@[c];
        let s = oc.layouts();
        let n = s.len();
        &&& nc.layouts() == s.drop_last().update(n - 2, merged_column(s[n - 2], s[n - 1]))
        &&& nc.last_cell() == oc.last_cell()
        &&& new.containers@ == old.containers@.update(c, Container { layout_stack: nc.layout_stack, ..oc })
        &&& *new == Context { containers: new.containers, ..*old }
    }

    /// Starts a column in the next cell of the current container.
    pub fn begin_column(&mut self, style: &Style)
        requires
            old(self).wf(),
            old(self).container_stack@.len() > 0,
            0 < old(self).containers@[old(self).cur().0 as int].layouts().len() < MAX_WIDTHS,
            next_fits(old(self).containers@[old(self).cur().0 as int].layouts().last(), *style),
        ensures
            final(self).wf(),
            Self::column_begun(old(self), final(self), *style),
    {
        let i = self.get_current_container().0;
        self.containers[i].begin_column(style);
        proof {
            assert forall|c: int, k: int| 0 <= c < CONTAINER_COUNT && 0 <= k < self.containers@[c].commands@.len()
                implies command_text_ok(#[trigger] self.containers@[c].commands@[k], self.text_stack@.len()) by {
                assert(self.containers@[c].commands@ == old(self).containers@[c].commands@);
            }
            let oc = old(self).containers@[i as int];
            assert(self.containers@ =~= old(self).containers@.update(i as int,
                Container { layout_stack: self.containers@[i as int].layout_stack, ..oc }));
        }
    }

    /// Ends the current container's innermost column; its parent layout moves
    /// on past it.
    pub fn end_column(&mut self)
        requires
            old(self).wf(),
            old(self).container_stack@.len() > 0,
            old(self).containers@[old(self).cur().0 as int].layouts().len() >= 2,
            ({
                let s = old(self).containers@[old(self).cur().0 as int].layouts();
                crate::ui::layout::merge_fits(s[s.len() - 2], s.last())
            }),
        ensures
            final(self).wf(),
            Self::column_ended(old(self), final(self)),
    {
        let i = self.get_current_container().0;
        self.containers[i].end_column();
        proof {
            assert forall|c: int, k: int| 0 <= c < CONTAINER_COUNT && 0 <= k < self.containers@[c].commands@.len()
                implies command_text_ok(#[trigger] self.containers@[c].commands@[k], self.text_stack@.len()) by {
                assert(self.containers@[c].commands@ == old(self).containers@[c].commands@);
            }
            let oc = old(self).containers@[i as int];
            assert(self.containers@ =~= old(self).containers@.update(i as int,
                Container { layout_stack: self.containers@[i as int].layout_stack, ..oc }));
        }
    }
}


/// Where laying out a text has got to: the context, the cell of the current
/// line, the x position of the next word in it, and whether it stopped
/// because a cell would take an overflowing coordinate.
pub struct TextCursor<P, R> {
    pub ctx: Context<P, R>,
    pub r: Recti,
    pub rx: i32,
    pub done: bool,
}

impl<P, R: RendererBackEnd<P>> Context<P, R> {
    /// `b` is `a` once the next cell of the current container is asked for:
    /// taken, with the next word at its left edge; or, where it would take
    /// an overflowing coordinate, nothing changed but the layout stops.
    pub open spec fn text_cell_moved(a: TextCursor<P, R>, b: TextCursor<P, R>, style: Style) -> bool {
        if next_fits(a.ctx.containers@[a.ctx.cur().0 as int].layouts().last(), style) {
            &&& Self::next_cell_taken(&a.ctx, &b.ctx, style, b.r)
            &&& b.rx == b.r.x
            &&& !b.done
        } else {
            b == TextCursor { done: true, ..a }
        }
    }

    /// `b` is `a` after the word `start..end` of `text`, whose width the back
    /// end measured: drawn at the cursor where it ends left of the cell's
    /// right edge, the cursor moving past it; otherwise not drawn, and the
    /// next cell taken.
    pub open spec fn text_word_step(
        a: TextCursor<P, R>,
        b: TextCursor<P, R>,
        style: Style,
        text: Seq<char>,
        start: int,
        end: int,
    ) -> bool {
        let t = text.subrange(start, end);
        exists|ws: Seq<usize>| {
            let tw = #[trigger] spec_text_width(t, ws) as i32;
            &&& ws.len() == t.len()
            &&& if tw + a.rx < a.r.x + a.r.width && in_i32(tw + a.rx) {
                &&& Self::text_measured_drawn(&a.ctx, &b.ctx, style.normal_font, t, Vec2i { x: a.rx, y: a.r.y },
                    style.colors@[spec_color_index(ControlColor::Text) as int])
                &&& b.r == a.r
                &&& b.rx == tw + a.rx
                &&& !b.done
            } else {
                Self::text_cell_moved(a, b, style)
            }
        }
    }

    /// `b` is `a` after the step `tok`: nothing once stopped; a word as
    /// `text_word_step` says; the end of a line takes the next cell.
    pub open spec fn text_step(a: TextCursor<P, R>, tok: TextTok, b: TextCursor<P, R>, style: Style, text: Seq<char>) -> bool {
        if a.done {
            b == a
        } else {
            match tok {
                TextTok::Word { start, end } => Self::text_word_step(a, b, style, text, start as int, end as int),
                TextTok::LineEnd => Self::text_cell_moved(a, b, style),
            }
        }
    }

    /// `b` is `a` after the steps `toks`, in order: some cursors `cs` lead
    /// from `a` to `b`, each the one before after one step.
    pub open spec fn text_steps(
        a: TextCursor<P, R>,
        toks: Seq<TextTok>,
        b: TextCursor<P, R>,
        style: Style,
        text: Seq<char>,
    ) -> bool {
        exists|cs: Seq<TextCursor<P, R>>| #[trigger] Self::cursor_path(cs, a, toks, b, style, text)
    }

    /// `cs` leads from `a` to `b` by the steps `toks`.
    pub open spec fn cursor_path(
        cs: Seq<TextCursor<P, R>>,
        a: TextCursor<P, R>,
        toks: Seq<TextTok>,
        b: TextCursor<P, R>,
        style: Style,
        text: Seq<char>,
    ) -> bool {
        &&& cs.len() == toks.len() + 1
        &&& cs[0] == a
        &&& cs.last() == b
        &&& forall|i: int| 0 <= i < toks.len() ==> #[trigger] Self::text_step(cs[i], toks[i], cs[i + 1], style, text)
    }

    /// `fin` is where laying out `text` in the column started in `mid` ends:
    /// the first cell is taken, then each word and each end of a line of
    /// `text` is laid out in turn.
    pub open spec fn text_flowed(mid: &Self, style: Style, text: Seq<char>, fin: TextCursor<P, R>) -> bool {
        let start = TextCursor { ctx: *mid, r: Recti { x: 0, y: 0, width: 0, height: 0 }, rx: 0, done: false };
        exists|c0: TextCursor<P, R>| #[trigger] Self::text_cell_moved(start, c0, style)
            && Self::text_steps(c0, text_tokens(text, 0), fin, style, text)
    }

    /// `new` is `old` with its innermost column ended where merging it into
    /// its parent takes no overflowing coordinate; `old` otherwise.
    pub open spec fn column_closed(old: &Self, new: &Self) -> bool {
        let s = old.containers@[old.cur().0 as int].layouts();
        let n = s.len();
        if n >= 2 && merge_fits(s[n - 2], s[n - 1]) {
            Self::column_ended(old, new)
        } else {
            *new == *old
        }
    }

    /// The stages of `text`: a column is started, given one row of a single
    /// cell reaching the right edge, `h` high; the text is laid out in it;
    /// then the column is closed.
    pub open spec fn text_stages(
        old: &Self,
        m1: &Self,
        mid: &Self,
        fin: TextCursor<P, R>,
        new: &Self,
        style: Style,
        text: Seq<char>,
        h: i32,
    ) -> bool {
        &&& Self::column_begun(old, m1, style)
        &&& Self::row_set(m1, mid, seq![-1i32], h)
        &&& Self::text_flowed(mid, style, text, fin)
        &&& Self::column_closed(&fin.ctx, new)
    }

    /// `new` is `old` after `text` draws `text`, with a row height the back
    /// end gave.
    pub open spec fn text_done(old: &Self, new: &Self, style: Style, text: Seq<char>) -> bool {
        exists|m1: Self, mid: Self, fin: TextCursor<P, R>, h: i32|
            #[trigger] Self::text_stages(old, &m1, &mid, fin, new, style, text, h)
    }

    proof fn lemma_steps_start(a: TextCursor<P, R>, style: Style, text: Seq<char>)
        ensures
            Self::text_steps(a, Seq::empty(), a, style, text),
    {
        assert(Self::cursor_path(seq![a], a, Seq::empty(), a, style, text));
    }

    proof fn lemma_steps_push(a: TextCursor<P, R>, toks: Seq<TextTok>, m: TextCursor<P, R>, tok: TextTok, b: TextCursor<P, R>, style: Style, text: Seq<char>)
        requires
            Self::text_steps(a, toks, m, style, text),
            Self::text_step(m, tok, b, style, text),
        ensures
            Self::text_steps(a, toks.push(tok), b, style, text),
    {
        let cs = choose|cs: Seq<TextCursor<P, R>>| #[trigger] Self::cursor_path(cs, a, toks, m, style, text);
        let cs2 = cs.push(b);
        let t2 = toks.push(tok);
        assert forall|i: int| 0 <= i < t2.len() implies #[trigger] Self::text_step(cs2[i], t2[i], cs2[i + 1], style, text) by {
            if i < toks.len() {
                assert(cs2[i] == cs[i] && cs2[i + 1] == cs[i + 1] && t2[i] == toks[i]);
                assert(Self::text_step(cs[i], toks[i], cs[i + 1], style, text));
            } else {
                assert(cs2[i] == m && cs2[i + 1] == b && t2[i] == tok);
            }
        }
        assert(Self::cursor_path(cs2, a, t2, b, style, text));
    }

    proof fn lemma_steps_stopped(a: TextCursor<P, R>, toks: Seq<TextTok>, rest: Seq<TextTok>, b: TextCursor<P, R>, style: Style, text: Seq<char>)
        requires
            Self::text_steps(a, toks, b, style, text),
            b.done,
        ensures
            Self::text_steps(a, toks + rest, b, style, text),
        decreases rest.len(),
    {
        if rest.len() == 0 {
            assert(toks + rest =~= toks);
        } else {
            Self::lemma_steps_stopped(a, toks, rest.drop_last(), b, style, text);
            assert(Self::text_step(b, rest.last(), b, style, text));
            Self::lemma_steps_push(a, toks + rest.drop_last(), b, rest.last(), b, style, text);
            assert((toks + rest.drop_last()).push(rest.last()) =~= toks + rest);
        }
    }

    /// `new` is `base` with more commands drawn into the current container,
    /// more text in the text buffer and the current container's innermost
    /// layout moved on; nothing else changed.
    pub open spec fn wrapped_from(base: &Self, new: &Self) -> bool {
        let c = base.cur().0 as int;
        let bc = base.containers@[c];
        let nc = new.containers@[c];
        &&& Self::same_state(base, new)
        &&& new.containers@.len() == base.containers@.len()
        &&& forall|i: int| 0 <= i < base.containers@.len() && i != c ==> {
            &&& same_container(#[trigger] base.containers@[i], new.containers@[i])
            &&& new.containers@[i].commands@ == base.containers@[i].commands@
        }
        &&& nc.rect == bc.rect
        &&& nc.body == bc.body
        &&& nc.content_size == bc.content_size
        &&& nc.scroll == bc.scroll
        &&& nc.zindex == bc.zindex
        &&& nc.open == bc.open
        &&& bc.commands@.is_prefix_of(nc.commands@)
        &&& nc.layouts().len() == bc.layouts().len()
        &&& nc.layouts().drop_last() == bc.layouts().drop_last()
        &&& nc.layouts().last().body == bc.layouts().last().body
        &&& base.text_stack@.is_prefix_of(new.text_stack@)
    }

    proof fn lemma_wrapped_refl(s: &Self)
        requires
            s.container_stack@.len() > 0,
        ensures
            Self::wrapped_from(s, s),
    {
        assert(s.text_stack@.is_prefix_of(s.text_stack@)) by {
            assert(s.text_stack@ =~= s.text_stack@.subrange(0, s.text_stack@.len() as int));
        }
        let cs = s.containers@[s.cur().0 as int].commands@;
        assert(cs.is_prefix_of(cs)) by {
            assert(cs =~= cs.subrange(0, cs.len() as int));
        }
    }

    proof fn lemma_wrapped_cell(base: &Self, s: &Self, s2: &Self, style: Style, r: Recti)
        requires
            Self::wrapped_from(base, s),
            base.container_stack@.len() > 0,
            cref_ok(base.cur()),
            base.containers@.len() == CONTAINER_COUNT,
            base.containers@[base.cur().0 as int].layouts().len() > 0,
            Self::next_cell_taken(s, s2, style, r),
        ensures
            Self::wrapped_from(base, s2),
    {
        let c = base.cur().0 as int;
        let s_l = s.containers@[c].layouts();
        let n_l = s2.containers@[c].layouts();
        assert(n_l.drop_last() =~= s_l.drop_last());
        assert(n_l.last().body == s_l.last().body);
        assert forall|i: int| 0 <= i < base.containers@.len() && i != c implies {
            &&& same_container(#[trigger] base.containers@[i], s2.containers@[i])
            &&& s2.containers@[i].commands@ == base.containers@[i].commands@
        } by {
            assert(s2.containers@[i] == s.containers@[i]);
        }
    }

    proof fn lemma_wrapped_text(
        base: &Self,
        s: &Self,
        s2: &Self,
        font: FontId,
        t: Seq<char>,
        pos: Vec2i,
        color: Color4b,
    )
        requires
            Self::wrapped_from(base, s),
            base.container_stack@.len() > 0,
            cref_ok(base.cur()),
            base.containers@.len() == CONTAINER_COUNT,
            ({
                ||| *s2 == *s
                ||| exists|ws: Seq<usize>, h: usize| {
                    let w = #[trigger] spec_text_width(t, ws) as i32;
                    let hh = #[trigger] spec_text_height(t, h);
                    &&& ws.len() == t.len()
                    &&& rect_corner_fits(Recti { x: pos.x, y: pos.y, width: w, height: hh })
                    &&& Self::text_drawn(s, s2, s.clip(), font, t, pos, color, w, hh)
                }
            }),
        ensures
            Self::wrapped_from(base, s2),
    {
        let c = base.cur().0 as int;
        if *s2 != *s {
            let (ws, h) = choose|ws: Seq<usize>, h: usize| {
                let w = #[trigger] spec_text_width(t, ws) as i32;
                let hh = #[trigger] spec_text_height(t, h);
                &&& ws.len() == t.len()
                &&& rect_corner_fits(Recti { x: pos.x, y: pos.y, width: w, height: hh })
                &&& Self::text_drawn(s, s2, s.clip(), font, t, pos, color, w, hh)
            };
            let w = spec_text_width(t, ws) as i32;
            let hh = spec_text_height(t, h);
            assert(Self::text_drawn(s, s2, s.clip(), font, t, pos, color, w, hh));
            let bcs = base.containers@[c].commands@;
            let scs = s.containers@[c].commands@;
            let ncs = s2.containers@[c].commands@;
            assert(bcs.is_prefix_of(ncs)) by {
                assert(scs.subrange(0, bcs.len() as int) =~= ncs.subrange(0, bcs.len() as int));
            }
            let bt = base.text_stack@;
            assert(bt.is_prefix_of(s2.text_stack@)) by {
                assert(s.text_stack@.subrange(0, bt.len() as int) =~= s2.text_stack@.subrange(0, bt.len() as int));
            }
            assert(same_container(s.containers@[c], s2.containers@[c]));
            assert forall|i: int| 0 <= i < base.containers@.len() && i != c implies {
                &&& same_container(#[trigger] base.containers@[i], s2.containers@[i])
                &&& s2.containers@[i].commands@ == base.containers@[i].commands@
            } by {
                assert(same_container(s.containers@[i], s2.containers@[i]));
            }
        }
    }

    /// Every command drawn into the current container since `base` sets
    /// the clip rectangle or draws a piece of `text` in `font` and `color`.
    pub open spec fn only_pieces_since(base: &Self, new: &Self, text: Seq<char>, font: FontId, color: Color4b) -> bool {
        let c = base.cur().0 as int;
        forall|k: int| base.containers@[c].commands@.len() <= k < new.containers@[c].commands@.len()
            ==> draws_piece_of(#[trigger] new.containers@[c].commands@[k], new.text_stack@, text, font, color)
    }

    proof fn lemma_pieces_cell(base: &Self, s: &Self, s2: &Self, style: Style, r: Recti, text: Seq<char>, font: FontId, color: Color4b)
        requires
            Self::only_pieces_since(base, s, text, font, color),
            Self::next_cell_taken(s, s2, style, r),
            base.container_stack@.len() > 0,
            s.container_stack@ == base.container_stack@,
            cref_ok(base.cur()),
            base.containers@.len() == CONTAINER_COUNT,
            s.containers@.len() == CONTAINER_COUNT,
        ensures
            Self::only_pieces_since(base, s2, text, font, color),
    {
        let c = base.cur().0 as int;
        assert(s2.containers@[c].commands@ == s.containers@[c].commands@);
    }

    proof fn lemma_pieces_text(
        base: &Self,
        s: &Self,
        s2: &Self,
        font: FontId,
        t: Seq<char>,
        pos: Vec2i,
        color: Color4b,
        text: Seq<char>,
        a: int,
        b: int,
    )
        requires
            Self::wrapped_from(base, s),
            Self::only_pieces_since(base, s, text, font, color),
            base.container_stack@.len() > 0,
            cref_ok(base.cur()),
            base.containers@.len() == CONTAINER_COUNT,
            0 <= a <= b <= text.len(),
            text.len() <= usize::MAX,
            t == text.subrange(a, b),
            ({
                ||| *s2 == *s
                ||| exists|ws: Seq<usize>, h: usize| {
                    let w = #[trigger] spec_text_width(t, ws) as i32;
                    let hh = #[trigger] spec_text_height(t, h);
                    &&& ws.len() == t.len()
                    &&& rect_corner_fits(Recti { x: pos.x, y: pos.y, width: w, height: hh })
                    &&& Self::text_drawn(s, s2, s.clip(), font, t, pos, color, w, hh)
                }
            }),
        ensures
            Self::only_pieces_since(base, s2, text, font, color),
    {
        let c = base.cur().0 as int;
        if *s2 != *s {
            let (ws, h) = choose|ws: Seq<usize>, h: usize| {
                let w = #[trigger] spec_text_width(t, ws) as i32;
                let hh = #[trigger] spec_text_height(t, h);
                &&& ws.len() == t.len()
                &&& rect_corner_fits(Recti { x: pos.x, y: pos.y, width: w, height: hh })
                &&& Self::text_drawn(s, s2, s.clip(), font, t, pos, color, w, hh)
            };
            let w = spec_text_width(t, ws) as i32;
            let hh = spec_text_height(t, h);
            let rect = Recti { x: pos.x, y: pos.y, width: w, height: hh };
            assert(Self::text_drawn(s, s2, s.clip(), font, t, pos, color, w, hh));
            let scs = s.containers@[c].commands@;
            let ncs = s2.containers@[c].commands@;
            let buf = s.text_stack@;
            let nbuf = s2.text_stack@;
            let tc: Command<P> = text_cmd(font, pos, color, buf.len(), t.len());
            assert(ncs == scs + clipped_cmds(s.clip(), rect, tc));
            assert(buf.is_prefix_of(nbuf));
            assert forall|k: int| base.containers@[c].commands@.len() <= k < ncs.len()
                implies draws_piece_of(#[trigger] ncs[k], nbuf, text, font, color) by {
                if k < scs.len() {
                    assert(ncs[k] == scs[k]);
                    assert(draws_piece_of(scs[k], buf, text, font, color));
                    if let Command::Text { str_start, str_len, .. } = scs[k] {
                        let (a1, b1) = choose|a1: int, b1: int| 0 <= a1 <= b1 <= text.len()
                            && #[trigger] buf.subrange(str_start as int, str_start + str_len) == text.subrange(a1, b1);
                        assert(nbuf.subrange(str_start as int, str_start + str_len)
                            =~= buf.subrange(str_start as int, str_start + str_len));
                        assert(text.subrange(a1, b1) == nbuf.subrange(str_start as int, str_start + str_len));
                    }
                } else {
                    assert(spec_check_clip(s.clip(), rect) != Clip::All);
                    assert(buf.len() <= usize::MAX);
                    assert(nbuf == buf + t);
                    if ncs[k] is Text {
                        assert(ncs[k] == tc);
                        assert(nbuf.subrange(buf.len() as int, buf.len() as int + t.len() as int) =~= t);
                        assert(text.subrange(a, b) == nbuf.subrange(buf.len() as int, buf.len() as int + t.len() as int));
                    }
                }
            }
        }
    }

    /// Hands out the next cell of the current container, where that takes
    /// no overflowing coordinate; `None`, and nothing changed, otherwise.
    pub fn next_cell_checked(&mut self, style: &Style) -> (r: Option<Recti>)
        requires
            old(self).wf(),
            old(self).container_stack@.len() > 0,
            old(self).containers@[old(self).cur().0 as int].layouts().len() > 0,
        ensures
            final(self).wf(),
            match r {
                Some(cell) => {
                    &&& next_fits(old(self).containers@[old(self).cur().0 as int].layouts().last(), *style)
                    &&& Self::next_cell_taken(old(self), final(self), *style, cell)
                },
                None => {
                    &&& *final(self) == *old(self)
                    &&& !next_fits(old(self).containers@[old(self).cur().0 as int].layouts().last(), *style)
                },
            },
    {
        let i = self.get_current_container().0;
        if next_fits_exec(self.containers[i].layout(), style) {
            Some(self.next_cell(style))
        } else {
            None
        }
    }

    /// Draws `text` in a column of the current container, one line of cells
    /// per line of text: each line is cut after its spaces into words, and
    /// each word goes to the right of the one before in the cell; a word
    /// that would reach the right edge of the cell is dropped and the next
    /// cell is taken instead. Drawing stops where a cell would take an
    /// overflowing coordinate, and the column is closed where that does not
    /// overflow. `text_done` says all of it, step by step over the words and
    /// line ends that `text_tokens` lists.
    pub fn text(&mut self, style: &Style, text: &str)
        requires
            old(self).wf(),
            old(self).container_stack@.len() > 0,
            old(self).clip_stack@.len() > 0,
            rect_corner_fits(old(self).clip()),
            0 < old(self).containers@[old(self).cur().0 as int].layouts().len() < MAX_WIDTHS,
            next_fits(old(self).containers@[old(self).cur().0 as int].layouts().last(), *style),
        ensures
            final(self).wf(),
            Self::text_done(old(self), final(self), *style, text@),
            ({
                let c = old(self).cur().0 as int;
                let oc = old(self).containers@[c];
                let nc = final(self).containers@[c];
                let n = oc.layouts().len();
                let l = oc.layouts().last();
                let cell = next_cell_of(l, *style);
                &&& Self::same_state(old(self), final(self))
                &&& final(self).containers@.len() == old(self).containers@.len()
                &&& forall|i: int| 0 <= i < old(self).containers@.len() && i != c ==> {
                    &&& same_container(#[trigger] old(self).containers@[i], final(self).containers@[i])
                    &&& final(self).containers@[i].commands@ == old(self).containers@[i].commands@
                }
                &&& nc.rect == oc.rect
                &&& nc.body == oc.body
                &&& nc.scroll == oc.scroll
                &&& nc.zindex == oc.zindex
                &&& nc.open == oc.open
                &&& oc.commands@.is_prefix_of(nc.commands@)
                &&& old(self).text_stack@.is_prefix_of(final(self).text_stack@)
                &&& Self::only_pieces_since(old(self), final(self), text@, style.normal_font,
                    style.colors@[spec_color_index(ControlColor::Text) as int])
                &&& nc.layouts().len() == n ==> {
                    &&& nc.layouts() == oc.layouts().update(n - 1, nc.layouts()[n - 1])
                    &&& exists|b: Layout| b.body == cell
                        && nc.layouts()[n - 1] == merged_column(next_layout_of(l, *style), b)
                }
                &&& nc.layouts().len() != n ==> {
                    &&& nc.layouts().len() == n + 1
                    &&& nc.layouts().drop_last() == oc.layouts().update(n - 1, next_layout_of(l, *style))
                    &&& nc.layouts().last().body == cell
                    &&& !merge_fits(nc.layouts()[n - 1], nc.layouts()[n as int])
                }
            }),
    {
        let font = style.normal_font;
        let color = style.colors[ControlColor::Text.index()];
        let ghost c = old(self).cur().0 as int;
        let ghost l0 = old(self).containers@[c].layouts().last();
        let ghost cell = next_cell_of(l0, *style);
        let ghost tx = text@;
        let ghost all = text_tokens(tx, 0);
        self.begin_column(style);
        let ghost m1 = *self;
        let h = self.renderer.get_font_height(font) as i32;
        let widths: [i32; 1] = [-1];
        let row = widths.as_slice();
        self.row_config(row, h);
        let ghost mid = *self;
        proof {
            assert(row@ =~= seq![-1i32]);
            Self::lemma_wrapped_refl(&mid);
            assert(mid.containers@[c].layouts().last().body == cell);
            assert(Self::only_pieces_since(&mid, &mid, text@, font, color));
        }
        let ghost start = TextCursor { ctx: mid, r: Recti { x: 0, y: 0, width: 0, height: 0 }, rx: 0, done: false };
        let n = text.unicode_len();
        let mut pos: usize = 0;
        let mut done = false;
        let mut r = Recti::new(0, 0, 0, 0);
        match self.next_cell_checked(style) {
            Some(cell0) => {
                r = cell0;
                proof {
                    Self::lemma_wrapped_cell(&mid, &mid, self, *style, cell0);
                    Self::lemma_pieces_cell(&mid, &mid, self, *style, cell0, text@, font, color);
                }
            },
            None => {
                done = true;
            },
        }
        let ghost c0 = TextCursor { ctx: *self, r: r, rx: r.x, done: done };
        proof {
            if done {
                assert(c0 == TextCursor { done: true, ..start });
            }
            assert(Self::text_cell_moved(start, c0, *style));
            Self::lemma_steps_start(c0, *style, tx);
            if done {
                Self::lemma_steps_stopped(c0, Seq::empty(), all, c0, *style, tx);
                assert(Seq::<TextTok>::empty() + all =~= all);
            }
            assert(Seq::<TextTok>::empty() + text_tokens(tx, 0) =~= all);
        }
        let ghost mut cur = c0;
        let ghost mut seen: Seq<TextTok> = Seq::empty();
        while pos < n && !done
            invariant
                pos <= n,
                n == text@.len(),
                tx == text@,
                all == text_tokens(tx, 0),
                self.wf(),
                Self::wrapped_from(&mid, self),
                mid.container_stack@.len() > 0,
                cref_ok(mid.cur()),
                mid.cur().0 == c,
                mid.containers@.len() == CONTAINER_COUNT,
                mid.containers@[c].layouts().len() > 0,
                mid.clip_stack@.len() > 0,
                rect_corner_fits(mid.clip()),
                Self::only_pieces_since(&mid, self, text@, font, color),
                font == style.normal_font,
                color == style.colors@[spec_color_index(ControlColor::Text) as int],
                cur.ctx == *self,
                cur.r == r,
                cur.done == done,
                !done ==> cur.rx == r.x,
                Self::text_steps(c0, seen, cur, *style, tx),
                !done ==> seen + text_tokens(tx, pos as int) == all,
                done ==> Self::text_steps(c0, all, cur, *style, tx),
            decreases n - pos,
        {
            let mut e = pos;
            while e < n && text.get_char(e) != '\n'
                invariant
                    pos <= e <= n,
                    n == text@.len(),
                    tx == text@,
                    line_end_at(tx, e as int) == line_end_at(tx, pos as int),
                decreases n - e,
            {
                e += 1;
            }
            let mut le = e;
            if le > pos && text.get_char(le - 1) == '\r' {
                le -= 1;
            }
            let ghost next: int = if e < n { e + 1 } else { n as int };
            proof {
                assert(line_end_at(tx, e as int) == e);
                assert(le == line_stop_at(tx, pos as int, e as int));
                assert(text_tokens(tx, pos as int)
                    == line_words(tx, pos as int, le as int) + seq![TextTok::LineEnd] + text_tokens(tx, next));
            }
            let mut rx: i32 = r.x;
            let mut ws = pos;
            while ws < le && !done
                invariant
                    pos <= ws <= le <= e <= n,
                    n == text@.len(),
                    tx == text@,
                    all == text_tokens(tx, 0),
                    self.wf(),
                    Self::wrapped_from(&mid, self),
                    mid.container_stack@.len() > 0,
                    cref_ok(mid.cur()),
                    mid.cur().0 == c,
                    mid.containers@.len() == CONTAINER_COUNT,
                    mid.containers@[c].layouts().len() > 0,
                    mid.clip_stack@.len() > 0,
                    rect_corner_fits(mid.clip()),
                    Self::only_pieces_since(&mid, self, text@, font, color),
                    font == style.normal_font,
                    color == style.colors@[spec_color_index(ControlColor::Text) as int],
                    cur.ctx == *self,
                    cur.r == r,
                    cur.done == done,
                    cur.rx == rx,
                    Self::text_steps(c0, seen, cur, *style, tx),
                    !done ==> seen + (line_words(tx, ws as int, le as int) + seq![TextTok::LineEnd] + text_tokens(tx, next)) == all,
                    done ==> Self::text_steps(c0, all, cur, *style, tx),
                decreases le - ws,
            {
                let mut we = ws;
                while we < le && text.get_char(we) != ' '
                    invariant
                        ws <= we <= le <= n,
                        n == text@.len(),
                        tx == text@,
                        space_at(tx, we as int, le as int) == space_at(tx, ws as int, le as int),
                    decreases le - we,
                {
                    we += 1;
                }
                proof {
                    assert(space_at(tx, we as int, le as int) == we);
                }
                if we < le {
                    we += 1;
                }
                let ghost rest = line_words(tx, we as int, le as int) + seq![TextTok::LineEnd] + text_tokens(tx, next);
                let ghost tok = TextTok::Word { start: ws, end: we };
                proof {
                    assert(we == word_end_at(tx, ws as int, le as int));
                    assert(line_words(tx, ws as int, le as int) == seq![tok] + line_words(tx, we as int, le as int));
                    assert(seen + (line_words(tx, ws as int, le as int) + seq![TextTok::LineEnd] + text_tokens(tx, next))
                        =~= seen.push(tok) + rest);
                }
                let ghost before = cur;
                let w = text.substring_char(ws, we);
                let tw = self.get_text_width(font, w);
                let ghost wid = choose|wid: Seq<usize>| wid.len() == w@.len() && tw == #[trigger] spec_text_width(w@, wid) as i32;
                let sum = tw as i64 + rx as i64;
                if sum < r.x as i64 + r.width as i64 && i32::MIN as i64 <= sum && sum <= i32::MAX as i64 {
                    let ghost s0 = *self;
                    let at = vec2(rx, r.y);
                    self.draw_text(font, w, at, color);
                    proof {
                        Self::lemma_wrapped_text(&mid, &s0, self, font, w@, at, color);
                        Self::lemma_pieces_text(&mid, &s0, self, font, w@, at, color, text@, ws as int, we as int);
                    }
                    rx = sum as i32;
                    proof {
                        cur = TextCursor { ctx: *self, r: r, rx: rx, done: false };
                        assert(spec_text_width(tx.subrange(ws as int, we as int), wid) as i32 == tw);
                        assert(Self::text_word_step(before, cur, *style, tx, ws as int, we as int));
                    }
                } else {
                    let ghost s0 = *self;
                    match self.next_cell_checked(style) {
                        Some(next_r) => {
                            proof {
                                Self::lemma_wrapped_cell(&mid, &s0, self, *style, next_r);
                                Self::lemma_pieces_cell(&mid, &s0, self, *style, next_r, text@, font, color);
                            }
                            r = next_r;
                            rx = r.x;
                        },
                        None => {
                            done = true;
                        },
                    }
                    proof {
                        cur = TextCursor { ctx: *self, r: r, rx: rx, done: done };
                        assert(Self::text_cell_moved(before, cur, *style));
                        assert(spec_text_width(tx.subrange(ws as int, we as int), wid) as i32 == tw);
                        assert(Self::text_word_step(before, cur, *style, tx, ws as int, we as int));
                    }
                }
                proof {
                    assert(Self::text_step(before, tok, cur, *style, tx));
                    Self::lemma_steps_push(c0, seen, before, tok, cur, *style, tx);
                    seen = seen.push(tok);
                    if done {
                        Self::lemma_steps_stopped(c0, seen, rest, cur, *style, tx);
                    }
                }
                ws = we;
            }
            if !done {
                proof {
                    assert(line_words(tx, ws as int, le as int) =~= Seq::<TextTok>::empty());
                    assert(seen + (line_words(tx, ws as int, le as int) + seq![TextTok::LineEnd] + text_tokens(tx, next))
                        =~= seen.push(TextTok::LineEnd) + text_tokens(tx, next));
                }
                let ghost before = cur;
                let ghost s0 = *self;
                match self.next_cell_checked(style) {
                    Some(next_r) => {
                        proof {
                            Self::lemma_wrapped_cell(&mid, &s0, self, *style, next_r);
                            Self::lemma_pieces_cell(&mid, &s0, self, *style, next_r, text@, font, color);
                        }
                        r = next_r;
                    },
                    None => {
                        done = true;
                    },
                }
                proof {
                    cur = TextCursor { ctx: *self, r: r, rx: if done { before.rx } else { r.x }, done: done };
                    assert(Self::text_cell_moved(before, cur, *style));
                    assert(Self::text_step(before, TextTok::LineEnd, cur, *style, tx));
                    Self::lemma_steps_push(c0, seen, before, TextTok::LineEnd, cur, *style, tx);
                    seen = seen.push(TextTok::LineEnd);
                    if done {
                        Self::lemma_steps_stopped(c0, seen, text_tokens(tx, next), cur, *style, tx);
                    }
                }
            }
            pos = if e < n { e + 1 } else { n };
        }
        proof {
            if !done {
                assert(text_tokens(tx, pos as int) =~= Seq::<TextTok>::empty());
                assert(seen + text_tokens(tx, pos as int) =~= seen);
            }
            assert(Self::text_steps(c0, all, cur, *style, tx));
            assert(Self::text_flowed(&mid, *style, tx, cur));
        }
        let i = self.get_current_container().0;
        let ghost s_end = *self;
        let ghost n0 = old(self).containers@[c].layouts().len();
        proof {
            assert(mid.containers@[c].layouts().drop_last()
                == old(self).containers@[c].layouts().update(n0 - 1, next_layout_of(l0, *style)));
            assert(s_end.containers@[c].layouts().drop_last() == mid.containers@[c].layouts().drop_last());
            assert(s_end.containers@[c].layouts().len() == n0 + 1);
            assert(s_end.containers@[c].layouts().drop_last()[n0 - 1] == s_end.containers@[c].layouts()[n0 - 1]);
            assert(old(self).containers@[c].layouts().update(n0 - 1, next_layout_of(l0, *style))[n0 - 1]
                == next_layout_of(l0, *style));
            assert(s_end.containers@[c].layouts()[n0 - 1] == next_layout_of(l0, *style));
            assert(s_end.containers@[c].layouts().last().body == cell);
            assert(old(self).containers@[c].commands@ == mid.containers@[c].commands@);
            assert(old(self).text_stack@ == mid.text_stack@);
            assert forall|k: int| 0 <= k < old(self).containers@.len() && k != c implies {
                &&& same_container(#[trigger] old(self).containers@[k], mid.containers@[k])
                &&& mid.containers@[k].commands@ == old(self).containers@[k].commands@
            } by {
                assert(mid.containers@[k] == old(self).containers@[k]);
            }
        }
        if self.containers[i].layout_stack.column_merge_fits() {
            self.end_column();
            proof {
                let sl = s_end.containers@[c].layouts();
                let b = sl[n0 as int];
                let fl = self.containers@[c].layouts();
                assert(fl[n0 - 1] == merged_column(next_layout_of(l0, *style), b));
                assert(fl =~= old(self).containers@[c].layouts().update(n0 - 1, fl[n0 - 1]));
                assert(b.body == cell);
                assert forall|k: int| 0 <= k < old(self).containers@.len() && k != c implies {
                    &&& same_container(#[trigger] old(self).containers@[k], self.containers@[k])
                    &&& self.containers@[k].commands@ == old(self).containers@[k].commands@
                } by {
                    assert(self.containers@[k] == s_end.containers@[k]);
                    assert(same_container(mid.containers@[k], s_end.containers@[k]));
                }
            }
        } else {
            proof {
                assert forall|k: int| 0 <= k < old(self).containers@.len() && k != c implies {
                    &&& same_container(#[trigger] old(self).containers@[k], self.containers@[k])
                    &&& self.containers@[k].commands@ == old(self).containers@[k].commands@
                } by {
                    assert(same_container(mid.containers@[k], s_end.containers@[k]));
                }
            }
        }
        proof {
            assert(s_end == cur.ctx);
            assert(Self::column_closed(&s_end, self));
            assert(Self::text_stages(old(self), &m1, &mid, cur, self, *style, tx, h));
        }
    }
}


/// `c` sets the clip rectangle, or draws in `font` and `color` a piece of
/// `text` that lies in the text buffer `buf`.
pub open spec fn draws_piece_of<P>(c: Command<P>, buf: Seq<char>, text: Seq<char>, font: FontId, color: Color4b) -> bool {
    match c {
        Command::Clip { .. } => true,
        Command::Text { font: f, color: col, str_start, str_len, .. } => {
            &&& f == font
            &&& col == color
            &&& str_start + str_len <= buf.len()
            &&& exists|a: int, b: int| 0 <= a <= b <= text.len()
                && #[trigger] buf.subrange(str_start as int, str_start + str_len) == text.subrange(a, b)
        },
        _ => false,
    }
}

/// What the number text box of a control does this frame.
#[derive(Clone, Copy, Debug, PartialEq, Eq, Structural)]
pub enum NumberEdit {
    /// The control's value is not being edited as text.
    Idle,
    /// Its text is being edited.
    Editing,
    /// Its text was submitted or lost the focus: the caller reads the value
    /// back from `number_edit_buf` and, where that succeeds, ends the edit.
    Done,
}

impl<P, R: RendererBackEnd<P>> Context<P, R> {
    /// `new` is `old` once a shift-click on the hovered control `id` starts
    /// editing its value as the text `text`; nothing changes otherwise.
    pub open spec fn number_edit_started(old: &Self, new: &Self, id: Id, text: Seq<char>) -> bool {
        if old.mouse_pressed@ & 1 != 0 && old.key_down@ & 1 != 0 && old.hover == Some(id) {
            &&& new.number_edit_buf@ == text
            &&& *new == Context { number_edit: Some(id), number_edit_buf: new.number_edit_buf, ..*old }
        } else {
            *new == *old
        }
    }

    /// Starts editing the value of the control `id`, written as `text`,
    /// where it is shift-clicked while hovered.
    pub fn start_number_edit(&mut self, id: Id, text: &str)
        ensures
            Self::number_edit_started(old(self), final(self), id, text@),
    {
        if self.mouse_pressed.is_left() && self.key_down.is_shift() && self.hover == Some(id) {
            self.number_edit = Some(id);
            string_clear(&mut self.number_edit_buf);
            string_push_str(&mut self.number_edit_buf, text);
            assert(self.number_edit_buf@ =~= text@);
        }
    }

    /// Runs the text box of the control `id` in `r` over the edited text,
    /// where that control is being edited: `Done` once the text is submitted
    /// or the box loses the focus, `Editing` before; `Idle`, and nothing
    /// changed, for any other control.
    pub fn number_edit_step(&mut self, style: &Style, r: Recti, id: Id) -> (res: NumberEdit)
        requires
            old(self).wf(),
            old(self).container_stack@.len() > 0,
            old(self).clip_stack@.len() > 0,
            rect_corner_fits(r),
            rect_corner_fits(old(self).clip()),
            frame_fits(r),
        ensures
            final(self).wf(),
            old(self).number_edit != Some(id) ==> res == NumberEdit::Idle && *final(self) == *old(self),
            old(self).number_edit == Some(id) ==> exists|m: Self, t: ResourceState| {
                &&& #[trigger] Self::textbox_done(old(self), &m, *style, old(self).number_edit_buf@,
                    final(self).number_edit_buf@, id, r, WidgetOption::spec_none(), t)
                &&& *final(self) == Context { number_edit_buf: final(self).number_edit_buf, ..m }
                &&& res == (if t@ & 2 != 0 || m.focus != Some(id) { NumberEdit::Done } else { NumberEdit::Editing })
            },
    {
        if self.number_edit != Some(id) {
            return NumberEdit::Idle;
        }
        let mut temp = self.number_edit_buf.clone();
        let none = WidgetOption::NONE();
        proof {
            WidgetOption::lemma_spec_none(none);
        }
        let t = self.textbox_raw(style, &mut temp, id, r, none);
        let ghost m = *self;
        let done = t.is_submitted() || self.focus != Some(id);
        self.number_edit_buf = temp;
        proof {
            assert(Self::textbox_done(old(self), &m, *style, old(self).number_edit_buf@,
                self.number_edit_buf@, id, r, WidgetOption::spec_none(), t));
        }
        if done { NumberEdit::Done } else { NumberEdit::Editing }
    }
}

} // verus!
