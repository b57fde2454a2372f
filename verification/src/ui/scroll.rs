//! Scroll bars and container bodies.

use vstd::prelude::*;
use crate::geometry::{Vec2i, Recti, clamp_i, div_trunc, rect_corner_fits, spec_intersect, expand_rect, spec_expand_rect};
use crate::ui::flags::WidgetOption;
use crate::ui::style::Style;
use crate::ui::layout::{in_i32, is_fresh_layout, MAX_WIDTHS};
use crate::ui::pool::{Id, ContRef, id_of_hash, spec_hash_seq, spec_char_codes};
use crate::ui::context::{
    Context, Container, RendererBackEnd, ControlColor, Command, CONTAINER_COUNT, command_text_ok, cref_ok, frame_cmds,
    frame_fits, id_base, update_control_spec, same_container,
};

verus! {

/// The scroll offset after a frame: moved by a drag of `delta` pixels on a
/// track of `track` pixels showing `content` pixels, then kept in `[0, maxscroll]`.
pub open spec fn scroll_after(scroll: int, dragged: bool, delta: int, content: int, track: int, maxscroll: int) -> int {
    clamp_i(if dragged { scroll + div_trunc(delta * content, track) } else { scroll }, 0, maxscroll)
}

/// The length of a scroll bar's thumb: the share of the track that the view
/// takes of the content, but no shorter than `thumb_size`.
pub open spec fn thumb_extent(thumb_size: int, track: int, view: int, content: int) -> int {
    let t = div_trunc(track * view, content);
    if thumb_size > t { thumb_size } else { t }
}

/// The thumb of a bar with geometry `g` at the scroll offset `s`: placed
/// along the track in proportion to the offset.
pub open spec fn thumb_rect(style: Style, vertical: bool, g: BarGeometry, s: int) -> Recti {
    let t = thumb_extent(style.thumb_size as int, g.track, g.view, g.content);
    let off = div_trunc(s * (g.track - t), g.maxscroll);
    if vertical {
        Recti { y: (g.base.y + off) as i32, height: t as i32, ..g.base }
    } else {
        Recti { x: (g.base.x + off) as i32, width: t as i32, ..g.base }
    }
}

/// The scroll offset after a frame, as `scroll_after` gives it.
fn next_scroll(scroll: i32, dragged: bool, delta: i32, content: i32, track: i32, maxscroll: i32) -> (r: i32)
    requires
        track > 0,
        maxscroll > 0,
        dragged ==> in_i32(delta * content) && in_i32(scroll + div_trunc(delta * content, track as int)),
    ensures
        r == scroll_after(scroll as int, dragged, delta as int, content as int, track as int, maxscroll as int),
{
    let mut s = scroll;
    if dragged {
        s = s + delta * content / track;
    }
    if s < 0 {
        0
    } else if s > maxscroll {
        maxscroll
    } else {
        s
    }
}

/// The thumb of a bar, as `thumb_rect` gives it.
fn thumb_of(style: &Style, vertical: bool, base: Recti, view: i32, content: i32, maxscroll: i32, s: i32) -> (r: Recti)
    requires
        content > 0,
        maxscroll > 0,
        in_i32(view * view),
        ({
            let t = thumb_extent(style.thumb_size as int, view as int, view as int, content as int);
            &&& in_i32(view - t)
            &&& in_i32(s * (view - t))
            &&& in_i32((if vertical { base.y } else { base.x }) + div_trunc(s * (view - t), maxscroll as int))
        }),
    ensures
        r == thumb_rect(*style, vertical, BarGeometry { base, maxscroll: maxscroll as int, track: view as int, view: view as int, content: content as int }, s as int),
{
    let t0 = view * view / content;
    let t = if style.thumb_size > t0 { style.thumb_size } else { t0 };
    let mut thumb = base;
    if vertical {
        thumb.height = t;
        thumb.y = thumb.y + s * (view - t) / maxscroll;
    } else {
        thumb.width = t;
        thumb.x = thumb.x + s * (view - t) / maxscroll;
    }
    thumb
}

/// The id of the control named `name` under the innermost id of `ids`.
pub open spec fn named_id(ids: Seq<Id>, name: Seq<char>) -> Id {
    id_of_hash(spec_hash_seq(id_base(ids), spec_char_codes(name)))
}

/// The geometry of one scroll bar: where its track lies, how far it can
/// scroll, and the extents that its thumb is computed from.
pub struct BarGeometry {
    pub base: Recti,
    pub maxscroll: int,
    pub track: int,
    pub view: int,
    pub content: int,
}

/// The vertical bar of a body `body` showing `cs`: to the right of the body,
/// as tall as it.
pub open spec fn vbar_geometry(style: Style, body: Recti, cs: Vec2i) -> BarGeometry {
    BarGeometry {
        base: Recti { x: (body.x + body.width) as i32, y: body.y, width: style.scrollbar_size, height: body.height },
        maxscroll: cs.y - body.height,
        track: body.height as int,
        view: body.height as int,
        content: cs.y as int,
    }
}

/// The horizontal bar of a body `body` showing `cs`: below the body, as
/// wide as it.
pub open spec fn hbar_geometry(style: Style, body: Recti, cs: Vec2i) -> BarGeometry {
    BarGeometry {
        base: Recti { x: body.x, y: (body.y + body.height) as i32, width: body.width, height: style.scrollbar_size },
        maxscroll: cs.x - body.width,
        track: body.width as int,
        view: body.width as int,
        content: cs.x as int,
    }
}

/// The content extent with padding on both sides.
pub open spec fn padded_content(cs: Vec2i, style: Style) -> Vec2i {
    Vec2i { x: (cs.x + style.padding * 2) as i32, y: (cs.y + style.padding * 2) as i32 }
}

/// The body left once the scroll bars take their room: a bar is made room
/// for when the padded content `cs` exceeds the container's last body `cbody`.
pub open spec fn shrunk_body(body: Recti, cbody: Recti, cs: Vec2i, sz: int) -> Recti {
    Recti {
        width: if cs.y > cbody.height { (body.width - sz) as i32 } else { body.width },
        height: if cs.x > cbody.width { (body.height - sz) as i32 } else { body.height },
        ..body
    }
}

impl<P, R: RendererBackEnd<P>> Context<P, R> {
    /// Whether the mouse is over `rect`, inside `clip`, in the hover root.
    pub open spec fn mouse_over_in(&self, rect: Recti, clip: Recti) -> bool {
        &&& crate::geometry::spec_rect_overlaps(rect, self.mouse_pos)
        &&& crate::geometry::spec_rect_overlaps(clip, self.mouse_pos)
        &&& self.hover_root matches Some(h) && self.container_stack@.contains(h)
    }

    /// Hover, focus and the focus flag after `update_control` for the bar
    /// `id` with the track `base`, under `clip`.
    pub open spec fn bar_control(&self, id: Id, base: Recti, clip: Recti) -> (Option<Id>, Option<Id>, bool) {
        update_control_spec(self.hover, self.focus, self.updated_focus, id, self.mouse_over_in(base, clip),
            self.mouse_down@ == 0, self.mouse_pressed@ == 0, false, false)
    }

    /// Whether the bar `id` is dragged this frame: it has the focus after
    /// its update and the left button is down.
    pub open spec fn bar_dragged(&self, id: Id, base: Recti, clip: Recti) -> bool {
        self.bar_control(id, base, clip).1 == Some(id) && self.mouse_down@ & 1 != 0
    }

    /// The scroll offset along the bar, before it moves.
    pub open spec fn bar_scroll(&self, vertical: bool) -> int {
        let c = self.containers@[self.cur().0 as int];
        if vertical { c.scroll.y as int } else { c.scroll.x as int }
    }

    /// The mouse motion along the bar.
    pub open spec fn bar_delta(&self, vertical: bool) -> int {
        if vertical { self.mouse_delta.y as int } else { self.mouse_delta.x as int }
    }

    /// The new scroll offset along the bar.
    pub open spec fn bar_new_scroll(&self, vertical: bool, g: BarGeometry, id: Id, clip: Recti) -> int {
        scroll_after(self.bar_scroll(vertical), self.bar_dragged(id, g.base, clip), self.bar_delta(vertical),
            g.content, g.track, g.maxscroll)
    }

    /// The thumb of the bar, placed along the track by the new scroll offset.
    pub open spec fn bar_thumb(&self, style: Style, vertical: bool, g: BarGeometry, id: Id, clip: Recti) -> Recti {
        thumb_rect(style, vertical, g, self.bar_new_scroll(vertical, g, id, clip))
    }

    /// A bar is shown when there is something to scroll and room to show it.
    pub open spec fn bar_shown(g: BarGeometry) -> bool {
        g.maxscroll > 0 && g.view > 0
    }

    /// Every step of a bar runs without overflow.
    pub open spec fn bar_fits(&self, style: Style, vertical: bool, body: Recti, g: BarGeometry, id: Id, clip: Recti) -> bool {
        let t = thumb_extent(style.thumb_size as int, g.track, g.view, g.content);
        let s = self.bar_new_scroll(vertical, g, id, clip);
        &&& in_i32(g.maxscroll)
        &&& rect_corner_fits(body)
        &&& rect_corner_fits(clip)
        &&& (Self::bar_shown(g) ==> {
            &&& (if vertical { in_i32(body.x + body.width) } else { in_i32(body.y + body.height) })
            &&& rect_corner_fits(g.base)
            &&& frame_fits(g.base)
            &&& (self.bar_dragged(id, g.base, clip) ==> {
                &&& in_i32(self.bar_delta(vertical) * g.content)
                &&& in_i32(self.bar_scroll(vertical) + div_trunc(self.bar_delta(vertical) * g.content, g.track))
            })
            &&& in_i32(g.track * g.view)
            &&& in_i32(g.track - t)
            &&& in_i32(s * (g.track - t))
            &&& in_i32((if vertical { g.base.y } else { g.base.x }) + div_trunc(s * (g.track - t), g.maxscroll))
            &&& rect_corner_fits(self.bar_thumb(style, vertical, g, id, clip))
            &&& frame_fits(self.bar_thumb(style, vertical, g, id, clip))
        })
    }

    /// `new` is `old` after the shown scroll bar along one axis of the
    /// current container, drawn under `clip`: it takes its id, updates hover
    /// and focus, moves the scroll offset, draws its track and thumb, and
    /// makes the container the scroll target when the mouse is over the body.
    pub open spec fn bar_shown_done(
        old: &Self,
        new: &Self,
        style: Style,
        vertical: bool,
        body: Recti,
        g: BarGeometry,
        id: Id,
        clip: Recti,
    ) -> bool {
        let c = old.cur().0 as int;
        let oc = old.containers@[c];
        let nc = new.containers@[c];
        let s = old.bar_new_scroll(vertical, g, id, clip) as i32;
        let (h, f, u) = old.bar_control(id, g.base, clip);
        &&& id == named_id(old.id_stack@, if vertical { "!scrollbary"@ } else { "!scrollbarx"@ })
        &&& same_container(Container {
            scroll: if vertical { Vec2i { y: s, ..oc.scroll } } else { Vec2i { x: s, ..oc.scroll } },
            ..oc
        }, nc)
        &&& nc.commands@ == oc.commands@ + frame_cmds(clip, style, g.base, ControlColor::ScrollBase)
            + frame_cmds(clip, style, old.bar_thumb(style, vertical, g, id, clip), ControlColor::ScrollThumb)
        &&& Self::same_state_but_clip(&Context {
            last_id: Some(id),
            hover: h,
            focus: f,
            updated_focus: u,
            scroll_target: if old.mouse_over_in(body, clip) { Some(ContRef(c as usize)) } else { old.scroll_target },
            ..*old
        }, new)
    }

    /// `new` is `old` after the scroll bar along one axis of the current
    /// container, drawn under `clip`: shown, as `bar_shown_done` says; not
    /// shown, the scroll offset along it goes back to zero.
    pub open spec fn bar_done(
        old: &Self,
        new: &Self,
        style: Style,
        vertical: bool,
        body: Recti,
        g: BarGeometry,
        id: Id,
        clip: Recti,
    ) -> bool {
        let c = old.cur().0 as int;
        let oc = old.containers@[c];
        let nc = new.containers@[c];
        &&& new.containers@.len() == old.containers@.len()
        &&& forall|i: int| 0 <= i < old.containers@.len() && i != c ==> {
            &&& same_container(old.containers@[i], #[trigger] new.containers@[i])
            &&& new.containers@[i].commands@ == old.containers@[i].commands@
        }
        &&& new.text_stack@ == old.text_stack@
        &&& if Self::bar_shown(g) {
            Self::bar_shown_done(old, new, style, vertical, body, g, id, clip)
        } else {
            &&& same_container(Container {
                scroll: if vertical { Vec2i { y: 0, ..oc.scroll } } else { Vec2i { x: 0, ..oc.scroll } },
                ..oc
            }, nc)
            &&& nc.commands@ == oc.commands@
            &&& Self::same_state_but_clip(old, new)
        }
    }

    /// Dragging a scroll bar scrolls the content. While the shown bar holds
    /// the focus and the left button stays down (and no button is pressed
    /// anew), the scroll offset along it becomes the old offset plus the drag
    /// times the content over the track (the quotient rounded toward zero),
    /// kept in `[0, maxscroll]`. So a drag toward the end over content longer
    /// than its track, from an offset short of the end, scrolls forward, and
    /// a drag back from an offset past the start scrolls back.
    pub proof fn lemma_drag_scrolls(old: &Self, new: &Self, style: Style, vertical: bool, body: Recti, g: BarGeometry, id: Id, clip: Recti)
        requires
            Self::bar_done(old, new, style, vertical, body, g, id, clip),
            g.maxscroll > 0,
            g.view > 0,
            g.track > 0,
            g.maxscroll <= i32::MAX,
            old.focus == Some(id),
            old.mouse_down@ & 1 != 0,
            old.mouse_pressed@ == 0,
        ensures
            ({
                let c = old.cur().0 as int;
                let s0: int = if vertical { old.containers@[c].scroll.y as int } else { old.containers@[c].scroll.x as int };
                let s1: int = if vertical { new.containers@[c].scroll.y as int } else { new.containers@[c].scroll.x as int };
                let d: int = if vertical { old.mouse_delta.y as int } else { old.mouse_delta.x as int };
                &&& s1 == clamp_i(s0 + div_trunc(d * g.content, g.track), 0, g.maxscroll)
                &&& 0 <= s1 <= g.maxscroll
                &&& (d > 0 && g.content >= g.track && 0 <= s0 < g.maxscroll ==> s1 > s0)
                &&& (d < 0 && g.content >= g.track && 0 < s0 <= g.maxscroll ==> s1 < s0)
            }),
    {
        let c = old.cur().0 as int;
        let v = old.mouse_down@;
        assert(v & 1 != 0 ==> v != 0) by (bit_vector);
        assert(old.bar_control(id, g.base, clip).1 == Some(id));
        assert(old.bar_dragged(id, g.base, clip));
        let s0: int = old.bar_scroll(vertical);
        let d: int = old.bar_delta(vertical);
        let q = div_trunc(d * g.content, g.track);
        let t = g.track;
        let ct = g.content;
        if d > 0 && ct >= t {
            assert(d * ct >= ct) by (nonlinear_arith)
                requires
                    d > 0,
                    ct >= t,
                    t > 0,
            ;
            assert((d * ct) / t >= 1) by (nonlinear_arith)
                requires
                    d * ct >= t,
                    t > 0,
            ;
        }
        if d < 0 && ct >= t {
            assert((-d) * ct >= ct) by (nonlinear_arith)
                requires
                    d < 0,
                    ct >= t,
                    t > 0,
            ;
            assert(((-d) * ct) / t >= 1) by (nonlinear_arith)
                requires
                    (-d) * ct >= t,
                    t > 0,
            ;
            assert(-(d * ct) == (-d) * ct) by (nonlinear_arith);
        }
    }

    /// Sets the scroll offset of container `c` along one axis.
    fn set_scroll_along(&mut self, c: usize, vertical: bool, v: i32)
        requires
            old(self).wf(),
            c < CONTAINER_COUNT,
        ensures
            final(self).wf(),
            final(self).containers@ == old(self).containers@.update(c as int, Container {
                scroll: if vertical {
                    Vec2i { y: v, ..old(self).containers@[c as int].scroll }
                } else {
                    Vec2i { x: v, ..old(self).containers@[c as int].scroll }
                },
                ..old(self).containers@[c as int]
            }),
            *final(self) == (Context { containers: final(self).containers, ..*old(self) }),
    {
        if vertical {
            self.containers[c].scroll.y = v;
        } else {
            self.containers[c].scroll.x = v;
        }
        proof {
            assert forall|k: int, j: int| 0 <= k < CONTAINER_COUNT && 0 <= j < self.containers@[k].commands@.len()
                implies command_text_ok(#[trigger] self.containers@[k].commands@[j], self.text_stack@.len()) by {
                assert(self.containers@[k].commands@ == old(self).containers@[k].commands@);
            }
        }
    }

    /// The shown scroll bar along one axis of the current container.
    #[verifier::rlimit(30)]
    fn scrollbar_shown(&mut self, style: &Style, vertical: bool, body: Recti, cs: Vec2i)
        requires
            old(self).wf(),
            old(self).container_stack@.len() > 0,
            old(self).clip_stack@.len() > 0,
            ({
                let g = if vertical { vbar_geometry(*style, body, cs) } else { hbar_geometry(*style, body, cs) };
                let id = named_id(old(self).id_stack@, if vertical { "!scrollbary"@ } else { "!scrollbarx"@ });
                &&& Self::bar_shown(g)
                &&& old(self).bar_fits(*style, vertical, body, g, id, old(self).clip())
            }),
        ensures
            final(self).wf(),
            final(self).clip_stack@ == old(self).clip_stack@,
            ({
                let g = if vertical { vbar_geometry(*style, body, cs) } else { hbar_geometry(*style, body, cs) };
                let id = named_id(old(self).id_stack@, if vertical { "!scrollbary"@ } else { "!scrollbarx"@ });
                Self::bar_done(old(self), final(self), *style, vertical, body, g, id, old(self).clip())
            }),
    {
        let cnt = self.get_current_container();
        let c = cnt.0;
        let ghost s0 = *self;
        let ghost g = if vertical { vbar_geometry(*style, body, cs) } else { hbar_geometry(*style, body, cs) };
        let ghost gid = named_id(s0.id_stack@, if vertical { "!scrollbary"@ } else { "!scrollbarx"@ });
        let ghost clip = s0.clip();
        let maxscroll = if vertical { cs.y - body.height } else { cs.x - body.width };
        let view = if vertical { body.height } else { body.width };
        let content = if vertical { cs.y } else { cs.x };
        let id = self.get_id_from_str(if vertical { "!scrollbary" } else { "!scrollbarx" });
        proof {
            crate::ui::pool::lemma_id_of_hash(id);
        }
        let mut base = body;
        if vertical {
            base.x = body.x + body.width;
            base.width = style.scrollbar_size;
        } else {
            base.y = body.y + body.height;
            base.height = style.scrollbar_size;
        }
        assert(base == g.base);
        let ghost s1 = *self;
        let none = WidgetOption::NONE();
        proof {
            assert(0u32 & 4u32 == 0) by (bit_vector);
            assert(0u32 & 256u32 == 0) by (bit_vector);
        }
        self.update_control(id, base, none);
        let scroll0 = if vertical { self.containers[c].scroll.y } else { self.containers[c].scroll.x };
        let delta = if vertical { self.mouse_delta.y } else { self.mouse_delta.x };
        let dragged = self.focus == Some(id) && self.mouse_down.is_left();
        proof {
            assert(id == gid);
            assert(s1.spec_mouse_over(base) == s0.mouse_over_in(g.base, clip));
            assert(dragged == s0.bar_dragged(id, g.base, clip));
            assert(scroll0 == s0.bar_scroll(vertical));
            assert(delta == s0.bar_delta(vertical));
        }
        let scroll = next_scroll(scroll0, dragged, delta, content, view, maxscroll);
        self.set_scroll_along(c, vertical, scroll);
        let ghost s2 = *self;
        self.draw_frame(style, base, ControlColor::ScrollBase);
        let thumb = thumb_of(style, vertical, base, view, content, maxscroll, scroll);
        let ghost s3 = *self;
        self.draw_frame(style, thumb, ControlColor::ScrollThumb);
        proof {
            Self::lemma_appended_trans(&s2, &s3, self, cnt,
                frame_cmds(clip, *style, base, ControlColor::ScrollBase),
                frame_cmds(clip, *style, thumb, ControlColor::ScrollThumb));
        }
        if self.mouse_over(body) {
            self.scroll_target = Some(cnt);
        }
    }

    /// The scroll bar along one axis of the current container, whose body is
    /// `body` and whose content with its padding is `cs`.
    fn scrollbar(&mut self, style: &Style, vertical: bool, body: Recti, cs: Vec2i)
        requires
            old(self).wf(),
            old(self).container_stack@.len() > 0,
            old(self).clip_stack@.len() > 0,
            ({
                let g = if vertical { vbar_geometry(*style, body, cs) } else { hbar_geometry(*style, body, cs) };
                let id = named_id(old(self).id_stack@, if vertical { "!scrollbary"@ } else { "!scrollbarx"@ });
                old(self).bar_fits(*style, vertical, body, g, id, old(self).clip())
            }),
        ensures
            final(self).wf(),
            final(self).clip_stack@ == old(self).clip_stack@,
            ({
                let g = if vertical { vbar_geometry(*style, body, cs) } else { hbar_geometry(*style, body, cs) };
                let id = named_id(old(self).id_stack@, if vertical { "!scrollbary"@ } else { "!scrollbarx"@ });
                Self::bar_done(old(self), final(self), *style, vertical, body, g, id, old(self).clip())
            }),
    {
        let maxscroll = if vertical { cs.y - body.height } else { cs.x - body.width };
        let view = if vertical { body.height } else { body.width };
        if maxscroll > 0 && view > 0 {
            self.scrollbar_shown(style, vertical, body, cs);
        } else {
            let c = self.get_current_container().0;
            self.set_scroll_along(c, vertical, 0);
        }
    }

    /// The padded content of the current container.
    pub open spec fn cur_padded_content(&self, style: Style) -> Vec2i {
        padded_content(self.containers@[self.cur().0 as int].content_size, style)
    }

    /// The body of the current container once its bars take their room.
    pub open spec fn cur_shrunk_body(&self, style: Style, body: Recti) -> Recti {
        shrunk_body(body, self.containers@[self.cur().0 as int].body, self.cur_padded_content(style),
            style.scrollbar_size as int)
    }

    /// `new` and `nbody` are `old` and `body` after the scroll bars of the
    /// current container: nothing where the body lies outside the clip
    /// rectangle; else the body makes room for the bars, then the vertical
    /// bar and the horizontal bar run under the body's clip rectangle.
    pub open spec fn scrollbars_done(old: &Self, new: &Self, style: Style, body: Recti, nbody: Recti) -> bool {
        match spec_intersect(body, old.clip()) {
            None => *new == *old && nbody == body,
            Some(isect) => {
                let cs = old.cur_padded_content(style);
                let b = old.cur_shrunk_body(style, body);
                &&& nbody == b
                &&& new.clip_stack@ == old.clip_stack@
                &&& exists|m: Self| {
                    &&& #[trigger] Self::bar_done(old, &m, style, true, b, vbar_geometry(style, b, cs),
                        named_id(old.id_stack@, "!scrollbary"@), isect)
                    &&& Self::bar_done(&m, new, style, false, b, hbar_geometry(style, b, cs),
                        named_id(old.id_stack@, "!scrollbarx"@), isect)
                }
            },
        }
    }

    /// The scroll bars of the current container run without overflow.
    pub open spec fn scrollbars_fit(&self, style: Style, body: Recti) -> bool {
        let c = self.containers@[self.cur().0 as int];
        let sz = style.scrollbar_size as int;
        &&& in_i32(style.padding * 2)
        &&& in_i32(c.content_size.x + style.padding * 2)
        &&& in_i32(c.content_size.y + style.padding * 2)
        &&& rect_corner_fits(body)
        &&& rect_corner_fits(self.clip())
        &&& (spec_intersect(body, self.clip()) matches Some(isect) ==> {
            let cs = self.cur_padded_content(style);
            let b = self.cur_shrunk_body(style, body);
            &&& (cs.y > c.body.height ==> in_i32(body.width - sz))
            &&& (cs.x > c.body.width ==> in_i32(body.height - sz))
            &&& self.bar_fits(style, true, b, vbar_geometry(style, b, cs), named_id(self.id_stack@, "!scrollbary"@), isect)
            &&& forall|m: Self| #[trigger] Self::bar_done(self, &m, style, true, b, vbar_geometry(style, b, cs),
                named_id(self.id_stack@, "!scrollbary"@), isect)
                ==> m.bar_fits(style, false, b, hbar_geometry(style, b, cs), named_id(self.id_stack@, "!scrollbarx"@), isect)
        })
    }

    /// The scroll bars of the current container `cnt_id`: the body makes
    /// room for the bars its content needs, then each bar scrolls and draws.
    #[verifier::spinoff_prover]
    #[verifier::rlimit(40)]
    fn scrollbars(&mut self, style: &Style, cnt_id: usize, body: &mut Recti)
        requires
            old(self).wf(),
            old(self).container_stack@.len() > 0,
            old(self).clip_stack@.len() > 0,
            cnt_id == old(self).cur().0,
            old(self).scrollbars_fit(*style, *old(body)),
        ensures
            final(self).wf(),
            Self::scrollbars_done(old(self), final(self), *style, *old(body), *final(body)),
    {
        let ghost s0 = *self;
        let sz = style.scrollbar_size;
        let mut cs: Vec2i = self.containers[cnt_id].content_size;
        cs.x = cs.x + style.padding * 2;
        cs.y = cs.y + style.padding * 2;
        let pushed = self.push_clip_rect(*body);
        if pushed.is_none() {
            return;
        }
        let ghost isect = pushed.unwrap();
        proof {
            crate::geometry::lemma_intersect_fits(*old(body), s0.clip());
        }
        if cs.y > self.containers[cnt_id].body.height {
            body.width = body.width - sz;
        }
        if cs.x > self.containers[cnt_id].body.width {
            body.height = body.height - sz;
        }
        let b = *body;
        let ghost s1 = *self;
        proof {
            assert(cs == s0.cur_padded_content(*style));
            assert(b == s0.cur_shrunk_body(*style, *old(body)));
            assert(s1.clip() == isect);
            assert(s1.bar_fits(*style, true, b, vbar_geometry(*style, b, cs), named_id(s1.id_stack@, "!scrollbary"@), isect)
                == s0.bar_fits(*style, true, b, vbar_geometry(*style, b, cs), named_id(s0.id_stack@, "!scrollbary"@), isect));
        }
        self.scrollbar(style, true, b, cs);
        let ghost s2 = *self;
        proof {
            assert(Self::bar_done(&s0, &s2, *style, true, b, vbar_geometry(*style, b, cs),
                named_id(s0.id_stack@, "!scrollbary"@), isect));
            assert(s2.id_stack@ == s0.id_stack@);
            assert(s2.clip() == isect);
        }
        self.scrollbar(style, false, b, cs);
        let ghost s3 = *self;
        self.pop_clip_rect();
        proof {
            assert(self.clip_stack@ =~= s0.clip_stack@);
            assert(Self::bar_done(&s2, self, *style, false, b, hbar_geometry(*style, b, cs),
                named_id(s0.id_stack@, "!scrollbarx"@), isect));
        }
    }

    /// `new` and `nbody` are `old` and `body` after the scroll step of a
    /// container body: the scroll bars, unless `opt` has `NO_SCROLL`.
    pub open spec fn body_scrolled(old: &Self, new: &Self, style: Style, body: Recti, opt: u32, nbody: Recti) -> bool {
        if opt & 32 == 0 {
            Self::scrollbars_done(old, new, style, body, nbody)
        } else {
            *new == *old && nbody == body
        }
    }

    /// The layout step of a container body runs without overflow: the body
    /// shrinks by the padding, and the layout stack has room.
    pub open spec fn body_layout_fits(&self, style: Style, body: Recti) -> bool {
        let c = self.containers@[self.cur().0 as int];
        let nb = spec_expand_rect(body, -style.padding);
        &&& style.padding > i32::MIN
        &&& in_i32(body.x + style.padding)
        &&& in_i32(body.y + style.padding)
        &&& in_i32(style.padding * 2)
        &&& in_i32(-style.padding * 2)
        &&& in_i32(body.width - style.padding * 2)
        &&& in_i32(body.height - style.padding * 2)
        &&& c.layouts().len() < MAX_WIDTHS
        &&& in_i32(nb.x - c.scroll.x)
        &&& in_i32(nb.y - c.scroll.y)
    }

    /// `new` is `old` once the current container's body is `body`: a layout
    /// for the body shrunk by the padding, moved by the container's scroll,
    /// goes on its layout stack.
    pub open spec fn body_laid_out(old: &Self, new: &Self, style: Style, body: Recti) -> bool {
        let c = old.cur().0 as int;
        let oc = old.containers@[c];
        let nc = new.containers@[c];
        &&& new.containers@.len() == old.containers@.len()
        &&& forall|i: int| 0 <= i < old.containers@.len() && i != c ==> #[trigger] new.containers@[i] == old.containers@[i]
        &&& nc.layouts().drop_last() == oc.layouts()
        &&& nc.layouts().len() == oc.layouts().len() + 1
        &&& is_fresh_layout(nc.layouts().last(), spec_expand_rect(body, -style.padding), oc.scroll)
        &&& nc.body == body
        &&& nc.rect == oc.rect && nc.content_size == oc.content_size && nc.scroll == oc.scroll
        &&& nc.zindex == oc.zindex && nc.open == oc.open && nc.commands@ == oc.commands@
        &&& nc.last_cell() == oc.last_cell()
        &&& new.text_stack@ == old.text_stack@
        &&& Self::same_state(old, new)
    }

    /// Setting up the body `body` of the current container runs without
    /// overflow: its scroll bars unless `opt` has `NO_SCROLL`, and its layout
    /// in every state the bars can leave.
    pub open spec fn container_body_fits(&self, style: Style, body: Recti, opt: WidgetOption) -> bool {
        &&& opt@ & 32 == 0 ==> self.scrollbars_fit(style, body)
        &&& forall|m: Self, b: Recti| #[trigger] Self::body_scrolled(self, &m, style, body, opt@, b)
            ==> m.body_layout_fits(style, b)
    }

    /// `new` is `old` after the body `body` of the current container is set
    /// up: the scroll step, then the layout step.
    pub open spec fn container_body_pushed(old: &Self, new: &Self, style: Style, body: Recti, opt: WidgetOption) -> bool {
        exists|m: Self, b: Recti| {
            &&& #[trigger] Self::body_scrolled(old, &m, style, body, opt@, b)
            &&& Self::body_laid_out(&m, new, style, b)
        }
    }

    /// Sets up the body of the current container `cnt_idx`: its scroll bars
    /// unless `opt` has `NO_SCROLL`, then a layout for what is left of
    /// `body` shrunk by the padding; what is left becomes its body.
    pub fn push_container_body(&mut self, style: &Style, cnt_idx: usize, body: Recti, opt: WidgetOption)
        requires
            old(self).wf(),
            old(self).container_stack@.len() > 0,
            old(self).clip_stack@.len() > 0,
            cnt_idx == old(self).cur().0,
            old(self).container_body_fits(*style, body, opt),
        ensures
            final(self).wf(),
            Self::container_body_pushed(old(self), final(self), *style, body, opt),
    {
        let ghost s0 = *self;
        let body0 = body;
        let mut body = body;
        if !opt.has_no_scroll() {
            self.scrollbars(style, cnt_idx, &mut body);
        }
        let ghost s1 = *self;
        assert(Self::body_scrolled(&s0, &s1, *style, body0, opt@, body));
        assert(s1.body_layout_fits(*style, body));
        assert((-style.padding) * 2 == -(style.padding * 2));
        let new_body = expand_rect(body, -style.padding);
        let ghost c0 = self.containers@[cnt_idx as int];
        self.containers[cnt_idx].push_rect_scroll(new_body);
        let ghost c1 = self.containers@[cnt_idx as int];
        self.containers[cnt_idx].body = body;
        proof {
            let c2 = self.containers@[cnt_idx as int];
            assert(c2.layouts() == c1.layouts());
            assert(c2.last_cell() == c1.last_cell());
            assert(c1.scroll == c0.scroll);
            assert(c2.commands@ == c0.commands@);
            assert(self.containers@.len() == s1.containers@.len());
            assert(Self::same_state(&s1, self));
            assert forall|k: int, j: int| 0 <= k < CONTAINER_COUNT && 0 <= j < self.containers@[k].commands@.len()
                implies command_text_ok(#[trigger] self.containers@[k].commands@[j], self.text_stack@.len()) by {
                assert(self.containers@[k].commands@ == s1.containers@[k].commands@);
            }
            assert(Self::body_laid_out(&s1, self, *style, body));
        }
    }
}

} // verus!
