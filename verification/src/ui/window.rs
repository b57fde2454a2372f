//! Windows, popups and panels: root containers with a frame, a title bar,
//! a close box, a resize handle and a scrolling body.

use vstd::prelude::*;
use crate::geometry::{Vec2i, Recti, rect_corner_fits, spec_rect_overlaps, spec_intersect, max_i};
use crate::ui::flags::{WidgetOption, ResourceState};
use crate::ui::style::Style;
use crate::ui::layout::{in_i32, next_fits, next_cell_of};
use crate::ui::pool::{Id, ContRef, spec_pool_get, has_stale_slot};
use crate::ui::context::{
    Context, Container, RendererBackEnd, Command, ControlColor, Icon, CONTAINER_COUNT, command_text_ok, unclipped_rect,
    frame_cmds, frame_fits, clipped_cmds, update_control_spec,
};
use crate::ui::scroll::named_id;
use crate::ui::context::{cref_ok, same_container};
use crate::ui::text::{spec_text_width, spec_text_height};

verus! {

/// The rectangle of a window once set up from the requested `r`: `r`'s
/// extent where `set_size` asks, then every zero field of the container's
/// rectangle `c` taken from `r`.
pub open spec fn initial_window_rect(c: Recti, r: Recti, set_size: bool) -> Recti {
    let w = if set_size { r.width } else { c.width };
    let h = if set_size { r.height } else { c.height };
    Recti {
        x: if c.x == 0 { r.x } else { c.x },
        y: if c.y == 0 { r.y } else { c.y },
        width: if w == 0 { r.width } else { w },
        height: if h == 0 { r.height } else { h },
    }
}

/// The options of a popup: `POPUP`, `NO_RESIZE`, `NO_SCROLL`, `NO_TITLE`
/// and `CLOSED`.
pub fn popup_options() -> (r: WidgetOption)
    ensures
        r@ == 1712u32,
{
    let r = WidgetOption::POPUP().union(WidgetOption::NO_RESIZE()).union(WidgetOption::NO_SCROLL()).union(
        WidgetOption::NO_TITLE(),
    ).union(WidgetOption::CLOSED());
    assert(512u32 | 16u32 | 32u32 | 128u32 | 1024u32 == 1712u32) by (bit_vector);
    r
}

impl<P, R: RendererBackEnd<P>> Context<P, R> {
    /// The context once the id of the control named `name` is taken.
    pub open spec fn with_last_id(&self, name: Seq<char>) -> Self {
        Context { last_id: Some(named_id(self.id_stack@, name)), ..*self }
    }

    /// `new` is `old` after the root container `k` of the window `id` starts
    /// with the rectangle `rect`: the id and the container go on their
    /// stacks, the container on the root list, nothing is clipped, its
    /// commands are dropped, and it becomes the next hover root when the
    /// mouse is over it and it lies above the current candidate.
    pub open spec fn window_started(old: &Self, new: &Self, id: Id, k: usize, rect: Recti) -> bool {
        let c = old.containers@[k as int];
        &&& new.id_stack@ == old.id_stack@.push(id)
        &&& new.container_stack@ == old.container_stack@.push(ContRef(k))
        &&& new.root_list@ == old.root_list@.push(ContRef(k))
        &&& new.clip_stack@ == old.clip_stack@.push(unclipped_rect())
        &&& new.containers@ == old.containers@.update(k as int, Container {
            rect,
            commands: new.containers@[k as int].commands,
            ..c
        })
        &&& new.containers@[k as int].commands@.len() == 0
        &&& new.next_hover_root == (if spec_rect_overlaps(rect, old.mouse_pos)
            && (old.next_hover_root matches Some(h) ==> c.zindex > old.containers@[h.0 as int].zindex) {
            Some(ContRef(k))
        } else {
            old.next_hover_root
        })
        &&& *new == Context {
            id_stack: new.id_stack,
            container_stack: new.container_stack,
            root_list: new.root_list,
            clip_stack: new.clip_stack,
            containers: new.containers,
            next_hover_root: new.next_hover_root,
            ..*old
        }
    }

    /// `new` and `res` are `old` and the result after opening the window
    /// `title`: its id is taken and its container slot looked up; a window
    /// without an open container stops there with `None`, any other starts
    /// its root container with its rectangle set up from `r`.
    pub open spec fn window_opened(old: &Self, new: &Self, title: Seq<char>, r: Recti, opt: WidgetOption, res: Option<usize>) -> bool {
        let id = named_id(old.id_stack@, title);
        exists|m: Self, k: Option<usize>| {
            &&& #[trigger] Self::slot_for(&old.with_last_id(title), &m, id, opt@, k)
            &&& match k {
                Some(i) => if m.containers@[i as int].open {
                    &&& res == k
                    &&& Self::window_started(&m, new, id, i,
                        initial_window_rect(m.containers@[i as int].rect, r, opt@ & 4096 != 0))
                } else {
                    res is None && *new == m
                },
                None => res is None && *new == m,
            }
        }
    }

    /// Opening the window `title` runs without overflow: a new container
    /// finds a slot and room on top, and the rectangle it starts with has a
    /// far corner that fits.
    pub open spec fn window_open_fits(&self, title: Seq<char>, r: Recti, opt: WidgetOption) -> bool {
        let id = named_id(self.id_stack@, title);
        &&& (spec_pool_get(self.container_pool.items(), id) is None && opt@ & 1024 == 0 ==> {
            &&& has_stale_slot(self.container_pool.items(), self.frame)
            &&& self.last_zindex + 128 <= i32::MAX
        })
        &&& forall|m: Self, i: usize| #[trigger] Self::slot_for(&self.with_last_id(title), &m, id, opt@, Some(i))
            ==> rect_corner_fits(initial_window_rect(m.containers@[i as int].rect, r, opt@ & 4096 != 0))
    }

    /// Opens the window `title`, as `window_opened` says.
    fn open_window(&mut self, title: &str, r: Recti, opt: WidgetOption) -> (res: Option<usize>)
        requires
            old(self).wf(),
            old(self).window_open_fits(title@, r, opt),
        ensures
            final(self).wf(),
            Self::window_opened(old(self), final(self), title@, r, opt, res),
            res matches Some(i) ==> i < CONTAINER_COUNT,
    {
        let ghost s0 = *self;
        let id = self.get_id_from_str(title);
        proof {
            crate::ui::pool::lemma_id_of_hash(id);
            assert(*self == s0.with_last_id(title@));
        }
        let ghost s1 = *self;
        let cnt_id = self.get_container_index_intern(id, opt);
        let ghost s2 = *self;
        let i = match cnt_id {
            Some(i) => i,
            None => {
                assert(Self::slot_for(&s0.with_last_id(title@), &s2, id, opt@, cnt_id));
                return None;
            },
        };
        proof {
            assert(Self::slot_for(&s0.with_last_id(title@), &s2, id, opt@, cnt_id));
        }
        if !self.containers[i].open {
            return None;
        }
        self.id_stack.push(id);
        let c = self.containers[i].rect;
        let mut rect = c;
        if opt.is_setting_size() {
            rect.width = r.width;
            rect.height = r.height;
        }
        if rect.width == 0 {
            rect.width = r.width;
        }
        if rect.height == 0 {
            rect.height = r.height;
        }
        if rect.x == 0 {
            rect.x = r.x;
        }
        if rect.y == 0 {
            rect.y = r.y;
        }
        assert(rect == initial_window_rect(c, r, opt@ & 4096 != 0));
        self.containers[i].rect = rect;
        proof {
            assert forall|k: int, j: int| 0 <= k < CONTAINER_COUNT && 0 <= j < self.containers@[k].commands@.len()
                implies command_text_ok(#[trigger] self.containers@[k].commands@[j], self.text_stack@.len()) by {
                assert(self.containers@[k].commands@ == s2.containers@[k].commands@);
            }
        }
        self.begin_root_container(ContRef(i));
        proof {
            assert(self.containers@ =~= s2.containers@.update(i as int, Container {
                rect,
                commands: self.containers@[i as int].commands,
                ..s2.containers@[i as int]
            }));
            assert(Self::window_started(&s2, self, id, i, rect));
        }
        Some(i)
    }

    /// Hover, focus and the focus flag after `update_control` for the control
    /// `id` in `rect` with the options `opt`.
    pub open spec fn control_update(&self, id: Id, rect: Recti, opt: WidgetOption) -> (Option<Id>, Option<Id>, bool) {
        update_control_spec(self.hover, self.focus, self.updated_focus, id, self.spec_mouse_over(rect),
            self.mouse_down@ == 0, self.mouse_pressed@ == 0, opt@ & 4 != 0, opt@ & 256 != 0)
    }

    /// `new` is `old` with the id `id` taken and the control `id` in `rect`
    /// updated.
    pub open spec fn control_updated(old: &Self, new: &Self, id: Id, rect: Recti, opt: WidgetOption) -> bool {
        let (h, f, u) = old.control_update(id, rect, opt);
        *new == Context { last_id: Some(id), hover: h, focus: f, updated_focus: u, ..*old }
    }

    /// The title bar of the current window, over the top of `r`.
    pub open spec fn title_rect(r: Recti, style: Style) -> Recti {
        Recti { height: style.title_height, ..r }
    }

    /// Whether the title bar of the current window is dragged this frame.
    pub open spec fn title_dragged(&self, tr: Recti, opt: WidgetOption) -> bool {
        let id = named_id(self.id_stack@, "!title"@);
        self.control_update(id, tr, opt).1 == Some(id) && self.mouse_down@ & 1 != 0
    }

    /// `new` is `old` after the title bar `tr` of the current window: its
    /// frame, the control `!title` updated, the title `title` drawn in it, and
    /// the window moved by the mouse while the bar is dragged.
    pub open spec fn title_bar_done(old: &Self, new: &Self, style: Style, title: Seq<char>, tr: Recti, opt: WidgetOption) -> bool {
        let c = old.cur().0 as int;
        let id = named_id(old.id_stack@, "!title"@);
        exists|m1: Self, m2: Self, m3: Self| {
            &&& #[trigger] Self::appended(old, &m1, old.cur(), frame_cmds(old.clip(), style, tr, ControlColor::TitleBG))
            &&& #[trigger] Self::control_updated(&m1, &m2, id, tr, opt)
            &&& #[trigger] Self::label_drawn(&m2, &m3, style, style.bold_font, title, tr, ControlColor::TitleText, opt)
            &&& if old.title_dragged(tr, opt) {
                let rect = m3.containers@[c].rect;
                &&& new.containers@ == m3.containers@.update(c, Container {
                    rect: Recti {
                        x: (rect.x + old.mouse_delta.x) as i32,
                        y: (rect.y + old.mouse_delta.y) as i32,
                        ..rect
                    },
                    ..m3.containers@[c]
                })
                &&& *new == Context { containers: new.containers, ..m3 }
            } else {
                *new == m3
            }
        }
    }

    /// Dragging a window by its title bar moves it with the mouse: while the
    /// title control holds the focus and the left button stays down (and no
    /// button is pressed anew), the window's rectangle after its title bar
    /// is the one before moved by the mouse motion, its size unchanged.
    pub proof fn lemma_title_drag_moves(old: &Self, new: &Self, style: Style, title: Seq<char>, tr: Recti, opt: WidgetOption)
        requires
            Self::title_bar_done(old, new, style, title, tr, opt),
            old.container_stack@.len() > 0,
            cref_ok(old.cur()),
            old.containers@.len() == CONTAINER_COUNT,
            old.focus == Some(named_id(old.id_stack@, "!title"@)),
            old.mouse_down@ & 1 != 0,
            old.mouse_pressed@ == 0,
            in_i32(old.containers@[old.cur().0 as int].rect.x + old.mouse_delta.x),
            in_i32(old.containers@[old.cur().0 as int].rect.y + old.mouse_delta.y),
        ensures
            ({
                let before = old.containers@[old.cur().0 as int].rect;
                let after = new.containers@[old.cur().0 as int].rect;
                &&& after.x == before.x + old.mouse_delta.x
                &&& after.y == before.y + old.mouse_delta.y
                &&& after.width == before.width
                &&& after.height == before.height
            }),
    {
        let c = old.cur().0 as int;
        let id = named_id(old.id_stack@, "!title"@);
        let (m1, m2, m3) = choose|m1: Self, m2: Self, m3: Self| {
            &&& #[trigger] Self::appended(old, &m1, old.cur(), frame_cmds(old.clip(), style, tr, ControlColor::TitleBG))
            &&& #[trigger] Self::control_updated(&m1, &m2, id, tr, opt)
            &&& #[trigger] Self::label_drawn(&m2, &m3, style, style.bold_font, title, tr, ControlColor::TitleText, opt)
            &&& (old.title_dragged(tr, opt) ==> new.containers@ == m3.containers@.update(c, Container {
                rect: Recti { x: (m3.containers@[c].rect.x + old.mouse_delta.x) as i32,
                    y: (m3.containers@[c].rect.y + old.mouse_delta.y) as i32, ..m3.containers@[c].rect },
                ..m3.containers@[c] }))
            &&& (!old.title_dragged(tr, opt) ==> *new == m3)
        };
        assert(same_container(old.containers@[c], m1.containers@[c]));
        let (ws, h) = choose|ws: Seq<usize>, h: usize| {
            let tw = #[trigger] spec_text_width(title, ws) as i32;
            let th = #[trigger] spec_text_height(title, h);
            &&& ws.len() == title.len()
            &&& if crate::ui::context::control_text_fits(style, tr, opt@, tw as int, th as int) {
                Self::control_text_drawn(&m2, &m3, style, style.bold_font, title, tr, ControlColor::TitleText, opt@, tw, th)
            } else {
                m3 == m2
            }
        };
        assert(Self::same_containers(&m2, &m3));
        assert(same_container(m2.containers@[c], m3.containers@[c]));
        let v = old.mouse_down@;
        assert(v & 1 != 0 ==> v != 0) by (bit_vector);
        assert(old.control_update(id, tr, opt).1 == Some(id));
        assert(old.title_dragged(tr, opt));
    }

    /// The title bar `tr` of the current window runs without overflow.
    pub open spec fn title_bar_fits(&self, tr: Recti, opt: WidgetOption) -> bool {
        let rect = self.containers@[self.cur().0 as int].rect;
        &&& rect_corner_fits(tr)
        &&& frame_fits(tr)
        &&& rect_corner_fits(self.clip())
        &&& (self.title_dragged(tr, opt) ==> in_i32(rect.x + self.mouse_delta.x) && in_i32(rect.y + self.mouse_delta.y))
    }

    /// Draws the title bar `tr` of the current window, as `title_bar_done` says.
    fn title_bar(&mut self, style: &Style, title: &str, tr: Recti, opt: WidgetOption)
        requires
            old(self).wf(),
            old(self).container_stack@.len() > 0,
            old(self).clip_stack@.len() > 0,
            old(self).title_bar_fits(tr, opt),
        ensures
            final(self).wf(),
            Self::title_bar_done(old(self), final(self), *style, title@, tr, opt),
    {
        let ghost s0 = *self;
        let c = self.get_current_container().0;
        self.draw_frame(style, tr, ControlColor::TitleBG);
        let ghost m1 = *self;
        let id = self.get_id_from_str("!title");
        proof {
            crate::ui::pool::lemma_id_of_hash(id);
        }
        self.update_control(id, tr, opt);
        let ghost m2 = *self;
        proof {
            assert(id == named_id(s0.id_stack@, "!title"@));
            assert(Self::control_updated(&m1, &m2, id, tr, opt));
        }
        self.draw_control_text(style, style.bold_font, title, tr, ControlColor::TitleText, opt);
        let ghost m3 = *self;
        proof {
            assert(Self::label_drawn(&m2, &m3, *style, style.bold_font, title@, tr, ControlColor::TitleText, opt));
            assert(Self::same_state_but_clip(&m2, &m3));
            assert(m3.containers@.len() == CONTAINER_COUNT);
            assert(m3.cur() == s0.cur());
        }
        if Some(id) == self.focus && self.mouse_down.is_left() {
            proof {
                assert(s0.title_dragged(tr, opt));
            }
            let dx = self.mouse_delta.x;
            let dy = self.mouse_delta.y;
            self.containers[c].rect.x = self.containers[c].rect.x + dx;
            self.containers[c].rect.y = self.containers[c].rect.y + dy;
            proof {
                assert forall|k: int, j: int| 0 <= k < CONTAINER_COUNT && 0 <= j < self.containers@[k].commands@.len()
                    implies command_text_ok(#[trigger] self.containers@[k].commands@[j], self.text_stack@.len()) by {
                    assert(self.containers@[k].commands@ == m3.containers@[k].commands@);
                }
            }
        }
        proof {
            assert(Self::appended(&s0, &m1, s0.cur(), frame_cmds(s0.clip(), *style, tr, ControlColor::TitleBG)));
            if s0.title_dragged(tr, opt) {
                let rect = m3.containers@[c as int].rect;
                assert(self.containers@ =~= m3.containers@.update(c as int, Container {
                    rect: Recti { x: (rect.x + s0.mouse_delta.x) as i32, y: (rect.y + s0.mouse_delta.y) as i32, ..rect },
                    ..m3.containers@[c as int]
                }));
            } else {
                assert(*self == m3);
            }
        }
    }

    /// The close box at the right end of the title bar `tr`.
    pub open spec fn close_rect(tr: Recti) -> Recti {
        Recti { x: (tr.x + tr.width - tr.height) as i32, y: tr.y, width: tr.height, height: tr.height }
    }

    /// `new` is `old` after the close box of the title bar `tr`: the control
    /// `!close` is taken, its icon drawn and the control updated; a left press
    /// on it while it has the focus closes the window.
    pub open spec fn close_box_done(old: &Self, new: &Self, style: Style, tr: Recti, opt: WidgetOption) -> bool {
        let c = old.cur().0 as int;
        let id = named_id(old.id_stack@, "!close"@);
        let cr = Self::close_rect(tr);
        let icon = Command::Icon { rect: cr, id: Icon::Close, color: style.colors@[4] };
        exists|m1: Self, m2: Self| {
            &&& #[trigger] Self::appended(&old.with_last_id("!close"@), &m1, old.cur(), clipped_cmds(old.clip(), cr, icon))
            &&& #[trigger] Self::control_updated(&m1, &m2, id, cr, opt)
            &&& if m2.mouse_pressed@ & 1 != 0 && m2.focus == Some(id) {
                &&& new.containers@ == m2.containers@.update(c, Container { open: false, ..m2.containers@[c] })
                &&& *new == Context { containers: new.containers, ..m2 }
            } else {
                *new == m2
            }
        }
    }

    /// The close box of the title bar `tr` runs without overflow.
    pub open spec fn close_box_fits(&self, tr: Recti) -> bool {
        &&& rect_corner_fits(tr)
        &&& in_i32(tr.x + tr.width - tr.height)
        &&& in_i32(tr.width - tr.height)
        &&& rect_corner_fits(self.clip())
    }

    /// Draws the close box of the title bar `tr`, as `close_box_done` says.
    fn close_box(&mut self, style: &Style, tr: Recti, opt: WidgetOption)
        requires
            old(self).wf(),
            old(self).container_stack@.len() > 0,
            old(self).clip_stack@.len() > 0,
            old(self).close_box_fits(tr),
        ensures
            final(self).wf(),
            Self::close_box_done(old(self), final(self), *style, tr, opt),
    {
        let ghost s0 = *self;
        let c = self.get_current_container().0;
        let id = self.get_id_from_str("!close");
        proof {
            crate::ui::pool::lemma_id_of_hash(id);
            assert(*self == s0.with_last_id("!close"@));
        }
        let r = Recti::new(tr.x + tr.width - tr.height, tr.y, tr.height, tr.height);
        let mut tr = tr;
        tr.width = tr.width - r.width;
        self.draw_icon(Icon::Close, r, style.colors[ControlColor::TitleText.index()]);
        let ghost m1 = *self;
        self.update_control(id, r, opt);
        let ghost m2 = *self;
        proof {
            assert(Self::control_updated(&m1, &m2, id, r, opt));
        }
        if self.mouse_pressed.is_left() && Some(id) == self.focus {
            self.containers[c].open = false;
            proof {
                assert forall|k: int, j: int| 0 <= k < CONTAINER_COUNT && 0 <= j < self.containers@[k].commands@.len()
                    implies command_text_ok(#[trigger] self.containers@[k].commands@[j], self.text_stack@.len()) by {
                    assert(self.containers@[k].commands@ == m2.containers@[k].commands@);
                }
                assert(self.containers@ =~= m2.containers@.update(c as int, Container { open: false, ..m2.containers@[c as int] }));
            }
        }
    }

    /// The resize handle in the bottom right corner of the window `r`.
    pub open spec fn resize_rect(r: Recti, style: Style) -> Recti {
        let sz = style.title_height;
        Recti { x: (r.x + r.width - sz) as i32, y: (r.y + r.height - sz) as i32, width: sz, height: sz }
    }

    /// Whether the resize handle of the window `r` is dragged this frame.
    pub open spec fn resize_dragged(&self, style: Style, r: Recti, opt: WidgetOption) -> bool {
        let id = named_id(self.id_stack@, "!resize"@);
        self.control_update(id, Self::resize_rect(r, style), opt).1 == Some(id) && self.mouse_down@ & 1 != 0
    }

    /// `new` is `old` after the resize handle of the current window `r`: the
    /// control `!resize` is taken and updated, and while it is dragged with
    /// the left button the window grows by the mouse motion, to no less than
    /// 96 by 64.
    pub open spec fn resize_done(old: &Self, new: &Self, style: Style, r: Recti, opt: WidgetOption) -> bool {
        let c = old.cur().0 as int;
        let id = named_id(old.id_stack@, "!resize"@);
        let rr = Self::resize_rect(r, style);
        let rect = old.containers@[c].rect;
        exists|m1: Self| {
            &&& #[trigger] Self::control_updated(old, &m1, id, rr, opt)
            &&& if old.resize_dragged(style, r, opt) {
                &&& new.containers@ == m1.containers@.update(c, Container {
                    rect: Recti {
                        width: max_i(96, rect.width + old.mouse_delta.x) as i32,
                        height: max_i(64, rect.height + old.mouse_delta.y) as i32,
                        ..rect
                    },
                    ..m1.containers@[c]
                })
                &&& *new == Context { containers: new.containers, ..m1 }
            } else {
                *new == m1
            }
        }
    }

    /// The resize handle of the window `r` runs without overflow.
    pub open spec fn resize_fits(&self, style: Style, r: Recti, opt: WidgetOption) -> bool {
        let rect = self.containers@[self.cur().0 as int].rect;
        &&& in_i32(r.x + r.width)
        &&& in_i32(r.y + r.height)
        &&& in_i32(r.x + r.width - style.title_height)
        &&& in_i32(r.y + r.height - style.title_height)
        &&& rect_corner_fits(self.clip())
        &&& (self.resize_dragged(style, r, opt) ==> {
            &&& in_i32(rect.width + self.mouse_delta.x)
            &&& in_i32(rect.height + self.mouse_delta.y)
        })
    }

    /// The resize handle of the current window `r`, as `resize_done` says.
    fn resize_handle(&mut self, style: &Style, r: Recti, opt: WidgetOption)
        requires
            old(self).wf(),
            old(self).container_stack@.len() > 0,
            old(self).clip_stack@.len() > 0,
            old(self).resize_fits(*style, r, opt),
        ensures
            final(self).wf(),
            Self::resize_done(old(self), final(self), *style, r, opt),
    {
        let ghost s0 = *self;
        let c = self.get_current_container().0;
        let sz = style.title_height;
        let id = self.get_id_from_str("!resize");
        proof {
            crate::ui::pool::lemma_id_of_hash(id);
        }
        let rr = Recti::new(r.x + r.width - sz, r.y + r.height - sz, sz, sz);
        self.update_control(id, rr, opt);
        let ghost m1 = *self;
        proof {
            assert(Self::control_updated(&s0, &m1, id, rr, opt));
        }
        if Some(id) == self.focus && self.mouse_down.is_left() {
            let w = self.containers[c].rect.width + self.mouse_delta.x;
            let h = self.containers[c].rect.height + self.mouse_delta.y;
            self.containers[c].rect.width = if 96 > w { 96 } else { w };
            self.containers[c].rect.height = if 64 > h { 64 } else { h };
            proof {
                assert forall|k: int, j: int| 0 <= k < CONTAINER_COUNT && 0 <= j < self.containers@[k].commands@.len()
                    implies command_text_ok(#[trigger] self.containers@[k].commands@[j], self.text_stack@.len()) by {
                    assert(self.containers@[k].commands@ == m1.containers@[k].commands@);
                }
                let rect = s0.containers@[c as int].rect;
                assert(self.containers@ =~= m1.containers@.update(c as int, Container {
                    rect: Recti {
                        width: max_i(96, rect.width + s0.mouse_delta.x) as i32,
                        height: max_i(64, rect.height + s0.mouse_delta.y) as i32,
                        ..rect
                    },
                    ..m1.containers@[c as int]
                }));
            }
        }
    }

    /// `new` is `old` after the frame of the current window `r`, unless `opt`
    /// has `NO_FRAME`.
    pub open spec fn window_framed(old: &Self, new: &Self, style: Style, r: Recti, opt: WidgetOption) -> bool {
        if opt@ & 8 == 0 {
            Self::appended(old, new, old.cur(), frame_cmds(old.clip(), style, r, ControlColor::WindowBG))
        } else {
            *new == *old
        }
    }

    /// `new` is `old` after the title bar of the current window `r`, unless
    /// `opt` has `NO_TITLE`.
    pub open spec fn window_titled(old: &Self, new: &Self, style: Style, title: Seq<char>, r: Recti, opt: WidgetOption) -> bool {
        if opt@ & 128 == 0 {
            Self::title_bar_done(old, new, style, title, Self::title_rect(r, style), opt)
        } else {
            *new == *old
        }
    }

    /// `new` is `old` after the close box of the current window `r`, unless
    /// `opt` has `NO_TITLE` or `NO_CLOSE`.
    pub open spec fn window_close_box(old: &Self, new: &Self, style: Style, r: Recti, opt: WidgetOption) -> bool {
        if opt@ & 128 == 0 && opt@ & 64 == 0 {
            Self::close_box_done(old, new, style, Self::title_rect(r, style), opt)
        } else {
            *new == *old
        }
    }

    /// `new` is `old` after the frame, the title bar and the close box of the
    /// current window `r`.
    pub open spec fn window_decorated(old: &Self, new: &Self, style: Style, title: Seq<char>, r: Recti, opt: WidgetOption) -> bool {
        exists|m1: Self, m2: Self| {
            &&& #[trigger] Self::window_framed(old, &m1, style, r, opt)
            &&& #[trigger] Self::window_titled(&m1, &m2, style, title, r, opt)
            &&& Self::window_close_box(&m2, new, style, r, opt)
        }
    }

    /// The body of the window `r`: below the title bar, unless `opt` has `NO_TITLE`.
    pub open spec fn window_body(r: Recti, style: Style, opt: WidgetOption) -> Recti {
        if opt@ & 128 == 0 {
            Recti { y: (r.y + style.title_height) as i32, height: (r.height - style.title_height) as i32, ..r }
        } else {
            r
        }
    }

    /// `new` is `old` after a popup window `i` closes on a press outside it:
    /// with `POPUP`, a button pressed this frame and another hover root, the
    /// window is closed.
    pub open spec fn popup_checked(old: &Self, new: &Self, i: usize, opt: WidgetOption) -> bool {
        if opt@ & 512 != 0 && old.mouse_pressed@ != 0 && old.hover_root != Some(ContRef(i)) {
            &&& new.containers@ == old.containers@.update(i as int, Container { open: false, ..old.containers@[i as int] })
            &&& *new == Context { containers: new.containers, ..*old }
        } else {
            *new == *old
        }
    }

    /// `new` is `old` after the clip rectangle of the body of container `i`
    /// is pushed.
    pub open spec fn body_clipped(old: &Self, new: &Self, i: usize) -> bool {
        &&& new.clip_stack@ == (match spec_intersect(old.containers@[i as int].body, old.clip()) {
            Some(x) => old.clip_stack@.push(x),
            None => old.clip_stack@,
        })
        &&& *new == Context { clip_stack: new.clip_stack, ..*old }
    }

    /// `new` is `old`, where the window `title` has just started in container
    /// `i`, after the rest of `begin_window`: decorations, body, resize
    /// handle, the popup check and the body's clip rectangle.
    pub open spec fn window_rest_done(old: &Self, new: &Self, style: Style, title: Seq<char>, i: usize, opt: WidgetOption) -> bool {
        let r = old.containers@[i as int].rect;
        exists|m3: Self, m4: Self, m5: Self, m6: Self| {
            &&& #[trigger] Self::window_decorated(old, &m3, style, title, r, opt)
            &&& #[trigger] Self::container_body_pushed(&m3, &m4, style, Self::window_body(r, style, opt), opt)
            &&& #[trigger] Self::resize_done(&m4, &m5, style, r, opt)
            &&& #[trigger] Self::popup_checked(&m5, &m6, i, opt)
            &&& Self::body_clipped(&m6, new, i)
        }
    }

    /// The rest of `begin_window` runs without overflow from the state where
    /// the window `title` has just started in container `i`, whatever state
    /// each step leaves.
    pub open spec fn window_rest_fits(&self, style: Style, title: Seq<char>, i: usize, opt: WidgetOption) -> bool {
        let r = self.containers@[i as int].rect;
        let tr = Self::title_rect(r, style);
        let body = Self::window_body(r, style, opt);
        &&& rect_corner_fits(r)
        &&& (opt@ & 8 == 0 ==> frame_fits(r))
        &&& (opt@ & 128 == 0 ==> in_i32(r.y + style.title_height) && in_i32(r.height - style.title_height))
        &&& forall|m1: Self| #[trigger] Self::window_framed(self, &m1, style, r, opt)
            ==> (opt@ & 128 == 0 ==> m1.title_bar_fits(tr, opt))
        &&& forall|m1: Self, m2: Self| #[trigger] Self::window_framed(self, &m1, style, r, opt)
            && #[trigger] Self::window_titled(&m1, &m2, style, title, r, opt)
            ==> (opt@ & 128 == 0 && opt@ & 64 == 0 ==> m2.close_box_fits(tr))
        &&& forall|m3: Self| #[trigger] Self::window_decorated(self, &m3, style, title, r, opt)
            ==> m3.container_body_fits(style, body, opt)
        &&& forall|m3: Self, m4: Self| #[trigger] Self::window_decorated(self, &m3, style, title, r, opt)
            && #[trigger] Self::container_body_pushed(&m3, &m4, style, body, opt)
            ==> m4.resize_fits(style, r, opt)
        &&& forall|m3: Self, m4: Self, m5: Self, m6: Self| #[trigger] Self::window_decorated(self, &m3, style, title, r, opt)
            && #[trigger] Self::container_body_pushed(&m3, &m4, style, body, opt)
            && #[trigger] Self::resize_done(&m4, &m5, style, r, opt)
            && #[trigger] Self::popup_checked(&m5, &m6, i, opt)
            ==> rect_corner_fits(m6.containers@[i as int].body)
    }

    /// Draws the frame, the title bar and the close box of the current
    /// window `rect`, and returns its body.
    fn decorate_window(&mut self, style: &Style, title: &str, rect: Recti, opt: WidgetOption) -> (body: Recti)
        requires
            old(self).wf(),
            old(self).container_stack@.len() > 0,
            old(self).clip_stack@.len() > 0,
            rect_corner_fits(rect),
            rect_corner_fits(old(self).clip()),
            opt@ & 8 == 0 ==> frame_fits(rect),
            opt@ & 128 == 0 ==> in_i32(rect.y + style.title_height) && in_i32(rect.height - style.title_height),
            forall|m1: Self| #[trigger] Self::window_framed(old(self), &m1, *style, rect, opt)
                ==> (opt@ & 128 == 0 ==> m1.title_bar_fits(Self::title_rect(rect, *style), opt)),
            forall|m1: Self, m2: Self| #[trigger] Self::window_framed(old(self), &m1, *style, rect, opt)
                && #[trigger] Self::window_titled(&m1, &m2, *style, title@, rect, opt)
                ==> (opt@ & 128 == 0 && opt@ & 64 == 0 ==> m2.close_box_fits(Self::title_rect(rect, *style))),
        ensures
            final(self).wf(),
            Self::window_decorated(old(self), final(self), *style, title@, rect, opt),
            body == Self::window_body(rect, *style, opt),
    {
        let ghost m0 = *self;
        let mut body = rect;
        if !opt.has_no_frame() {
            self.draw_frame(style, rect, ControlColor::WindowBG);
        }
        let ghost m1 = *self;
        proof {
            assert(Self::window_framed(&m0, &m1, *style, rect, opt));
        }
        if !opt.has_no_title() {
            let tr = Recti::new(rect.x, rect.y, rect.width, style.title_height);
            self.title_bar(style, title, tr, opt);
            body.y = body.y + tr.height;
            body.height = body.height - tr.height;
        }
        let ghost m2 = *self;
        proof {
            assert(Self::window_titled(&m1, &m2, *style, title@, rect, opt));
        }
        if !opt.has_no_title() && !opt.has_no_close() {
            let tr = Recti::new(rect.x, rect.y, rect.width, style.title_height);
            self.close_box(style, tr, opt);
        }
        let ghost m3 = *self;
        proof {
            assert(Self::window_close_box(&m2, &m3, *style, rect, opt));
        }
        body
    }

    /// The rest of `begin_window` once the window `title` has started in the
    /// current container `i`, as `window_rest_done` says.
    #[verifier::spinoff_prover]
    #[verifier::rlimit(80)]
    fn window_rest(&mut self, style: &Style, title: &str, i: usize, opt: WidgetOption)
        requires
            old(self).wf(),
            old(self).container_stack@.len() > 0,
            old(self).clip_stack@.len() > 0,
            old(self).cur() == ContRef(i),
            old(self).clip() == unclipped_rect(),
            old(self).window_rest_fits(*style, title@, i, opt),
        ensures
            final(self).wf(),
            Self::window_rest_done(old(self), final(self), *style, title@, i, opt),
    {
        let ghost m0 = *self;
        let rect = self.containers[i].rect;
        let body = self.decorate_window(style, title, rect, opt);
        let ghost m3 = *self;
        proof {
            assert(m3.container_body_fits(*style, body, opt));
        }
        self.push_container_body(style, i, body, opt);
        let ghost m4 = *self;
        proof {
            assert(m4.resize_fits(*style, rect, opt));
        }
        self.resize_handle(style, rect, opt);
        let ghost m5 = *self;
        if opt.is_popup() && !self.mouse_pressed.is_none() && self.hover_root != Some(ContRef(i)) {
            self.containers[i].open = false;
            proof {
                assert forall|k: int, j: int| 0 <= k < CONTAINER_COUNT && 0 <= j < self.containers@[k].commands@.len()
                    implies command_text_ok(#[trigger] self.containers@[k].commands@[j], self.text_stack@.len()) by {
                    assert(self.containers@[k].commands@ == m5.containers@[k].commands@);
                }
                assert(self.containers@ =~= m5.containers@.update(i as int, Container { open: false, ..m5.containers@[i as int] }));
            }
        }
        let ghost m6 = *self;
        proof {
            assert(Self::popup_checked(&m5, &m6, i, opt));
            assert(rect_corner_fits(m6.containers@[i as int].body));
        }
        let b = self.containers[i].body;
        let _ = self.push_clip_rect(b);
        proof {
            assert(Self::body_clipped(&m6, self, i));
        }
    }

    /// `begin_window` runs without overflow: opening the window, and the
    /// rest from every state opening can leave.
    pub open spec fn window_fits(&self, style: Style, title: Seq<char>, r: Recti, opt: WidgetOption) -> bool {
        &&& self.window_open_fits(title, r, opt)
        &&& forall|m0: Self, i: usize| #[trigger] Self::window_opened(self, &m0, title, r, opt, Some(i))
            ==> m0.window_rest_fits(style, title, i, opt)
    }

    /// `new` and `res` are `old` and the result after `begin_window`: `NONE`
    /// where the window has no open container, as `window_opened` says; else
    /// `ACTIVE`, with the window started and the rest done.
    pub open spec fn window_begun(
        old: &Self,
        new: &Self,
        style: Style,
        title: Seq<char>,
        r: Recti,
        opt: WidgetOption,
        res: ResourceState,
    ) -> bool {
        &&& res@ == 0 || res@ == 1
        &&& res@ == 0 ==> Self::window_opened(old, new, title, r, opt, None)
        &&& res@ == 1 ==> exists|m0: Self, i: usize| {
            &&& #[trigger] Self::window_opened(old, &m0, title, r, opt, Some(i))
            &&& Self::window_rest_done(&m0, new, style, title, i, opt)
        }
    }

    /// Starts the window `title`: `NONE` where it has no open container;
    /// else `ACTIVE`, with the window started, framed, titled with a close
    /// box, its body laid out with its scroll bars, its resize handle
    /// updated, closed on a press elsewhere when it is a popup, and its body
    /// clipped, as `window_opened` and `window_rest_done` say.
    pub fn begin_window(&mut self, style: &Style, title: &str, r: Recti, opt: WidgetOption) -> (res: ResourceState)
        requires
            old(self).wf(),
            old(self).window_fits(*style, title@, r, opt),
        ensures
            final(self).wf(),
            Self::window_begun(old(self), final(self), *style, title@, r, opt, res),
    {
        let ghost s0 = *self;
        let cnt = self.open_window(title, r, opt);
        let i = match cnt {
            Some(i) => i,
            None => {
                return ResourceState::NONE();
            },
        };
        let ghost m0 = *self;
        proof {
            assert(Self::window_opened(&s0, &m0, title@, r, opt, Some(i)));
            assert(m0.window_rest_fits(*style, title@, i, opt));
        }
        self.window_rest(style, title, i, opt);
        ResourceState::ACTIVE()
    }

    /// Ends the current window: the clip rectangle of its body, then its root
    /// container.
    pub fn end_window(&mut self)
        requires
            old(self).wf(),
            old(self).pop_fits(),
        ensures
            final(self).wf(),
            exists|m1: Self, m2: Self| {
                &&& #[trigger] Self::clip_popped(old(self), &m1)
                &&& #[trigger] Self::clip_popped(&m1, &m2)
                &&& Self::container_popped(&m2, final(self))
            },
    {
        self.pop_clip_rect();
        let ghost m1 = *self;
        self.end_root_container();
        assert(Self::clip_popped(old(self), &m1));
    }

    /// `new` is `old` once the popup in container `k` opens: it becomes the
    /// hover root at once, takes the mouse position with no extent, opens,
    /// and comes to the front.
    pub open spec fn popup_opened(old: &Self, new: &Self, k: usize) -> bool {
        &&& new.hover_root == Some(ContRef(k))
        &&& new.next_hover_root == Some(ContRef(k))
        &&& new.last_zindex == old.last_zindex + 128
        &&& new.containers@ == old.containers@.update(k as int, Container {
            rect: Recti { x: old.mouse_pos.x, y: old.mouse_pos.y, width: 0, height: 0 },
            open: true,
            zindex: new.last_zindex,
            ..old.containers@[k as int]
        })
        &&& *new == Context {
            hover_root: new.hover_root,
            next_hover_root: new.next_hover_root,
            last_zindex: new.last_zindex,
            containers: new.containers,
            ..*old
        }
    }

    /// Opens the popup `name` at the mouse: its container is looked up (or
    /// made), then opened as `popup_opened` says.
    pub fn open_popup(&mut self, name: &str)
        requires
            old(self).wf(),
            ({
                let id = named_id(old(self).id_stack@, name@);
                &&& spec_pool_get(old(self).container_pool.items(), id) is None ==> {
                    &&& has_stale_slot(old(self).container_pool.items(), old(self).frame)
                    &&& old(self).last_zindex + 256 <= i32::MAX
                }
                &&& spec_pool_get(old(self).container_pool.items(), id) is Some ==> old(self).last_zindex + 128 <= i32::MAX
            }),
        ensures
            final(self).wf(),
            exists|m: Self, k: usize| {
                &&& #[trigger] Self::slot_for(&old(self).with_last_id(name@), &m, named_id(old(self).id_stack@, name@), 0, Some(k))
                &&& Self::popup_opened(&m, final(self), k)
            },
    {
        let cnt = self.get_container_index(name);
        let ghost m = *self;
        let k = match cnt {
            Some(k) => k,
            None => {
                return;
            },
        };
        self.next_hover_root = Some(ContRef(k));
        self.hover_root = self.next_hover_root;
        let x = self.mouse_pos.x;
        let y = self.mouse_pos.y;
        self.containers[k].rect = Recti::new(x, y, 0, 0);
        self.containers[k].open = true;
        proof {
            assert forall|c: int, j: int| 0 <= c < CONTAINER_COUNT && 0 <= j < self.containers@[c].commands@.len()
                implies command_text_ok(#[trigger] self.containers@[c].commands@[j], self.text_stack@.len()) by {
                assert(self.containers@[c].commands@ == m.containers@[c].commands@);
            }
        }
        self.bring_to_front(ContRef(k));
        proof {
            assert(self.containers@ =~= m.containers@.update(k as int, Container {
                rect: Recti { x: m.mouse_pos.x, y: m.mouse_pos.y, width: 0, height: 0 },
                open: true,
                zindex: self.last_zindex,
                ..m.containers@[k as int]
            }));
        }
    }

    /// Starts the popup `name` in `rect`: a window with the popup options.
    pub fn begin_popup(&mut self, style: &Style, name: &str, rect: Recti) -> (res: ResourceState)
        requires
            old(self).wf(),
            forall|opt: WidgetOption| opt@ == 1712u32 ==> #[trigger] old(self).window_fits(*style, name@, rect, opt),
        ensures
            final(self).wf(),
            exists|opt: WidgetOption| opt@ == 1712u32 && #[trigger] Self::window_begun(old(self), final(self), *style, name@, rect, opt, res),
    {
        let opt = popup_options();
        assert(old(self).window_fits(*style, name@, rect, opt));
        self.begin_window(style, name, rect, opt)
    }

    /// Ends the current popup, as `end_window` does.
    pub fn end_popup(&mut self)
        requires
            old(self).wf(),
            old(self).pop_fits(),
        ensures
            final(self).wf(),
            exists|m1: Self, m2: Self| {
                &&& #[trigger] Self::clip_popped(old(self), &m1)
                &&& #[trigger] Self::clip_popped(&m1, &m2)
                &&& Self::container_popped(&m2, final(self))
            },
    {
        self.end_window();
    }

    /// `new` is `old` with the id of the name `name` pushed.
    pub open spec fn id_pushed(old: &Self, new: &Self, name: Seq<char>) -> bool {
        let id = named_id(old.id_stack@, name);
        &&& new.id_stack@ == old.id_stack@.push(id)
        &&& *new == Context { id_stack: new.id_stack, last_id: Some(id), ..*old }
    }

    /// `new` is `old` once the panel `name` has its id pushed and its
    /// container slot `i` found.
    pub open spec fn panel_opened(old: &Self, new: &Self, name: Seq<char>, opt: WidgetOption, i: usize) -> bool {
        exists|m1: Self| {
            &&& #[trigger] Self::id_pushed(old, &m1, name)
            &&& Self::slot_for(&m1, new, named_id(old.id_stack@, name), opt@, Some(i))
        }
    }

    /// `new` is `old` once the panel `i` takes the next cell `rect` of the
    /// current container: it joins the root list and lies one above the
    /// current container.
    pub open spec fn panel_placed(old: &Self, new: &Self, style: Style, i: usize, rect: Recti) -> bool {
        let p = old.cur().0 as int;
        exists|m3: Self| {
            &&& #[trigger] Self::next_cell_taken(old, &m3, style, rect)
            &&& new.root_list@ == m3.root_list@.push(ContRef(i))
            &&& new.containers@ == m3.containers@.update(i as int, Container {
                rect,
                zindex: (m3.containers@[p].zindex + 1) as i32,
                ..m3.containers@[i as int]
            })
            &&& *new == Context { root_list: new.root_list, containers: new.containers, ..m3 }
        }
    }

    /// `new` is `old` after the frame of the panel `rect` in the current
    /// container, unless `opt` has `NO_FRAME`.
    pub open spec fn panel_framed(old: &Self, new: &Self, style: Style, rect: Recti, opt: WidgetOption) -> bool {
        if opt@ & 8 == 0 {
            Self::appended(old, new, old.cur(), frame_cmds(old.clip(), style, rect, ControlColor::PanelBG))
        } else {
            *new == *old
        }
    }

    /// `new` is `old` with the container `i` pushed.
    pub open spec fn container_entered(old: &Self, new: &Self, i: usize) -> bool {
        &&& new.container_stack@ == old.container_stack@.push(ContRef(i))
        &&& *new == Context { container_stack: new.container_stack, ..*old }
    }

    /// `new` is `old`, where the panel has its slot `i`, after the rest of
    /// `begin_panel_ex`: placed, framed, entered, its body set up and clipped.
    pub open spec fn panel_rest_done(old: &Self, new: &Self, style: Style, i: usize, opt: WidgetOption) -> bool {
        let rect = next_cell_of(old.containers@[old.cur().0 as int].layouts().last(), style);
        exists|m4: Self, m5: Self, m6: Self, m7: Self| {
            &&& #[trigger] Self::panel_placed(old, &m4, style, i, rect)
            &&& #[trigger] Self::panel_framed(&m4, &m5, style, rect, opt)
            &&& #[trigger] Self::container_entered(&m5, &m6, i)
            &&& #[trigger] Self::container_body_pushed(&m6, &m7, style, rect, opt)
            &&& Self::body_clipped(&m7, new, i)
        }
    }

    /// The rest of `begin_panel_ex` runs without overflow from the state where
    /// the panel has its slot `i`, whatever state each step leaves.
    pub open spec fn panel_rest_fits(&self, style: Style, i: usize, opt: WidgetOption) -> bool {
        let p = self.cur().0 as int;
        let rect = next_cell_of(self.containers@[p].layouts().last(), style);
        &&& self.containers@[p].layouts().len() > 0
        &&& next_fits(self.containers@[p].layouts().last(), style)
        &&& in_i32(self.containers@[p].zindex + 1)
        &&& rect_corner_fits(rect)
        &&& rect_corner_fits(self.clip())
        &&& (opt@ & 8 == 0 ==> frame_fits(rect))
        &&& forall|m4: Self, m5: Self, m6: Self| #[trigger] Self::panel_placed(self, &m4, style, i, rect)
            && #[trigger] Self::panel_framed(&m4, &m5, style, rect, opt) && #[trigger] Self::container_entered(&m5, &m6, i)
            ==> m6.container_body_fits(style, rect, opt)
        &&& forall|m4: Self, m5: Self, m6: Self, m7: Self| #[trigger] Self::panel_placed(self, &m4, style, i, rect)
            && #[trigger] Self::panel_framed(&m4, &m5, style, rect, opt) && #[trigger] Self::container_entered(&m5, &m6, i)
            && #[trigger] Self::container_body_pushed(&m6, &m7, style, rect, opt)
            ==> rect_corner_fits(m7.containers@[i as int].body) && rect_corner_fits(m7.clip())
    }

    /// `begin_panel_ex` runs without overflow: the panel finds a slot, and
    /// the rest runs from every state that leaves.
    pub open spec fn panel_fits(&self, style: Style, name: Seq<char>, opt: WidgetOption) -> bool {
        let id = named_id(self.id_stack@, name);
        &&& self.container_stack@.len() > 0
        &&& self.clip_stack@.len() > 0
        &&& (spec_pool_get(self.container_pool.items(), id) is None ==> {
            &&& opt@ & 1024 == 0
            &&& has_stale_slot(self.container_pool.items(), self.frame)
            &&& self.last_zindex + 128 <= i32::MAX
        })
        &&& forall|m2: Self, i: usize| #[trigger] Self::panel_opened(self, &m2, name, opt, i)
            ==> m2.panel_rest_fits(style, i, opt)
    }

    /// The rest of `begin_panel_ex` once the panel has its slot `i`.
    #[verifier::spinoff_prover]
    #[verifier::rlimit(80)]
    fn panel_rest(&mut self, style: &Style, i: usize, opt: WidgetOption)
        requires
            old(self).wf(),
            old(self).container_stack@.len() > 0,
            old(self).clip_stack@.len() > 0,
            i < CONTAINER_COUNT,
            old(self).panel_rest_fits(*style, i, opt),
        ensures
            final(self).wf(),
            Self::panel_rest_done(old(self), final(self), *style, i, opt),
    {
        let ghost m2 = *self;
        let p = self.get_current_container().0;
        let rect = self.next_cell(style);
        let ghost m3 = *self;
        self.root_list.push(ContRef(i));
        let zindex = self.containers[p].zindex + 1;
        self.containers[i].rect = rect;
        self.containers[i].zindex = zindex;
        let ghost m4 = *self;
        proof {
            assert forall|c: int, j: int| 0 <= c < CONTAINER_COUNT && 0 <= j < self.containers@[c].commands@.len()
                implies command_text_ok(#[trigger] self.containers@[c].commands@[j], self.text_stack@.len()) by {
                assert(self.containers@[c].commands@ == m3.containers@[c].commands@);
            }
            assert forall|k: int| 0 <= k < self.root_list@.len() implies crate::ui::context::cref_ok(#[trigger] self.root_list@[k]) by {
                if k < m3.root_list@.len() {
                    assert(self.root_list@[k] == m3.root_list@[k]);
                }
            }
            assert(self.containers@ =~= m3.containers@.update(i as int, Container {
                rect,
                zindex: (m3.containers@[p as int].zindex + 1) as i32,
                ..m3.containers@[i as int]
            }));
            assert(Self::panel_placed(&m2, &m4, *style, i, rect));
        }
        if !opt.has_no_frame() {
            self.draw_frame(style, rect, ControlColor::PanelBG);
        }
        let ghost m5 = *self;
        proof {
            assert(Self::panel_framed(&m4, &m5, *style, rect, opt));
        }
        self.container_stack.push(ContRef(i));
        let ghost m6 = *self;
        proof {
            assert forall|k: int| 0 <= k < self.container_stack@.len() implies crate::ui::context::cref_ok(#[trigger] self.container_stack@[k]) by {
                if k < m5.container_stack@.len() {
                    assert(self.container_stack@[k] == m5.container_stack@[k]);
                }
            }
            assert(Self::container_entered(&m5, &m6, i));
            assert(m6.container_body_fits(*style, rect, opt));
        }
        self.push_container_body(style, i, rect, opt);
        let ghost m7 = *self;
        proof {
            assert(rect_corner_fits(m7.containers@[i as int].body) && rect_corner_fits(m7.clip()));
        }
        let b = self.containers[i].body;
        let _ = self.push_clip_rect(b);
        proof {
            assert(Self::body_clipped(&m7, self, i));
        }
    }

    /// Starts the panel `name` in the next cell of the current container:
    /// its id is pushed, its slot found, then `panel_rest_done` says the rest.
    pub fn begin_panel_ex(&mut self, style: &Style, name: &str, opt: WidgetOption)
        requires
            old(self).wf(),
            old(self).panel_fits(*style, name@, opt),
        ensures
            final(self).wf(),
            exists|m2: Self, i: usize| {
                &&& #[trigger] Self::panel_opened(old(self), &m2, name@, opt, i)
                &&& Self::panel_rest_done(&m2, final(self), *style, i, opt)
            },
    {
        let ghost s0 = *self;
        self.push_id_from_str(name);
        let ghost m1 = *self;
        let id = match self.last_id {
            Some(id) => id,
            None => {
                return;
            },
        };
        proof {
            crate::ui::pool::lemma_id_of_hash(id);
            assert(Self::id_pushed(&s0, &m1, name@));
            assert forall|k: int| 0 <= k < self.container_stack@.len() implies crate::ui::context::cref_ok(#[trigger] self.container_stack@[k]) by {
                assert(self.container_stack@[k] == s0.container_stack@[k]);
            }
        }
        let cnt_id = self.get_container_index_intern(id, opt);
        let ghost m2 = *self;
        let i = match cnt_id {
            Some(i) => i,
            None => {
                return;
            },
        };
        proof {
            assert(Self::panel_opened(&s0, &m2, name@, opt, i));
            assert(m2.panel_rest_fits(*style, i, opt));
        }
        self.panel_rest(style, i, opt);
    }

    /// Ends the current panel: the clip rectangle of its body, then the container.
    pub fn end_panel(&mut self)
        requires
            old(self).wf(),
            old(self).pop_fits(),
        ensures
            final(self).wf(),
            exists|m: Self| #[trigger] Self::clip_popped(old(self), &m) && Self::container_popped(&m, final(self)),
    {
        self.pop_clip_rect();
        let ghost m = *self;
        self.pop_container();
        assert(Self::clip_popped(old(self), &m));
    }
}

} // verus!
