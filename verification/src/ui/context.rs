//! The UI context: input state, focus and hover tracking, id and clip
//! stacks, containers with their layouts and draw commands.

use vstd::prelude::*;
use crate::geometry::{
    Vec2i, Recti, Color4b, vec2, expand_rect, rect_overlaps_vec2, spec_intersect, spec_expand_rect,
    spec_rect_overlaps, rect_corner_fits, max_i, min_i, div_trunc,
};
use crate::ui::flags::{MouseButton, KeyModifier, WidgetOption, ResourceState};
use crate::ui::style::{FontId, Style};
use crate::ui::layout::{
    Layout, LayoutStack, in_i32, next_fits, next_cell_of, next_layout_of, is_fresh_layout, is_row_of, merged_column,
    merge_fits, MAX_WIDTHS,
};
use crate::ui::pool::{
    Id, ContRef, Pool, PoolItem, hash_u32, hash_str, hash_step, root_id, spec_hash_seq, spec_be_bytes,
    spec_char_codes, spec_pool_get, has_stale_slot, is_alloc_slot, HASH_SEED,
};
use crate::ui::num::{string_push, string_push_str};
use crate::ui::text::{measure_text_width, measure_text_height, spec_text_width, spec_text_height};

verus! {

/// Number of containers a context has.
pub const CONTAINER_COUNT: usize = 48;

/// The rectangle that clips nothing.
pub open spec fn unclipped_rect() -> Recti {
    Recti { x: 0, y: 0, width: 0x1000000, height: 0x1000000 }
}

/// The icons of the atlas.
#[derive(Clone, Copy, Debug, PartialEq, Eq, Structural)]
pub enum Icon {
    Close,
    Check,
    Plus,
    Minus,
}

/// How much of a rectangle lies outside the clip rectangle.
#[derive(Clone, Copy, Debug, PartialEq, Eq, Structural)]
pub enum Clip {
    NoClip,
    Part,
    All,
}

/// The colors of the style's color table.
#[derive(Clone, Copy, Debug, PartialEq, Eq, Structural)]
pub enum ControlColor {
    Max,
    ScrollThumb,
    ScrollBase,
    BaseFocus,
    BaseHover,
    Base,
    ButtonFocus,
    ButtonHover,
    Button,
    PanelBG,
    TitleText,
    TitleBG,
    WindowBG,
    Border,
    Text,
}

pub open spec fn spec_color_index(c: ControlColor) -> usize {
    match c {
        ControlColor::Max => 14,
        ControlColor::ScrollThumb => 13,
        ControlColor::ScrollBase => 12,
        ControlColor::BaseFocus => 11,
        ControlColor::BaseHover => 10,
        ControlColor::Base => 9,
        ControlColor::ButtonFocus => 8,
        ControlColor::ButtonHover => 7,
        ControlColor::Button => 6,
        ControlColor::PanelBG => 5,
        ControlColor::TitleText => 4,
        ControlColor::TitleBG => 3,
        ControlColor::WindowBG => 2,
        ControlColor::Border => 1,
        ControlColor::Text => 0,
    }
}

/// The color a control takes when the mouse is over it.
pub open spec fn spec_hover(c: ControlColor) -> ControlColor {
    match c {
        ControlColor::Base => ControlColor::BaseHover,
        ControlColor::Button => ControlColor::ButtonHover,
        _ => c,
    }
}

/// The color a control takes when it has the focus.
pub open spec fn spec_focus(c: ControlColor) -> ControlColor {
    match c {
        ControlColor::Base => ControlColor::BaseFocus,
        ControlColor::Button => ControlColor::ButtonFocus,
        ControlColor::BaseHover => ControlColor::BaseFocus,
        ControlColor::ButtonHover => ControlColor::ButtonFocus,
        _ => c,
    }
}

/// The number of an icon in the atlas.
pub open spec fn spec_icon_code(i: Icon) -> u32 {
    match i {
        Icon::Close => 1,
        Icon::Check => 2,
        Icon::Plus => 3,
        Icon::Minus => 4,
    }
}

impl Icon {
    /// The number of the icon in the atlas.
    pub fn code(&self) -> (r: u32)
        ensures
            r == spec_icon_code(*self),
    {
        match self {
            Icon::Close => 1,
            Icon::Check => 2,
            Icon::Plus => 3,
            Icon::Minus => 4,
        }
    }
}

impl ControlColor {
    /// The index of the color in the style's color table.
    pub fn index(&self) -> (r: usize)
        ensures
            r == spec_color_index(*self),
    {
        match self {
            ControlColor::Max => 14,
            ControlColor::ScrollThumb => 13,
            ControlColor::ScrollBase => 12,
            ControlColor::BaseFocus => 11,
            ControlColor::BaseHover => 10,
            ControlColor::Base => 9,
            ControlColor::ButtonFocus => 8,
            ControlColor::ButtonHover => 7,
            ControlColor::Button => 6,
            ControlColor::PanelBG => 5,
            ControlColor::TitleText => 4,
            ControlColor::TitleBG => 3,
            ControlColor::WindowBG => 2,
            ControlColor::Border => 1,
            ControlColor::Text => 0,
        }
    }

    pub fn hover(&mut self)
        ensures
            *final(self) == spec_hover(*old(self)),
    {
        *self = match *self {
            ControlColor::Base => ControlColor::BaseHover,
            ControlColor::Button => ControlColor::ButtonHover,
            c => c,
        }
    }

    pub fn focus(&mut self)
        ensures
            *final(self) == spec_focus(*old(self)),
    {
        *self = match *self {
            ControlColor::Base => ControlColor::BaseFocus,
            ControlColor::Button => ControlColor::ButtonFocus,
            ControlColor::BaseHover => ControlColor::BaseFocus,
            ControlColor::ButtonHover => ControlColor::ButtonFocus,
            c => c,
        }
    }
}

/// Focusing twice is focusing once, and focusing a hovered control gives the
/// same color as focusing it directly.
pub proof fn lemma_focus_absorbs(c: ControlColor)
    ensures
        spec_focus(spec_focus(c)) == spec_focus(c),
        spec_focus(spec_hover(c)) == spec_focus(c),
        spec_hover(spec_hover(c)) == spec_hover(c),
{
}

/// What a renderer back end offers the context: glyph metrics, a frame to
/// draw into, and the drawing primitives that the context's commands are
/// played back through.
pub trait RendererBackEnd<P> {
    fn get_char_width(&self, font: FontId, c: char) -> usize;

    fn get_font_height(&self, font: FontId) -> usize;

    fn begin_frame(&mut self, width: usize, height: usize);

    fn end_frame(&mut self) -> P;

    fn draw_rect(&mut self, rect: Recti, color: Color4b);

    fn draw_text(&mut self, font: FontId, text: &str, pos: Vec2i, color: Color4b);

    fn draw_icon(&mut self, id: Icon, r: Recti, color: Color4b);

    fn add_render_pass_commands(&mut self, commands: P);

    fn set_clip_rect(&mut self, rect: Recti);

    fn flush(&mut self);

    fn frame_size(&self) -> (usize, usize);
}

/// A draw command of a container. The text of a text command is the range
/// of characters `str_start .. str_start + str_len` of the frame's text buffer.
pub enum Command<P> {
    Clip { rect: Recti },
    Rect { rect: Recti, color: Color4b },
    Text { font: FontId, pos: Vec2i, color: Color4b, str_start: usize, str_len: usize },
    Icon { rect: Recti, id: Icon, color: Color4b },
    DirectRenderPassCommands { pass: P },
    NoCommand,
}

impl<P> Default for Command<P> {
    fn default() -> (r: Self)
        ensures
            r is NoCommand,
    {
        Command::NoCommand
    }
}

/// A window or panel: where it is, its scroll state, its layouts and the
/// commands drawn into it this frame.
pub struct Container<P> {
    pub rect: Recti,
    pub body: Recti,
    pub content_size: Vec2i,
    pub scroll: Vec2i,
    pub zindex: i32,
    pub open: bool,
    pub commands: Vec<Command<P>>,
    pub layout_stack: LayoutStack,
}

/// A container as it starts out: closed, empty and at the origin, with
/// no size, scroll, depth, commands or layouts.
pub open spec fn is_blank_container<P>(c: Container<P>) -> bool {
    &&& c.rect == (Recti { x: 0, y: 0, width: 0, height: 0 })
    &&& c.body == (Recti { x: 0, y: 0, width: 0, height: 0 })
    &&& c.content_size == (Vec2i { x: 0, y: 0 })
    &&& c.scroll == (Vec2i { x: 0, y: 0 })
    &&& c.zindex == 0
    &&& !c.open
    &&& c.commands@.len() == 0
    &&& c.layouts().len() == 0
    &&& c.last_cell() == (Recti { x: 0, y: 0, width: 0, height: 0 })
}

impl<P> Default for Container<P> {
    fn default() -> (r: Self)
        ensures
            is_blank_container(r),
    {
        Container {
            rect: Recti::new(0, 0, 0, 0),
            body: Recti::new(0, 0, 0, 0),
            content_size: vec2(0, 0),
            scroll: vec2(0, 0),
            zindex: 0,
            open: false,
            commands: Vec::new(),
            layout_stack: LayoutStack::new(),
        }
    }
}

impl<P> Container<P> {
    /// The layouts of the container, outermost first.
    pub open spec fn layouts(&self) -> Seq<Layout> {
        self.layout_stack.layouts()
    }

    /// The last cell its layouts handed out.
    pub open spec fn last_cell(&self) -> Recti {
        self.layout_stack.last()
    }

    /// The innermost layout.
    pub fn layout(&self) -> (l: &Layout)
        requires
            self.layouts().len() > 0,
        ensures
            *l == self.layouts().last(),
    {
        self.layout_stack.top()
    }

    /// Hands out the next cell of the innermost layout.
    pub fn next_cell(&mut self, style: &Style) -> (r: Recti)
        requires
            old(self).layouts().len() > 0,
            next_fits(old(self).layouts().last(), *style),
        ensures
            ({
                let s = old(self).layouts();
                let l = s.last();
                &&& r == next_cell_of(l, *style)
                &&& final(self).layouts() == s.update(s.len() - 1, next_layout_of(l, *style))
                &&& final(self).last_cell() == r
            }),
            *final(self) == (Container { layout_stack: final(self).layout_stack, ..*old(self) }),
    {
        self.layout_stack.next(style)
    }

    /// Starts a layout for the body `body`, moved by the container's scroll.
    pub fn push_rect_scroll(&mut self, body: Recti)
        requires
            old(self).layouts().len() < MAX_WIDTHS,
            in_i32(body.x - old(self).scroll.x),
            in_i32(body.y - old(self).scroll.y),
        ensures
            final(self).layouts().len() == old(self).layouts().len() + 1,
            final(self).layouts().drop_last() == old(self).layouts(),
            is_fresh_layout(final(self).layouts().last(), body, old(self).scroll),
            final(self).last_cell() == old(self).last_cell(),
            *final(self) == (Container { layout_stack: final(self).layout_stack, ..*old(self) }),
    {
        let scroll = self.scroll;
        self.layout_stack.push(body, scroll)
    }

    /// Starts a column in the next cell of the innermost layout.
    pub fn begin_column(&mut self, style: &Style)
        requires
            0 < old(self).layouts().len() < MAX_WIDTHS,
            next_fits(old(self).layouts().last(), *style),
        ensures
            ({
                let l = old(self).layouts().last();
                let n = old(self).layouts().len();
                let cell = next_cell_of(l, *style);
                &&& final(self).layouts().len() == n + 1
                &&& final(self).layouts().drop_last() == old(self).layouts().update(n - 1, next_layout_of(l, *style))
                &&& is_fresh_layout(final(self).layouts().last(), cell, Vec2i { x: 0, y: 0 })
                &&& final(self).last_cell() == cell
            }),
            *final(self) == (Container { layout_stack: final(self).layout_stack, ..*old(self) }),
    {
        self.layout_stack.begin_column(style)
    }

    /// Ends the innermost column; its parent moves on past it.
    pub fn end_column(&mut self)
        requires
            old(self).layouts().len() >= 2,
            merge_fits(old(self).layouts()[old(self).layouts().len() - 2], old(self).layouts().last()),
        ensures
            ({
                let s = old(self).layouts();
                let n = s.len();
                final(self).layouts() == s.drop_last().update(n - 2, merged_column(s[n - 2], s[n - 1]))
            }),
            final(self).last_cell() == old(self).last_cell(),
            *final(self) == (Container { layout_stack: final(self).layout_stack, ..*old(self) }),
    {
        self.layout_stack.end_column()
    }

    /// Starts a row of cells of the given widths and height.
    pub fn row_config(&mut self, widths: &[i32], height: i32)
        requires
            old(self).layouts().len() > 0,
            widths@.len() <= MAX_WIDTHS,
        ensures
            ({
                let s = old(self).layouts();
                let n = s.len();
                &&& final(self).layouts().len() == n
                &&& final(self).layouts().drop_last() == s.drop_last()
                &&& is_row_of(s[n - 1], final(self).layouts()[n - 1], widths@, height)
            }),
            final(self).last_cell() == old(self).last_cell(),
            *final(self) == (Container { layout_stack: final(self).layout_stack, ..*old(self) }),
    {
        self.layout_stack.row(widths, height)
    }

    /// The innermost layout, to change in place.
    pub fn layout_mut(&mut self) -> (l: &mut Layout)
        requires
            old(self).layouts().len() > 0,
        ensures
            *l == old(self).layouts().last(),
            final(self).layouts() == old(self).layouts().update(old(self).layouts().len() - 1, *final(l)),
            final(self).last_cell() == old(self).last_cell(),
            *final(self) == (Container { layout_stack: final(self).layout_stack, ..*old(self) }),
    {
        self.layout_stack.top_mut()
    }
}

/// Calls std's `String::clear`; trusted to leave `s` with no characters.
#[verifier::external_body]
pub(crate) fn string_clear(s: &mut String)
    ensures
        final(s)@ == Seq::<char>::empty(),
{
    s.clear()
}

/// The UI state of one frame loop: input, focus and hover, the id and clip
/// stacks, and the containers with their layouts and commands.
pub struct Context<P, R> {
    pub hover: Option<Id>,
    pub focus: Option<Id>,
    pub last_id: Option<Id>,
    pub last_zindex: i32,
    pub updated_focus: bool,
    pub frame: usize,
    pub hover_root: Option<ContRef>,
    pub next_hover_root: Option<ContRef>,
    pub scroll_target: Option<ContRef>,
    pub number_edit_buf: String,
    pub number_edit: Option<Id>,
    pub root_list: Vec<ContRef>,
    pub container_stack: Vec<ContRef>,
    pub clip_stack: Vec<Recti>,
    pub id_stack: Vec<Id>,
    pub text_stack: String,
    pub container_pool: Pool<48>,
    pub containers: Vec<Container<P>>,
    pub treenode_pool: Pool<48>,
    pub mouse_pos: Vec2i,
    pub last_mouse_pos: Vec2i,
    pub mouse_delta: Vec2i,
    pub scroll_delta: Vec2i,
    pub mouse_down: MouseButton,
    pub mouse_pressed: MouseButton,
    pub key_down: KeyModifier,
    pub key_pressed: KeyModifier,
    pub input_text: String,
    pub renderer: R,
}

/// `b` is `a` but for its commands, its layouts by their contents.
pub open spec fn same_container<P>(a: Container<P>, b: Container<P>) -> bool {
    &&& b.rect == a.rect
    &&& b.body == a.body
    &&& b.content_size == a.content_size
    &&& b.scroll == a.scroll
    &&& b.zindex == a.zindex
    &&& b.open == a.open
    &&& b.layouts() == a.layouts()
    &&& b.last_cell() == a.last_cell()
}

/// `c` names one of the containers.
pub open spec fn cref_ok(c: ContRef) -> bool {
    c.0 < CONTAINER_COUNT
}

pub open spec fn opt_cref_ok(c: Option<ContRef>) -> bool {
    c matches Some(r) ==> cref_ok(r)
}

/// The text range of a command lies in a text buffer of `len` characters.
pub open spec fn command_text_ok<P>(c: Command<P>, len: nat) -> bool {
    c matches Command::Text { str_start, str_len, .. } ==> str_start + str_len <= len
}

/// The seed of the next id: the innermost id on the id stack, or the hash seed.
pub open spec fn id_base(ids: Seq<Id>) -> u32 {
    if ids.len() > 0 { ids.last()@ } else { HASH_SEED }
}

/// One thing that painting hands the back end: what a command says, with a
/// text command's text read out of the frame's text buffer.
pub enum PaintOp<P> {
    Clip { rect: Recti },
    Rect { rect: Recti, color: Color4b },
    Text { font: FontId, text: String, pos: Vec2i, color: Color4b },
    Icon { rect: Recti, id: Icon, color: Color4b },
    Pass { pass: P },
    Skip,
}

/// `op` is what painting hands on for `cmd`, with the text buffer `buf`.
pub open spec fn paints_as<P>(op: PaintOp<P>, cmd: Command<P>, buf: Seq<char>) -> bool {
    match cmd {
        Command::Clip { rect } => op == PaintOp::<P>::Clip { rect },
        Command::Rect { rect, color } => op == PaintOp::<P>::Rect { rect, color },
        Command::Text { font, pos, color, str_start, str_len } => {
            &&& op matches PaintOp::Text { font: f, text, pos: p, color: c }
            &&& f == font && p == pos && c == color
            &&& text@ == buf.subrange(str_start as int, str_start + str_len)
        },
        Command::Icon { rect, id, color } => op == PaintOp::<P>::Icon { rect, id, color },
        Command::DirectRenderPassCommands { pass } => op == PaintOp::Pass { pass },
        Command::NoCommand => op is Skip,
    }
}

/// The commands that painting the root containers `roots` plays, in order:
/// each root's commands in the order they were recorded, a root listed a
/// second time giving none, as its commands were used up the first time.
pub open spec fn painted_commands<P>(roots: Seq<ContRef>, cs: Seq<Container<P>>) -> Seq<Command<P>>
    decreases roots.len(),
{
    if roots.len() == 0 {
        Seq::empty()
    } else {
        let prev = roots.drop_last();
        painted_commands(prev, cs) + (if prev.contains(roots.last()) {
            Seq::empty()
        } else {
            cs[roots.last().0 as int].commands@
        })
    }
}

/// What painting hands the back end for `cmd`, with the text buffer `buf`.
pub fn paint_op<P>(cmd: Command<P>, buf: &str) -> (op: PaintOp<P>)
    requires
        command_text_ok(cmd, buf@.len()),
    ensures
        paints_as(op, cmd, buf@),
{
    match cmd {
        Command::Text { font, pos, color, str_start, str_len } => {
            let n = buf.unicode_len();
            assert(str_start + str_len <= n);
            let text = buf.substring_char(str_start, str_start + str_len).to_owned();
            PaintOp::Text { font, text, pos, color }
        },
        Command::Rect { rect, color } => PaintOp::Rect { rect, color },
        Command::Icon { rect, id, color } => PaintOp::Icon { rect, id, color },
        Command::Clip { rect } => PaintOp::Clip { rect },
        Command::DirectRenderPassCommands { pass } => PaintOp::Pass { pass },
        Command::NoCommand => PaintOp::Skip,
    }
}

/// How much of `r` the clip rectangle `cr` cuts away: all of it where they
/// do not touch, nothing where `r` lies inside.
pub open spec fn spec_check_clip(cr: Recti, r: Recti) -> Clip {
    if r.x > cr.x + cr.width || r.x + r.width < cr.x || r.y > cr.y + cr.height || r.y + r.height < cr.y {
        Clip::All
    } else if r.x >= cr.x && r.x + r.width <= cr.x + cr.width && r.y >= cr.y && r.y + r.height <= cr.y + cr.height {
        Clip::NoClip
    } else {
        Clip::Part
    }
}

/// The command that draws `rect` cut to `clip`, if they touch.
pub open spec fn rect_cmds<P>(clip: Recti, rect: Recti, color: Color4b) -> Seq<Command<P>> {
    match spec_intersect(rect, clip) {
        Some(i) => seq![Command::Rect { rect: i, color }],
        None => Seq::empty(),
    }
}

/// The outline of `r` takes no overflowing coordinate.
pub open spec fn box_fits(r: Recti) -> bool {
    &&& in_i32(r.x + 1)
    &&& in_i32(r.width - 2)
    &&& in_i32(r.x + r.width)
    &&& in_i32(r.x + r.width - 1)
    &&& in_i32(r.y + 1)
    &&& in_i32(r.y + r.height)
    &&& in_i32(r.y + r.height - 1)
}

/// The commands that draw the four edges of `r`: top, bottom, left, right.
pub open spec fn box_cmds<P>(clip: Recti, r: Recti, color: Color4b) -> Seq<Command<P>> {
    rect_cmds(clip, Recti { x: (r.x + 1) as i32, y: r.y, width: (r.width - 2) as i32, height: 1 }, color)
        + rect_cmds(clip, Recti { x: (r.x + 1) as i32, y: (r.y + r.height - 1) as i32, width: (r.width - 2) as i32, height: 1 }, color)
        + rect_cmds(clip, Recti { x: r.x, y: r.y, width: 1, height: r.height }, color)
        + rect_cmds(clip, Recti { x: (r.x + r.width - 1) as i32, y: r.y, width: 1, height: r.height }, color)
}

/// The command `cmd` for the area `rect`: dropped where the clip rectangle
/// hides it all, wrapped in a clip to `clip` and back where it cuts part of it.
pub open spec fn clipped_cmds<P>(clip: Recti, rect: Recti, cmd: Command<P>) -> Seq<Command<P>> {
    match spec_check_clip(clip, rect) {
        Clip::All => Seq::empty(),
        Clip::Part => seq![Command::Clip { rect: clip }, cmd, Command::Clip { rect: unclipped_rect() }],
        Clip::NoClip => seq![cmd],
    }
}

/// The frame of `rect` grows by one pixel for its outline without overflow.
pub open spec fn frame_fits(rect: Recti) -> bool {
    &&& in_i32(rect.x - 1)
    &&& in_i32(rect.y - 1)
    &&& in_i32(rect.width + 2)
    &&& in_i32(rect.height + 2)
    &&& box_fits(spec_expand_rect(rect, 1))
}

/// The commands of a control frame: its area, then its outline in the
/// border color unless the border is transparent or the color is that of a
/// scroll bar or title bar.
pub open spec fn frame_cmds<P>(clip: Recti, style: Style, rect: Recti, colorid: ControlColor) -> Seq<Command<P>> {
    let area = rect_cmds(clip, rect, style.colors@[spec_color_index(colorid) as int]);
    if colorid == ControlColor::ScrollBase || colorid == ControlColor::ScrollThumb || colorid == ControlColor::TitleBG
        || style.colors@[1].w == 0 {
        area
    } else {
        area + box_cmds(clip, spec_expand_rect(rect, 1), style.colors@[1])
    }
}

/// The color a control `id` is drawn in: its focus color when focused, its
/// hover color when hovered.
pub open spec fn control_color(focus: Option<Id>, hover: Option<Id>, id: Id, c: ControlColor) -> ControlColor {
    if focus == Some(id) { spec_focus(c) } else if hover == Some(id) { spec_hover(c) } else { c }
}

/// The commands of a control frame for the control `id` in `rect`: none
/// with `NO_FRAME`, else the frame in the control's focus or hover color.
pub open spec fn control_frame_cmds<P>(
    clip: Recti,
    style: Style,
    rect: Recti,
    focus: Option<Id>,
    hover: Option<Id>,
    id: Id,
    colorid: ControlColor,
    opt: u32,
) -> Seq<Command<P>> {
    if opt & 8 != 0 {
        Seq::empty()
    } else {
        frame_cmds(clip, style, rect, control_color(focus, hover, id, colorid))
    }
}

/// Hover, focus and the focus-updated flag after `update_control` for the
/// control `id`, from their values before, whether the mouse is over the
/// control, whether no button is down, whether no button was pressed this
/// frame, and the `NO_INTERACT` and `HOLD_FOCUS` options.
pub open spec fn update_control_spec(
    hover: Option<Id>,
    focus: Option<Id>,
    updated: bool,
    id: Id,
    mouseover: bool,
    down_empty: bool,
    pressed_empty: bool,
    no_interact: bool,
    hold_focus: bool,
) -> (Option<Id>, Option<Id>, bool) {
    let updated1 = if focus == Some(id) { true } else { updated };
    if no_interact {
        (hover, focus, updated1)
    } else {
        let hover2 = if mouseover && down_empty { Some(id) } else { hover };
        let (focus3, updated3) = if focus == Some(id) {
            let (f, u) = if !pressed_empty && !mouseover { (None, true) } else { (focus, updated1) };
            if down_empty && !hold_focus { (None, true) } else { (f, u) }
        } else {
            (focus, updated1)
        };
        if hover2 == Some(id) {
            if !pressed_empty {
                (hover2, Some(id), true)
            } else if !mouseover {
                (None, focus3, updated3)
            } else {
                (hover2, focus3, updated3)
            }
        } else {
            (hover2, focus3, updated3)
        }
    }
}

/// The bytes of `v`, least significant first.
pub open spec fn spec_le_bytes(v: usize) -> Seq<u32> {
    Seq::new((usize::BITS / 8) as nat, |k: int| ((v >> (8 * k) as usize) & 0xffusize) as u32)
}

/// Where a control draws its label of `tw` by `th` pixels in `rect`: centred
/// vertically, and centred, right-aligned or left-aligned with padding.
pub open spec fn control_text_pos(style: Style, rect: Recti, opt: u32, tw: int, th: int) -> (int, int) {
    let y = rect.y + div_trunc(rect.height - th, 2);
    let x = if opt & 1 != 0 {
        rect.x + div_trunc(rect.width - tw, 2)
    } else if opt & 2 != 0 {
        rect.x + rect.width - tw - style.padding
    } else {
        rect.x + style.padding
    };
    (x, y)
}

/// The label position of a control takes no overflowing step, and the
/// label's rectangle fits.
pub open spec fn control_text_fits(style: Style, rect: Recti, opt: u32, tw: int, th: int) -> bool {
    let p = control_text_pos(style, rect, opt, tw, th);
    &&& in_i32(rect.height - th)
    &&& (opt & 1 != 0 ==> in_i32(rect.width - tw))
    &&& (opt & 1 == 0 && opt & 2 != 0 ==> in_i32(rect.x + rect.width - tw))
    &&& in_i32(p.0)
    &&& in_i32(p.1)
    &&& rect_corner_fits(Recti { x: p.0 as i32, y: p.1 as i32, width: tw as i32, height: th as i32 })
}

/// Whether a label of `tw` by `th` pixels can be placed in `rect` without
/// an overflowing step.
pub fn control_text_fits_exec(style: &Style, rect: Recti, opt: WidgetOption, tw: i32, th: i32) -> (b: bool)
    ensures
        b == control_text_fits(*style, rect, opt@, tw as int, th as int),
{
    let lo = i32::MIN as i64;
    let hi = i32::MAX as i64;
    let dh = rect.height as i64 - th as i64;
    if dh < lo || dh > hi {
        return false;
    }
    let y = rect.y as i64 + dh / 2;
    let x: i64 = if opt.is_aligned_center() {
        let dw = rect.width as i64 - tw as i64;
        if dw < lo || dw > hi {
            return false;
        }
        rect.x as i64 + dw / 2
    } else if opt.is_aligned_right() {
        let r = rect.x as i64 + rect.width as i64 - tw as i64;
        if r < lo || r > hi {
            return false;
        }
        r - style.padding as i64
    } else {
        rect.x as i64 + style.padding as i64
    };
    if x < lo || x > hi || y < lo || y > hi {
        return false;
    }
    let x1 = x + tw as i64;
    let y1 = y + th as i64;
    lo <= x1 && x1 <= hi && lo <= y1 && y1 <= hi
}

/// The command that draws the text of `len` characters that starts at the
/// character `start` of the text buffer.
pub open spec fn text_cmd<P>(font: FontId, pos: Vec2i, color: Color4b, start: nat, len: nat) -> Command<P> {
    Command::Text { font, pos, color, str_start: start as usize, str_len: len as usize }
}

/// The z-order of the root containers `roots` never goes down.
pub open spec fn sorted_by_zindex<P>(roots: Seq<ContRef>, cs: Seq<Container<P>>) -> bool {
    forall|a: int, b: int| 0 <= a < b < roots.len()
        ==> cs[roots[a].0 as int].zindex <= cs[roots[b].0 as int].zindex
}

impl<P, R: RendererBackEnd<P>> Context<P, R> {
    /// Every container reference points at one of the containers, the pools
    /// have their slots, and every text command reads inside the text buffer.
    pub open spec fn wf(&self) -> bool {
        &&& self.containers@.len() == CONTAINER_COUNT
        &&& self.container_pool.items().len() == CONTAINER_COUNT
        &&& self.treenode_pool.items().len() == CONTAINER_COUNT
        &&& forall|i: int| 0 <= i < self.container_stack@.len() ==> cref_ok(#[trigger] self.container_stack@[i])
        &&& forall|i: int| 0 <= i < self.root_list@.len() ==> cref_ok(#[trigger] self.root_list@[i])
        &&& opt_cref_ok(self.hover_root)
        &&& opt_cref_ok(self.next_hover_root)
        &&& opt_cref_ok(self.scroll_target)
        &&& forall|c: int, k: int| 0 <= c < CONTAINER_COUNT && 0 <= k < self.containers@[c].commands@.len()
            ==> command_text_ok(#[trigger] self.containers@[c].commands@[k], self.text_stack@.len())
    }

    /// The container on top of the container stack.
    pub open spec fn cur(&self) -> ContRef {
        self.container_stack@.last()
    }

    /// The innermost clip rectangle.
    pub open spec fn clip(&self) -> Recti {
        self.clip_stack@.last()
    }

    pub fn new(renderer: R) -> (r: Self)
        ensures
            r.wf(),
            r.hover is None && r.focus is None && r.last_id is None,
            r.last_zindex == 0 && !r.updated_focus && r.frame == 0,
            r.hover_root is None && r.next_hover_root is None && r.scroll_target is None,
            r.number_edit is None && r.number_edit_buf@.len() == 0,
            r.root_list@.len() == 0 && r.container_stack@.len() == 0,
            r.clip_stack@.len() == 0 && r.id_stack@.len() == 0,
            r.text_stack@.len() == 0 && r.input_text@.len() == 0,
            forall|i: int| 0 <= i < CONTAINER_COUNT ==> (#[trigger] r.container_pool.items()[i]).last_update == 0
                && r.container_pool.items()[i].id@ == 0,
            forall|i: int| 0 <= i < CONTAINER_COUNT ==> (#[trigger] r.treenode_pool.items()[i]).last_update == 0
                && r.treenode_pool.items()[i].id@ == 0,
            forall|i: int| 0 <= i < CONTAINER_COUNT ==> is_blank_container(#[trigger] r.containers@[i]),
            r.mouse_pos == (Vec2i { x: 0, y: 0 }) && r.last_mouse_pos == (Vec2i { x: 0, y: 0 }),
            r.mouse_delta == (Vec2i { x: 0, y: 0 }) && r.scroll_delta == (Vec2i { x: 0, y: 0 }),
            r.mouse_down@ == 0 && r.mouse_pressed@ == 0 && r.key_down@ == 0 && r.key_pressed@ == 0,
            r.renderer == renderer,
    {
        let mut containers: Vec<Container<P>> = Vec::new();
        let mut i: usize = 0;
        while i < CONTAINER_COUNT
            invariant
                i <= CONTAINER_COUNT,
                containers@.len() == i,
                forall|k: int| 0 <= k < i ==> is_blank_container(#[trigger] containers@[k]),
            decreases CONTAINER_COUNT - i,
        {
            containers.push(Container::default());
            i += 1;
        }
        Self {
            hover: None,
            focus: None,
            last_id: None,
            last_zindex: 0,
            updated_focus: false,
            frame: 0,
            hover_root: None,
            next_hover_root: None,
            scroll_target: None,
            number_edit_buf: String::new(),
            number_edit: None,
            root_list: Vec::new(),
            container_stack: Vec::new(),
            clip_stack: Vec::new(),
            id_stack: Vec::new(),
            text_stack: String::new(),
            container_pool: Pool::default(),
            containers,
            treenode_pool: Pool::default(),
            mouse_pos: vec2(0, 0),
            last_mouse_pos: vec2(0, 0),
            mouse_delta: vec2(0, 0),
            scroll_delta: vec2(0, 0),
            mouse_down: MouseButton::NONE(),
            mouse_pressed: MouseButton::NONE(),
            key_down: KeyModifier::NONE(),
            key_pressed: KeyModifier::NONE(),
            input_text: String::new(),
            renderer,
        }
    }

    pub fn set_focus(&mut self, id: Option<Id>)
        ensures
            *final(self) == (Context { focus: id, updated_focus: true, ..*old(self) }),
    {
        self.focus = id;
        self.updated_focus = true;
    }

    /// The id for the number `orig_id` under the innermost id; it becomes the last id.
    pub fn get_id_u32(&mut self, orig_id: u32) -> (r: Id)
        ensures
            r@ == spec_hash_seq(id_base(old(self).id_stack@), spec_be_bytes(orig_id)),
            *final(self) == (Context { last_id: Some(r), ..*old(self) }),
    {
        let mut res: Id = match self.id_stack.last() {
            Some(id) => *id,
            None => root_id(),
        };
        hash_u32(&mut res, orig_id);
        self.last_id = Some(res);
        return res;
    }

    /// The id for the address `addr` under the innermost id; it becomes the last id.
    pub fn get_id_from_addr(&mut self, addr: usize) -> (r: Id)
        ensures
            r@ == spec_hash_seq(id_base(old(self).id_stack@), spec_le_bytes(addr)),
            *final(self) == (Context { last_id: Some(r), ..*old(self) }),
    {
        let mut res: Id = match self.id_stack.last() {
            Some(id) => *id,
            None => root_id(),
        };
        let ghost bytes = spec_le_bytes(addr);
        let ghost h0 = res@;
        let n: usize = (usize::BITS / 8) as usize;
        let mut k: usize = 0;
        while k < n
            invariant
                k <= n,
                n == usize::BITS / 8,
                bytes == spec_le_bytes(addr),
                bytes.len() == n,
                res@ == spec_hash_seq(h0, bytes.take(k as int)),
            decreases n - k,
        {
            let b = ((addr >> (8 * k)) & 0xff) as u32;
            proof {
                assert(bytes[k as int] == b);
                assert(bytes.take(k as int).push(b) =~= bytes.take(k + 1));
                assert(bytes.take(k + 1).drop_last() =~= bytes.take(k as int));
            }
            res = crate::ui::pool::id_from_hash_step(res, b);
            k += 1;
        }
        assert(bytes.take(n as int) =~= bytes);
        self.last_id = Some(res);
        return res;
    }

    /// The id for the name `s` under the innermost id; it becomes the last id.
    pub fn get_id_from_str(&mut self, s: &str) -> (r: Id)
        ensures
            r@ == spec_hash_seq(id_base(old(self).id_stack@), spec_char_codes(s@)),
            *final(self) == (Context { last_id: Some(r), ..*old(self) }),
    {
        let mut res: Id = match self.id_stack.last() {
            Some(id) => *id,
            None => root_id(),
        };
        hash_str(&mut res, s);
        self.last_id = Some(res);
        return res;
    }

    /// Pushes the id for the address `addr`.
    pub fn push_id_from_addr(&mut self, addr: usize)
        ensures
            final(self).last_id is Some,
            final(self).id_stack@ == old(self).id_stack@.push(
                final(self).last_id.unwrap(),
            ),
            final(self).last_id.unwrap()@ == spec_hash_seq(id_base(old(self).id_stack@), spec_le_bytes(addr)),
            *final(self) == (Context { id_stack: final(self).id_stack, last_id: final(self).last_id, ..*old(self) }),
    {
        let id = self.get_id_from_addr(addr);
        self.id_stack.push(id);
    }

    /// Pushes the id for the name `s`.
    pub fn push_id_from_str(&mut self, s: &str)
        ensures
            final(self).last_id is Some,
            final(self).id_stack@ == old(self).id_stack@.push(final(self).last_id.unwrap()),
            final(self).last_id.unwrap()@ == spec_hash_seq(id_base(old(self).id_stack@), spec_char_codes(s@)),
            *final(self) == (Context { id_stack: final(self).id_stack, last_id: final(self).last_id, ..*old(self) }),
    {
        let id = self.get_id_from_str(s);
        self.id_stack.push(id);
    }

    /// Pops the innermost id; does nothing on an empty stack.
    pub fn pop_id(&mut self)
        ensures
            final(self).id_stack@ == (if old(self).id_stack@.len() > 0 {
                old(self).id_stack@.drop_last()
            } else {
                old(self).id_stack@
            }),
            *final(self) == (Context { id_stack: final(self).id_stack, ..*old(self) }),
    {
        self.id_stack.pop();
    }

    /// Everything but the containers and the text buffer is as in `old`, the
    /// lists and strings by their contents.
    pub open spec fn same_state(old: &Self, new: &Self) -> bool {
        &&& Self::same_state_but_clip(old, new)
        &&& new.clip_stack@ == old.clip_stack@
    }

    /// Everything but the containers, the text buffer and the clip stack is
    /// as in `old`, the lists and strings by their contents.
    pub open spec fn same_state_but_clip(old: &Self, new: &Self) -> bool {
        &&& new.hover == old.hover
        &&& new.focus == old.focus
        &&& new.last_id == old.last_id
        &&& new.last_zindex == old.last_zindex
        &&& new.updated_focus == old.updated_focus
        &&& new.frame == old.frame
        &&& new.hover_root == old.hover_root
        &&& new.next_hover_root == old.next_hover_root
        &&& new.scroll_target == old.scroll_target
        &&& new.number_edit == old.number_edit
        &&& new.number_edit_buf@ == old.number_edit_buf@
        &&& new.root_list@ == old.root_list@
        &&& new.container_stack@ == old.container_stack@
        &&& new.id_stack@ == old.id_stack@
        &&& new.container_pool == old.container_pool
        &&& new.treenode_pool == old.treenode_pool
        &&& new.mouse_pos == old.mouse_pos
        &&& new.last_mouse_pos == old.last_mouse_pos
        &&& new.mouse_delta == old.mouse_delta
        &&& new.scroll_delta == old.scroll_delta
        &&& new.mouse_down == old.mouse_down
        &&& new.mouse_pressed == old.mouse_pressed
        &&& new.key_down == old.key_down
        &&& new.key_pressed == old.key_pressed
        &&& new.input_text@ == old.input_text@
        &&& new.renderer == old.renderer
    }

    /// The containers of `new` are those of `old` but for their commands.
    pub open spec fn same_containers(old: &Self, new: &Self) -> bool {
        &&& new.containers@.len() == old.containers@.len()
        &&& forall|i: int| 0 <= i < old.containers@.len() ==> same_container(#[trigger] old.containers@[i], new.containers@[i])
    }

    /// `new` is `old` with the commands `cmds` appended to the container `c`;
    /// the text buffer is left out.
    pub open spec fn added(old: &Self, new: &Self, c: ContRef, cmds: Seq<Command<P>>) -> bool {
        &&& Self::same_state(old, new)
        &&& Self::same_containers(old, new)
        &&& new.containers@[c.0 as int].commands@ == old.containers@[c.0 as int].commands@ + cmds
        &&& forall|i: int| 0 <= i < old.containers@.len() && i != c.0 ==>
            (#[trigger] new.containers@[i]).commands@ == old.containers@[i].commands@
    }

    /// `new` is `old` with the commands `cmds` appended to the container
    /// `c`, and the text buffer unchanged.
    pub open spec fn appended(old: &Self, new: &Self, c: ContRef, cmds: Seq<Command<P>>) -> bool {
        &&& Self::added(old, new, c, cmds)
        &&& new.text_stack@ == old.text_stack@
    }

    /// Pushes the clip rectangle `rect` cut to the current one; `None`, and
    /// nothing pushed, where they do not touch.
    #[must_use]
    pub fn push_clip_rect(&mut self, rect: Recti) -> (r: Option<Recti>)
        requires
            old(self).clip_stack@.len() > 0,
            rect_corner_fits(rect),
            rect_corner_fits(old(self).clip()),
        ensures
            r == spec_intersect(rect, old(self).clip()),
            final(self).clip_stack@ == (match r {
                Some(i) => old(self).clip_stack@.push(i),
                None => old(self).clip_stack@,
            }),
            r is None ==> *final(self) == *old(self),
            *final(self) == (Context { clip_stack: final(self).clip_stack, ..*old(self) }),
    {
        let last = self.get_clip_rect();
        match rect.intersect(&last) {
            Some(isect) => {
                self.clip_stack.push(isect);
                Some(isect)
            },
            None => None,
        }
    }

    /// Pops the innermost clip rectangle; does nothing on an empty stack.
    pub fn pop_clip_rect(&mut self)
        ensures
            final(self).clip_stack@ == (if old(self).clip_stack@.len() > 0 {
                old(self).clip_stack@.drop_last()
            } else {
                old(self).clip_stack@
            }),
            *final(self) == (Context { clip_stack: final(self).clip_stack, ..*old(self) }),
    {
        self.clip_stack.pop();
    }

    pub fn get_clip_rect(&self) -> (r: Recti)
        requires
            self.clip_stack@.len() > 0,
        ensures
            r == self.clip(),
    {
        *self.clip_stack.last().unwrap()
    }

    /// How much of `r` the current clip rectangle cuts away.
    pub fn check_clip(&self, r: Recti) -> (c: Clip)
        requires
            self.clip_stack@.len() > 0,
            rect_corner_fits(r),
            rect_corner_fits(self.clip()),
        ensures
            c == spec_check_clip(self.clip(), r),
    {
        let cr = self.get_clip_rect();
        if r.x > cr.x + cr.width || r.x + r.width < cr.x || r.y > cr.y + cr.height || r.y + r.height < cr.y {
            return Clip::All;
        }
        if r.x >= cr.x && r.x + r.width <= cr.x + cr.width && r.y >= cr.y && r.y + r.height <= cr.y + cr.height {
            return Clip::NoClip;
        }
        return Clip::Part;
    }

    pub fn get_current_container(&self) -> (r: ContRef)
        requires
            self.container_stack@.len() > 0,
        ensures
            r == self.cur(),
    {
        *self.container_stack.last().unwrap()
    }

    pub fn get_current_container_rect(&self) -> (r: Recti)
        requires
            self.wf(),
            self.container_stack@.len() > 0,
        ensures
            r == self.containers@[self.cur().0 as int].rect,
    {
        let c = self.get_current_container();
        self.containers[c.0].rect
    }

    pub fn set_current_container_rect(&mut self, rect: &Recti)
        requires
            old(self).wf(),
            old(self).container_stack@.len() > 0,
        ensures
            final(self).wf(),
            final(self).containers@.len() == old(self).containers@.len(),
            final(self).containers@[old(self).cur().0 as int].rect == *rect,
    {
        let c = self.get_current_container();
        self.containers[c.0].rect = *rect;
        proof {
            assert forall|i: int, k: int| 0 <= i < CONTAINER_COUNT && 0 <= k < self.containers@[i].commands@.len()
                implies command_text_ok(#[trigger] self.containers@[i].commands@[k], self.text_stack@.len()) by {
                assert(self.containers@[i].commands@ == old(self).containers@[i].commands@);
            }
        }
    }

    pub fn get_current_container_scroll(&self) -> (r: Vec2i)
        requires
            self.wf(),
            self.container_stack@.len() > 0,
        ensures
            r == self.containers@[self.cur().0 as int].scroll,
    {
        let c = self.get_current_container();
        self.containers[c.0].scroll
    }

    pub fn set_current_container_scroll(&mut self, scroll: &Vec2i)
        requires
            old(self).wf(),
            old(self).container_stack@.len() > 0,
        ensures
            final(self).wf(),
            final(self).containers@.len() == old(self).containers@.len(),
            final(self).containers@[old(self).cur().0 as int].scroll == *scroll,
    {
        let c = self.get_current_container();
        self.containers[c.0].scroll = *scroll;
        proof {
            assert forall|i: int, k: int| 0 <= i < CONTAINER_COUNT && 0 <= k < self.containers@[i].commands@.len()
                implies command_text_ok(#[trigger] self.containers@[i].commands@[k], self.text_stack@.len()) by {
                assert(self.containers@[i].commands@ == old(self).containers@[i].commands@);
            }
        }
    }

    pub fn get_current_container_content_size(&self) -> (r: Vec2i)
        requires
            self.wf(),
            self.container_stack@.len() > 0,
        ensures
            r == self.containers@[self.cur().0 as int].content_size,
    {
        let c = self.get_current_container();
        self.containers[c.0].content_size
    }

    pub fn get_current_container_body(&self) -> (r: Recti)
        requires
            self.wf(),
            self.container_stack@.len() > 0,
        ensures
            r == self.containers@[self.cur().0 as int].body,
    {
        let c = self.get_current_container();
        self.containers[c.0].body
    }

    /// Raises the container `cnt` above every other.
    pub fn bring_to_front(&mut self, cnt: ContRef)
        requires
            old(self).wf(),
            cref_ok(cnt),
            old(self).last_zindex + 128 <= i32::MAX,
        ensures
            final(self).wf(),
            final(self).last_zindex == old(self).last_zindex + 128,
            final(self).containers@ == old(self).containers@.update(
                cnt.0 as int,
                Container { zindex: final(self).last_zindex, ..old(self).containers@[cnt.0 as int] },
            ),
            *final(self) == (Context { last_zindex: final(self).last_zindex, containers: final(self).containers, ..*old(self) }),
    {
        self.last_zindex += 128;
        self.containers[cnt.0].zindex = self.last_zindex;
        proof {
            assert forall|i: int, k: int| 0 <= i < CONTAINER_COUNT && 0 <= k < self.containers@[i].commands@.len()
                implies command_text_ok(#[trigger] self.containers@[i].commands@[k], self.text_stack@.len()) by {
                assert(self.containers@[i].commands@ == old(self).containers@[i].commands@);
            }
        }
    }

    pub fn input_mousemove(&mut self, x: i32, y: i32)
        ensures
            *final(self) == (Context { mouse_pos: Vec2i { x, y }, ..*old(self) }),
    {
        self.mouse_pos = vec2(x, y);
    }

    /// The mouse went down at `(x, y)` with the buttons `btn`.
    pub fn input_mousedown(&mut self, x: i32, y: i32, btn: MouseButton)
        ensures
            final(self).mouse_pos == (Vec2i { x, y }),
            final(self).mouse_down@ == old(self).mouse_down@ | btn@,
            final(self).mouse_pressed@ == old(self).mouse_pressed@ | btn@,
            *final(self) == (Context {
                mouse_pos: Vec2i { x, y },
                mouse_down: final(self).mouse_down,
                mouse_pressed: final(self).mouse_pressed,
                ..*old(self)
            }),
    {
        self.input_mousemove(x, y);
        self.mouse_down.insert(btn);
        self.mouse_pressed.insert(btn);
    }

    /// The buttons `btn` went up at `(x, y)`.
    pub fn input_mouseup(&mut self, x: i32, y: i32, btn: MouseButton)
        ensures
            final(self).mouse_pos == (Vec2i { x, y }),
            final(self).mouse_down@ == old(self).mouse_down@ & (!btn@ & MouseButton::all_bits()),
            *final(self) == (Context { mouse_pos: Vec2i { x, y }, mouse_down: final(self).mouse_down, ..*old(self) }),
    {
        self.input_mousemove(x, y);
        self.mouse_down = self.mouse_down.intersection(btn.complement());
    }

    /// Scrolls by `x` and by `y` lines; a line is as tall as the back end's
    /// first font. The vertical amount wraps around on overflow.
    pub fn input_scroll(&mut self, x: i32, y: i32)
        requires
            in_i32(old(self).scroll_delta.x + x),
        ensures
            final(self).scroll_delta.x == old(self).scroll_delta.x + x,
            exists|h: i32| final(self).scroll_delta.y == vstd::wrapping::i32_specs::wrapping_add(
                old(self).scroll_delta.y, #[trigger] vstd::wrapping::i32_specs::wrapping_mul(y, h)),
            *final(self) == (Context { scroll_delta: final(self).scroll_delta, ..*old(self) }),
    {
        self.scroll_delta.x += x;
        let h = self.renderer.get_font_height(FontId(0)) as i32;
        self.scroll_delta.y = self.scroll_delta.y.wrapping_add(y.wrapping_mul(h));
    }

    pub fn input_keydown(&mut self, key: KeyModifier)
        ensures
            final(self).key_pressed@ == old(self).key_pressed@ | key@,
            final(self).key_down@ == old(self).key_down@ | key@,
            *final(self) == (Context { key_pressed: final(self).key_pressed, key_down: final(self).key_down, ..*old(self) }),
    {
        self.key_pressed.insert(key);
        self.key_down.insert(key);
    }

    pub fn input_keyup(&mut self, key: KeyModifier)
        ensures
            final(self).key_down@ == old(self).key_down@ & (!key@ & KeyModifier::all_bits()),
            *final(self) == (Context { key_down: final(self).key_down, ..*old(self) }),
    {
        self.key_down = self.key_down.intersection(key.complement());
    }

    /// Text typed this frame.
    pub fn input_text(&mut self, text: &str)
        ensures
            final(self).input_text@ == old(self).input_text@ + text@,
            *final(self) == (Context { input_text: final(self).input_text, ..*old(self) }),
    {
        string_push_str(&mut self.input_text, text);
    }

    /// Appends `cmd` to the commands of the current container.
    pub fn push_command(&mut self, cmd: Command<P>)
        requires
            old(self).wf(),
            old(self).container_stack@.len() > 0,
            command_text_ok(cmd, old(self).text_stack@.len()),
        ensures
            final(self).wf(),
            Self::appended(old(self), final(self), old(self).cur(), seq![cmd]),
    {
        let cnt = self.get_current_container();
        let ghost c = cmd;
        self.containers[cnt.0].commands.push(cmd);
        proof {
            assert forall|i: int, k: int| 0 <= i < CONTAINER_COUNT && 0 <= k < self.containers@[i].commands@.len()
                implies command_text_ok(#[trigger] self.containers@[i].commands@[k], self.text_stack@.len()) by {
                if i != cnt.0 {
                    assert(self.containers@[i].commands@ == old(self).containers@[i].commands@);
                } else if k < old(self).containers@[i].commands@.len() {
                    assert(self.containers@[i].commands@[k] == old(self).containers@[i].commands@[k]);
                }
            }
            assert(self.containers@[cnt.0 as int].commands@ =~= old(self).containers@[cnt.0 as int].commands@ + seq![c]);
        }
    }

    /// Appends `str` to the frame's text buffer and returns where it starts.
    pub fn push_text(&mut self, str: &str) -> (r: usize)
        requires
            old(self).wf(),
        ensures
            final(self).wf(),
            r == old(self).text_stack@.len(),
            final(self).text_stack@ == old(self).text_stack@ + str@,
            Self::same_state(old(self), final(self)),
            final(self).containers@ == old(self).containers@,
    {
        let str_start = self.text_stack.as_str().unicode_len();
        string_push_str(&mut self.text_stack, str);
        proof {
            assert forall|i: int, k: int| 0 <= i < CONTAINER_COUNT && 0 <= k < self.containers@[i].commands@.len()
                implies command_text_ok(#[trigger] self.containers@[i].commands@[k], self.text_stack@.len()) by {
                assert(command_text_ok(old(self).containers@[i].commands@[k], old(self).text_stack@.len()));
            }
        }
        return str_start;
    }

    /// Sets the clip rectangle of the commands that follow.
    pub fn set_clip(&mut self, rect: Recti)
        requires
            old(self).wf(),
            old(self).container_stack@.len() > 0,
        ensures
            final(self).wf(),
            Self::appended(old(self), final(self), old(self).cur(), seq![Command::Clip { rect }]),
    {
        self.push_command(Command::Clip { rect });
    }

    /// Draws `rect` cut to the current clip rectangle; nothing where they do not touch.
    pub fn draw_rect(&mut self, rect: Recti, color: Color4b)
        requires
            old(self).wf(),
            old(self).container_stack@.len() > 0,
            old(self).clip_stack@.len() > 0,
            rect_corner_fits(rect),
            rect_corner_fits(old(self).clip()),
        ensures
            final(self).wf(),
            Self::appended(old(self), final(self), old(self).cur(), rect_cmds(old(self).clip(), rect, color)),
    {
        let clip = self.get_clip_rect();
        let rect = rect.intersect(&clip);
        match rect {
            Some(rect) => {
                self.push_command(Command::Rect { rect, color });
            },
            None => {
                proof {
                    Self::lemma_appended_nothing(self);
                }
            },
        }
    }

    pub(crate) proof fn lemma_appended_nothing(s: &Self)
        ensures
            Self::appended(s, s, s.cur(), Seq::<Command<P>>::empty()),
    {
        assert(s.containers@[s.cur().0 as int].commands@ + Seq::<Command<P>>::empty()
            =~= s.containers@[s.cur().0 as int].commands@);
    }

    pub(crate) proof fn lemma_appended_trans(a: &Self, b: &Self, c: &Self, r: ContRef, s1: Seq<Command<P>>, s2: Seq<Command<P>>)
        requires
            Self::appended(a, b, r, s1),
            Self::appended(b, c, r, s2),
            cref_ok(r),
            a.containers@.len() == CONTAINER_COUNT,
        ensures
            Self::appended(a, c, r, s1 + s2),
    {
        Self::lemma_added_trans(a, b, c, r, s1, s2);
    }

    pub(crate) proof fn lemma_added_trans(a: &Self, b: &Self, c: &Self, r: ContRef, s1: Seq<Command<P>>, s2: Seq<Command<P>>)
        requires
            Self::added(a, b, r, s1),
            Self::added(b, c, r, s2),
            cref_ok(r),
            a.containers@.len() == CONTAINER_COUNT,
        ensures
            Self::added(a, c, r, s1 + s2),
    {
        assert(a.containers@[r.0 as int].commands@ + s1 + s2 =~= a.containers@[r.0 as int].commands@ + (s1 + s2));
        assert forall|i: int| 0 <= i < a.containers@.len() implies {
            let x = #[trigger] a.containers@[i];
            let z = c.containers@[i];
            &&& z.rect == x.rect
            &&& z.body == x.body
            &&& z.content_size == x.content_size
            &&& z.scroll == x.scroll
            &&& z.zindex == x.zindex
            &&& z.open == x.open
            &&& z.layouts() == x.layouts()
            &&& z.last_cell() == x.last_cell()
        } by {
            assert(b.containers@[i].rect == a.containers@[i].rect);
        }
        assert forall|i: int| 0 <= i < a.containers@.len() && i != r.0 implies
            (#[trigger] c.containers@[i]).commands@ == a.containers@[i].commands@ by {
            assert(b.containers@[i].commands@ == a.containers@[i].commands@);
        }
    }

    /// Draws the outline of `r`, one pixel wide, cut to the current clip rectangle.
    pub fn draw_box(&mut self, r: Recti, color: Color4b)
        requires
            old(self).wf(),
            old(self).container_stack@.len() > 0,
            old(self).clip_stack@.len() > 0,
            box_fits(r),
            rect_corner_fits(old(self).clip()),
        ensures
            final(self).wf(),
            Self::appended(old(self), final(self), old(self).cur(), box_cmds(old(self).clip(), r, color)),
    {
        let ghost s0 = *self;
        let ghost clip = self.clip();
        let ghost c = self.cur();
        self.draw_rect(Recti::new(r.x + 1, r.y, r.width - 2, 1), color);
        let ghost s1 = *self;
        self.draw_rect(Recti::new(r.x + 1, r.y + r.height - 1, r.width - 2, 1), color);
        let ghost s2 = *self;
        proof {
            Self::lemma_appended_trans(&s0, &s1, &s2, c,
                rect_cmds(clip, Recti { x: (r.x + 1) as i32, y: r.y, width: (r.width - 2) as i32, height: 1 }, color),
                rect_cmds(clip, Recti { x: (r.x + 1) as i32, y: (r.y + r.height - 1) as i32, width: (r.width - 2) as i32, height: 1 }, color));
        }
        self.draw_rect(Recti::new(r.x, r.y, 1, r.height), color);
        let ghost s3 = *self;
        proof {
            Self::lemma_appended_trans(&s0, &s2, &s3, c,
                rect_cmds(clip, Recti { x: (r.x + 1) as i32, y: r.y, width: (r.width - 2) as i32, height: 1 }, color)
                    + rect_cmds(clip, Recti { x: (r.x + 1) as i32, y: (r.y + r.height - 1) as i32, width: (r.width - 2) as i32, height: 1 }, color),
                rect_cmds(clip, Recti { x: r.x, y: r.y, width: 1, height: r.height }, color));
        }
        self.draw_rect(Recti::new(r.x + r.width - 1, r.y, 1, r.height), color);
        proof {
            Self::lemma_appended_trans(&s0, &s3, self, c,
                rect_cmds(clip, Recti { x: (r.x + 1) as i32, y: r.y, width: (r.width - 2) as i32, height: 1 }, color)
                    + rect_cmds(clip, Recti { x: (r.x + 1) as i32, y: (r.y + r.height - 1) as i32, width: (r.width - 2) as i32, height: 1 }, color)
                    + rect_cmds(clip, Recti { x: r.x, y: r.y, width: 1, height: r.height }, color),
                rect_cmds(clip, Recti { x: (r.x + r.width - 1) as i32, y: r.y, width: 1, height: r.height }, color));
        }
    }

    /// Draws the icon `id` in `rect`, cut to the current clip rectangle.
    pub fn draw_icon(&mut self, id: Icon, rect: Recti, color: Color4b)
        requires
            old(self).wf(),
            old(self).container_stack@.len() > 0,
            old(self).clip_stack@.len() > 0,
            rect_corner_fits(rect),
            rect_corner_fits(old(self).clip()),
        ensures
            final(self).wf(),
            Self::appended(old(self), final(self), old(self).cur(), clipped_cmds(
                old(self).clip(), rect, Command::Icon { id, rect, color })),
    {
        let ghost s0 = *self;
        let ghost c = self.cur();
        let clipped = self.check_clip(rect);
        match clipped {
            Clip::All => {
                proof {
                    Self::lemma_appended_nothing(self);
                }
                return;
            },
            Clip::Part => {
                let clip = self.get_clip_rect();
                self.set_clip(clip);
            },
            Clip::NoClip => {
                proof {
                    Self::lemma_appended_nothing(self);
                }
            },
        }
        let ghost s1 = *self;
        let ghost pre: Seq<Command<P>> = if clipped == Clip::Part { seq![Command::Clip { rect: s0.clip() }] } else { seq![] };
        self.push_command(Command::Icon { id, rect, color });
        let ghost s2 = *self;
        proof {
            Self::lemma_appended_trans(&s0, &s1, &s2, c, pre, seq![Command::Icon { id, rect, color }]);
        }
        if clipped != Clip::NoClip {
            self.set_clip(Recti::new(0, 0, 0x1000000, 0x1000000));
            proof {
                Self::lemma_appended_trans(&s0, &s2, self, c, pre + seq![Command::Icon { id, rect, color }],
                    seq![Command::Clip { rect: unclipped_rect() }]);
                assert(pre + seq![Command::Icon { id, rect, color }] + seq![Command::Clip { rect: unclipped_rect() }]
                    =~= clipped_cmds(s0.clip(), rect, Command::Icon { id, rect, color }));
            }
        } else {
            proof {
                assert(pre + seq![Command::Icon { id, rect, color }] =~= clipped_cmds(s0.clip(), rect, Command::Icon { id, rect, color }));
            }
        }
    }

    /// The width of the widest line of `text` in `font`, by the advance the
    /// back end gives each character below 127; a character from 127 up
    /// adds nothing.
    pub fn get_text_width(&self, font: FontId, text: &str) -> (r: i32)
        ensures
            exists|ws: Seq<usize>| {
                &&& ws.len() == text@.len()
                &&& forall|k: int| 0 <= k < ws.len() && (text@[k] as u32) >= 127 ==> ws[k] == 0
                &&& r == #[trigger] spec_text_width(text@, ws) as i32
            },
    {
        let n = text.unicode_len();
        let mut widths: Vec<usize> = Vec::new();
        let mut i: usize = 0;
        while i < n
            invariant
                i <= n,
                n == text@.len(),
                widths@.len() == i,
                forall|k: int| 0 <= k < i && (text@[k] as u32) >= 127 ==> widths@[k] == 0,
            decreases n - i,
        {
            let c = text.get_char(i);
            let w = if (c as u32) < 127 { self.renderer.get_char_width(font, c) } else { 0 };
            widths.push(w);
            i += 1;
        }
        measure_text_width(text, &widths)
    }

    /// The height of `text` in `font`: its number of lines times the back
    /// end's font height.
    pub fn get_text_height(&self, font: FontId, text: &str) -> (r: i32)
        ensures
            exists|h: usize| r == #[trigger] spec_text_height(text@, h),
    {
        let h = self.renderer.get_font_height(font);
        measure_text_height(text, h)
    }

    /// `new` is `old` after drawing `text` at `pos` in a `w` by `h` box under
    /// the clip rectangle `clip`: nothing where `clip` hides the box; else
    /// the text joins the text buffer and its command, clipped, the current
    /// container.
    pub open spec fn text_drawn(
        old: &Self,
        new: &Self,
        clip: Recti,
        font: FontId,
        text: Seq<char>,
        pos: Vec2i,
        color: Color4b,
        w: i32,
        h: i32,
    ) -> bool {
        let rect = Recti { x: pos.x, y: pos.y, width: w, height: h };
        &&& new.text_stack@ == (if spec_check_clip(clip, rect) == Clip::All {
            old.text_stack@
        } else {
            old.text_stack@ + text
        })
        &&& spec_check_clip(clip, rect) != Clip::All ==> old.text_stack@.len() <= usize::MAX
        &&& Self::added(old, new, old.cur(), clipped_cmds(clip, rect,
            text_cmd(font, pos, color, old.text_stack@.len(), text.len())))
    }

    /// Draws `str` at `pos` in a box of `width` by `height`, cut to the
    /// current clip rectangle.
    pub fn draw_text_sized(&mut self, font: FontId, str: &str, pos: Vec2i, color: Color4b, width: i32, height: i32)
        requires
            old(self).wf(),
            old(self).container_stack@.len() > 0,
            old(self).clip_stack@.len() > 0,
            rect_corner_fits(Recti { x: pos.x, y: pos.y, width, height }),
            rect_corner_fits(old(self).clip()),
        ensures
            final(self).wf(),
            Self::text_drawn(old(self), final(self), old(self).clip(), font, str@, pos, color, width, height),
    {
        let ghost s0 = *self;
        let ghost c = self.cur();
        let rect = Recti::new(pos.x, pos.y, width, height);
        let clipped = self.check_clip(rect);
        if clipped == Clip::All {
            proof {
                Self::lemma_appended_nothing(self);
            }
            return;
        }
        let str_start = self.push_text(str);
        let str_len = str.unicode_len();
        let ghost s1 = *self;
        proof {
            assert(s1.containers@[c.0 as int].commands@ + Seq::<Command<P>>::empty() =~= s1.containers@[c.0 as int].commands@);
            assert(Self::added(&s0, &s1, c, Seq::<Command<P>>::empty()));
        }
        let ghost pre: Seq<Command<P>> = if clipped == Clip::Part { seq![Command::Clip { rect: s0.clip() }] } else { seq![] };
        if clipped == Clip::Part {
            let clip = self.get_clip_rect();
            self.set_clip(clip);
        } else {
            proof {
                Self::lemma_appended_nothing(self);
            }
        }
        let ghost s2 = *self;
        proof {
            Self::lemma_added_trans(&s0, &s1, &s2, c, Seq::<Command<P>>::empty(), pre);
            assert(Seq::<Command<P>>::empty() + pre =~= pre);
        }
        let ghost tc: Command<P> = text_cmd(font, pos, color, s0.text_stack@.len(), str@.len());
        self.push_command(Command::Text { font, pos, color, str_start, str_len });
        let ghost s3 = *self;
        proof {
            Self::lemma_added_trans(&s0, &s2, &s3, c, pre, seq![tc]);
        }
        if clipped != Clip::NoClip {
            self.set_clip(Recti::new(0, 0, 0x1000000, 0x1000000));
            proof {
                Self::lemma_added_trans(&s0, &s3, self, c, pre + seq![tc], seq![Command::Clip { rect: unclipped_rect() }]);
                assert(pre + seq![tc] + seq![Command::Clip { rect: unclipped_rect() }]
                    =~= clipped_cmds(s0.clip(), rect, tc));
            }
        } else {
            proof {
                assert(pre + seq![tc] =~= clipped_cmds(s0.clip(), rect, tc));
            }
        }
    }

    /// `new` is `old` after drawing `text` at `pos` in the box that some
    /// per-character widths and font height give it: drawn as `text_drawn`
    /// says where that box takes no overflowing coordinate, nothing
    /// otherwise.
    pub open spec fn text_measured_drawn(
        old: &Self,
        new: &Self,
        font: FontId,
        text: Seq<char>,
        pos: Vec2i,
        color: Color4b,
    ) -> bool {
        exists|ws: Seq<usize>, h: usize| {
            let w = #[trigger] spec_text_width(text, ws) as i32;
            let hh = #[trigger] spec_text_height(text, h);
            &&& ws.len() == text.len()
            &&& if rect_corner_fits(Recti { x: pos.x, y: pos.y, width: w, height: hh }) {
                Self::text_drawn(old, new, old.clip(), font, text, pos, color, w, hh)
            } else {
                *new == *old
            }
        }
    }

    /// Draws `str` at `pos`, in the box the back end measures for it, cut to
    /// the current clip rectangle; nothing where that box would take an
    /// overflowing coordinate.
    pub fn draw_text(&mut self, font: FontId, str: &str, pos: Vec2i, color: Color4b)
        requires
            old(self).wf(),
            old(self).container_stack@.len() > 0,
            old(self).clip_stack@.len() > 0,
            rect_corner_fits(old(self).clip()),
        ensures
            final(self).wf(),
            Self::text_measured_drawn(old(self), final(self), font, str@, pos, color),
    {
        let w = self.get_text_width(font, str);
        let h = self.get_text_height(font, str);
        let ghost ws = choose|ws: Seq<usize>| ws.len() == str@.len() && w == #[trigger] spec_text_width(str@, ws) as i32;
        let ghost hv = choose|hv: usize| h == #[trigger] spec_text_height(str@, hv);
        let fits = (pos.x as i64 + w as i64) <= i32::MAX as i64 && (pos.x as i64 + w as i64) >= i32::MIN as i64
            && (pos.y as i64 + h as i64) <= i32::MAX as i64 && (pos.y as i64 + h as i64) >= i32::MIN as i64;
        if fits {
            self.draw_text_sized(font, str, pos, color, w, h);
        }
        proof {
            assert(ws.len() == str@.len() && w == spec_text_width(str@, ws) as i32 && h == spec_text_height(str@, hv));
        }
    }

    /// `new` is `old` after drawing the label `text` of a control, measured as
    /// `tw` by `th`, in `rect`: nothing where `rect` lies outside the clip
    /// rectangle; else the text at `control_text_pos`, clipped to `rect`.
    pub open spec fn control_text_drawn(
        old: &Self,
        new: &Self,
        style: Style,
        font: FontId,
        text: Seq<char>,
        rect: Recti,
        colorid: ControlColor,
        opt: u32,
        tw: i32,
        th: i32,
    ) -> bool {
        match spec_intersect(rect, old.clip()) {
            None => *new == *old,
            Some(isect) => {
                let p = control_text_pos(style, rect, opt, tw as int, th as int);
                Self::text_drawn(old, new, isect, font, text, Vec2i { x: p.0 as i32, y: p.1 as i32 },
                    style.colors@[spec_color_index(colorid) as int], tw, th)
            },
        }
    }

    /// Draws the label `str` of a control whose box the back end measures as
    /// `tw` by `th`, placed in `rect` by `control_text_pos` and clipped to
    /// `rect`; nothing where `rect` lies outside the clip rectangle.
    pub fn draw_control_text_sized(
        &mut self,
        style: &Style,
        font: FontId,
        str: &str,
        rect: Recti,
        colorid: ControlColor,
        opt: WidgetOption,
        tw: i32,
        th: i32,
    )
        requires
            old(self).wf(),
            old(self).container_stack@.len() > 0,
            old(self).clip_stack@.len() > 0,
            colorid != ControlColor::Max,
            rect_corner_fits(rect),
            rect_corner_fits(old(self).clip()),
            control_text_fits(*style, rect, opt@, tw as int, th as int),
        ensures
            final(self).wf(),
            final(self).clip_stack@ == old(self).clip_stack@,
            Self::control_text_drawn(old(self), final(self), *style, font, str@, rect, colorid, opt@, tw, th),
    {
        let ghost s0 = *self;
        match self.push_clip_rect(rect) {
            Some(isect) => {
                proof {
                    crate::geometry::lemma_intersect_fits(rect, s0.clip());
                }
                let y = rect.y + (rect.height - th) / 2;
                let x = if opt.is_aligned_center() {
                    rect.x + (rect.width - tw) / 2
                } else if opt.is_aligned_right() {
                    rect.x + rect.width - tw - style.padding
                } else {
                    rect.x + style.padding
                };
                let ghost s1 = *self;
                self.draw_text_sized(font, str, vec2(x, y), style.colors[colorid.index()], tw, th);
                let ghost s2 = *self;
                self.pop_clip_rect();
                proof {
                    let p = control_text_pos(*style, rect, opt@, tw as int, th as int);
                    assert(x == p.0 && y == p.1);
                    assert(self.clip_stack@ =~= s0.clip_stack@);
                    assert(s1.clip() == isect);
                    assert(Self::text_drawn(&s1, &s2, isect, font, str@, Vec2i { x: p.0 as i32, y: p.1 as i32 },
                        style.colors@[spec_color_index(colorid) as int], tw, th));
                    assert(s1.containers@ == s0.containers@);
                    assert(self.containers@ == s2.containers@);
                    assert(Self::same_state(&s0, self));
                    assert(Self::same_containers(&s0, self));
                }
            },
            None => {
                assert(*self == s0);
            },
        }
    }

    /// `new` is `old` after drawing the label `text` of a control in `rect`
    /// as `draw_control_text` does: in the box that some per-character widths
    /// and font height give the label, placed and clipped as
    /// `control_text_drawn` says where that box fits, nothing otherwise.
    pub open spec fn label_drawn(
        old: &Self,
        new: &Self,
        style: Style,
        font: FontId,
        text: Seq<char>,
        rect: Recti,
        colorid: ControlColor,
        opt: WidgetOption,
    ) -> bool {
        exists|ws: Seq<usize>, h: usize| {
            let tw = #[trigger] spec_text_width(text, ws) as i32;
            let th = #[trigger] spec_text_height(text, h);
            &&& ws.len() == text.len()
            &&& if control_text_fits(style, rect, opt@, tw as int, th as int) {
                Self::control_text_drawn(old, new, style, font, text, rect, colorid, opt@, tw, th)
            } else {
                *new == *old
            }
        }
    }

    /// Draws the label `str` of a control in `rect`, measured by the back end,
    /// centred vertically and aligned as `opt` asks, clipped to `rect`;
    /// nothing where the label's box would take an overflowing coordinate.
    pub fn draw_control_text(&mut self, style: &Style, font: FontId, str: &str, rect: Recti, colorid: ControlColor, opt: WidgetOption)
        requires
            old(self).wf(),
            old(self).container_stack@.len() > 0,
            old(self).clip_stack@.len() > 0,
            colorid != ControlColor::Max,
            rect_corner_fits(rect),
            rect_corner_fits(old(self).clip()),
        ensures
            final(self).wf(),
            final(self).clip_stack@ == old(self).clip_stack@,
            Self::label_drawn(old(self), final(self), *style, font, str@, rect, colorid, opt),
    {
        let tw = self.get_text_width(font, str);
        let th = self.get_text_height(font, str);
        let ghost ws = choose|ws: Seq<usize>| ws.len() == str@.len() && tw == #[trigger] spec_text_width(str@, ws) as i32;
        let ghost hv = choose|hv: usize| th == #[trigger] spec_text_height(str@, hv);
        if control_text_fits_exec(style, rect, opt, tw, th) {
            self.draw_control_text_sized(style, font, str, rect, colorid, opt, tw, th);
        }
        proof {
            assert(ws.len() == str@.len() && tw == spec_text_width(str@, ws) as i32 && th == spec_text_height(str@, hv));
        }
    }

    /// Draws the frame of a control: its area in the color `colorid`, and an
    /// outline around it in the border color unless the border is fully
    /// transparent or the color is that of a scroll bar or title bar.
    pub fn draw_frame(&mut self, style: &Style, rect: Recti, colorid: ControlColor)
        requires
            old(self).wf(),
            old(self).container_stack@.len() > 0,
            old(self).clip_stack@.len() > 0,
            colorid != ControlColor::Max,
            rect_corner_fits(rect),
            rect_corner_fits(old(self).clip()),
            frame_fits(rect),
        ensures
            final(self).wf(),
            Self::appended(old(self), final(self), old(self).cur(), frame_cmds(old(self).clip(), *style, rect, colorid)),
    {
        let ghost s0 = *self;
        let ghost c = self.cur();
        self.draw_rect(rect, style.colors[colorid.index()]);
        if colorid == ControlColor::ScrollBase || colorid == ControlColor::ScrollThumb || colorid == ControlColor::TitleBG {
            proof {
                assert(rect_cmds::<P>(s0.clip(), rect, style.colors@[spec_color_index(colorid) as int])
                    =~= frame_cmds(s0.clip(), *style, rect, colorid));
            }
            return;
        }
        if style.colors[ControlColor::Border.index()].w != 0 {
            let ghost s1 = *self;
            self.draw_box(expand_rect(rect, 1), style.colors[ControlColor::Border.index()]);
            proof {
                Self::lemma_appended_trans(&s0, &s1, self, c,
                    rect_cmds(s0.clip(), rect, style.colors@[spec_color_index(colorid) as int]),
                    box_cmds(s0.clip(), spec_expand_rect(rect, 1), style.colors@[1]));
            }
        } else {
            proof {
                assert(rect_cmds::<P>(s0.clip(), rect, style.colors@[spec_color_index(colorid) as int])
                    =~= frame_cmds(s0.clip(), *style, rect, colorid));
            }
        }
    }

    /// Whether the hover root is one of the containers being built.
    pub fn in_hover_root(&self) -> (b: bool)
        ensures
            b == (self.hover_root matches Some(h) && self.container_stack@.contains(h)),
    {
        match self.hover_root {
            Some(hover_root) => {
                let len = self.container_stack.len();
                let mut i: usize = 0;
                while i < len
                    invariant
                        i <= len,
                        len == self.container_stack@.len(),
                        self.hover_root == Some(hover_root),
                        forall|j: int| len - i <= j < len ==> self.container_stack@[j] != hover_root,
                    decreases len - i,
                {
                    if self.container_stack[len - i - 1] == hover_root {
                        proof {
                            let k = len - i - 1;
                            assert(0 <= k < self.container_stack@.len());
                            assert(self.container_stack@[k as int] == hover_root);
                            assert(self.container_stack@.contains(hover_root));
                        }
                        return true;
                    }
                    i += 1;
                }
                proof {
                    assert(!self.container_stack@.contains(hover_root));
                }
                false
            },
            None => false,
        }
    }

    /// Whether the mouse is over `rect`, inside the clip rectangle, in the hover root.
    pub fn mouse_over(&self, rect: Recti) -> (b: bool)
        requires
            self.clip_stack@.len() > 0,
            rect_corner_fits(rect),
            rect_corner_fits(self.clip()),
        ensures
            b == self.spec_mouse_over(rect),
    {
        rect_overlaps_vec2(rect, self.mouse_pos) && rect_overlaps_vec2(self.get_clip_rect(), self.mouse_pos)
            && self.in_hover_root()
    }

    pub open spec fn spec_mouse_over(&self, rect: Recti) -> bool {
        &&& spec_rect_overlaps(rect, self.mouse_pos)
        &&& spec_rect_overlaps(self.clip(), self.mouse_pos)
        &&& self.hover_root matches Some(h) && self.container_stack@.contains(h)
    }

    /// Updates hover and focus for the control `id` in `rect`: the mouse over
    /// it with no button down makes it hovered, a press on the hovered
    /// control focuses it, and a focused control loses the focus to a press
    /// elsewhere or, unless it holds the focus, when no button is down.
    pub fn update_control(&mut self, id: Id, rect: Recti, opt: WidgetOption)
        requires
            old(self).clip_stack@.len() > 0,
            rect_corner_fits(rect),
            rect_corner_fits(old(self).clip()),
        ensures
            (final(self).hover, final(self).focus, final(self).updated_focus) == update_control_spec(
                old(self).hover, old(self).focus, old(self).updated_focus, id,
                old(self).spec_mouse_over(rect), old(self).mouse_down@ == 0, old(self).mouse_pressed@ == 0,
                opt@ & 4 != 0, opt@ & 256 != 0),
            *final(self) == (Context {
                hover: final(self).hover,
                focus: final(self).focus,
                updated_focus: final(self).updated_focus,
                ..*old(self)
            }),
    {
        let mouseover = self.mouse_over(rect);
        if self.focus == Some(id) {
            self.updated_focus = true;
        }
        if opt.is_not_interactive() {
            return;
        }
        if mouseover && self.mouse_down.is_none() {
            self.hover = Some(id);
        }
        if self.focus == Some(id) {
            if !self.mouse_pressed.is_none() && !mouseover {
                self.set_focus(None);
            }
            if self.mouse_down.is_none() && !opt.is_holding_focus() {
                self.set_focus(None);
            }
        }
        if self.hover == Some(id) {
            if !self.mouse_pressed.is_none() {
                self.set_focus(Some(id));
            } else if !mouseover {
                self.hover = None;
            }
        }
    }

    /// Draws the frame of the control `id`, in its focus or hover color when it
    /// has the focus or the mouse; nothing with `NO_FRAME`.
    pub fn draw_control_frame(&mut self, style: &Style, id: Id, rect: Recti, colorid: ControlColor, opt: WidgetOption)
        requires
            old(self).wf(),
            old(self).container_stack@.len() > 0,
            old(self).clip_stack@.len() > 0,
            colorid != ControlColor::Max,
            rect_corner_fits(rect),
            rect_corner_fits(old(self).clip()),
            frame_fits(rect),
        ensures
            final(self).wf(),
            Self::appended(old(self), final(self), old(self).cur(),
                control_frame_cmds(old(self).clip(), *style, rect, old(self).focus, old(self).hover, id, colorid, opt@)),
    {
        if opt.has_no_frame() {
            proof {
                Self::lemma_appended_nothing(self);
            }
            return;
        }
        let mut colorid = colorid;
        if self.focus == Some(id) {
            colorid.focus()
        } else if self.hover == Some(id) {
            colorid.hover()
        }
        self.draw_frame(style, rect, colorid);
    }

    /// `new` and `r` are `old` and the result after looking up the container
    /// slot for `id`: the slot that holds it (kept alive unless it is closed
    /// and `CLOSED` is asked), or a fresh open container in the least
    /// recently used slot, raised to the front; `None` for an id without a
    /// container when `CLOSED` is asked.
    pub open spec fn slot_for(old: &Self, new: &Self, id: Id, opt: u32, r: Option<usize>) -> bool {
        &&& *new == (Context {
                containers: new.containers,
                container_pool: new.container_pool,
                last_zindex: new.last_zindex,
                ..*old
            })
        &&& ({
                let items = old.container_pool.items();
                match spec_pool_get(items, id) {
                    Some(i) => {
                        &&& r == Some(i)
                        &&& new.containers@ == old.containers@
                        &&& new.last_zindex == old.last_zindex
                        &&& new.container_pool.items() == (if old.containers@[i as int].open || opt & 1024 == 0 {
                            items.update(i as int, PoolItem { id: items[i as int].id, last_update: old.frame })
                        } else {
                            items
                        })
                    },
                    None => if opt & 1024 != 0 {
                        &&& r is None
                        &&& new.containers@ == old.containers@
                        &&& new.container_pool == old.container_pool
                        &&& new.last_zindex == old.last_zindex
                    } else {
                        &&& r matches Some(k) && is_alloc_slot(items, old.frame, k as int)
                        &&& new.container_pool.items() == items.update(
                            r.unwrap() as int, PoolItem { id, last_update: old.frame })
                        &&& new.last_zindex == old.last_zindex + 128
                        &&& new.containers@.len() == old.containers@.len()
                        &&& forall|j: int| 0 <= j < CONTAINER_COUNT && j != r.unwrap() ==>
                            #[trigger] new.containers@[j] == old.containers@[j]
                        &&& ({
                            let c = new.containers@[r.unwrap() as int];
                            &&& c.open
                            &&& c.zindex == new.last_zindex
                            &&& c.rect == (Recti { x: 0, y: 0, width: 0, height: 0 })
                            &&& c.body == (Recti { x: 0, y: 0, width: 0, height: 0 })
                            &&& c.scroll == (Vec2i { x: 0, y: 0 })
                            &&& c.content_size == (Vec2i { x: 0, y: 0 })
                            &&& c.commands@.len() == 0
                            &&& c.layouts().len() == 0
                        })
                    },
                }
            })
    }

    /// The container slot for `id`, as `slot_for` says.
    pub fn get_container_index_intern(&mut self, id: Id, opt: WidgetOption) -> (r: Option<usize>)
        requires
            old(self).wf(),
            spec_pool_get(old(self).container_pool.items(), id) is None && opt@ & 1024 == 0 ==> {
                &&& has_stale_slot(old(self).container_pool.items(), old(self).frame)
                &&& old(self).last_zindex + 128 <= i32::MAX
            },
        ensures
            final(self).wf(),
            Self::slot_for(old(self), final(self), id, opt@, r),
    {
        proof {
            crate::ui::pool::lemma_get_finds(self.container_pool.items(), id);
        }
        let idx = self.container_pool.get(id);
        match idx {
            Some(i) => {
                if self.containers[i].open || !opt.is_closed() {
                    self.container_pool.update(i, self.frame);
                }
                return idx;
            },
            None => {},
        }
        if opt.is_closed() {
            return None;
        }
        let i = self.container_pool.allocate(id, self.frame);
        self.containers.set(i, Container::default());
        self.containers[i].open = true;
        proof {
            assert forall|c: int, k: int| 0 <= c < CONTAINER_COUNT && 0 <= k < self.containers@[c].commands@.len()
                implies command_text_ok(#[trigger] self.containers@[c].commands@[k], self.text_stack@.len()) by {
                assert(c != i);
                assert(self.containers@[c] == old(self).containers@[c]);
            }
        }
        self.bring_to_front(ContRef(i));
        Some(i)
    }

    /// The container slot for the name `name` under the innermost id.
    pub fn get_container_index(&mut self, name: &str) -> (r: Option<usize>)
        requires
            old(self).wf(),
            ({
                let id = crate::ui::pool::id_of_hash(spec_hash_seq(id_base(old(self).id_stack@), spec_char_codes(name@)));
                spec_pool_get(old(self).container_pool.items(), id) is None ==> {
                    &&& has_stale_slot(old(self).container_pool.items(), old(self).frame)
                    &&& old(self).last_zindex + 128 <= i32::MAX
                }
            }),
        ensures
            final(self).wf(),
            r matches Some(i) && i < CONTAINER_COUNT,
            Self::slot_for(&old(self).with_last_id(name@), final(self), crate::ui::scroll::named_id(old(self).id_stack@, name@), 0, r),
    {
        let ghost s0 = *self;
        let id = self.get_id_from_str(name);
        proof {
            crate::ui::pool::lemma_id_of_hash(id);
            assert(*self == s0.with_last_id(name@));
            assert(0u32 & 1024u32 == 0) by (bit_vector);
        }
        self.get_container_index_intern(id, WidgetOption::NONE())
    }

    /// The current container can be ended: it has a layout, and the extent
    /// its layout reached fits.
    pub open spec fn pop_fits(&self) -> bool {
        &&& self.container_stack@.len() > 0
        &&& self.containers@[self.cur().0 as int].layouts().len() > 0
        &&& ({
            let l = self.containers@[self.cur().0 as int].layouts().last();
            in_i32(l.max.x - l.body.x) && in_i32(l.max.y - l.body.y)
        })
    }

    /// Whether the current container can be ended, as `pop_fits` says.
    pub fn pop_fits_exec(&self) -> (b: bool)
        requires
            self.wf(),
        ensures
            b == self.pop_fits(),
    {
        if self.container_stack.len() == 0 {
            return false;
        }
        let i = self.get_current_container().0;
        if self.containers[i].layout_stack.len() == 0 {
            return false;
        }
        let l = self.containers[i].layout();
        let dx = l.max.x as i64 - l.body.x as i64;
        let dy = l.max.y as i64 - l.body.y as i64;
        i32::MIN as i64 <= dx && dx <= i32::MAX as i64 && i32::MIN as i64 <= dy && dy <= i32::MAX as i64
    }

    /// `new` is `old` once the current container ends: its content size
    /// becomes the extent its innermost layout reached, and it and the
    /// innermost id are popped.
    pub open spec fn container_popped(old: &Self, new: &Self) -> bool {
        let c = old.cur().0 as int;
        let l = old.containers@[c].layouts().last();
        &&& new.containers@ == old.containers@.update(c, Container {
            content_size: Vec2i { x: (l.max.x - l.body.x) as i32, y: (l.max.y - l.body.y) as i32 },
            ..old.containers@[c]
        })
        &&& new.container_stack@ == old.container_stack@.drop_last()
        &&& new.id_stack@ == (if old.id_stack@.len() > 0 { old.id_stack@.drop_last() } else { old.id_stack@ })
        &&& *new == Context {
            containers: new.containers,
            container_stack: new.container_stack,
            id_stack: new.id_stack,
            ..*old
        }
    }

    /// `new` is `old` with the innermost clip rectangle popped.
    pub open spec fn clip_popped(old: &Self, new: &Self) -> bool {
        &&& new.clip_stack@ == (if old.clip_stack@.len() > 0 { old.clip_stack@.drop_last() } else { old.clip_stack@ })
        &&& *new == Context { clip_stack: new.clip_stack, ..*old }
    }

    /// Ends the current container, as `container_popped` says.
    pub fn pop_container(&mut self)
        requires
            old(self).wf(),
            old(self).pop_fits(),
        ensures
            final(self).wf(),
            Self::container_popped(old(self), final(self)),
    {
        let cnt = self.get_current_container();
        let layout = self.containers[cnt.0].layout();
        let cx = layout.max.x - layout.body.x;
        let cy = layout.max.y - layout.body.y;
        self.containers[cnt.0].content_size.x = cx;
        self.containers[cnt.0].content_size.y = cy;
        self.container_stack.pop();
        self.pop_id();
        proof {
            assert forall|c: int, k: int| 0 <= c < CONTAINER_COUNT && 0 <= k < self.containers@[c].commands@.len()
                implies command_text_ok(#[trigger] self.containers@[c].commands@[k], self.text_stack@.len()) by {
                assert(self.containers@[c].commands@ == old(self).containers@[c].commands@);
            }
            assert forall|i: int| 0 <= i < self.container_stack@.len() implies cref_ok(#[trigger] self.container_stack@[i]) by {
                assert(self.container_stack@[i] == old(self).container_stack@[i]);
            }
            let l = old(self).containers@[cnt.0 as int].layouts().last();
            assert(self.containers@ =~= old(self).containers@.update(cnt.0 as int, Container {
                content_size: Vec2i { x: (l.max.x - l.body.x) as i32, y: (l.max.y - l.body.y) as i32 },
                ..old(self).containers@[cnt.0 as int]
            }));
            assert(self.container_stack@ =~= old(self).container_stack@.drop_last());
        }
    }

    /// Starts a frame: the lists, text buffer and commands of the last frame
    /// are dropped, the hover root chosen last frame takes effect, the mouse
    /// motion since the last frame is taken, and the frame counter moves on.
    #[verifier::loop_isolation(false)]
    pub fn begin(&mut self, width: usize, height: usize)
        requires
            old(self).wf(),
            in_i32(old(self).mouse_pos.x - old(self).last_mouse_pos.x),
            in_i32(old(self).mouse_pos.y - old(self).last_mouse_pos.y),
            old(self).frame < usize::MAX,
        ensures
            final(self).wf(),
            final(self).root_list@.len() == 0,
            final(self).text_stack@.len() == 0,
            final(self).scroll_target is None,
            final(self).hover_root == old(self).next_hover_root,
            final(self).next_hover_root is None,
            final(self).mouse_delta == (Vec2i {
                x: (old(self).mouse_pos.x - old(self).last_mouse_pos.x) as i32,
                y: (old(self).mouse_pos.y - old(self).last_mouse_pos.y) as i32,
            }),
            final(self).frame == old(self).frame + 1,
            final(self).containers@.len() == old(self).containers@.len(),
            forall|i: int| 0 <= i < CONTAINER_COUNT ==> #[trigger] final(self).containers@[i] == (Container {
                commands: final(self).containers@[i].commands,
                ..old(self).containers@[i]
            }) && final(self).containers@[i].commands@.len() == 0,
            *final(self) == (Context {
                root_list: final(self).root_list,
                text_stack: final(self).text_stack,
                scroll_target: None,
                hover_root: old(self).next_hover_root,
                next_hover_root: None,
                mouse_delta: final(self).mouse_delta,
                containers: final(self).containers,
                frame: final(self).frame,
                renderer: final(self).renderer,
                ..*old(self)
            }),
    {
        self.root_list.clear();
        string_clear(&mut self.text_stack);
        self.scroll_target = None;
        self.hover_root = self.next_hover_root;
        self.next_hover_root = None;
        self.mouse_delta.x = self.mouse_pos.x - self.last_mouse_pos.x;
        self.mouse_delta.y = self.mouse_pos.y - self.last_mouse_pos.y;
        let ghost pre = *self;
        let mut i: usize = 0;
        while i < CONTAINER_COUNT
            invariant
                i <= CONTAINER_COUNT,
                *self == (Context { containers: self.containers, ..pre }),
                self.containers@.len() == CONTAINER_COUNT,
                forall|k: int| 0 <= k < i ==> #[trigger] self.containers@[k] == (Container {
                    commands: self.containers@[k].commands,
                    ..old(self).containers@[k]
                }) && self.containers@[k].commands@.len() == 0,
                forall|k: int| i <= k < CONTAINER_COUNT ==> #[trigger] self.containers@[k] == old(self).containers@[k],
            decreases CONTAINER_COUNT - i,
        {
            self.containers[i].commands.clear();
            i += 1;
        }
        proof {
            assert forall|c: int, k: int| 0 <= c < CONTAINER_COUNT && 0 <= k < self.containers@[c].commands@.len()
                implies command_text_ok(#[trigger] self.containers@[c].commands@[k], self.text_stack@.len()) by {
                assert(self.containers@[c].commands@.len() == 0);
            }
        }
        self.frame += 1;
        self.renderer.begin_frame(width, height);
    }

    /// The container on top of the container stack, to change in place.
    pub fn top_container_mut(&mut self) -> (c: &mut Container<P>)
        requires
            old(self).wf(),
            old(self).container_stack@.len() > 0,
        ensures
            *c == old(self).containers@[old(self).cur().0 as int],
            final(self).containers@ == old(self).containers@.update(old(self).cur().0 as int, *final(c)),
            *final(self) == (Context { containers: final(self).containers, ..*old(self) }),
    {
        let i = self.container_stack[self.container_stack.len() - 1].0;
        &mut self.containers[i]
    }

    /// `new` is `old` after the current container's innermost layout hands
    /// out its next cell `r`.
    pub open spec fn next_cell_taken(old: &Self, new: &Self, style: Style, r: Recti) -> bool {
        let c = old.containers@[old.cur().0 as int];
        let s = c.layouts();
        let l = s.last();
        let nc = new.containers@[old.cur().0 as int];
        &&& r == next_cell_of(l, style)
        &&& nc.layouts() == s.update(s.len() - 1, next_layout_of(l, style))
        &&& nc.last_cell() == r
        &&& new.containers@ == old.containers@.update(old.cur().0 as int, Container { layout_stack: nc.layout_stack, ..c })
        &&& *new == Context { containers: new.containers, ..*old }
    }

    /// Hands out the next cell of the current container's innermost layout.
    pub fn next_cell(&mut self, style: &Style) -> (r: Recti)
        requires
            old(self).wf(),
            old(self).container_stack@.len() > 0,
            old(self).containers@[old(self).cur().0 as int].layouts().len() > 0,
            next_fits(old(self).containers@[old(self).cur().0 as int].layouts().last(), *style),
        ensures
            final(self).wf(),
            Self::next_cell_taken(old(self), final(self), *style, r),
    {
        let i = self.get_current_container().0;
        let r = self.containers[i].next_cell(style);
        proof {
            assert forall|c: int, k: int| 0 <= c < CONTAINER_COUNT && 0 <= k < self.containers@[c].commands@.len()
                implies command_text_ok(#[trigger] self.containers@[c].commands@[k], self.text_stack@.len()) by {
                assert(self.containers@[c].commands@ == old(self).containers@[c].commands@);
            }
            let c0 = old(self).containers@[i as int];
            assert(self.containers@ =~= old(self).containers@.update(i as int,
                Container { layout_stack: self.containers@[i as int].layout_stack, ..c0 }));
        }
        r
    }

    /// The innermost layout of the current container, to change in place.
    pub fn layout_mut(&mut self) -> (l: &mut Layout)
        requires
            old(self).wf(),
            old(self).container_stack@.len() > 0,
            old(self).containers@[old(self).cur().0 as int].layouts().len() > 0,
        ensures
            ({
                let c = old(self).containers@[old(self).cur().0 as int];
                let nc = final(self).containers@[old(self).cur().0 as int];
                &&& *l == c.layouts().last()
                &&& nc.layouts() == c.layouts().update(c.layouts().len() - 1, *final(l))
                &&& nc.last_cell() == c.last_cell()
                &&& final(self).containers@ == old(self).containers@.update(old(self).cur().0 as int,
                    Container { layout_stack: nc.layout_stack, ..c })
            }),
            *final(self) == (Context { containers: final(self).containers, ..*old(self) }),
    {
        let i = self.get_current_container().0;
        self.containers[i].layout_mut()
    }

    /// The last cell the current container's layouts handed out.
    pub fn current_rect(&self) -> (r: Recti)
        requires
            self.wf(),
            self.container_stack@.len() > 0,
        ensures
            r == self.containers@[self.cur().0 as int].last_cell(),
    {
        let i = self.get_current_container().0;
        self.containers[i].layout_stack.last_rect()
    }

    /// The size of the back end's frame.
    pub fn frame_size(&self) -> (usize, usize) {
        self.renderer.frame_size()
    }

    /// The root container that a press this frame raises to the front: the
    /// next hover root, when a button was pressed and it lies below the front
    /// at a non-negative depth.
    pub open spec fn raised_root(&self) -> Option<ContRef> {
        match self.next_hover_root {
            Some(c) => if self.mouse_pressed@ != 0 && self.containers@[c.0 as int].zindex < self.last_zindex
                && self.containers@[c.0 as int].zindex >= 0 {
                Some(c)
            } else {
                None
            },
            None => None,
        }
    }

    /// Orders the root list by depth, back to front.
    #[verifier::loop_isolation(false)]
    fn sort_root_list(&mut self)
        requires
            old(self).wf(),
        ensures
            final(self).wf(),
            final(self).root_list@.to_multiset() == old(self).root_list@.to_multiset(),
            sorted_by_zindex(final(self).root_list@, final(self).containers@),
            *final(self) == (Context { root_list: final(self).root_list, ..*old(self) }),
    {
        broadcast use vstd::seq_lib::group_to_multiset_ensures;
        let mut sorted: Vec<ContRef> = Vec::new();
        let n = self.root_list.len();
        let mut i: usize = 0;
        while i < n
            invariant
                i <= n,
                n == self.root_list@.len(),
                sorted@.to_multiset() == self.root_list@.take(i as int).to_multiset(),
                sorted_by_zindex(sorted@, self.containers@),
                forall|k: int| 0 <= k < sorted@.len() ==> cref_ok(#[trigger] sorted@[k]),
            decreases n - i,
        {
            let c = self.root_list[i];
            let z = self.containers[c.0].zindex;
            let mut pos: usize = 0;
            while pos < sorted.len() && self.containers[sorted[pos].0].zindex <= z
                invariant
                    pos <= sorted@.len(),
                    forall|k: int| 0 <= k < pos ==> self.containers@[(#[trigger] sorted@[k]).0 as int].zindex <= z,
                decreases sorted@.len() - pos,
            {
                pos += 1;
            }
            let ghost old_sorted = sorted@;
            sorted.insert(pos, c);
            proof {
                let cs = self.containers@;
                assert(sorted@ == old_sorted.insert(pos as int, c));
                assert(pos < old_sorted.len() ==> cs[old_sorted[pos as int].0 as int].zindex > z);
                assert forall|a: int, b: int| 0 <= a < b < sorted@.len()
                    implies cs[sorted@[a].0 as int].zindex <= cs[sorted@[b].0 as int].zindex by {
                    if b < pos {
                    } else if b == pos {
                        assert(sorted@[a] == old_sorted[a]);
                    } else if a < pos {
                        assert(sorted@[b] == old_sorted[b - 1]);
                        if pos < old_sorted.len() {
                            assert(cs[old_sorted[pos as int].0 as int].zindex <= cs[old_sorted[b - 1].0 as int].zindex);
                        }
                    } else if a == pos {
                        assert(sorted@[b] == old_sorted[b - 1]);
                        assert(cs[old_sorted[pos as int].0 as int].zindex <= cs[old_sorted[b - 1].0 as int].zindex
                            || b - 1 == pos);
                    } else {
                        assert(sorted@[a] == old_sorted[a - 1]);
                        assert(sorted@[b] == old_sorted[b - 1]);
                    }
                }
                assert(self.root_list@.take(i + 1) == self.root_list@.take(i as int).push(c));
                assert forall|k: int| 0 <= k < sorted@.len() implies cref_ok(#[trigger] sorted@[k]) by {
                    if k < pos {
                        assert(sorted@[k] == old_sorted[k]);
                    } else if k > pos {
                        assert(sorted@[k] == old_sorted[k - 1]);
                    }
                }
            }
            i += 1;
        }
        proof {
            assert(self.root_list@.take(n as int) == self.root_list@);
        }
        self.root_list = sorted;
    }

    /// Takes out what painting hands the back end: the commands of the root
    /// containers, in the order of the root list and each container's in the
    /// order it recorded them, with a text command's text read out of the
    /// text buffer. A container listed twice gives its commands once. The
    /// root containers' commands are used up; nothing else changes.
    #[verifier::loop_isolation(false)]
    pub fn take_paint_ops(&mut self) -> (ops: Vec<PaintOp<P>>)
        requires
            old(self).wf(),
        ensures
            final(self).wf(),
            ops@.len() == painted_commands(old(self).root_list@, old(self).containers@).len(),
            forall|k: int| 0 <= k < ops@.len() ==> paints_as(#[trigger] ops@[k],
                painted_commands(old(self).root_list@, old(self).containers@)[k], old(self).text_stack@),
            final(self).containers@.len() == old(self).containers@.len(),
            forall|i: int| 0 <= i < CONTAINER_COUNT ==> #[trigger] final(self).containers@[i] == (Container {
                commands: final(self).containers@[i].commands,
                ..old(self).containers@[i]
            }),
            forall|i: int| 0 <= i < CONTAINER_COUNT ==> (#[trigger] final(self).containers@[i]).commands@ == (
                if old(self).root_list@.contains(ContRef(i as usize)) {
                    Seq::empty()
                } else {
                    old(self).containers@[i].commands@
                }),
            *final(self) == (Context { containers: final(self).containers, ..*old(self) }),
    {
        let text_len = self.text_stack.as_str().unicode_len();
        let n = self.root_list.len();
        let ghost pre = *self;
        let mut ops: Vec<PaintOp<P>> = Vec::new();
        let mut i: usize = 0;
        while i < n
            invariant
                i <= n,
                n == self.root_list@.len(),
                text_len == self.text_stack@.len(),
                *self == (Context { containers: self.containers, ..pre }),
                self.containers@.len() == CONTAINER_COUNT,
                forall|c: int| 0 <= c < CONTAINER_COUNT ==> #[trigger] self.containers@[c] == (Container {
                    commands: self.containers@[c].commands,
                    ..old(self).containers@[c]
                }),
                forall|c: int| 0 <= c < CONTAINER_COUNT ==> (#[trigger] self.containers@[c]).commands@ == (
                    if self.root_list@.take(i as int).contains(ContRef(c as usize)) {
                        Seq::empty()
                    } else {
                        old(self).containers@[c].commands@
                    }),
                ops@.len() == painted_commands(self.root_list@.take(i as int), old(self).containers@).len(),
                forall|k: int| 0 <= k < ops@.len() ==> paints_as(#[trigger] ops@[k],
                    painted_commands(self.root_list@.take(i as int), old(self).containers@)[k], pre.text_stack@),
            decreases n - i,
        {
            let cnt = self.root_list[i];
            let ghost base = painted_commands(self.root_list@.take(i as int), old(self).containers@);
            let mut commands: Vec<Command<P>> = Vec::new();
            std::mem::swap(&mut commands, &mut self.containers[cnt.0].commands);
            let ghost seg = commands@;
            proof {
                let t = self.root_list@.take(i + 1);
                assert(t.drop_last() =~= self.root_list@.take(i as int));
                assert(t.last() == cnt);
                assert(seg == (if self.root_list@.take(i as int).contains(cnt) {
                    Seq::<Command<P>>::empty()
                } else {
                    old(self).containers@[cnt.0 as int].commands@
                }));
                assert(painted_commands(t, old(self).containers@) == base + seg);
                assert forall|k: int| 0 <= k < seg.len() implies command_text_ok(#[trigger] seg[k], text_len as nat) by {
                    assert(seg[k] == pre.containers@[cnt.0 as int].commands@[k]);
                }
            }
            let mut pending: Vec<Command<P>> = Vec::new();
            while commands.len() > 0
                invariant
                    seg.len() == commands@.len() + pending@.len(),
                    forall|k: int| 0 <= k < commands@.len() ==> #[trigger] commands@[k] == seg[k],
                    forall|k: int| 0 <= k < pending@.len() ==> #[trigger] pending@[k] == seg[seg.len() - 1 - k],
                decreases commands@.len(),
            {
                let cmd = commands.pop().unwrap();
                pending.push(cmd);
            }
            while pending.len() > 0
                invariant
                    pending@.len() <= seg.len(),
                    forall|k: int| 0 <= k < pending@.len() ==> #[trigger] pending@[k] == seg[seg.len() - 1 - k],
                    ops@.len() == base.len() + seg.len() - pending@.len(),
                    forall|k: int| 0 <= k < ops@.len() ==> paints_as(#[trigger] ops@[k], (base + seg)[k], pre.text_stack@),
                decreases pending@.len(),
            {
                let ghost j = seg.len() - pending@.len();
                let cmd = pending.pop().unwrap();
                assert(cmd == seg[j]);
                let op = paint_op(cmd, self.text_stack.as_str());
                ops.push(op);
                assert((base + seg)[base.len() + j] == seg[j]);
            }
            proof {
                assert(self.root_list@.take(i + 1) == self.root_list@.take(i as int).push(cnt));
                assert forall|c: int| 0 <= c < CONTAINER_COUNT implies (#[trigger] self.containers@[c]).commands@ == (
                    if self.root_list@.take(i + 1).contains(ContRef(c as usize)) {
                        Seq::empty()
                    } else {
                        old(self).containers@[c].commands@
                    }) by {
                    if c == cnt.0 {
                        assert(self.root_list@.take(i + 1)[i as int] == ContRef(c as usize));
                    } else {
                        assert(self.root_list@.take(i + 1).contains(ContRef(c as usize))
                            == self.root_list@.take(i as int).contains(ContRef(c as usize)));
                    }
                }
            }
            i += 1;
        }
        proof {
            assert(self.root_list@.take(n as int) == self.root_list@);
            assert forall|c: int, k: int| 0 <= c < CONTAINER_COUNT && 0 <= k < self.containers@[c].commands@.len()
                implies command_text_ok(#[trigger] self.containers@[c].commands@[k], self.text_stack@.len()) by {
                assert(self.containers@[c].commands@[k] == old(self).containers@[c].commands@[k]);
            }
        }
        ops
    }

    /// Paints the frame: hands the back end, one at a time and in their
    /// order, the operations that `take_paint_ops` takes out (a rectangle,
    /// a text, an icon, a clip rectangle or a render pass of the frame's own
    /// commands), then flushes it.
    pub fn paint(&mut self)
        requires
            old(self).wf(),
        ensures
            final(self).wf(),
            final(self).containers@.len() == old(self).containers@.len(),
            forall|i: int| 0 <= i < CONTAINER_COUNT ==> #[trigger] final(self).containers@[i] == (Container {
                commands: final(self).containers@[i].commands,
                ..old(self).containers@[i]
            }),
            forall|i: int| 0 <= i < CONTAINER_COUNT ==> (#[trigger] final(self).containers@[i]).commands@ == (
                if old(self).root_list@.contains(ContRef(i as usize)) {
                    Seq::empty()
                } else {
                    old(self).containers@[i].commands@
                }),
            *final(self) == (Context { containers: final(self).containers, renderer: final(self).renderer, ..*old(self) }),
    {
        let mut ops = self.take_paint_ops();
        let ghost all = ops@;
        let mut in_order: Vec<PaintOp<P>> = Vec::new();
        while ops.len() > 0
            invariant
                ops@.len() + in_order@.len() == all.len(),
                forall|k: int| 0 <= k < ops@.len() ==> #[trigger] ops@[k] == all[k],
                forall|k: int| 0 <= k < in_order@.len() ==> #[trigger] in_order@[k] == all[all.len() - 1 - k],
            decreases ops@.len(),
        {
            let op = ops.pop().unwrap();
            in_order.push(op);
        }
        let ghost mid = *self;
        let ghost mut handed: Seq<PaintOp<P>> = Seq::empty();
        while in_order.len() > 0
            invariant
                *self == (Context { renderer: self.renderer, ..mid }),
                handed.len() + in_order@.len() == all.len(),
                forall|k: int| 0 <= k < handed.len() ==> #[trigger] handed[k] == all[k],
                forall|k: int| 0 <= k < in_order@.len() ==> #[trigger] in_order@[k] == all[all.len() - 1 - k],
            decreases in_order@.len(),
        {
            let op = in_order.pop().unwrap();
            proof {
                assert(op == all[handed.len() as int]);
                handed = handed.push(op);
            }
            match op {
                PaintOp::Text { font, text, pos, color } => {
                    self.renderer.draw_text(font, text.as_str(), pos, color);
                },
                PaintOp::Rect { rect, color } => {
                    self.renderer.draw_rect(rect, color);
                },
                PaintOp::Icon { rect, id, color } => {
                    self.renderer.draw_icon(id, rect, color);
                },
                PaintOp::Clip { rect } => {
                    self.renderer.set_clip_rect(rect);
                },
                PaintOp::Pass { pass } => {
                    self.renderer.add_render_pass_commands(pass);
                },
                PaintOp::Skip => {},
            }
        }
        proof {
            assert(handed =~= all);
            assert(forall|k: int| 0 <= k < handed.len() ==> paints_as(#[trigger] handed[k],
                painted_commands(old(self).root_list@, old(self).containers@)[k], old(self).text_stack@));
        }
        self.renderer.flush();
    }

    /// Ends a frame: the scroll target scrolls, an unclaimed focus is
    /// dropped, a press raises the hover root to the front, this frame's
    /// input is cleared, the root containers are ordered back to front and
    /// painted, and the back end's frame is returned.
    pub fn end(&mut self) -> (p: P)
        requires
            old(self).wf(),
            old(self).container_stack@.len() == 0,
            old(self).clip_stack@.len() == 0,
            old(self).id_stack@.len() == 0,
            old(self).scroll_target matches Some(t) ==> {
                &&& in_i32(old(self).containers@[t.0 as int].scroll.x + old(self).scroll_delta.x)
                &&& in_i32(old(self).containers@[t.0 as int].scroll.y + old(self).scroll_delta.y)
            },
            old(self).raised_root() is Some ==> old(self).last_zindex + 128 <= i32::MAX,
        ensures
            final(self).wf(),
            final(self).focus == (if old(self).updated_focus { old(self).focus } else { None }),
            !final(self).updated_focus,
            final(self).last_zindex == (if old(self).raised_root() is Some {
                old(self).last_zindex + 128
            } else {
                old(self).last_zindex as int
            }),
            final(self).containers@.len() == CONTAINER_COUNT,
            forall|i: int| 0 <= i < CONTAINER_COUNT ==> #[trigger] final(self).containers@[i] == (Container {
                commands: final(self).containers@[i].commands,
                zindex: if old(self).raised_root() == Some(ContRef(i as usize)) {
                    final(self).last_zindex
                } else {
                    old(self).containers@[i].zindex
                },
                scroll: if old(self).scroll_target == Some(ContRef(i as usize)) {
                    Vec2i {
                        x: (old(self).containers@[i].scroll.x + old(self).scroll_delta.x) as i32,
                        y: (old(self).containers@[i].scroll.y + old(self).scroll_delta.y) as i32,
                    }
                } else {
                    old(self).containers@[i].scroll
                },
                ..old(self).containers@[i]
            }),
            forall|i: int| 0 <= i < CONTAINER_COUNT ==> (#[trigger] final(self).containers@[i]).commands@ == (
                if old(self).root_list@.contains(ContRef(i as usize)) {
                    Seq::empty()
                } else {
                    old(self).containers@[i].commands@
                }),
            final(self).root_list@.to_multiset() == old(self).root_list@.to_multiset(),
            sorted_by_zindex(final(self).root_list@, final(self).containers@),
            final(self).key_pressed@ == 0,
            final(self).mouse_pressed@ == 0,
            final(self).input_text@.len() == 0,
            final(self).scroll_delta == (Vec2i { x: 0, y: 0 }),
            final(self).last_mouse_pos == old(self).mouse_pos,
            *final(self) == (Context {
                focus: final(self).focus,
                updated_focus: false,
                last_zindex: final(self).last_zindex,
                containers: final(self).containers,
                root_list: final(self).root_list,
                key_pressed: final(self).key_pressed,
                mouse_pressed: final(self).mouse_pressed,
                input_text: final(self).input_text,
                scroll_delta: final(self).scroll_delta,
                last_mouse_pos: final(self).last_mouse_pos,
                renderer: final(self).renderer,
                ..*old(self)
            }),
    {
        match self.scroll_target {
            Some(cnt_ref) => {
                let dx = self.scroll_delta.x;
                let dy = self.scroll_delta.y;
                self.containers[cnt_ref.0].scroll.x += dx;
                self.containers[cnt_ref.0].scroll.y += dy;
            },
            None => {},
        }
        if !self.updated_focus {
            self.focus = None;
        }
        self.updated_focus = false;
        match self.next_hover_root {
            Some(cnt_ref) => {
                if !self.mouse_pressed.is_none() && self.containers[cnt_ref.0].zindex < self.last_zindex
                    && self.containers[cnt_ref.0].zindex >= 0 {
                    self.bring_to_front(cnt_ref);
                }
            },
            None => {},
        }
        self.key_pressed = KeyModifier::NONE();
        string_clear(&mut self.input_text);
        self.mouse_pressed = MouseButton::NONE();
        self.scroll_delta = vec2(0, 0);
        self.last_mouse_pos = self.mouse_pos;
        proof {
            assert forall|c: int, k: int| 0 <= c < CONTAINER_COUNT && 0 <= k < self.containers@[c].commands@.len()
                implies command_text_ok(#[trigger] self.containers@[c].commands@[k], self.text_stack@.len()) by {
                assert(self.containers@[c].commands@ == old(self).containers@[c].commands@);
            }
        }
        let ghost unsorted = self.root_list@;
        self.sort_root_list();
        proof {
            broadcast use vstd::seq_lib::group_to_multiset_ensures;
            assert forall|c: ContRef| self.root_list@.contains(c) == unsorted.contains(c) by {
                assert(self.root_list@.to_multiset().count(c) == unsorted.to_multiset().count(c));
            }
        }
        self.paint();
        self.renderer.end_frame()
    }

    /// Starts the root container `cnt`: it goes on the container stack and the
    /// root list, its commands are dropped, it becomes the next hover root
    /// when the mouse is over it and it lies above the current candidate, and
    /// nothing is clipped.
    pub fn begin_root_container(&mut self, cnt: ContRef)
        requires
            old(self).wf(),
            cref_ok(cnt),
            rect_corner_fits(old(self).containers@[cnt.0 as int].rect),
        ensures
            final(self).wf(),
            final(self).container_stack@ == old(self).container_stack@.push(cnt),
            final(self).root_list@ == old(self).root_list@.push(cnt),
            final(self).clip_stack@ == old(self).clip_stack@.push(unclipped_rect()),
            final(self).containers@ == old(self).containers@.update(cnt.0 as int, Container {
                commands: final(self).containers@[cnt.0 as int].commands,
                ..old(self).containers@[cnt.0 as int]
            }),
            final(self).containers@[cnt.0 as int].commands@.len() == 0,
            final(self).next_hover_root == (if spec_rect_overlaps(old(self).containers@[cnt.0 as int].rect, old(self).mouse_pos)
                && (old(self).next_hover_root matches Some(h) ==> old(self).containers@[cnt.0 as int].zindex
                    > old(self).containers@[h.0 as int].zindex) {
                Some(cnt)
            } else {
                old(self).next_hover_root
            }),
            *final(self) == (Context {
                container_stack: final(self).container_stack,
                root_list: final(self).root_list,
                clip_stack: final(self).clip_stack,
                containers: final(self).containers,
                next_hover_root: final(self).next_hover_root,
                ..*old(self)
            }),
    {
        self.container_stack.push(cnt);
        self.root_list.push(cnt);
        self.containers[cnt.0].commands.clear();
        if rect_overlaps_vec2(self.containers[cnt.0].rect, self.mouse_pos) && (self.next_hover_root.is_none()
            || self.containers[cnt.0].zindex > self.containers[self.next_hover_root.unwrap().0].zindex) {
            self.next_hover_root = Some(cnt);
        }
        self.clip_stack.push(Recti::new(0, 0, 0x1000000, 0x1000000));
        proof {
            assert forall|c: int, k: int| 0 <= c < CONTAINER_COUNT && 0 <= k < self.containers@[c].commands@.len()
                implies command_text_ok(#[trigger] self.containers@[c].commands@[k], self.text_stack@.len()) by {
                assert(c != cnt.0);
                assert(self.containers@[c].commands@ == old(self).containers@[c].commands@);
            }
            assert forall|i: int| 0 <= i < self.container_stack@.len() implies cref_ok(#[trigger] self.container_stack@[i]) by {
                if i < old(self).container_stack@.len() {
                    assert(self.container_stack@[i] == old(self).container_stack@[i]);
                }
            }
            assert forall|i: int| 0 <= i < self.root_list@.len() implies cref_ok(#[trigger] self.root_list@[i]) by {
                if i < old(self).root_list@.len() {
                    assert(self.root_list@[i] == old(self).root_list@[i]);
                }
            }
        }
    }

    /// Ends the current root container: its clip rectangle is popped, then the container.
    pub fn end_root_container(&mut self)
        requires
            old(self).wf(),
            old(self).pop_fits(),
        ensures
            final(self).wf(),
            exists|m: Self| #[trigger] Self::clip_popped(old(self), &m) && Self::container_popped(&m, final(self)),
    {
        self.pop_clip_rect();
        let ghost m = *self;
        self.pop_container();
        assert(Self::clip_popped(old(self), &m));
    }
}

/// A key that goes down and then up is no longer held, and every other key
/// is held as it was before.
pub proof fn lemma_key_down_up(held: u32, k: u32)
    ensures
        ((held | k) & (!k & KeyModifier::all_bits())) & k == 0,
        (held | k) & (!k & KeyModifier::all_bits()) == held & !k & KeyModifier::all_bits(),
{
    crate::ui::flags::lemma_press_release(held, k, KeyModifier::all_bits());
}

/// A button that goes down and then up is no longer down, and every other
/// button is as it was before.
pub proof fn lemma_mouse_down_up(down: u32, b: u32)
    ensures
        ((down | b) & (!b & MouseButton::all_bits())) & b == 0,
        (down | b) & (!b & MouseButton::all_bits()) == down & !b & MouseButton::all_bits(),
{
    crate::ui::flags::lemma_press_release(down, b, MouseButton::all_bits());
}

/// Pushing a clip rectangle that touches the current one and then popping
/// it gives back the clip stack; while pushed, the clip is their overlap.
pub proof fn lemma_clip_push_pop(stack: Seq<Recti>, rect: Recti)
    requires
        stack.len() > 0,
        spec_intersect(rect, stack.last()) is Some,
    ensures
        ({
            let pushed = stack.push(spec_intersect(rect, stack.last()).unwrap());
            &&& pushed.last() == spec_intersect(rect, stack.last()).unwrap()
            &&& pushed.len() > 0
            &&& pushed.drop_last() == stack
        }),
{
    assert(stack.push(spec_intersect(rect, stack.last()).unwrap()).drop_last() =~= stack);
}

/// Pushing an id and then popping it gives back the id stack, and ids
/// taken in between are taken under the pushed one.
pub proof fn lemma_id_push_pop(ids: Seq<Id>, id: Id)
    ensures
        ids.push(id).len() > 0,
        ids.push(id).drop_last() == ids,
        id_base(ids.push(id)) == id@,
{
    assert(ids.push(id).drop_last() =~= ids);
}

/// A control with `NO_INTERACT` takes neither hover nor focus; it only
/// marks a focus it already holds as claimed this frame.
pub proof fn lemma_no_interact(
    hover: Option<Id>,
    focus: Option<Id>,
    updated: bool,
    id: Id,
    mouseover: bool,
    down_empty: bool,
    pressed_empty: bool,
    hold_focus: bool,
)
    ensures
        update_control_spec(hover, focus, updated, id, mouseover, down_empty, pressed_empty, true, hold_focus)
            == (hover, focus, if focus == Some(id) { true } else { updated }),
{
}

/// A press on the control under the mouse, with no other button held,
/// focuses it and marks the focus as claimed.
pub proof fn lemma_press_focuses(hover: Option<Id>, focus: Option<Id>, updated: bool, id: Id, hold_focus: bool)
    ensures
        ({
            let (h, f, u) = update_control_spec(hover, focus, updated, id, true, true, false, false, hold_focus);
            h == Some(id) && f == Some(id) && u
        }),
{
}

} // verus!
