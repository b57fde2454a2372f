use neocogi::geometry::{color, vec2, Color4b, Recti, Vec2i};
use neocogi::ui::context::{paint_op, Clip, Command, Context, Icon, PaintOp, RendererBackEnd, CONTAINER_COUNT};
use neocogi::ui::controls::NumberEdit;
use neocogi::ui::flags::{KeyModifier, MouseButton, WidgetOption};
use neocogi::ui::pool::ContRef;
use neocogi::ui::style::{FontId, Style};

struct Mock {
    calls: Vec<String>,
    frames: u32,
}

impl RendererBackEnd<u32> for Mock {
    fn get_char_width(&self, _font: FontId, _c: char) -> usize {
        8
    }
    fn get_font_height(&self, _font: FontId) -> usize {
        10
    }
    fn begin_frame(&mut self, width: usize, height: usize) {
        self.calls.push(format!("begin {} {}", width, height));
    }
    fn end_frame(&mut self) -> u32 {
        self.frames += 1;
        self.frames
    }
    fn draw_rect(&mut self, rect: Recti, _color: Color4b) {
        self.calls.push(format!("rect {} {} {} {}", rect.x, rect.y, rect.width, rect.height));
    }
    fn draw_text(&mut self, _font: FontId, text: &str, pos: Vec2i, _color: Color4b) {
        self.calls.push(format!("text {} {} {}", text, pos.x, pos.y));
    }
    fn draw_icon(&mut self, id: Icon, r: Recti, _color: Color4b) {
        self.calls.push(format!("icon {:?} {} {}", id, r.x, r.y));
    }
    fn add_render_pass_commands(&mut self, commands: u32) {
        self.calls.push(format!("pass {}", commands));
    }
    fn set_clip_rect(&mut self, rect: Recti) {
        self.calls.push(format!("clip {} {} {} {}", rect.x, rect.y, rect.width, rect.height));
    }
    fn flush(&mut self) {
        self.calls.push(String::from("flush"));
    }
    fn frame_size(&self) -> (usize, usize) {
        (640, 480)
    }
}

fn ctx() -> Context<u32, Mock> {
    Context::new(Mock { calls: Vec::new(), frames: 0 })
}

fn style() -> Style {
    Style::new(FontId(0), FontId(1), FontId(2))
}

#[test]
fn new_context_is_empty() {
    let c = ctx();
    assert_eq!(c.containers.len(), CONTAINER_COUNT);
    assert!(c.containers.iter().all(|k| !k.open && k.commands.is_empty()));
    assert_eq!(c.frame, 0);
    assert!(c.focus.is_none() && c.hover.is_none());
    assert_eq!(c.frame_size(), (640, 480));
}

#[test]
fn begin_takes_mouse_motion_and_counts_frames() {
    let mut c = ctx();
    c.input_mousemove(10, 20);
    c.begin(640, 480);
    assert_eq!(c.frame, 1);
    assert_eq!(c.mouse_delta, Vec2i { x: 10, y: 20 });
    assert_eq!(c.renderer.calls, vec![String::from("begin 640 480")]);
    let p = c.end();
    assert_eq!(p, 1);
    assert_eq!(c.last_mouse_pos, Vec2i { x: 10, y: 20 });
    c.begin(640, 480);
    assert_eq!(c.mouse_delta, Vec2i { x: 0, y: 0 });
    assert_eq!(c.frame, 2);
}

#[test]
fn key_down_then_up_releases_only_that_key() {
    let mut c = ctx();
    c.input_keydown(KeyModifier::SHIFT());
    c.input_keydown(KeyModifier::CTRL());
    c.input_keyup(KeyModifier::CTRL());
    assert!(c.key_down.is_shift());
    assert!(!c.key_down.is_ctrl());
    assert!(c.key_pressed.is_ctrl());
}

#[test]
fn mouse_down_then_up_releases_only_that_button() {
    let mut c = ctx();
    c.input_mousedown(1, 2, MouseButton::LEFT());
    c.input_mousedown(1, 2, MouseButton::RIGHT());
    c.input_mouseup(3, 4, MouseButton::LEFT());
    assert!(!c.mouse_down.is_left());
    assert!(c.mouse_down.is_right());
    assert!(c.mouse_pressed.is_left());
    assert_eq!(c.mouse_pos, vec2(3, 4));
}

#[test]
fn scroll_and_text_input() {
    let mut c = ctx();
    c.input_scroll(2, 3);
    assert_eq!(c.scroll_delta, Vec2i { x: 2, y: 30 });
    c.input_text("ab");
    c.input_text("c");
    assert_eq!(c.input_text, "abc");
}

#[test]
fn clip_push_then_pop_restores() {
    let mut c = ctx();
    c.clip_stack.push(Recti::new(0, 0, 100, 100));
    assert_eq!(c.push_clip_rect(Recti::new(50, 50, 100, 100)), Some(Recti::new(50, 50, 50, 50)));
    assert_eq!(c.get_clip_rect(), Recti::new(50, 50, 50, 50));
    assert_eq!(c.check_clip(Recti::new(60, 60, 10, 10)), Clip::NoClip);
    assert_eq!(c.check_clip(Recti::new(40, 60, 20, 10)), Clip::Part);
    assert_eq!(c.check_clip(Recti::new(0, 0, 10, 10)), Clip::All);
    c.pop_clip_rect();
    assert_eq!(c.clip_stack, vec![Recti::new(0, 0, 100, 100)]);
    assert_eq!(c.push_clip_rect(Recti::new(200, 200, 5, 5)), None);
    assert_eq!(c.clip_stack.len(), 1);
}

#[test]
fn id_push_then_pop_restores() {
    let mut c = ctx();
    let before = c.get_id_from_str("x");
    c.push_id_from_str("win");
    let inner = c.get_id_from_str("x");
    assert_ne!(before, inner);
    c.pop_id();
    assert!(c.id_stack.is_empty());
    assert_eq!(c.get_id_from_str("x"), before);
    assert_eq!(c.last_id, Some(before));
}

fn window_frame(c: &mut Context<u32, Mock>, s: &Style) -> bool {
    let res = c.begin_window(s, "win", Recti::new(10, 10, 200, 150), WidgetOption::NONE());
    if res.is_active() {
        c.label(s, "hello");
        c.end_window();
        true
    } else {
        false
    }
}

#[test]
fn window_draws_and_paints() {
    let mut c = ctx();
    let s = style();
    c.begin(640, 480);
    assert!(window_frame(&mut c, &s));
    assert_eq!(c.root_list.len(), 1);
    assert!(c.container_stack.is_empty() && c.clip_stack.is_empty() && c.id_stack.is_empty());
    let cnt = c.root_list[0];
    assert!(c.containers[cnt.0].open);
    assert_eq!(c.containers[cnt.0].rect, Recti::new(10, 10, 200, 150));
    assert!(!c.containers[cnt.0].commands.is_empty());
    c.end();
    assert!(c.containers[cnt.0].commands.is_empty());
    let calls = &c.renderer.calls;
    assert!(calls.iter().any(|l| l.starts_with("text win")));
    assert!(calls.iter().any(|l| l.starts_with("text hello")));
    assert!(calls.iter().any(|l| l.starts_with("icon Close")));
    assert_eq!(calls.last().unwrap(), "flush");
}

#[test]
fn window_body_sits_below_title() {
    let mut c = ctx();
    let s = style();
    c.begin(640, 480);
    c.begin_window(&s, "win", Recti::new(10, 10, 200, 150), WidgetOption::NONE());
    let cnt = c.get_current_container();
    assert_eq!(c.containers[cnt.0].body, Recti::new(10, 34, 188, 114));
    let cell = c.next_cell(&s);
    assert_eq!(cell, Recti::new(15, 39, 78, 20));
    assert_eq!(c.current_rect(), cell);
    c.end_window();
    c.end();
}

#[test]
fn closed_window_is_not_begun() {
    let mut c = ctx();
    let s = style();
    c.begin(640, 480);
    let res = c.begin_window(&s, "gone", Recti::new(0, 0, 100, 100), WidgetOption::CLOSED());
    assert!(res.is_none());
    assert!(c.container_stack.is_empty());
    c.end();
}

#[test]
fn end_orders_root_list_by_depth() {
    let mut c = ctx();
    let s = style();
    c.begin(640, 480);
    c.begin_window(&s, "a", Recti::new(0, 0, 100, 100), WidgetOption::NONE());
    c.end_window();
    c.begin_window(&s, "b", Recti::new(200, 0, 100, 100), WidgetOption::NONE());
    c.end_window();
    let first = c.root_list[0];
    let second = c.root_list[1];
    c.bring_to_front(first);
    c.end();
    assert_eq!(c.root_list, vec![second, first]);
    assert!(c.containers[second.0].zindex < c.containers[first.0].zindex);
}

#[test]
fn press_on_title_focuses_and_unclaimed_focus_drops() {
    let mut c = ctx();
    let s = style();
    c.input_mousemove(50, 20);
    c.begin(640, 480);
    window_frame(&mut c, &s);
    c.end();
    c.begin(640, 480);
    window_frame(&mut c, &s);
    assert!(c.hover.is_some());
    c.end();
    c.input_mousedown(50, 20, MouseButton::LEFT());
    c.begin(640, 480);
    window_frame(&mut c, &s);
    assert!(c.focus.is_some());
    c.end();
    c.input_mouseup(50, 20, MouseButton::LEFT());
    c.begin(640, 480);
    c.end();
    assert!(c.focus.is_none());
}

fn button_frame(c: &mut Context<u32, Mock>, s: &Style) -> bool {
    c.begin(640, 480);
    c.begin_window(s, "w", Recti::new(0, 0, 300, 200), WidgetOption::NONE());
    let r = c.button(s, "ok", None, WidgetOption::NONE());
    c.end_window();
    c.end();
    r.is_submitted()
}

#[test]
fn button_submits_on_press() {
    let mut c = ctx();
    let s = style();
    c.input_mousemove(20, 40);
    assert!(!button_frame(&mut c, &s));
    assert!(!button_frame(&mut c, &s));
    c.input_mousedown(20, 40, MouseButton::LEFT());
    assert!(button_frame(&mut c, &s));
    c.input_mouseup(20, 40, MouseButton::LEFT());
    assert!(!button_frame(&mut c, &s));
}

#[test]
fn checkbox_flips_on_press() {
    let mut c = ctx();
    let s = style();
    let mut state = false;
    let addr: usize = 0x1000;
    c.input_mousemove(20, 40);
    for press in [false, false, true] {
        if press {
            c.input_mousedown(20, 40, MouseButton::LEFT());
        }
        c.begin(640, 480);
        c.begin_window(&s, "w", Recti::new(0, 0, 300, 200), WidgetOption::NONE());
        let r = c.checkbox(&s, "check", &mut state, addr);
        assert_eq!(r.is_changed(), press);
        c.end_window();
        c.end();
    }
    assert!(state);
}

#[test]
fn textbox_takes_typed_text_and_backspace() {
    let mut c = ctx();
    let s = style();
    let mut buf = String::from("ab");
    let addr: usize = 0x2000;
    c.input_mousemove(20, 40);
    let mut frame = |c: &mut Context<u32, Mock>, buf: &mut String| {
        c.begin(640, 480);
        c.begin_window(&s, "w", Recti::new(0, 0, 300, 200), WidgetOption::NONE());
        let r = c.textbox_ex(&s, buf, addr, WidgetOption::NONE());
        c.end_window();
        c.end();
        r
    };
    frame(&mut c, &mut buf);
    frame(&mut c, &mut buf);
    c.input_mousedown(20, 40, MouseButton::LEFT());
    frame(&mut c, &mut buf);
    c.input_mouseup(20, 40, MouseButton::LEFT());
    c.input_text("cd");
    let r = frame(&mut c, &mut buf);
    assert!(r.is_changed());
    assert_eq!(buf, "abcd");
    c.input_keydown(KeyModifier::BACKSPACE());
    frame(&mut c, &mut buf);
    c.input_keyup(KeyModifier::BACKSPACE());
    assert_eq!(buf, "abc");
    c.input_keydown(KeyModifier::RETURN());
    let r = frame(&mut c, &mut buf);
    assert!(r.is_submitted());
    assert!(c.focus.is_none());
}

#[test]
fn treenode_expands_with_option_and_indents() {
    let mut c = ctx();
    let s = style();
    c.begin(640, 480);
    c.begin_window(&s, "w", Recti::new(0, 0, 300, 200), WidgetOption::NONE());
    let closed = c.begin_treenode_ex(&s, "node", WidgetOption::NONE());
    assert!(closed.is_none());
    let open = c.begin_treenode_ex(&s, "other", WidgetOption::EXPANDED());
    assert!(open.is_active());
    let cnt = c.get_current_container();
    assert_eq!(c.containers[cnt.0].layout().indent, 24);
    c.end_treenode(&s);
    assert_eq!(c.containers[cnt.0].layout().indent, 0);
    let h = c.header_ex(&s, s.bold_font, "head", WidgetOption::NONE());
    assert!(h.is_none());
    c.end_window();
    c.end();
}

#[test]
fn popup_opens_at_the_mouse() {
    let mut c = ctx();
    let s = style();
    c.input_mousemove(33, 44);
    c.begin(640, 480);
    c.open_popup("menu");
    let k = c.hover_root.unwrap();
    assert_eq!(c.next_hover_root, Some(k));
    assert!(c.containers[k.0].open);
    assert_eq!(c.containers[k.0].rect, Recti::new(33, 44, 0, 0));
    let res = c.begin_popup(&s, "menu", Recti::new(0, 0, 80, 60));
    assert!(res.is_active());
    assert_eq!(c.containers[k.0].rect, Recti::new(33, 44, 80, 60));
    c.end_popup();
    c.end();
}

#[test]
fn panel_nests_in_its_window() {
    let mut c = ctx();
    let s = style();
    c.begin(640, 480);
    c.begin_window(&s, "w", Recti::new(0, 0, 300, 200), WidgetOption::NONE());
    let outer = c.get_current_container();
    c.begin_panel_ex(&s, "p", WidgetOption::NONE());
    let inner = c.get_current_container();
    assert_ne!(outer, inner);
    assert_eq!(c.containers[inner.0].zindex, c.containers[outer.0].zindex + 1);
    assert_eq!(c.root_list.len(), 2);
    c.end_panel();
    assert_eq!(c.get_current_container(), outer);
    c.end_window();
    c.end();
}

#[test]
fn draw_rect_is_cut_to_the_clip() {
    let mut c = ctx();
    c.begin(640, 480);
    c.begin_root_container(ContRef(0));
    c.containers[0].layout_stack.push(Recti::new(0, 0, 10, 10), vec2(0, 0));
    assert!(c.push_clip_rect(Recti::new(0, 0, 50, 50)).is_some());
    c.draw_rect(Recti::new(40, 40, 20, 20), Color4b { x: 1, y: 2, z: 3, w: 4 });
    c.draw_rect(Recti::new(100, 100, 5, 5), Color4b { x: 1, y: 2, z: 3, w: 4 });
    assert_eq!(c.containers[0].commands.len(), 1);
    match &c.containers[0].commands[0] {
        Command::Rect { rect, .. } => assert_eq!(*rect, Recti::new(40, 40, 10, 10)),
        _ => panic!("expected a rectangle"),
    }
    c.pop_clip_rect();
    c.end_root_container();
    c.end();
    assert!(c.renderer.calls.contains(&String::from("rect 40 40 10 10")));
}

#[test]
fn text_measures_come_from_the_back_end() {
    let c = ctx();
    assert_eq!(c.get_text_width(FontId(0), "abc\nde"), 24);
    assert_eq!(c.get_text_height(FontId(0), "abc\nde"), 20);
}

#[test]
fn text_wraps_words_and_drops_the_one_that_overflows() {
    let mut c = ctx();
    let s = style();
    c.begin(640, 480);
    c.begin_window(&s, "win", Recti::new(10, 10, 200, 150), WidgetOption::NONE());
    c.text(&s, "ab cd efghijklmn\nxy");
    let below = c.next_cell(&s);
    assert_eq!(below, Recti::new(15, 95, 78, 20));
    c.end_window();
    c.end();
    let texts: Vec<&String> = c.renderer.calls.iter().filter(|l| l.starts_with("text ") && !l.starts_with("text win")).collect();
    assert_eq!(texts, vec!["text ab  15 39", "text cd  39 39", "text xy 15 67"]);
}

#[test]
fn text_of_nothing_only_takes_the_column_cell() {
    let mut c = ctx();
    let s = style();
    c.begin(640, 480);
    c.begin_window(&s, "win", Recti::new(10, 10, 200, 150), WidgetOption::NONE());
    let cnt = c.get_current_container();
    let before = c.containers[cnt.0].commands.len();
    c.text(&s, "");
    assert_eq!(c.containers[cnt.0].commands.len(), before);
    c.end_window();
    c.end();
}

#[test]
fn shift_click_starts_a_number_edit_that_ends_without_focus() {
    let mut c = ctx();
    let s = style();
    c.begin(640, 480);
    c.begin_window(&s, "win", Recti::new(10, 10, 200, 150), WidgetOption::NONE());
    let id = c.get_id_from_str("n");
    let other = c.get_id_from_str("m");
    c.hover = Some(id);
    c.mouse_pressed = MouseButton::LEFT();
    c.key_down = KeyModifier::SHIFT();
    c.start_number_edit(other, "9");
    assert!(c.number_edit.is_none());
    c.number_edit_buf = String::from("stale");
    c.start_number_edit(id, "1.5");
    assert_eq!(c.number_edit, Some(id));
    assert_eq!(c.number_edit_buf, "1.5");
    c.mouse_pressed = MouseButton::NONE();
    let r = Recti::new(15, 39, 78, 20);
    assert_eq!(c.number_edit_step(&s, r, other), NumberEdit::Idle);
    assert_eq!(c.number_edit_step(&s, r, id), NumberEdit::Done);
    assert_eq!(c.number_edit_buf, "1.5");
    c.end_window();
    c.end();
}

fn describe(op: &PaintOp<u32>) -> String {
    match op {
        PaintOp::Clip { rect } => format!("clip {} {} {} {}", rect.x, rect.y, rect.width, rect.height),
        PaintOp::Rect { rect, .. } => format!("rect {} {} {} {}", rect.x, rect.y, rect.width, rect.height),
        PaintOp::Text { text, pos, .. } => format!("text {} {} {}", text, pos.x, pos.y),
        PaintOp::Icon { rect, id, .. } => format!("icon {:?} {} {}", id, rect.x, rect.y),
        PaintOp::Pass { pass } => format!("pass {}", pass),
        PaintOp::Skip => String::from("skip"),
    }
}

/// Two root containers with a rectangle, a text, a render pass and an
/// empty command, recorded straight into their command lists.
fn two_roots(c: &mut Context<u32, Mock>) {
    c.begin(640, 480);
    c.containers[3].rect = Recti::new(0, 0, 50, 50);
    c.containers[5].rect = Recti::new(0, 0, 50, 50);
    c.begin_root_container(ContRef(5));
    c.containers[5].layout_stack.push(Recti::new(0, 0, 50, 50), vec2(0, 0));
    c.draw_rect(Recti::new(1, 2, 3, 4), color(1, 2, 3, 4));
    c.draw_text(FontId(0), "hey", Vec2i { x: 7, y: 8 }, color(1, 2, 3, 4));
    c.end_root_container();
    c.begin_root_container(ContRef(3));
    c.containers[3].layout_stack.push(Recti::new(0, 0, 50, 50), vec2(0, 0));
    c.push_command(Command::DirectRenderPassCommands { pass: 42 });
    c.push_command(Command::NoCommand);
    c.draw_text(FontId(0), "yo", Vec2i { x: 9, y: 9 }, color(1, 2, 3, 4));
    c.end_root_container();
}

#[test]
fn paint_ops_follow_the_root_list_and_read_the_text_buffer() {
    let mut c = ctx();
    two_roots(&mut c);
    assert_eq!(c.text_stack, "heyyo");
    let ops = c.take_paint_ops();
    let got: Vec<String> = ops.iter().map(describe).collect();
    assert_eq!(got, vec!["rect 1 2 3 4", "text hey 7 8", "pass 42", "skip", "text yo 9 9"]);
    assert!(c.containers[3].commands.is_empty() && c.containers[5].commands.is_empty());
    assert_eq!(c.text_stack, "heyyo");
    assert!(c.take_paint_ops().is_empty());
}

#[test]
fn a_root_listed_twice_is_painted_once() {
    let mut c = ctx();
    two_roots(&mut c);
    c.root_list.push(ContRef(5));
    let ops = c.take_paint_ops();
    assert_eq!(ops.len(), 5);
}

#[test]
fn paint_hands_the_ops_to_the_back_end_in_order() {
    let mut c = ctx();
    two_roots(&mut c);
    c.renderer.calls.clear();
    c.paint();
    assert_eq!(
        c.renderer.calls,
        vec!["rect 1 2 3 4", "text hey 7 8", "pass 42", "text yo 9 9", "flush"]
    );
}

#[test]
fn a_render_pass_command_reaches_the_back_end_at_the_end_of_the_frame() {
    let mut c = ctx();
    let s = style();
    c.begin(640, 480);
    c.begin_window(&s, "win", Recti::new(10, 10, 200, 150), WidgetOption::NONE());
    c.push_command(Command::DirectRenderPassCommands { pass: 9 });
    c.end_window();
    assert!(!c.renderer.calls.contains(&String::from("pass 9")));
    c.end();
    let at = c.renderer.calls.iter().position(|l| l == "pass 9").unwrap();
    assert!(at + 1 < c.renderer.calls.len());
    assert_eq!(c.renderer.calls.last().unwrap(), "flush");
}

#[test]
fn paint_op_reads_a_range_of_the_buffer() {
    let op = paint_op::<u32>(
        Command::Text { font: FontId(1), pos: Vec2i { x: 2, y: 3 }, color: color(0, 0, 0, 255), str_start: 2, str_len: 3 },
        "abcdefg",
    );
    assert_eq!(describe(&op), "text cde 2 3");
    assert_eq!(describe(&paint_op::<u32>(Command::Icon { rect: Recti::new(1, 1, 2, 2), id: Icon::Check, color: color(0, 0, 0, 0) }, "")), "icon Check 1 1");
}

#[test]
fn characters_from_127_up_have_no_width() {
    let c = ctx();
    assert_eq!(c.get_text_width(FontId(0), "a\u{e9}b"), 16);
    assert_eq!(c.get_text_width(FontId(0), "\u{7f}"), 0);
    assert_eq!(c.get_text_width(FontId(0), "~"), 8);
}

#[test]
fn focused_textbox_draws_its_text_and_caret() {
    let mut c = ctx();
    let s = style();
    c.begin(640, 480);
    c.begin_window(&s, "w", Recti::new(0, 0, 300, 200), WidgetOption::NONE());
    let id = c.get_id_from_str("box");
    c.focus = Some(id);
    c.updated_focus = true;
    let mut buf = String::from("abc");
    let r = Recti::new(20, 40, 100, 20);
    c.textbox_raw(&s, &mut buf, id, r, WidgetOption::NONE());
    c.end_window();
    c.renderer.calls.clear();
    c.end();
    let calls = &c.renderer.calls;
    assert!(calls.contains(&String::from("text abc 25 45")));
    assert!(calls.contains(&String::from("rect 49 45 1 10")));
}

#[test]
fn checked_header_and_tree_node() {
    let mut c = ctx();
    let s = style();
    assert!(c.header_checked(&s, FontId(0), "h", false, WidgetOption::NONE()).is_none());
    assert!(c.begin_treenode_checked(&s, "t", WidgetOption::NONE()).is_none());
    c.begin(640, 480);
    c.begin_window(&s, "w", Recti::new(0, 0, 300, 200), WidgetOption::NONE());
    let r = c.header_checked(&s, FontId(0), "h", false, WidgetOption::EXPANDED()).unwrap();
    assert!(r.is_active());
    let t = c.begin_treenode_checked(&s, "t", WidgetOption::EXPANDED()).unwrap();
    assert!(t.is_active());
    assert_eq!(c.id_stack.len(), 2);
    c.end_treenode(&s);
    assert_eq!(c.id_stack.len(), 1);
    assert!(c.pop_fits_exec());
    c.end_window();
    assert!(!c.pop_fits_exec());
    c.end();
}
