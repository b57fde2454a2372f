use neocogi::geometry::{color, expand_rect, rect_overlaps_vec2, vec2, Color4b, Dimensioni, Recti, Vec2i};
use neocogi::ui::layout::{LayoutPosition, LayoutStack};
use neocogi::ui::flags::{key_event_modifier, KeyModifier, MouseButton, ResourceState, WidgetOption};
use neocogi::ui::num::{append_int, decimal_int_fits, decimal_parts, digit_to_num, fixed_point_text, int_parser, is_digit, print_int};
use neocogi::ui::pointer::{event_kind, ButtonKind, EventKind};
use neocogi::ui::pool::{hash_bytes, hash_str, hash_u32, id_from_str, root_id, Pool};
use neocogi::ui::text::{count_lines, measure_text_height, measure_text_width};

#[test]
fn intersect_overlapping_rects() {
    let a = Recti::new(0, 0, 10, 10);
    let b = Recti::new(5, 5, 10, 10);
    assert_eq!(a.intersect(&b), Some(Recti::new(5, 5, 5, 5)));
}

#[test]
fn intersect_disjoint_rects_is_none() {
    let a = Recti::new(0, 0, 10, 10);
    let b = Recti::new(20, 0, 5, 5);
    assert_eq!(a.intersect(&b), None);
}

#[test]
fn intersect_touching_edges_has_no_extent() {
    let a = Recti::new(0, 0, 10, 10);
    let b = Recti::new(10, 0, 5, 5);
    assert_eq!(a.intersect(&b), Some(Recti::new(10, 0, 0, 5)));
}

#[test]
fn intersect_commutes_on_values() {
    let a = Recti::new(-3, 4, 17, 2);
    let b = Recti::new(1, -6, 4, 30);
    assert_eq!(a.intersect(&b), b.intersect(&a));
    assert_eq!(a.intersect(&b), Some(Recti::new(1, 4, 4, 2)));
}

#[test]
fn intersect_lies_within_both() {
    let a = Recti::new(2, 3, 8, 9);
    let b = Recti::new(4, 1, 20, 5);
    let r = a.intersect(&b).unwrap();
    assert!(r.x >= a.x && r.x + r.width <= a.x + a.width);
    assert!(r.y >= b.y && r.y + r.height <= b.y + b.height);
}

#[test]
fn expand_rect_grows_and_clamps() {
    assert_eq!(expand_rect(Recti::new(10, 10, 4, 4), 1), Recti::new(9, 9, 6, 6));
    assert_eq!(expand_rect(Recti::new(10, 10, 4, 4), -3), Recti::new(13, 13, 0, 0));
}

#[test]
fn rect_overlaps_point_excludes_far_edges() {
    let r = Recti::new(0, 0, 10, 10);
    assert!(rect_overlaps_vec2(r, vec2(0, 0)));
    assert!(rect_overlaps_vec2(r, vec2(9, 9)));
    assert!(!rect_overlaps_vec2(r, vec2(10, 5)));
    assert!(!rect_overlaps_vec2(r, vec2(-1, 5)));
}

#[test]
fn small_constructors() {
    assert_eq!(vec2(3, -4), Vec2i { x: 3, y: -4 });
    assert_eq!(color(1, 2, 3, 4), Color4b { x: 1, y: 2, z: 3, w: 4 });
    assert_eq!(Dimensioni::new(5, 6), Dimensioni { width: 5, height: 6 });
}

#[test]
fn flag_insert_then_remove() {
    let mut k = KeyModifier::SHIFT();
    k.insert(KeyModifier::CTRL());
    assert!(k.contains(KeyModifier::CTRL()));
    k.remove(KeyModifier::CTRL());
    assert!(!k.intersects(KeyModifier::CTRL()));
    assert!(k.is_shift());
    assert_eq!(k.bits(), KeyModifier::SHIFT().bits());
}

#[test]
fn flag_complement_stays_in_range() {
    let m = MouseButton::LEFT().complement();
    assert_eq!(m.bits(), MouseButton::RIGHT().bits() | MouseButton::MIDDLE().bits());
    assert_eq!(ResourceState::all().bits(), 7);
    assert_eq!(WidgetOption::from_bits(1 << 20), None);
    assert_eq!(WidgetOption::from_bits_truncate(0xffff_ffff).bits(), WidgetOption::all().bits());
}

#[test]
fn resource_state_predicates() {
    let r = ResourceState::CHANGE().union(ResourceState::SUBMIT());
    assert!(r.is_changed());
    assert!(r.is_submitted());
    assert!(!r.is_active());
    assert!(ResourceState::NONE().is_none());
}

#[test]
fn digits_and_parsing() {
    assert!(is_digit('0') && is_digit('9'));
    assert!(!is_digit('a') && !is_digit('/'));
    assert_eq!(digit_to_num('7'), 7);
    assert_eq!(int_parser("12345"), Ok(12345));
    assert_eq!(int_parser("12a"), Err(()));
    assert_eq!(int_parser(""), Ok(0));
}

#[test]
fn print_int_bases_and_padding() {
    assert_eq!(print_int(10, 0, -42), "-42");
    assert_eq!(print_int(16, 4, 255), "00FF");
    assert_eq!(print_int(2, 0, 5), "101");
    assert_eq!(print_int(10, 0, 0), "0");
    assert_eq!(print_int(10, 3, 0), "000");
}

#[test]
fn print_then_parse_gives_back_the_number() {
    for v in [0, 1, 9, 10, 99, 12345, 2147483647] {
        assert_eq!(int_parser(&print_int(10, 0, v)), Ok(v));
    }
}

#[test]
fn append_int_appends() {
    let mut s = String::from("x=");
    append_int(&mut s, 10, 2, 7);
    assert_eq!(s, "x=07");
}

#[test]
fn id_hashes() {
    assert_eq!(root_id().value(), 2166136261);
    assert_eq!(id_from_str(root_id(), "a").value(), 3826002220);
    let mut h = root_id();
    hash_str(&mut h, "win");
    assert_eq!(h.value(), 200788825);
    let mut u = root_id();
    hash_u32(&mut u, 7);
    assert_eq!(u.value(), 1150675472);
    let mut b = root_id();
    hash_bytes(&mut b, &[0, 0, 0, 7]);
    assert_eq!(b.value(), u.value());
}

#[test]
fn pool_allocates_least_recently_used() {
    let mut p: Pool<4> = Pool::default();
    let a = id_from_str(root_id(), "a");
    let b = id_from_str(root_id(), "b");
    let ia = p.allocate(a, 1);
    assert_eq!(ia, 0);
    assert_eq!(p.get(a), Some(0));
    let ib = p.allocate(b, 2);
    assert_eq!(ib, 1);
    p.update(ia, 5);
    p.reset(ib);
    assert_eq!(p.get(b), None);
    let c = id_from_str(root_id(), "c");
    assert_eq!(p.allocate(c, 6), 1);
    assert_eq!(p.get(c), Some(1));
}

#[test]
fn text_width_takes_widest_line() {
    let ws = vec![5usize, 5, 1, 7, 7, 7];
    assert_eq!(measure_text_width("ab\ncde", &ws), 22);
    assert_eq!(measure_text_width("", &Vec::new()), 0);
    assert_eq!(measure_text_width("x", &vec![usize::MAX]), -1);
}

#[test]
fn line_counts() {
    assert_eq!(count_lines(""), 0);
    assert_eq!(count_lines("a"), 1);
    assert_eq!(count_lines("a\n"), 1);
    assert_eq!(count_lines("a\nb"), 2);
    assert_eq!(count_lines("\n\n"), 2);
    assert_eq!(measure_text_height("a\nb\nc", 18), 54);
    assert_eq!(measure_text_height("", 18), 0);
}

#[test]
fn decimal_parts_split_sign_integer_and_fraction() {
    let p = decimal_parts("-012.305").unwrap();
    assert!(p.negative);
    assert_eq!(p.int_part, 12);
    assert_eq!(p.fraction, vec![3, 0, 5]);
    let q = decimal_parts("+7").unwrap();
    assert!(!q.negative);
    assert_eq!(q.int_part, 7);
    assert!(q.fraction.is_empty());
    let r = decimal_parts("-.").unwrap();
    assert_eq!(r.int_part, 0);
    assert!(r.fraction.is_empty());
}

#[test]
fn decimal_parts_refuse_other_text() {
    assert!(decimal_parts("").is_err());
    assert!(decimal_parts(".5").is_err());
    assert!(decimal_parts("1.2.3").is_err());
    assert!(decimal_parts("12x").is_err());
    assert!(decimal_parts("1.5e3").is_err());
    assert!(decimal_parts("--1").is_err());
}

#[test]
fn decimal_int_fits_bounds_the_integer_digits() {
    assert!(decimal_int_fits("2147483647.999"));
    assert!(!decimal_int_fits("-2147483648"));
    assert!(decimal_int_fits("12x99999999999999"));
    assert!(decimal_int_fits("000000000000000000001"));
    assert!(decimal_int_fits(""));
}

#[test]
fn fixed_point_text_writes_sign_integer_and_low_digits() {
    assert_eq!(fixed_point_text(false, 3, 1140, 3), "3.140");
    assert_eq!(fixed_point_text(true, 0, 150, 2), "-0.50");
    assert_eq!(fixed_point_text(false, 7, 1005, 3), "7.005");
    assert_eq!(fixed_point_text(false, 1234, 1000, 3), "1234");
}

#[test]
fn fixed_point_text_drops_an_empty_fraction() {
    assert_eq!(fixed_point_text(false, 12, 100, 2), "12");
    assert_eq!(fixed_point_text(false, 5, 1234, 0), "5");
    assert_eq!(fixed_point_text(true, 0, 1, 0), "-0");
}

#[test]
fn fixed_point_text_parses_back() {
    let t = fixed_point_text(true, 42, 1005, 3);
    assert!(decimal_int_fits(&t));
    let p = decimal_parts(&t).unwrap();
    assert!(p.negative);
    assert_eq!(p.int_part, 42);
    assert_eq!(p.fraction, vec![0, 0, 5]);
    let u = fixed_point_text(false, 0, 100, 2);
    let q = decimal_parts(&u).unwrap();
    assert!(!q.negative);
    assert_eq!(q.int_part, 0);
    assert!(q.fraction.is_empty());
}

#[test]
fn key_event_modifier_maps_keys_and_lone_modifiers() {
    assert_eq!(key_event_modifier(true, false, false, false, false).bits(), 16);
    assert_eq!(key_event_modifier(false, true, false, false, false).bits(), 8);
    assert_eq!(key_event_modifier(false, true, false, false, true).bits(), 1);
    assert_eq!(key_event_modifier(true, false, true, false, false).bits(), 20);
    assert_eq!(key_event_modifier(false, false, false, true, false).bits(), 2);
    assert_eq!(key_event_modifier(false, false, false, false, false).bits(), 0);
}

#[test]
fn pointer_gestures_from_button_kinds() {
    assert_eq!(event_kind(ButtonKind::Released, ButtonKind::Released, true), EventKind::NoEvent);
    assert_eq!(event_kind(ButtonKind::Released, ButtonKind::Released, false), EventKind::Move);
    assert_eq!(event_kind(ButtonKind::Released, ButtonKind::Pressed, true), EventKind::Click);
    assert_eq!(event_kind(ButtonKind::Pressed, ButtonKind::Pressed, false), EventKind::Drag);
    assert_eq!(event_kind(ButtonKind::Pressed, ButtonKind::Released, false), EventKind::NoEvent);
    assert_eq!(event_kind(ButtonKind::Pressed, ButtonKind::Scroll, true), EventKind::Scroll);
    assert_eq!(event_kind(ButtonKind::NoButton, ButtonKind::Pressed, true), EventKind::NoEvent);
}

fn layout_style() -> neocogi::ui::style::Style {
    neocogi::ui::style::Style::new(neocogi::ui::style::FontId(0), neocogi::ui::style::FontId(1), neocogi::ui::style::FontId(2))
}

#[test]
fn set_next_cell_is_used_once() {
    let s = layout_style();
    let mut a = LayoutStack::new();
    a.push(Recti::new(10, 20, 200, 100), vec2(0, 0));
    let mut b = LayoutStack::new();
    b.push(Recti::new(10, 20, 200, 100), vec2(0, 0));
    a.set_next(Recti::new(1, 2, 3, 4), LayoutPosition::Relative);
    assert_eq!(a.next(&s), Recti::new(11, 22, 3, 4));
    let plain = b.next(&s);
    assert_ne!(a.next(&s), Recti::new(11, 22, 3, 4));
    let mut c = LayoutStack::new();
    c.push(Recti::new(10, 20, 200, 100), vec2(0, 0));
    c.set_next(Recti::new(1, 2, 3, 4), LayoutPosition::Absolute);
    assert_eq!(c.next(&s), Recti::new(1, 2, 3, 4));
    assert_eq!(c.last_rect(), Recti::new(1, 2, 3, 4));
    assert_eq!(c.next(&s), plain);
}

#[test]
fn layout_push_then_pop_restores() {
    let s = layout_style();
    let mut a = LayoutStack::new();
    a.push(Recti::new(0, 0, 100, 100), vec2(0, 0));
    let cell = a.next(&s);
    let before = a.top().clone();
    a.push(Recti::new(5, 5, 50, 50), vec2(1, 1));
    assert_eq!(a.len(), 2);
    a.pop();
    assert_eq!(a.len(), 1);
    let after = a.top();
    assert_eq!((after.body, after.position, after.max, after.next_row), (before.body, before.position, before.max, before.next_row));
    assert_eq!((after.items, after.item_index, after.widths), (before.items, before.item_index, before.widths));
    assert_eq!(a.last_rect(), cell);
}

fn glyph_table() -> Vec<Recti> {
    (0..130).map(|k| Recti::new(k, 0, 1 + k % 3, 9)).collect()
}

#[test]
fn glyphs_follow_the_pen_and_skip_characters_without_glyph() {
    let t = glyph_table();
    let q = neocogi::ui::glyphs::place_glyphs("ab\u{e9}c", &t, 2, Vec2i { x: 10, y: 5 }).unwrap();
    assert_eq!(q.len(), 3);
    assert_eq!(q[0], (Recti::new(10, 5, 1, 9), t[99]));
    assert_eq!(q[1], (Recti::new(11, 5, 2, 9), t[100]));
    assert_eq!(q[2], (Recti::new(13, 5, 3, 9), t[101]));
    assert!(neocogi::ui::glyphs::place_glyphs("a", &t, 2, Vec2i { x: i32::MAX, y: 0 }).is_none());
    assert_eq!(neocogi::ui::glyphs::place_glyphs("", &t, 2, Vec2i { x: 0, y: 0 }).unwrap().len(), 0);
}

#[test]
fn icons_are_centred_rounding_toward_zero() {
    let b = neocogi::ui::glyphs::icon_box(Recti::new(10, 20, 30, 30), Recti::new(0, 0, 15, 16)).unwrap();
    assert_eq!(b, Recti::new(17, 27, 15, 16));
    let b = neocogi::ui::glyphs::icon_box(Recti::new(10, 20, 4, 4), Recti::new(0, 0, 7, 7)).unwrap();
    assert_eq!(b, Recti::new(9, 19, 7, 7));
    assert!(neocogi::ui::glyphs::icon_box(Recti::new(0, 0, i32::MIN, 0), Recti::new(0, 0, 1, 1)).is_none());
}

#[test]
fn scissor_counts_rows_from_the_bottom() {
    assert_eq!(neocogi::ui::glyphs::scissor(Recti::new(5, 10, 20, 30), 480), Some((5, 440, 20, 30)));
    assert_eq!(neocogi::ui::glyphs::scissor(Recti::new(0, i32::MAX, 0, 1), 480), None);
}
