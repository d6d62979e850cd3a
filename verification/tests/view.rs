use tokio_chat::chat_view::{
    desired_width, rows_for_line, strip_last_newline, ChatKey, ChatRow, ChatView, EventResult,
};
use tokio_chat::scroll::{ScrollBase, SizeCache, Vec2};

fn row(width: usize) -> ChatRow {
    ChatRow { line: 0, start: 0, end: width, width }
}

#[test]
fn strip_removes_one_trailing_newline() {
    let mut s = String::from("hi\n\n");
    strip_last_newline(&mut s);
    assert_eq!(s, "hi\n");
    strip_last_newline(&mut s);
    assert_eq!(s, "hi");
    strip_last_newline(&mut s);
    assert_eq!(s, "hi");
    let mut e = String::new();
    strip_last_newline(&mut e);
    assert_eq!(e, "");
}

#[test]
fn desired_width_is_widest_plus_scrollbar() {
    assert_eq!(desired_width(&vec![], 2), None);
    assert_eq!(desired_width(&vec![row(3), row(9), row(4)], 0), Some(9));
    assert_eq!(desired_width(&vec![row(3), row(9), row(4)], 2), Some(11));
}

#[test]
fn size_cache_accepts() {
    let c = SizeCache::new(5, true);
    assert!(!c.accept(4));
    assert!(c.accept(5));
    assert!(!c.accept(6));
    let u = SizeCache::new(5, false);
    assert!(u.accept(6));
    let (x, y) = SizeCache::build(Vec2::new(3, 4), Vec2::new(3, 10));
    assert!(x.constrained);
    assert!(!y.constrained);
    assert_eq!(y.value, 4);
}

#[test]
fn scroll_base_moves_within_bounds() {
    let mut s = ScrollBase::new();
    s.set_heights(3, 10);
    assert!(s.scrollable());
    assert!(!s.can_scroll_up());
    assert!(s.can_scroll_down());
    s.scroll_down(10);
    assert_eq!(s.start_line, 7);
    assert!(!s.can_scroll_down());
    s.scroll_up(2);
    assert_eq!(s.start_line, 5);
    s.scroll_up(10);
    assert_eq!(s.start_line, 0);
    s.scroll_bottom();
    assert_eq!(s.start_line, 7);
    s.set_heights(5, 10);
    assert_eq!(s.start_line, 5);
    s.set_heights(10, 10);
    assert_eq!(s.start_line, 0);
    assert!(!s.scrollable());
    s.scroll_top();
    assert_eq!(s.start_line, 0);
}

#[test]
fn scrollback_drops_oldest() {
    let mut v = ChatView::new(3);
    v.append_content("one".to_string(), false);
    v.append_content("two\n".to_string(), false);
    assert_eq!(v.line_count(), 2);
    v.append_content("three".to_string(), false);
    assert_eq!(v.line_count(), 2);
    assert_eq!(v.line(0), "two");
    assert_eq!(v.line(1), "three");
}

#[test]
fn zero_scrollback_holds_nothing() {
    let mut v = ChatView::new(0);
    v.append_content("one".to_string(), true);
    assert_eq!(v.line_count(), 0);
}

#[test]
fn new_view_is_empty_and_needs_layout() {
    let mut v = ChatView::new(10);
    assert!(v.needs_relayout());
    assert!(v.is_at_bottom());
    assert!(!v.take_focus());
    let ideal = v.get_min_size(Vec2::new(20, 5));
    assert_eq!((ideal.x, ideal.y), (0, 0));
    assert!(!v.needs_relayout());
}

#[test]
fn short_lines_fit_without_scrollbar() {
    let mut v = ChatView::new(10);
    v.append_content("hello".to_string(), false);
    v.append_content("hi".to_string(), false);
    let ideal = v.get_min_size(Vec2::new(20, 5));
    assert_eq!((ideal.x, ideal.y), (5, 2));
    let rows = v.rows();
    assert_eq!(rows.len(), 2);
    assert_eq!((rows[0].line, rows[0].start, rows[0].end, rows[0].width), (0, 0, 5, 5));
    assert_eq!((rows[1].line, rows[1].start, rows[1].end, rows[1].width), (1, 0, 2, 2));
    assert!(!v.needs_relayout());
    v.append_content("x".to_string(), false);
    assert!(v.needs_relayout());
}

#[test]
fn too_many_rows_leave_room_for_scrollbar() {
    let mut v = ChatView::new(10);
    for s in ["a", "bb", "ccc", "dddd"] {
        v.append_content(s.to_string(), false);
    }
    let ideal = v.get_min_size(Vec2::new(20, 2));
    assert_eq!((ideal.x, ideal.y), (6, 2));
    v.layout(Vec2::new(20, 2));
    assert!(v.take_focus());
    let s = v.scroll_position();
    assert_eq!((s.start_line, s.view_height, s.content_height), (2, 2, 4));
}

#[test]
fn keys_scroll_and_track_bottom() {
    let mut v = ChatView::new(10);
    for s in ["a", "b", "c", "d", "e"] {
        v.append_content(s.to_string(), true);
    }
    v.layout(Vec2::new(10, 2));
    assert_eq!(v.scroll_position().start_line, 3);
    assert!(matches!(v.on_event(ChatKey::Down), EventResult::Ignored));
    assert!(matches!(v.on_event(ChatKey::Up), EventResult::Consumed));
    assert!(!v.is_at_bottom());
    assert_eq!(v.scroll_position().start_line, 2);
    assert!(matches!(v.on_event(ChatKey::Home), EventResult::Consumed));
    assert_eq!(v.scroll_position().start_line, 0);
    assert!(matches!(v.on_event(ChatKey::Up), EventResult::Ignored));
    assert!(matches!(v.on_event(ChatKey::PageDown), EventResult::Consumed));
    assert_eq!(v.scroll_position().start_line, 3);
    assert!(v.is_at_bottom());
    assert!(matches!(v.on_event(ChatKey::PageUp), EventResult::Consumed));
    assert_eq!(v.scroll_position().start_line, 0);
    assert!(matches!(v.on_event(ChatKey::Other), EventResult::Ignored));
    assert!(matches!(v.on_event(ChatKey::End), EventResult::Consumed));
    assert!(v.is_at_bottom());
}

#[test]
fn keys_ignored_when_everything_fits() {
    let mut v = ChatView::new(10);
    v.append_content("a".to_string(), false);
    v.layout(Vec2::new(10, 5));
    assert!(matches!(v.on_event(ChatKey::Home), EventResult::Ignored));
    assert!(matches!(v.on_event(ChatKey::PageDown), EventResult::Ignored));
}

#[test]
fn new_line_at_bottom_stays_visible() {
    let mut v = ChatView::new(100);
    for s in ["a", "b", "c"] {
        v.append_content(s.to_string(), false);
    }
    v.layout(Vec2::new(10, 2));
    assert_eq!(v.scroll_position().start_line, 1);
    v.append_content("d".to_string(), false);
    assert!(v.is_at_bottom());
    v.layout(Vec2::new(10, 2));
    assert_eq!(v.scroll_position().start_line, 2);
}

#[test]
fn scrolled_up_view_stays_put_until_asked() {
    let mut v = ChatView::new(100);
    for s in ["a", "b", "c", "d"] {
        v.append_content(s.to_string(), false);
    }
    v.layout(Vec2::new(10, 2));
    v.on_event(ChatKey::Home);
    v.append_content("e".to_string(), false);
    assert!(!v.is_at_bottom());
    v.layout(Vec2::new(10, 2));
    assert_eq!(v.scroll_position().start_line, 0);
    v.scroll_to_bottom();
    assert!(v.needs_relayout());
    v.layout(Vec2::new(10, 2));
    assert_eq!(v.scroll_position().start_line, 3);
}

#[test]
fn zero_width_lays_out_nothing() {
    let mut v = ChatView::new(10);
    v.append_content("abc".to_string(), false);
    let ideal = v.get_min_size(Vec2::new(0, 3));
    assert_eq!((ideal.x, ideal.y), (0, 0));
    assert!(v.needs_relayout());
}

#[test]
fn long_line_wraps_into_narrow_rows() {
    let mut v = ChatView::new(10);
    v.append_content("aaaa bbbb cccc".to_string(), false);
    let ideal = v.get_min_size(Vec2::new(5, 10));
    let rows = v.rows();
    assert!(rows.len() >= 3);
    assert!(rows.iter().all(|r| r.width <= 5 && r.line == 0 && r.start <= r.end && r.end <= 14));
    assert_eq!(ideal.y, rows.len());
    assert!(ideal.x <= 5);
}

#[test]
fn rows_for_line_tags_each_row() {
    let rows = rows_for_line(4, &vec![(0, 5, 5), (6, 9, 3)]);
    assert_eq!(rows.len(), 2);
    assert_eq!((rows[0].line, rows[0].start, rows[0].end, rows[0].width), (4, 0, 5, 5));
    assert_eq!((rows[1].line, rows[1].start, rows[1].end, rows[1].width), (4, 6, 9, 3));
    assert!(rows_for_line(0, &vec![]).is_empty());
}
