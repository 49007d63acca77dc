use clashctl::list::{Coord, ListNavEvent, MovableListItem, MovableListState, StyledSpan};
use clashctl::width::string_window;
use tui::style::Style;

fn raw(s: &str) -> MovableListItem {
    MovableListItem::Raw(s.to_string())
}

fn raw_text(item: &MovableListItem) -> String {
    match item {
        MovableListItem::Raw(s) => s.clone(),
        MovableListItem::Spans(v) => v.iter().map(|s| s.content.clone()).collect(),
    }
}

fn state_of(rows: &[&str]) -> MovableListState {
    let mut st = MovableListState::new();
    for r in rows {
        st.push(raw(r));
    }
    st
}

#[test]
fn window_keeps_whole_ascii_columns() {
    let s = "hello world".to_string();
    assert_eq!(string_window(&s, 0, 5), "hello");
    assert_eq!(string_window(&s, 6, 100), "world");
    assert_eq!(string_window(&s, 3, 3), "");
}

#[test]
fn window_never_splits_wide_glyphs() {
    let s = "a中b".to_string();
    assert_eq!(string_window(&s, 0, 2), "a");
    assert_eq!(string_window(&s, 1, 3), "中");
    assert_eq!(string_window(&s, 2, 4), "b");
    assert_eq!(string_window(&s, 0, 4), "a中b");
}

#[test]
fn item_width_counts_display_columns() {
    assert_eq!(raw("测试1").width(), 5);
    assert_eq!(raw("").width(), 0);
    let spans = MovableListItem::Spans(vec![
        StyledSpan { content: "ab".to_string(), style: Style::default() },
        StyledSpan { content: "中".to_string(), style: Style::default() },
    ]);
    assert_eq!(spans.width(), 4);
}

#[test]
fn range_clips_spans_relative_to_their_start() {
    let mut item = MovableListItem::Spans(vec![
        StyledSpan { content: "abc".to_string(), style: Style::default() },
        StyledSpan { content: "def".to_string(), style: Style::default() },
    ]);
    item.range(&(2..5));
    assert_eq!(raw_text(&item), "cde");
}

#[test]
fn merge_keeps_offset_and_hold() {
    let mut st = state_of(&["a", "b", "c", "d", "e", "f", "g"]);
    st.offset = Coord { x: 3, y: 5, hold: true };
    st.merge(state_of(&["x", "y"]));
    assert_eq!(st.offset, Coord { x: 3, y: 5, hold: true });
    assert_eq!(st.len(), 2);
    st.push(raw("z"));
    assert_eq!(st.offset, Coord { x: 3, y: 5, hold: true });
}

#[test]
fn empty_window_of_wide_row_shows_marker() {
    let mut st = state_of(&["中"]);
    st.offset.x = 1;
    let rows = st.visible_rows(10, 0);
    assert_eq!(rows.len(), 1);
    assert_eq!(raw_text(&rows[0]), "\u{25c0}");
}

#[test]
fn scrolled_past_row_shows_marker_but_empty_row_stays_empty() {
    let mut st = state_of(&["", "abc"]);
    st.offset.x = 5;
    let rows = st.visible_rows(10, 4);
    assert_eq!(rows.len(), 2);
    assert_eq!(raw_text(&rows[0]), "\u{25c0}");
    assert_eq!(raw_text(&rows[1]), "");
}

#[test]
fn visible_rows_start_from_the_tail() {
    let mut st = state_of(&["one", "two", "three", "four"]);
    let rows = st.visible_rows(2, 10);
    assert_eq!(rows.iter().map(raw_text).collect::<Vec<_>>(), vec!["four", "three"]);
    st.offset.y = 1;
    let rows = st.visible_rows(10, 10);
    assert_eq!(rows.iter().map(raw_text).collect::<Vec<_>>(), vec!["three", "two", "one"]);
    st.offset.y = 9;
    let rows = st.visible_rows(10, 10);
    assert_eq!(rows.iter().map(raw_text).collect::<Vec<_>>(), vec!["one"]);
}

#[test]
fn navigation_is_clamped() {
    let mut st = state_of(&["ab", "abcd"]);
    st.handle(ListNavEvent::Down);
    assert_eq!(st.offset.y, 0);
    st.handle(ListNavEvent::Up);
    st.handle(ListNavEvent::Up);
    assert_eq!(st.offset.y, 1);
    for _ in 0..10 {
        st.handle(ListNavEvent::Right);
    }
    assert_eq!(st.offset.x, 3);
    st.handle(ListNavEvent::Left);
    assert_eq!(st.offset.x, 2);
    assert_eq!(st.current_pos(), Coord { x: 2, y: 1, hold: false });
    st.toggle();
    assert!(st.offset.hold);
    st.end();
    assert_eq!(st.offset, Coord { x: 0, y: 0, hold: false });
}

#[test]
fn titled_list_leaves_room_for_the_border() {
    let st = state_of(&["one", "two", "three"]);
    let list = clashctl::list::MovableList::new("Logs".to_string(), &st);
    let rows = list.rows(4, 3);
    assert_eq!(rows.iter().map(raw_text).collect::<Vec<_>>(), vec!["thr", "two"]);
    assert_eq!(list.rows(1, 10).len(), 0);
}
