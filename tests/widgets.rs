use aparte_view::buffered::{BufferedWin, Window};
use aparte_view::disco::Disco;
use aparte_view::frame::FrameLayout;
use aparte_view::input::Input;
use aparte_view::leaf::Leaf;
use aparte_view::linear::{LinearLayout, Orientation};
use aparte_view::list_view::ListView;
use aparte_view::password::Password;
use aparte_view::view::{Dimension, Draw, ViewTrait, Widget};

fn scrollback(w: u16, h: u16) -> Widget<BufferedWin> {
    let mut v = Widget::<BufferedWin>::new();
    v.measure(Some(w), Some(h));
    v.layout(1, 1);
    v
}

#[test]
fn linear_layout_splits_room_among_elastic_children() {
    let mut layout = Widget::<LinearLayout<Leaf>>::new(Orientation::Horizontal, Dimension::MatchParent, Dimension::MatchParent);
    let mut fixed = Widget::<Input>::new();
    fixed.width = Dimension::Absolute(10);
    layout.push(Leaf::Input(fixed));
    layout.push(Leaf::Buffered(Widget::<BufferedWin>::new()));
    layout.push(Leaf::Input(Widget::<Input>::new()));
    layout.measure(Some(81), Some(24));
    let widths: Vec<Option<u16>> = layout.content.children.iter().map(|c| c.get_measured_width()).collect();
    assert_eq!(widths, vec![Some(10), Some(35), Some(35)]);
    let heights: Vec<Option<u16>> = layout.content.children.iter().map(|c| c.get_measured_height()).collect();
    assert_eq!(heights, vec![Some(1), Some(24), Some(1)]);
    assert_eq!(layout.get_measured_width(), Some(80));
    assert_eq!(layout.get_measured_height(), Some(24));
    assert!(layout.is_dirty());
    layout.layout(1, 1);
    assert!(!layout.is_dirty());
    match &layout.content.children[2] {
        Leaf::Input(v) => assert_eq!((v.x, v.y), (46, 1)),
        _ => panic!("third child is an input"),
    }
}

#[test]
fn linear_layout_content_wider_than_constraint() {
    let mut layout = Widget::<LinearLayout<Leaf>>::new(Orientation::Horizontal, Dimension::MatchParent, Dimension::MatchParent);
    let mut a = Widget::<Input>::new();
    a.width = Dimension::Absolute(30);
    let mut b = Widget::<Input>::new();
    b.width = Dimension::Absolute(30);
    layout.push(Leaf::Input(a));
    layout.push(Leaf::Input(b));
    layout.push(Leaf::Buffered(Widget::<BufferedWin>::new()));
    layout.measure(Some(40), Some(10));
    let widths: Vec<Option<u16>> = layout.content.children.iter().map(|c| c.get_measured_width()).collect();
    assert_eq!(widths, vec![Some(30), Some(10), Some(0)]);
    assert_eq!(layout.get_measured_width(), Some(40));
}

#[test]
fn vertical_layout_stacks_rows() {
    let mut layout = Widget::<LinearLayout<Leaf>>::new(Orientation::Vertical, Dimension::MatchParent, Dimension::MatchParent);
    layout.push(Leaf::Buffered(Widget::<BufferedWin>::new()));
    layout.push(Leaf::Input(Widget::<Input>::new()));
    layout.measure(Some(80), Some(25));
    let heights: Vec<Option<u16>> = layout.content.children.iter().map(|c| c.get_measured_height()).collect();
    assert_eq!(heights, vec![Some(24), Some(1)]);
    layout.layout(1, 1);
    match &layout.content.children[1] {
        Leaf::Input(v) => assert_eq!((v.x, v.y), (1, 25)),
        _ => panic!("second child is an input"),
    }
}

#[test]
fn frame_layout_draws_only_current_child() {
    let mut frame = Widget::<FrameLayout<Leaf>>::new();
    frame.measure(Some(20), Some(3));
    frame.layout(1, 1);
    frame.insert("main".to_string(), Leaf::Input(Widget::<Input>::new()));
    frame.insert("log".to_string(), Leaf::Buffered(Widget::<BufferedWin>::new()));
    assert!(frame.redraw().is_empty());
    let ops = frame.current("main".to_string());
    assert_eq!(ops, vec![Draw::Goto(1, 1), Draw::Blank(20), Draw::Goto(1, 1), Draw::Print(vec![]), Draw::Goto(1, 1)]);
    frame.insert("main".to_string(), Leaf::Buffered(Widget::<BufferedWin>::new()));
    assert_eq!(frame.content.children.len(), 2);
    let ops = frame.current("log".to_string());
    assert_eq!(ops.len(), 2 + 3 * 3);
}

#[test]
fn recv_message_twice_keeps_line_count() {
    let mut v = scrollback(80, 5);
    v.recv_message(&"first line\nsecond line".to_string(), false);
    assert_eq!(v.content.lines.len(), 2);
    let twice = v.recv_message(&"first line\nsecond line".to_string(), true);
    assert!(twice.is_empty());
    assert_eq!(v.content.lines.len(), 2);
    assert_eq!(v.content.buf.len(), 1);
    v.recv_message(&"third\r\n".to_string(), false);
    assert_eq!(v.content.lines.len(), 3);
    assert_eq!(v.content.lines[2], vec!['t', 'h', 'i', 'r', 'd']);
}

#[test]
fn page_up_and_down_stay_in_range() {
    let mut v = scrollback(10, 2);
    for m in ["l1", "l2", "l3", "l4", "l5"] {
        v.recv_message(&m.to_string(), false);
    }
    v.page_up();
    assert_eq!(v.content.view, 2);
    v.page_up();
    assert_eq!(v.content.view, 3);
    v.page_up();
    assert_eq!(v.content.view, 3);
    v.page_down();
    assert_eq!(v.content.view, 1);
    v.page_down();
    assert_eq!(v.content.view, 0);
}

#[test]
fn page_up_is_noop_when_content_fits() {
    let mut v = scrollback(10, 4);
    v.recv_message(&"only".to_string(), false);
    assert!(v.page_up().is_empty());
    assert_eq!(v.content.view, 0);
}

#[test]
fn scrollback_shows_newest_lines() {
    let mut v = scrollback(4, 2);
    for m in ["l1", "l2", "l3"] {
        v.recv_message(&m.to_string(), false);
    }
    let ops = v.recv_message(&"l4\nl5".to_string(), true);
    assert_eq!(
        ops,
        vec![
            Draw::SaveCursor,
            Draw::Goto(1, 1),
            Draw::Blank(4),
            Draw::Goto(1, 1),
            Draw::Print(vec!['l', '4']),
            Draw::Goto(1, 2),
            Draw::Blank(4),
            Draw::Goto(1, 2),
            Draw::Print(vec!['l', '5']),
            Draw::RestoreCursor,
        ]
    );
    v.page_up();
    let ops = v.redraw();
    assert_eq!(ops[4], Draw::Print(vec!['l', '2']));
}

#[test]
fn list_view_measures_visible_width() {
    let mut list = Widget::<ListView>::new().with_none_group();
    list.add_group("friends".to_string());
    list.insert("alice".to_string(), Some("friends".to_string()));
    list.insert("\x1b[31mbob\x1b[0m".to_string(), Some("friends".to_string()));
    list.insert("alice".to_string(), Some("friends".to_string()));
    list.insert("carol".to_string(), None);
    list.insert("dave".to_string(), Some("work".to_string()));
    assert_eq!(list.natural_size(), (7, 6));
    list.measure(Some(80), Some(24));
    assert_eq!(list.get_measured_width(), Some(7));
    assert_eq!(list.get_measured_height(), Some(24));
    list.measure(Some(5), Some(24));
    assert_eq!(list.get_measured_width(), Some(5));
    let rows: Vec<String> = list.rows().iter().map(|r| r.iter().collect()).collect();
    assert_eq!(rows, vec!["carol", "friends", "  alice", "  \x1b[31mbob\x1b[0m", "work", "  dave"]);
}

#[test]
fn list_view_redraw_blanks_then_prints() {
    let mut list = Widget::<ListView>::new();
    list.insert("x".to_string(), None);
    list.measure(Some(3), Some(2));
    list.layout(4, 2);
    assert_eq!(
        list.redraw(),
        vec![
            Draw::SaveCursor,
            Draw::Goto(2, 4),
            Draw::Blank(1),
            Draw::Goto(2, 4),
            Draw::Goto(2, 5),
            Draw::Blank(1),
            Draw::Goto(2, 5),
            Draw::Goto(2, 4),
            Draw::Print(vec!['x']),
            Draw::RestoreCursor,
        ]
    );
}

#[test]
fn fixed_dimension_is_clamped() {
    let mut v = Widget::<Input>::new();
    v.measure(Some(80), None);
    assert_eq!(v.get_measured_height(), Some(1));
    v.measure(None, Some(0));
    assert_eq!(v.get_measured_width(), None);
    assert_eq!(v.get_measured_height(), Some(0));
}

#[test]
fn disco_adds_features_in_order() {
    let mut disco = Disco::new();
    assert_eq!(disco.add_feature("http://jabber.org/protocol/disco#info"), Ok(()));
    assert_eq!(disco.add_feature("urn:xmpp:ping"), Ok(()));
    assert_eq!(disco.len(), 2);
}

#[test]
fn password_wraps_value() {
    let p = Password(String::from("secret"));
    assert_eq!(p.0, "secret");
}

#[test]
fn frame_current_marks_dirty() {
    let mut frame = Widget::<FrameLayout<Leaf>>::new();
    frame.measure(Some(10), Some(2));
    frame.insert("a".to_string(), Leaf::Input(Widget::<Input>::new()));
    frame.layout(1, 1);
    assert!(!frame.is_dirty());
    frame.current("a".to_string());
    assert!(frame.dirty);
    assert!(!frame.is_dirty());
    frame.content.children[0].1 = Leaf::Input(Widget::<Input>::new());
    assert!(frame.is_dirty());
    frame.layout(1, 1);
    assert!(!frame.is_dirty());
    assert!(!Widget::<FrameLayout<Leaf>>::new().is_dirty());
}

#[test]
fn frame_measures_and_places_every_child() {
    let mut frame = Widget::<FrameLayout<Leaf>>::new();
    frame.content.children.push(("x".to_string(), Leaf::Buffered(Widget::<BufferedWin>::new())));
    frame.content.children.push(("y".to_string(), Leaf::Input(Widget::<Input>::new())));
    frame.measure(Some(30), Some(7));
    frame.layout(3, 4);
    for (_, c) in frame.content.children.iter() {
        assert_eq!(c.get_measured_width(), Some(30));
    }
    match &frame.content.children[1].1 {
        Leaf::Input(v) => assert_eq!((v.x, v.y, v.h), (4, 3, Some(1))),
        _ => panic!("second child is an input"),
    }
}

#[test]
fn duplicate_message_needs_no_measure() {
    let mut v = Widget::<BufferedWin>::new();
    v.recv_message(&"hi".to_string(), false);
    assert!(v.recv_message(&"hi".to_string(), true).is_empty());
    assert_eq!(v.content.lines.len(), 1);
}

struct Marker {
    seen: u32,
}

impl aparte_view::event::EventHandler<Widget<Input>, u32> for Marker {
    fn on_event(&mut self, widget: &mut Widget<Input>, event: &mut u32) {
        self.seen = *event;
        *event += 1;
        widget.dirty = true;
    }
}

#[test]
fn event_reaches_host_handler() {
    let mut v = Widget::<Input>::new();
    v.dirty = false;
    let mut handler = Marker { seen: 0 };
    let mut ev: u32 = 7;
    v.event(&mut handler, &mut ev);
    assert_eq!(handler.seen, 7);
    assert_eq!(ev, 8);
    assert!(v.dirty);
}
