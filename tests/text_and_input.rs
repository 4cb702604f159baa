use aparte_view::input::Input;
use aparte_view::text::term_string_visible_len;
use aparte_view::terminal::encode;
use aparte_view::view::{Draw, ViewTrait, Widget};

#[test]
fn test_term_string_visible_len_is_correct() {
    assert_eq!(term_string_visible_len(&format!("{}ab{}", termion::color::Bg(termion::color::Red), termion::cursor::Goto(1, 123))), 2);
    assert_eq!(term_string_visible_len(&format!("{}ab{}", termion::cursor::Goto(1, 123), termion::color::Bg(termion::color::Red))), 2);
}

#[test]
fn test_input_byte_index_for_cursor() {
    let input = Input {
        buf: "aça".chars().collect(),
        tmp_buf: None,
        password: true,
        history: Vec::new(),
        history_index: 0,
        cursor: 1,
    };

    assert_eq!(input.byte_len(), 4);
    assert_eq!(input.byte_index(0), 0);
    assert_eq!(input.byte_index(1), 1);
    assert_eq!(input.byte_index(2), 3);
}

fn input_with(text: &str, cursor: usize) -> Input {
    Input {
        buf: text.chars().collect(),
        tmp_buf: None,
        password: false,
        history: Vec::new(),
        history_index: 0,
        cursor,
    }
}

fn editor() -> Widget<Input> {
    let mut v = Widget::<Input>::new();
    v.measure(Some(80), Some(24));
    v.layout(5, 2);
    v
}

fn text(v: &Widget<Input>) -> String {
    v.content.buf.iter().collect()
}

#[test]
fn visible_len_plain_and_empty() {
    assert_eq!(term_string_visible_len(""), 0);
    assert_eq!(term_string_visible_len("hello"), 5);
    assert_eq!(term_string_visible_len("açã"), 3);
}

#[test]
fn visible_len_skips_escape_pairs_and_truncated_sequences() {
    assert_eq!(term_string_visible_len("\x1b7ab"), 2);
    assert_eq!(term_string_visible_len("ab\x1b"), 2);
    assert_eq!(term_string_visible_len("ab\x1b[12"), 2);
    assert_eq!(term_string_visible_len("\x1b[1;31mred\x1b[0m"), 3);
}

#[test]
fn visible_len_either_order_of_color_and_goto() {
    let color = format!("{}", termion::color::Fg(termion::color::Green));
    let goto = format!("{}", termion::cursor::Goto(40, 7));
    assert_eq!(term_string_visible_len(&format!("{}xyz{}", color, goto)), 3);
    assert_eq!(term_string_visible_len(&format!("{}xyz{}", goto, color)), 3);
}

#[test]
fn byte_index_steps_by_encoded_length() {
    let input = input_with("açã", 0);
    assert_eq!(input.byte_index(0), 0);
    assert_eq!(input.byte_index(1), 1);
    assert_eq!(input.byte_index(2), 3);
    assert_eq!(input.byte_index(3), 5);
    let wide = input_with("a€b𝄞", 0);
    assert_eq!(wide.byte_index(2), 4);
    assert_eq!(wide.byte_index(3), 5);
    assert_eq!(wide.byte_len(), 9);
}

#[test]
fn key_inserts_at_cursor_and_echoes() {
    let mut v = editor();
    v.key('a');
    v.key('c');
    v.left();
    let ops = v.key('ç');
    assert_eq!(text(&v), "açc");
    assert_eq!(v.content.cursor, 2);
    assert_eq!(
        ops,
        vec![
            Draw::Goto(2, 5),
            Draw::Blank(80),
            Draw::Goto(2, 5),
            Draw::Print(vec!['a', 'ç', 'c']),
            Draw::Goto(4, 5),
        ]
    );
}

#[test]
fn backspace_and_delete_at_edges() {
    let mut v = editor();
    v.content = input_with("aé", 0);
    v.backspace();
    assert_eq!(text(&v), "aé");
    v.delete();
    assert_eq!(text(&v), "é");
    v.end();
    assert_eq!(v.content.cursor, 1);
    v.delete();
    assert_eq!(text(&v), "é");
    v.backspace();
    assert_eq!(text(&v), "");
    assert_eq!(v.content.cursor, 0);
}

#[test]
fn left_right_home_end_clamp() {
    let mut v = editor();
    v.content = input_with("añb", 1);
    v.right();
    v.right();
    v.right();
    assert_eq!(v.content.cursor, 3);
    v.home();
    v.left();
    assert_eq!(v.content.cursor, 0);
    v.end();
    assert_eq!(v.content.cursor, 3);
}

#[test]
fn backward_delete_word_cases() {
    let mut v = editor();
    v.content = input_with("foo bar", 7);
    v.backward_delete_word();
    assert_eq!(text(&v), "foo ");
    assert_eq!(v.content.cursor, 4);

    v.content = input_with("foo/bar//", 9);
    v.backward_delete_word();
    assert_eq!(text(&v), "foo/bar");

    v.content = input_with("a  ", 3);
    v.backward_delete_word();
    assert_eq!(text(&v), "");
    assert_eq!(v.content.cursor, 0);

    v.content = input_with("say héllo world", 9);
    v.backward_delete_word();
    assert_eq!(text(&v), "say  world");
    assert_eq!(v.content.cursor, 4);
}

#[test]
fn history_round_trip_restores_typed_line() {
    let mut v = editor();
    for c in "hello".chars() {
        v.key(c);
    }
    let (line, password, _) = v.validate();
    assert_eq!(line.iter().collect::<String>(), "hello");
    assert!(!password);
    for c in "world".chars() {
        v.key(c);
    }
    v.validate();
    for c in "draft".chars() {
        v.key(c);
    }
    v.previous();
    assert_eq!(text(&v), "world");
    v.previous();
    assert_eq!(text(&v), "hello");
    assert!(v.previous().is_empty());
    assert_eq!(text(&v), "hello");
    v.next();
    assert_eq!(text(&v), "world");
    v.next();
    assert_eq!(text(&v), "draft");
    assert_eq!(v.content.cursor, 5);
    assert!(v.content.tmp_buf.is_none());
    assert!(v.next().is_empty());
}

#[test]
fn password_mode_hides_keys_and_skips_history() {
    let mut v = editor();
    let ops = v.password();
    assert_eq!(ops.last(), Some(&Draw::Print("password: ".chars().collect())));
    assert!(v.key('s').is_empty());
    let (line, password, _) = v.validate();
    assert_eq!(line, vec!['s']);
    assert!(password);
    assert!(v.content.history.is_empty());
    assert!(!v.content.password);
}

#[test]
fn clear_blanks_the_row() {
    let mut v = editor();
    v.key('x');
    let ops = v.clear();
    assert_eq!(ops, vec![Draw::Goto(2, 5), Draw::Blank(80), Draw::Goto(2, 5)]);
    assert!(v.content.buf.is_empty());
}

#[test]
fn encode_writes_termion_sequences() {
    let ops = vec![
        Draw::SaveCursor,
        Draw::Goto(5, 3),
        Draw::Blank(2),
        Draw::Print(vec!['h', 'i']),
        Draw::RestoreCursor,
    ];
    assert_eq!(encode(&ops), "\x1b[s\x1b[3;5H  hi\x1b[u");
    assert_eq!(encode(&vec![Draw::Goto(120, 0)]), "\x1b[0;120H");
}

#[test]
fn password_keys_need_no_measure() {
    let mut v = Widget::<Input>::new();
    v.content.password = true;
    assert!(v.key('p').is_empty());
    assert!(v.left().is_empty());
    assert!(v.delete().is_empty());
    assert_eq!(v.content.buf, Vec::<char>::new());
}
