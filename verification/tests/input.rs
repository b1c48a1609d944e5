use llm_tui::input::{Input, InputLine};

fn typed(s: &str) -> Input {
    let mut i = Input::new();
    for c in s.chars() {
        i.enter_char(c);
    }
    i
}

#[test]
fn new_input_is_empty() {
    let i = Input::new();
    assert!(i.is_empty());
    assert_eq!(i.text(), "");
    assert_eq!(i.cursor_position(), (0, 0));
}

#[test]
fn typing_appends_at_cursor() {
    let i = typed("héllo");
    assert_eq!(i.text(), "héllo");
    assert_eq!(i.cursor_position(), (5, 0));
}

#[test]
fn insert_in_middle_of_multibyte_text() {
    let mut i = typed("你好");
    i.move_cursor_left();
    i.enter_char('们');
    assert_eq!(i.text(), "你们好");
    assert_eq!(i.cursor_position(), (2, 0));
    i.enter_char('🦀');
    assert_eq!(i.text(), "你们🦀好");
    assert_eq!(i.cursor_position(), (3, 0));
}

#[test]
fn delete_removes_char_before_cursor() {
    let mut i = typed("a🦀b");
    i.move_cursor_left();
    i.delete_char();
    assert_eq!(i.text(), "ab");
    assert_eq!(i.cursor_position(), (1, 0));
    i.delete_char();
    i.delete_char();
    assert_eq!(i.text(), "b");
    assert_eq!(i.cursor_position(), (0, 0));
}

#[test]
fn delete_undoes_enter() {
    let mut i = typed("xyz");
    i.move_cursor_left();
    i.enter_char('é');
    i.delete_char();
    assert_eq!(i.text(), "xyz");
    assert_eq!(i.cursor_position(), (2, 0));
}

#[test]
fn cursor_moves_stop_at_the_ends() {
    let mut i = typed("ab");
    i.move_cursor_right();
    assert_eq!(i.cursor_position(), (2, 0));
    i.move_cursor_left();
    i.move_cursor_left();
    i.move_cursor_left();
    assert_eq!(i.cursor_position(), (0, 0));
    i.move_cursor_right();
    assert_eq!(i.cursor_position(), (1, 0));
}

#[test]
fn newline_moves_cursor_to_next_line() {
    let mut i = typed("ab");
    i.enter_new_line();
    assert_eq!(i.cursor_position(), (0, 1));
    i.enter_char('c');
    assert_eq!(i.text(), "ab\nc");
    assert_eq!(i.cursor_position(), (1, 1));
    i.move_cursor_left();
    i.move_cursor_left();
    assert_eq!(i.cursor_position(), (2, 0));
}

#[test]
fn clear_empties_and_resets_cursor() {
    let mut i = typed("line\nmore");
    i.clear();
    assert!(i.is_empty());
    assert_eq!(i.cursor_position(), (0, 0));
    i.enter_char('z');
    assert_eq!(i.text(), "z");
}

#[test]
fn styled_lines_highlight_char_under_cursor() {
    let mut i = typed("ab\ncd");
    i.move_cursor_left();
    assert_eq!(
        i.styled_lines(),
        vec![
            InputLine::Plain("ab".into()),
            InputLine::Highlight { before: "c".into(), at: 'd', after: "".into() },
        ]
    );
}

#[test]
fn styled_lines_cursor_at_end_of_line() {
    let i = typed("ab");
    assert_eq!(i.styled_lines(), vec![InputLine::EndCursor("ab".into())]);
}

#[test]
fn styled_lines_for_empty_input() {
    let i = Input::new();
    assert_eq!(i.styled_lines(), vec![InputLine::EndCursor("".into())]);
}

#[test]
fn styled_lines_after_trailing_newline() {
    let i = typed("ab\n");
    assert_eq!(
        i.styled_lines(),
        vec![InputLine::Plain("ab".into()), InputLine::EndCursor("".into())]
    );
}

#[test]
fn styled_lines_mark_exactly_one_line() {
    let mut i = typed("one\ntwo\n\nfour");
    for _ in 0..7 {
        i.move_cursor_left();
    }
    let lines = i.styled_lines();
    assert_eq!(lines.len(), 4);
    let marked: Vec<usize> = (0..lines.len())
        .filter(|&k| !matches!(lines[k], InputLine::Plain(_)))
        .collect();
    assert_eq!(marked, vec![1]);
    assert_eq!(
        lines[1],
        InputLine::Highlight { before: "tw".into(), at: 'o', after: "".into() }
    );
}
