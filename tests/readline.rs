use ttyui::key::{Key, TermOp};
use ttyui::readline::{read_line, read_line2, Buffer};

const DUMMY_TEXT: &str = "okachimachi koshigaya inogashira suidobashi ochanomidzu";
const DUMMY_INDEX: usize = 19;

fn init_with_word() -> Buffer {
    Buffer::from("kabukiza")
}

fn init_modifying_buffer() -> Buffer {
    let mut buf = Buffer::from(DUMMY_TEXT);
    for _ in 0..DUMMY_INDEX {
        buf.right();
    }
    buf.take_output();
    buf
}

fn written(op: &TermOp) -> String {
    match op {
        TermOp::Write(w) => w.iter().collect(),
        _ => panic!("not a write: {:?}", op),
    }
}

#[test]
fn test_new() {
    let b = init_modifying_buffer();
    assert!(!b.is_debug());
    assert!(!b.double_line_response());
}

#[test]
fn test_home() {
    let mut b = init_modifying_buffer();
    let h = b.home();
    assert_eq!(h, Key::Home);
    assert_eq!(b.index(), 0);
}

#[test]
fn test_end() {
    let mut b = init_modifying_buffer();
    let k = b.end();
    assert_eq!(k, Key::End);
    assert_eq!(b.index(), b.len());
}

#[test]
fn test_char_input_at_start_results_a_char() {
    let mut b = Buffer::new();
    let k = b.char('g');
    assert_eq!(k, Key::Char('g'));
    assert_eq!(b.index(), 1);
    assert_eq!(b.to_string(), "g".to_string());
}

#[test]
fn test_char_input_before_word_results_inserted_char() {
    let mut b = init_with_word();
    let mut text_swap = b.to_string();
    let k = b.char('@');
    assert_eq!(k, Key::Char('@'));
    assert_eq!(b.index(), 1);
    text_swap.insert(0, '@');
    assert_eq!(b.to_string(), text_swap);
}

#[test]
fn test_char_input_between_characters_inserted_char() {
    let mut b = init_modifying_buffer();
    let idx_init = b.index();
    let mut text_swap = b.to_string();
    let k = b.char('g');
    assert_eq!(k, Key::Char('g'));
    assert_eq!(b.index(), idx_init + 1);
    text_swap.insert(idx_init, 'g');
    assert_eq!(b.to_string(), text_swap);
}

#[test]
fn test_string_input_results_modified_word() {
    let mut b = init_modifying_buffer();
    let idx_init = b.index();
    let mut text_swap = b.to_string();
    b.char('i');
    b.char('t');
    b.char('a');
    b.char('i');
    assert_eq!(b.index(), idx_init + "itai".len());
    text_swap.insert_str(idx_init, "itai");
    assert_eq!(
        b.to_string(),
        "okachimachi koshigaitaiya inogashira suidobashi ochanomidzu".to_string()
    );
    assert_eq!(b.to_string(), text_swap);
}

#[test]
fn test_backspace_after_characters_removes_char() {
    let mut b = init_modifying_buffer();
    let idx_init = b.index();
    let mut text_swap = b.to_string();
    b.backspace();
    assert_eq!(b.index(), idx_init - 1);
    text_swap.remove(idx_init - 1);
    assert_eq!(b.to_string(), text_swap);
}

#[test]
fn test_backspace_before_characters_has_no_effect() {
    let mut b = init_with_word();
    let idx_init = b.index();
    let text_swap = b.to_string();
    b.backspace();
    assert_eq!(b.index(), idx_init);
    assert_eq!(b.to_string(), text_swap);
}

#[test]
fn test_delete_before_characters_results_shortened_string() {
    let mut b = init_with_word();
    let idx_init = b.index();
    let text_init = b.to_string();
    b.del();
    assert_eq!(b.index(), idx_init);
    assert_eq!(b.to_string(), text_init.as_str()[1..text_init.len()]);
}

#[test]
fn test_delete_all_characters_results_blank_string() {
    let mut b = init_with_word();
    for _ in 0..100 {
        b.del();
    }
    assert_eq!(b.index(), 0);
    assert_eq!(b.to_string(), "".to_string());
}

#[test]
fn test_delete_many_after_a_character_results_trimmed_string() {
    let mut b = init_modifying_buffer();
    let idx_init = b.index();
    let text_init = b.to_string();
    for _ in 0..100 {
        b.del();
    }
    assert_eq!(b.index(), idx_init);
    assert_eq!(b.to_string(), text_init.as_str()[0..idx_init]);
}

#[test]
fn test_go_word_foward_rearrange_cursor_to_next_word_separator() {
    let mut b = init_modifying_buffer();
    b.word_forward();
    assert_eq!(
        b.index(),
        DUMMY_TEXT.match_indices(' ').map(|t| t.0).nth(1).unwrap()
    );
}

#[test]
fn test_go_word_backward_rearrange_cursor_to_previous_word_head() {
    let mut b = init_modifying_buffer();
    b.word_backword();
    assert_eq!(
        b.index(),
        DUMMY_TEXT.match_indices(' ').map(|t| t.0).nth(0).unwrap() + 1
    );
}

#[test]
fn test_word_backspace_removes_partial_string_from_current_word() {
    let mut b = init_modifying_buffer();
    let idx_init = b.index();
    let text_init = b.to_string();
    let idx_prev_space: usize = DUMMY_TEXT
        .match_indices(' ')
        .map(|t| t.0)
        .filter(|n| *n < idx_init)
        .last()
        .unwrap();
    b.word_backspace();
    assert_eq!(b.index(), idx_prev_space);
    assert_eq!(
        b.to_string(),
        format!(
            "{}{}",
            &text_init[0..idx_prev_space],
            &text_init[idx_init..text_init.len()]
        )
    );
}

#[test]
fn test_word_delete_removes_partial_string_from_current_word() {
    let mut b = init_modifying_buffer();
    let idx_init = b.index();
    let text_init = b.to_string();
    let idx_next_space: usize = DUMMY_TEXT
        .match_indices(' ')
        .map(|t| t.0)
        .filter(|n| *n >= idx_init)
        .nth(0)
        .unwrap();
    b.word_delete();
    assert_eq!(b.index(), idx_init);
    assert_eq!(
        b.to_string(),
        format!(
            "{}{}",
            &text_init[0..idx_init],
            &text_init[idx_next_space..text_init.len()]
        )
    );
}

#[test]
fn test_left_key_after_characters_results_cursor_shift() {
    let mut b = init_modifying_buffer();
    let idx_init = b.index();
    b.left();
    assert_eq!(b.index(), idx_init - 1);
}

#[test]
fn test_right_key_after_all_character_results_cursor_shift() {
    let mut b = init_with_word();
    b.end();
    let idx_init = b.len();
    b.right();
    assert_eq!(b.index(), idx_init);
}

#[test]
fn test_right_key_before_characters_results_cursor_shift() {
    let mut b = init_with_word();
    let idx_init = b.index();
    b.right();
    assert_eq!(b.index(), idx_init + 1);
}

#[test]
fn test_left_key_before_characters_has_no_effect() {
    let mut b = init_with_word();
    let idx_init = b.index();
    b.left();
    assert_eq!(b.index(), idx_init);
}

#[test]
fn test_set_prefix() {
    let mut b = init_with_word();
    let data = "korekara";
    assert_eq!(b.prefix().len(), 0);
    b.set_prefix(data.to_string());
    assert_eq!(b.prefix().len(), data.len());
}

#[test]
fn home_then_end_and_end_then_home() {
    let mut b = init_modifying_buffer();
    b.home();
    b.end();
    assert_eq!(b.index(), DUMMY_TEXT.len());
    b.end();
    assert_eq!(b.index(), DUMMY_TEXT.len());
    b.home();
    assert_eq!(b.index(), 0);
    b.home();
    assert_eq!(b.index(), 0);
    assert_eq!(b.to_string(), DUMMY_TEXT);
}

#[test]
fn char_then_backspace_restores_text_and_cursor() {
    let mut b = init_modifying_buffer();
    b.char('x');
    b.backspace();
    assert_eq!(b.index(), DUMMY_INDEX);
    assert_eq!(b.to_string(), DUMMY_TEXT);
}

#[test]
fn word_forward_at_last_word_goes_to_end_and_stays() {
    let mut b = Buffer::from("ab cd");
    b.end();
    b.left();
    b.word_forward();
    assert_eq!(b.index(), 5);
    b.word_forward();
    assert_eq!(b.index(), 5);
}

#[test]
fn word_backward_at_start_stays() {
    let mut b = Buffer::from("ab cd");
    b.word_backword();
    assert_eq!(b.index(), 0);
}

#[test]
fn only_the_ascii_space_separates_words() {
    let mut b = Buffer::from("ab\tcd ef");
    b.word_forward();
    assert_eq!(b.index(), 5);
}

#[test]
fn word_backspace_on_empty_text_writes_nothing() {
    let mut b = Buffer::new();
    b.word_backspace();
    assert_eq!(b.index(), 0);
    assert!(b.take_output().is_empty());
}

#[test]
fn home_moves_the_terminal_cursor_by_the_index() {
    let mut b = init_modifying_buffer();
    b.home();
    let ops = b.take_output();
    assert_eq!(ops.len(), 1);
    assert!(matches!(ops[0], TermOp::MoveLeft(19)));
    assert!(b.take_output().is_empty());
}

#[test]
fn end_moves_the_terminal_cursor_to_the_end() {
    let mut b = init_modifying_buffer();
    b.end();
    let ops = b.take_output();
    assert_eq!(ops.len(), 1);
    assert!(matches!(ops[0], TermOp::MoveRight(36)));
}

#[test]
fn char_rewrites_the_tail() {
    let mut b = Buffer::from("abcd");
    b.right();
    b.take_output();
    b.char('X');
    let ops = b.take_output();
    assert_eq!(ops.len(), 4);
    assert!(matches!(ops[0], TermOp::MoveRight(3)));
    assert!(matches!(ops[1], TermOp::ClearChars(3)));
    assert_eq!(written(&ops[2]), "Xbcd");
    assert!(matches!(ops[3], TermOp::MoveLeft(3)));
}

#[test]
fn backspace_redraws_the_line_with_its_prefix() {
    let mut b = Buffer::from("abcd");
    b.set_prefix("> ".to_string());
    b.right();
    b.right();
    b.take_output();
    b.backspace();
    let ops = b.take_output();
    assert_eq!(ops.len(), 4);
    assert!(matches!(ops[0], TermOp::ClearLine));
    assert_eq!(written(&ops[1]), "> ");
    assert_eq!(written(&ops[2]), "acd");
    assert!(matches!(ops[3], TermOp::MoveLeft(2)));
}

#[test]
fn meta_keys_move_and_delete_by_words() {
    let mut b = Buffer::from("one two three");
    assert!(!b.press(Key::Escape));
    assert!(!b.press(Key::Char('f')));
    assert_eq!(b.index(), 3);
    b.press(Key::Escape);
    b.press(Key::Char('f'));
    assert_eq!(b.index(), 7);
    b.press(Key::Escape);
    b.press(Key::Char('b'));
    assert_eq!(b.index(), 4);
    b.press(Key::Escape);
    b.press(Key::Char('d'));
    assert_eq!(b.to_string(), "one  three");
    b.press(Key::End);
    b.press(Key::Escape);
    b.press(Key::Backspace);
    assert_eq!(b.to_string(), "one ");
    assert_eq!(b.index(), 4);
}

#[test]
fn other_key_after_escape_is_dropped() {
    let mut b = Buffer::from("abc");
    b.press(Key::Escape);
    assert!(!b.press(Key::Enter));
    assert_eq!(b.to_string(), "abc");
    b.press(Key::Char('z'));
    assert_eq!(b.to_string(), "zabc");
}

#[test]
fn enter_ends_the_edit_and_arrows_only_when_asked() {
    let mut b = Buffer::new();
    assert!(!b.press(Key::ArrowUp));
    assert!(!b.press(Key::ArrowDown));
    b.set_terminate_on_up_down(true);
    assert!(b.press(Key::ArrowUp));
    assert!(b.press(Key::ArrowDown));
    assert!(b.press(Key::Enter));
}

#[test]
fn read_line_replays_keys_up_to_enter() {
    let keys = vec![
        Key::Char('h'),
        Key::Char('i'),
        Key::Home,
        Key::Char('>'),
        Key::Enter,
        Key::Char('x'),
    ];
    assert_eq!(read_line(&keys), ">hi");
}

#[test]
fn read_line2_puts_a_newline_at_the_cursor() {
    let keys = vec![Key::Char('a'), Key::Char('b'), Key::ArrowLeft, Key::Enter];
    assert_eq!(read_line2(&keys), "a\nb");
}

#[test]
fn read_line_without_enter_returns_what_was_typed() {
    let keys = vec![Key::Char('a'), Key::Unknown, Key::Del, Key::Backspace];
    assert_eq!(read_line(&keys), "");
}

#[test]
fn non_ascii_characters_count_as_one_position() {
    let mut b = Buffer::from("äö ü");
    b.word_forward();
    assert_eq!(b.index(), 2);
    b.char('x');
    assert_eq!(b.to_string(), "äöx ü");
}
