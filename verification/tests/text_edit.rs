use vellum::text_edit::{
    first_piece_end, last_piece_start, next_boundary, previous_boundary, second_piece_start,
    CursorMove, TextEdit,
};

fn edit(content: &str, cursor: usize) -> TextEdit {
    TextEdit {
        id: None,
        content: content.into(),
        cursor,
    }
}

#[test]
fn moves_by_unicode_words() {
    let mut edit = edit("one café three", "one café three".len());
    assert!(edit.move_cursor(CursorMove::WordLeft));
    assert_eq!(&edit.content[edit.cursor..], "three");
    assert!(edit.move_cursor(CursorMove::WordLeft));
    assert_eq!(&edit.content[edit.cursor..], "café three");
    assert!(edit.move_cursor(CursorMove::WordRight));
    assert_eq!(&edit.content[..edit.cursor], "one café");
    edit.move_cursor(CursorMove::End);
    assert!(!edit.move_cursor(CursorMove::Right));
}

#[test]
fn backspaces_a_word_and_leading_separator() {
    let mut edit = edit("one, two", "one, two".len());
    assert!(edit.backspace_word());
    assert_eq!(edit.content, "one, ");
    assert!(edit.backspace_word());
    assert_eq!(edit.content, "");
}

#[test]
fn inserts_at_the_cursor_and_moves_past_the_text() {
    let mut edit = edit("ac", 1);
    edit.insert("bé");
    assert_eq!(edit.content, "abéc");
    assert_eq!(edit.cursor, 4);
}

#[test]
fn backspace_removes_a_whole_grapheme_cluster() {
    // "e" followed by a combining acute accent is one grapheme of three bytes.
    let mut edit = edit("xe\u{301}", 4);
    assert!(edit.backspace());
    assert_eq!(edit.content, "x");
    assert_eq!(edit.cursor, 1);
    assert!(edit.backspace());
    assert_eq!(edit.content, "");
    assert!(!edit.backspace());
}

#[test]
fn delete_removes_the_grapheme_after_the_cursor() {
    let mut edit = edit("a\u{1F600}b", 1);
    assert!(edit.delete());
    assert_eq!(edit.content, "ab");
    assert_eq!(edit.cursor, 1);
    edit.move_cursor(CursorMove::End);
    assert!(!edit.delete());
}

#[test]
fn home_and_end_jump_to_the_ends() {
    let mut edit = edit("héllo", 3);
    assert!(edit.move_cursor(CursorMove::Home));
    assert_eq!(edit.cursor, 0);
    assert!(!edit.move_cursor(CursorMove::Home));
    assert!(edit.move_cursor(CursorMove::End));
    assert_eq!(edit.cursor, "héllo".len());
    assert!(edit.move_cursor(CursorMove::Left));
    assert_eq!(edit.cursor, "héll".len());
    assert!(edit.move_cursor(CursorMove::Right));
    assert_eq!(edit.cursor, "héllo".len());
}

#[test]
fn grapheme_boundaries_step_over_multibyte_characters() {
    let text = "aé\u{1F600}";
    assert_eq!(next_boundary(text, 0), 1);
    assert_eq!(next_boundary(text, 1), 3);
    assert_eq!(next_boundary(text, 3), 7);
    assert_eq!(next_boundary(text, 7), 7);
    assert_eq!(previous_boundary(text, 7), 3);
    assert_eq!(previous_boundary(text, 3), 1);
    assert_eq!(previous_boundary(text, 0), 0);
}

#[test]
fn word_moves_skip_punctuation() {
    let mut edit = edit("(alpha) beta", 0);
    assert!(edit.move_cursor(CursorMove::WordRight));
    assert_eq!(edit.cursor, 6);
    assert!(edit.move_cursor(CursorMove::WordRight));
    assert_eq!(edit.cursor, 12);
    assert!(!edit.move_cursor(CursorMove::WordRight));
    assert!(edit.move_cursor(CursorMove::WordLeft));
    assert_eq!(edit.cursor, 8);
    assert!(edit.move_cursor(CursorMove::WordLeft));
    assert_eq!(edit.cursor, 1);
    assert!(edit.move_cursor(CursorMove::WordLeft));
    assert_eq!(edit.cursor, 0);
    assert!(!edit.move_cursor(CursorMove::WordLeft));
}

#[test]
fn the_cursor_is_shown_as_a_bar() {
    assert_eq!(edit("café", 3).display(), "caf|é");
    assert_eq!(edit("", 0).display(), "|");
    assert_eq!(edit("ab", 2).display(), "ab|");
}

#[test]
fn boundaries_from_pieces() {
    let pieces = vec![(0, "one"), (4, "two")];
    assert_eq!(last_piece_start(&pieces), 4);
    assert_eq!(last_piece_start(&Vec::new()), 0);
    assert_eq!(first_piece_end(20, 5, &pieces), 8);
    assert_eq!(first_piece_end(20, 5, &Vec::new()), 20);
    assert_eq!(second_piece_start(20, 5, &pieces), 9);
    assert_eq!(second_piece_start(20, 5, &vec![(0, "x")]), 20);
}
