//! The document buffer on its own: editing, movement, selection, history.
use folio::controller::{Editor, Key, KeyInput, Mode};
use folio::document::{Document, Move};
use folio::region::Pos;

fn ch(c: char) -> KeyInput {
    KeyInput { key: Key::Char(c), ctrl: false, shift: false }
}

fn key(k: Key) -> KeyInput {
    KeyInput { key: k, ctrl: false, shift: false }
}

fn loaded(content: &str) -> Document {
    let mut doc = Document::new();
    let mut first = true;
    for line in content.split('\n') {
        if !first {
            doc.insert_newline();
        }
        for c in line.chars() {
            doc.insert_char(c);
        }
        first = false;
    }
    doc
}

#[test]
fn typing_builds_lines_and_moves_the_cursor() {
    let mut d = Document::new();
    d.insert_char('h');
    d.insert_char('i');
    d.insert_newline();
    d.insert_char('!');
    assert_eq!(d.lines_strings(), vec!["hi".to_string(), "!".to_string()]);
    assert_eq!(d.cursor(), Pos { line: 1, col: 1 });
    assert_eq!(d.line_count(), 2);
}

#[test]
fn backspace_deletes_a_character_and_joins_lines() {
    let mut d = loaded("ab\ncd");
    assert_eq!(d.cursor(), Pos { line: 1, col: 2 });
    d.backspace();
    assert_eq!(d.lines_strings(), vec!["ab".to_string(), "c".to_string()]);
    d.backspace();
    assert_eq!(d.lines_strings(), vec!["ab".to_string(), "".to_string()]);
    d.backspace();
    assert_eq!(d.lines_strings(), vec!["ab".to_string()]);
    assert_eq!(d.cursor(), Pos { line: 0, col: 2 });
}

#[test]
fn backspace_at_the_origin_does_nothing() {
    let mut d = Document::new();
    d.backspace();
    assert_eq!(d.lines_strings(), vec![String::new()]);
    assert_eq!(d.cursor(), Pos { line: 0, col: 0 });
}

#[test]
fn every_edit_is_undoable_in_order() {
    let mut d = Document::new();
    d.insert_char('a');
    d.insert_char('b');
    d.insert_newline();
    d.insert_char('c');
    assert_eq!(d.undo_len(), 4);
    assert!(d.undo());
    assert_eq!(d.lines_strings(), vec!["ab".to_string(), "".to_string()]);
    assert!(d.undo());
    assert_eq!(d.lines_strings(), vec!["ab".to_string()]);
    assert!(d.undo());
    assert_eq!(d.lines_strings(), vec!["a".to_string()]);
    assert!(d.undo());
    assert_eq!(d.lines_strings(), vec!["".to_string()]);
    assert!(!d.undo());
    assert!(d.redo());
    assert!(d.redo());
    assert!(d.redo());
    assert!(d.redo());
    assert_eq!(d.lines_strings(), vec!["ab".to_string(), "c".to_string()]);
    assert!(!d.redo());
}

#[test]
fn a_new_edit_clears_the_redo_stack() {
    let mut d = Document::new();
    d.insert_char('x');
    d.insert_char('y');
    assert!(d.undo());
    assert_eq!(d.redo_len(), 1);
    d.insert_char('z');
    assert_eq!(d.redo_len(), 0);
    assert_eq!(d.lines_strings(), vec!["xz".to_string()]);
}

#[test]
fn cut_of_a_multi_line_selection_restores_exactly_on_undo() {
    let mut d = loaded("one\ntwo\nthree");
    d.move_cursor(Move::ParaBack);
    assert_eq!(d.cursor(), Pos { line: 0, col: 0 });
    d.move_cursor(Move::Down);
    d.move_cursor(Move::WordForward);
    d.start_selection();
    d.move_cursor(Move::Down);
    d.move_cursor(Move::LineEnd);
    let before = d.lines_strings();
    assert!(d.cut_selection());
    assert_eq!(d.lines_strings(), vec!["one".to_string(), "two".to_string()]);
    let undo_count = d.undo_len();
    assert!(d.undo());
    assert_eq!(d.lines_strings(), before);
    assert_eq!(d.undo_len(), undo_count - 1);
}

#[test]
fn cut_without_a_selection_does_nothing() {
    let mut d = loaded("stay");
    assert!(!d.cut_selection());
    assert_eq!(d.lines_strings(), vec!["stay".to_string()]);
    assert_eq!(d.undo_len(), 4);
}

#[test]
fn cut_works_with_the_anchor_after_the_cursor() {
    let mut d = loaded("abcdef");
    // anchor at the end, cursor moved back: the span is still in order
    d.start_selection();
    d.move_cursor(Move::Left);
    d.move_cursor(Move::Left);
    assert!(d.cut_selection());
    assert_eq!(d.lines_strings(), vec!["abcd".to_string()]);
    assert_eq!(d.cursor(), Pos { line: 0, col: 4 });
}

#[test]
fn word_movement_stops_at_word_starts() {
    let mut d = loaded("alpha  beta gamma");
    d.move_cursor(Move::LineHead);
    d.move_cursor(Move::WordForward);
    assert_eq!(d.cursor(), Pos { line: 0, col: 7 });
    d.move_cursor(Move::WordForward);
    assert_eq!(d.cursor(), Pos { line: 0, col: 12 });
    d.move_cursor(Move::WordBack);
    assert_eq!(d.cursor(), Pos { line: 0, col: 7 });
    d.move_cursor(Move::WordBack);
    assert_eq!(d.cursor(), Pos { line: 0, col: 0 });
    d.move_cursor(Move::WordBack);
    assert_eq!(d.cursor(), Pos { line: 0, col: 0 });
}

#[test]
fn vertical_movement_clamps_the_column() {
    let mut d = loaded("long line here\nab\nwider again");
    d.move_cursor(Move::LineEnd);
    assert_eq!(d.cursor(), Pos { line: 2, col: 11 });
    d.move_cursor(Move::Up);
    assert_eq!(d.cursor(), Pos { line: 1, col: 2 });
    d.move_cursor(Move::Up);
    assert_eq!(d.cursor(), Pos { line: 0, col: 2 });
    d.move_cursor(Move::Down);
    d.move_cursor(Move::Down);
    d.move_cursor(Move::Down);
    assert_eq!(d.cursor(), Pos { line: 2, col: 2 });
}

#[test]
fn horizontal_movement_crosses_line_ends() {
    let mut d = loaded("ab\ncd");
    d.move_cursor(Move::ParaBack);
    d.move_cursor(Move::LineEnd);
    assert_eq!(d.cursor(), Pos { line: 0, col: 2 });
    d.move_cursor(Move::Right);
    assert_eq!(d.cursor(), Pos { line: 1, col: 0 });
    d.move_cursor(Move::Left);
    assert_eq!(d.cursor(), Pos { line: 0, col: 2 });
}

#[test]
fn paragraph_movement_seeks_blank_lines() {
    let mut d = loaded("one\ntwo\n\nthree\nfour");
    d.move_cursor(Move::ParaBack);
    assert_eq!(d.cursor(), Pos { line: 2, col: 0 });
    d.move_cursor(Move::ParaBack);
    assert_eq!(d.cursor(), Pos { line: 0, col: 0 });
    d.move_cursor(Move::ParaForward);
    assert_eq!(d.cursor(), Pos { line: 2, col: 0 });
    d.move_cursor(Move::ParaForward);
    assert_eq!(d.cursor(), Pos { line: 4, col: 0 });
}

#[test]
fn input_mode_tab_inserts_a_tab_character() {
    let mut e = Editor::new(".");
    e.dispatch(ch('i'));
    assert_eq!(e.mode(), Mode::Input);
    e.dispatch(key(Key::Tab));
    e.dispatch(ch('x'));
    assert_eq!(e.document().lines_strings(), vec!["\tx".to_string()]);
}

#[test]
fn movement_in_command_mode_keeps_the_text() {
    let mut e = Editor::new(".");
    e.page_loaded(0, Ok(String::from("some words here")));
    e.dispatch(ch('w'));
    assert_eq!(e.document().cursor(), Pos { line: 0, col: 5 });
    e.dispatch(key(Key::End));
    assert_eq!(e.document().cursor(), Pos { line: 0, col: 15 });
    e.dispatch(ch('^'));
    assert_eq!(e.document().cursor(), Pos { line: 0, col: 0 });
    assert_eq!(e.document().lines_strings(), vec!["some words here".to_string()]);
    assert_eq!(e.mode(), Mode::Command);
}

#[test]
fn selection_extends_from_a_fixed_anchor() {
    let mut d = loaded("pick me");
    d.move_cursor(Move::LineHead);
    d.start_selection();
    assert_eq!(d.selection_anchor(), Some(Pos { line: 0, col: 0 }));
    d.move_cursor(Move::WordForward);
    assert_eq!(d.selection_anchor(), Some(Pos { line: 0, col: 0 }));
    assert_eq!(d.cursor(), Pos { line: 0, col: 5 });
    d.cancel_selection();
    assert_eq!(d.selection_anchor(), None);
}
