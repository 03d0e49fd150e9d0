//! End-to-end flows through the mode state machine, with the surrounding
//! program simulated: requests are inspected and their outcomes handed back.
use folio::controller::{Editor, IoRequest, Key, KeyInput, Mode};

fn ch(c: char) -> KeyInput {
    KeyInput { key: Key::Char(c), ctrl: false, shift: false }
}

fn key(k: Key) -> KeyInput {
    KeyInput { key: k, ctrl: false, shift: false }
}

fn ctrl_ch(c: char) -> KeyInput {
    KeyInput { key: Key::Char(c), ctrl: true, shift: false }
}

fn type_text(e: &mut Editor, s: &str) {
    for c in s.chars() {
        let r = e.dispatch(ch(c));
        assert!(r.is_none());
    }
}

fn buffer_lines(e: &Editor) -> Vec<String> {
    e.document().lines_strings()
}

#[test]
fn fresh_editor_starts_in_command_mode() {
    let e = Editor::new(".");
    assert!(matches!(e.mode(), Mode::Command));
    assert_eq!(e.page_id(), 0);
    assert_eq!(e.page_count(), 1);
    assert_eq!(e.id_entry(), "000");
    assert_eq!(e.status(), "");
    assert_eq!(buffer_lines(&e), vec![String::new()]);
}

#[test]
fn esc_returns_to_command_from_every_prompt_mode() {
    for (enter, expected) in [
        ('o', Mode::OpenDirectory),
        ('f', Mode::OpenFile),
        ('i', Mode::Input),
        ('h', Mode::History),
        ('/', Mode::Search),
        (' ', Mode::Selection),
    ] {
        let mut e = Editor::new(".");
        e.dispatch(ch(enter));
        assert_eq!(e.mode(), expected);
        e.dispatch(key(Key::Esc));
        assert_eq!(e.mode(), Mode::Command);
    }
}

#[test]
fn esc_in_command_mode_quits_and_quit_is_terminal() {
    let mut e = Editor::new(".");
    e.dispatch(key(Key::Esc));
    assert!(matches!(e.mode(), Mode::Quit));
    e.dispatch(ch('i'));
    assert!(matches!(e.mode(), Mode::Quit));
    e.dispatch(key(Key::Esc));
    assert!(matches!(e.mode(), Mode::Quit));

    let mut e2 = Editor::new(".");
    e2.dispatch(ch('q'));
    assert!(matches!(e2.mode(), Mode::Quit));
}

#[test]
fn three_pages_directory_open_and_walk() {
    let mut e = Editor::new("scans");
    e.dispatch(ch('o'));
    assert!(matches!(e.mode(), Mode::OpenDirectory));
    let r = e.dispatch(key(Key::Enter));
    match r {
        Some(IoRequest::OpenDirectory { dir }) => assert_eq!(dir, "scans"),
        _ => panic!("expected a directory-open request"),
    }
    e.dir_opened(Ok((3, String::from("page zero text"))));
    assert_eq!(e.page_count(), 3);
    assert_eq!(e.page_id(), 0);
    assert!(matches!(e.mode(), Mode::Command));
    assert_eq!(buffer_lines(&e), vec!["page zero text".to_string()]);

    // next twice: pages 001 and 002 load
    let r = e.dispatch(ch('n'));
    match r {
        Some(IoRequest::LoadPage { dir, file, id }) => {
            assert_eq!(dir, "scans");
            assert_eq!(file, "001.txt");
            assert_eq!(id, 1);
        },
        _ => panic!("expected a load request"),
    }
    e.page_loaded(1, Ok(String::from("page one")));
    assert_eq!(e.page_id(), 1);
    assert_eq!(e.id_entry(), "001");

    let r = e.dispatch(ch('n'));
    match r {
        Some(IoRequest::LoadPage { file, id, .. }) => {
            assert_eq!(file, "002.txt");
            assert_eq!(id, 2);
        },
        _ => panic!("expected a load request"),
    }
    e.page_loaded(2, Ok(String::from("page two")));
    assert_eq!(e.page_id(), 2);

    // one step past the last page: the load fails, the status reports it,
    // the mode stays command and the page id stays where it was
    let r = e.dispatch(ch('n'));
    match r {
        Some(IoRequest::LoadPage { file, id, .. }) => {
            assert_eq!(file, "003.txt");
            assert_eq!(id, 3);
        },
        _ => panic!("expected a load request"),
    }
    e.page_loaded(3, Err(String::from("io error: no such file 003.txt")));
    assert!(!e.status().is_empty());
    assert!(matches!(e.mode(), Mode::Command));
    assert_eq!(e.page_id(), 2);
    assert_eq!(buffer_lines(&e), vec!["page two".to_string()]);
}

#[test]
fn next_then_prev_restores_the_page() {
    let mut e = Editor::new("d");
    e.page_loaded(1, Ok(String::from("the original page")));
    assert_eq!(e.page_id(), 1);
    let before = buffer_lines(&e);

    let r = e.dispatch(ch('n'));
    assert!(matches!(r, Some(IoRequest::LoadPage { id: 2, .. })));
    e.page_loaded(2, Ok(String::from("another page")));
    assert_eq!(e.page_id(), 2);

    let r = e.dispatch(ch('p'));
    assert!(matches!(r, Some(IoRequest::LoadPage { id: 1, .. })));
    e.page_loaded(1, Ok(String::from("the original page")));
    assert_eq!(e.page_id(), 1);
    assert_eq!(buffer_lines(&e), before);
}

#[test]
fn prev_at_page_zero_is_an_error_status_not_a_wrap() {
    let mut e = Editor::new(".");
    let r = e.dispatch(ch('p'));
    assert!(r.is_none());
    assert!(!e.status().is_empty());
    assert!(matches!(e.mode(), Mode::Command));
    assert_eq!(e.page_id(), 0);
}

#[test]
fn load_then_save_reproduces_content_without_trailing_newline() {
    let mut e = Editor::new("dir");
    e.page_loaded(5, Ok(String::from("line a\nline b\n")));
    let r = e.dispatch(ctrl_ch('s'));
    match r {
        Some(IoRequest::SavePage { dir, file, content }) => {
            assert_eq!(dir, "dir");
            assert_eq!(file, "005.txt");
            assert_eq!(content, "line a\nline b");
        },
        _ => panic!("expected a save request"),
    }
    e.save_done(Ok(()));
    assert_eq!(e.status(), "");
}

#[test]
fn load_then_save_keeps_content_with_no_trailing_newline() {
    let mut e = Editor::new("dir");
    e.page_loaded(0, Ok(String::from("x\n\ny")));
    let r = e.dispatch(ctrl_ch('s'));
    match r {
        Some(IoRequest::SavePage { content, .. }) => assert_eq!(content, "x\n\ny"),
        _ => panic!("expected a save request"),
    }
}

#[test]
fn save_failure_becomes_a_status_message() {
    let mut e = Editor::new("dir");
    let r = e.dispatch(ctrl_ch('s'));
    assert!(matches!(r, Some(IoRequest::SavePage { .. })));
    e.save_done(Err(String::from("io error: permission denied")));
    assert_eq!(e.status(), "io error: permission denied");
}

#[test]
fn open_file_with_explicit_id_formats_the_name() {
    let mut e = Editor::new("pages");
    e.dispatch(ch('f'));
    assert!(matches!(e.mode(), Mode::OpenFile));
    // the entry starts as the current token "000": clear it and type "7"
    for _ in 0..3 {
        e.dispatch(key(Key::Backspace));
    }
    type_text(&mut e, "7");
    let r = e.dispatch(key(Key::Enter));
    match r {
        Some(IoRequest::LoadPage { file, id, .. }) => {
            assert_eq!(file, "007.txt");
            assert_eq!(id, 7);
        },
        _ => panic!("expected a load request"),
    }
    e.page_loaded(7, Ok(String::from("p7")));
    assert!(matches!(e.mode(), Mode::Command));
    assert_eq!(e.id_entry(), "007");
}

#[test]
fn open_file_wide_id_keeps_all_digits() {
    let mut e = Editor::new("pages");
    e.dispatch(ch('f'));
    for _ in 0..3 {
        e.dispatch(key(Key::Backspace));
    }
    type_text(&mut e, "1234");
    let r = e.dispatch(key(Key::Enter));
    match r {
        Some(IoRequest::LoadPage { file, id, .. }) => {
            assert_eq!(file, "1234.txt");
            assert_eq!(id, 1234);
        },
        _ => panic!("expected a load request"),
    }
}

#[test]
fn open_file_ignores_leading_zeros_in_the_entry() {
    let mut e = Editor::new("pages");
    e.dispatch(ch('f'));
    for _ in 0..3 {
        e.dispatch(key(Key::Backspace));
    }
    type_text(&mut e, "0012");
    let r = e.dispatch(key(Key::Enter));
    match r {
        Some(IoRequest::LoadPage { file, id, .. }) => {
            assert_eq!(file, "012.txt");
            assert_eq!(id, 12);
        },
        _ => panic!("expected a load request"),
    }
}

#[test]
fn open_file_rejects_a_non_numeric_id() {
    let mut e = Editor::new("pages");
    e.dispatch(ch('f'));
    type_text(&mut e, "x");
    let r = e.dispatch(key(Key::Enter));
    assert!(r.is_none());
    assert!(!e.status().is_empty());
    assert!(matches!(e.mode(), Mode::OpenFile));
}

#[test]
fn open_file_rejects_an_empty_id() {
    let mut e = Editor::new("pages");
    e.dispatch(ch('f'));
    for _ in 0..3 {
        e.dispatch(key(Key::Backspace));
    }
    let r = e.dispatch(key(Key::Enter));
    assert!(r.is_none());
    assert!(!e.status().is_empty());
}

#[test]
fn failed_directory_open_keeps_the_prompt() {
    let mut e = Editor::new(".");
    e.dispatch(ch('o'));
    type_text(&mut e, "/nowhere");
    let r = e.dispatch(key(Key::Enter));
    assert!(matches!(r, Some(IoRequest::OpenDirectory { .. })));
    e.dir_opened(Err(String::from("io error: not a directory")));
    assert!(matches!(e.mode(), Mode::OpenDirectory));
    assert_eq!(e.status(), "io error: not a directory");
}

#[test]
fn clipboard_copy_sends_the_whole_buffer() {
    let mut e = Editor::new(".");
    e.page_loaded(0, Ok(String::from("keep\nall of it")));
    let r = e.dispatch(ch('*'));
    match r {
        Some(IoRequest::CopyToClipboard { content }) => assert_eq!(content, "keep\nall of it"),
        _ => panic!("expected a clipboard request"),
    }
    e.clipboard_done(Ok(()));
    assert_eq!(e.status(), "copied to clipboard");
    e.clipboard_done(Err(String::from("no clipboard available")));
    assert_eq!(e.status(), "no clipboard available");
}

#[test]
fn selection_word_cut_with_undo_and_redo() {
    let mut e = Editor::new(".");
    e.page_loaded(0, Ok(String::from("alpha beta gamma")));
    e.dispatch(ch(' '));
    assert!(matches!(e.mode(), Mode::Selection));
    e.dispatch(ch('w'));
    e.dispatch(ch('w'));
    e.dispatch(ch('x'));
    assert!(matches!(e.mode(), Mode::Command));
    assert_eq!(buffer_lines(&e), vec!["gamma".to_string()]);
    assert_eq!(e.document().undo_len(), 1);

    e.dispatch(ch('h'));
    assert!(matches!(e.mode(), Mode::History));
    e.dispatch(ch('u'));
    assert_eq!(buffer_lines(&e), vec!["alpha beta gamma".to_string()]);
    assert_eq!(e.document().undo_len(), 0);
    assert_eq!(e.document().redo_len(), 1);
    e.dispatch(ch('r'));
    assert_eq!(buffer_lines(&e), vec!["gamma".to_string()]);
    assert_eq!(e.document().undo_len(), 1);
    assert_eq!(e.document().redo_len(), 0);
}

#[test]
fn undo_with_empty_history_is_a_quiet_no_op() {
    let mut e = Editor::new(".");
    e.page_loaded(0, Ok(String::from("text")));
    e.dispatch(ch('h'));
    e.dispatch(ch('u'));
    e.dispatch(ch('r'));
    assert_eq!(buffer_lines(&e), vec!["text".to_string()]);
    assert!(matches!(e.mode(), Mode::History));
}

#[test]
fn reflow_splits_a_wide_gap_into_two_lines() {
    let mut e = Editor::new(".");
    e.page_loaded(0, Ok(String::from("foo     bar")));
    let r = e.dispatch(ch('l'));
    assert!(r.is_none());
    assert_eq!(buffer_lines(&e), vec!["foo".to_string(), "bar".to_string()]);
}

#[test]
fn reflow_twice_equals_reflow_once() {
    let mut e = Editor::new(".");
    e.page_loaded(0, Ok(String::from("a   b  c    d\nkeep  this")));
    e.dispatch(ch('l'));
    let once = buffer_lines(&e);
    e.dispatch(ch('l'));
    assert_eq!(buffer_lines(&e), once);
}

#[test]
fn reflow_keeps_short_gaps() {
    let mut e = Editor::new(".");
    e.page_loaded(0, Ok(String::from("a  b c")));
    e.dispatch(ch('l'));
    assert_eq!(buffer_lines(&e), vec!["a  b c".to_string()]);
}

#[test]
fn reflow_discards_undo_history() {
    let mut e = Editor::new(".");
    e.page_loaded(0, Ok(String::from("word    gap")));
    e.dispatch(ch('i'));
    e.dispatch(ch('x'));
    e.dispatch(key(Key::Esc));
    assert_eq!(e.document().undo_len(), 1);
    e.dispatch(ch('l'));
    assert_eq!(e.document().undo_len(), 0);
    assert_eq!(e.document().redo_len(), 0);
}

#[test]
fn hash_key_inserts_a_triple_marker() {
    let mut e = Editor::new(".");
    e.page_loaded(0, Ok(String::from("rest")));
    e.dispatch(ch('#'));
    assert_eq!(buffer_lines(&e), vec!["###rest".to_string()]);
    assert_eq!(e.document().undo_len(), 1);
}

#[test]
fn search_finds_forward_without_wrapping() {
    let mut e = Editor::new(".");
    e.page_loaded(0, Ok(String::from("abc 12\nx99")));
    e.dispatch(ch('/'));
    assert!(matches!(e.mode(), Mode::Search));
    let entry_len = e.pattern_entry().chars().count();
    for _ in 0..entry_len {
        e.dispatch(key(Key::Backspace));
    }
    type_text(&mut e, "[0-9]+");
    assert_eq!(e.pattern_entry(), "[0-9]+");

    e.dispatch(key(Key::Enter));
    assert_eq!(e.document().cursor().line, 0);
    assert_eq!(e.document().cursor().col, 4);
    assert_eq!(e.status(), "");

    e.dispatch(key(Key::Enter));
    assert_eq!(e.document().cursor().line, 0);
    assert_eq!(e.document().cursor().col, 5);

    e.dispatch(key(Key::Enter));
    assert_eq!(e.document().cursor().line, 1);
    assert_eq!(e.document().cursor().col, 1);

    e.dispatch(key(Key::Enter));
    assert_eq!(e.document().cursor().line, 1);
    assert_eq!(e.document().cursor().col, 2);

    // past the last match: no wrap, the cursor stays, "no match" is reported
    e.dispatch(key(Key::Enter));
    assert_eq!(e.document().cursor().line, 1);
    assert_eq!(e.document().cursor().col, 2);
    assert_eq!(e.status(), "no match");
}

#[test]
fn search_backward_finds_the_previous_match() {
    let mut e = Editor::new(".");
    e.page_loaded(0, Ok(String::from("7 then 8 then 9")));
    e.dispatch(ch('/'));
    let entry_len = e.pattern_entry().chars().count();
    for _ in 0..entry_len {
        e.dispatch(key(Key::Backspace));
    }
    type_text(&mut e, "[0-9]");
    e.dispatch(key(Key::Enter));
    assert_eq!(e.document().cursor().col, 7);
    let shift_enter = KeyInput { key: Key::Enter, ctrl: false, shift: true };
    e.dispatch(shift_enter);
    assert_eq!(e.document().cursor().col, 0);
    // no earlier match: the cursor stays and "no match" is reported
    e.dispatch(shift_enter);
    assert_eq!(e.document().cursor().col, 0);
    assert_eq!(e.status(), "no match");
}

#[test]
fn malformed_search_pattern_is_a_status_not_a_mode_change() {
    let mut e = Editor::new(".");
    e.page_loaded(0, Ok(String::from("text")));
    e.dispatch(ch('/'));
    let entry_len = e.pattern_entry().chars().count();
    for _ in 0..entry_len {
        e.dispatch(key(Key::Backspace));
    }
    type_text(&mut e, "(unclosed");
    e.dispatch(key(Key::Enter));
    assert!(matches!(e.mode(), Mode::Search));
    assert_eq!(e.status(), "invalid search pattern");
    assert_eq!(e.document().cursor().col, 0);
}

#[test]
fn default_pattern_highlights_page_markers() {
    let mut e = Editor::new(".");
    assert_eq!(e.pattern_entry(), r"\d+|f\.|fol|p\.|page|scan");
    e.page_loaded(0, Ok(String::from("see fol 23")));
    e.dispatch(ch('/'));
    e.dispatch(key(Key::Enter));
    // the seeded pattern finds the folio marker after the cursor
    assert_eq!(e.document().cursor().col, 4);
}

#[test]
fn load_failure_before_any_load_keeps_the_empty_buffer() {
    let mut e = Editor::new(".");
    e.dispatch(ch('f'));
    let r = e.dispatch(key(Key::Enter));
    assert!(matches!(r, Some(IoRequest::LoadPage { id: 0, .. })));
    e.page_loaded(0, Err(String::from("io error: missing 000.txt")));
    assert!(matches!(e.mode(), Mode::OpenFile));
    assert_eq!(buffer_lines(&e), vec![String::new()]);
    assert!(!e.status().is_empty());
}
