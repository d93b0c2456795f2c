use fim::editor::key::{ControlKey, Direction, Key};
use fim::editor::message::{Message, MESSAGE_SECS};
use fim::editor::{
    Command, Editor, RunStep, SaveOutcome, BAR_ROWS, SEARCH_PROMPT, SEARCH_PROMPT_LEN,
};
use fim::error::EditorError;
use fim::reader::KeyStream;

const TAB: Key = Key::ControlKey(ControlKey::Tab);
const CR: Key = Key::ControlKey(ControlKey::CR);
const LEFT: Key = Key::ArrowKey(Direction::Left);
const RIGHT: Key = Key::ArrowKey(Direction::Right);
const UP: Key = Key::ArrowKey(Direction::Up);
const DOWN: Key = Key::ArrowKey(Direction::Down);
const HOME: Key = Key::ControlKey(ControlKey::Home);
const END: Key = Key::ControlKey(ControlKey::End);
const BACKSPACE: Key = Key::ControlKey(ControlKey::Backspace);
const DELETE: Key = Key::ControlKey(ControlKey::Delete);
const ESCAPE: Key = Key::ControlKey(ControlKey::Escape);

fn keys_of(text: &str) -> Vec<Key> {
    text.chars().map(KeyStream::convert_char_to_key).collect()
}

fn editor_of(text: &str, cols: usize, rows: usize) -> Editor {
    let mut editor = Editor::new(cols, rows);
    editor.open_file(&keys_of(text));
    editor
}

fn lines(editor: &Editor) -> Vec<String> {
    editor.rows().iter().map(|row| row.raw()).collect()
}

fn cursor(editor: &Editor) -> (usize, usize) {
    (editor.cx(), editor.cy())
}

fn offsets(editor: &Editor) -> (usize, usize) {
    (editor.col_offset(), editor.row_offset())
}

fn message_text(editor: &Editor) -> Option<String> {
    editor.message().map(|m| m.text().to_string())
}

fn type_text(editor: &mut Editor, text: &str) {
    for key in keys_of(text) {
        editor.handle_command(&key);
    }
}

#[test]
fn new_editor_is_empty() {
    let editor = Editor::new(80, 24);
    assert_eq!(cursor(&editor), (0, 0));
    assert_eq!(offsets(&editor), (0, 0));
    assert_eq!(editor.max_col(), 80);
    assert_eq!(editor.max_row(), 24);
    assert_eq!(editor.rows().len(), 0);
    assert!(editor.message().is_none());
    assert!(!editor.is_dirty());
    assert_eq!(editor.contents(), "");
}

#[test]
fn resize_keeps_two_rows_for_the_bars() {
    let mut editor = Editor::new(0, 0);
    editor.resize(80, 24);
    assert_eq!(BAR_ROWS, 2);
    assert_eq!(editor.max_col(), 80);
    assert_eq!(editor.max_row(), 22);
    editor.resize(10, 1);
    assert_eq!(editor.max_row(), 0);
    editor.resize(10, 2);
    assert_eq!(editor.max_row(), 0);
}

#[test]
fn open_file_makes_one_row_per_line() {
    let editor = editor_of("one\r\ntwo\n\nfour\n", 80, 24);
    assert_eq!(lines(&editor), vec!["one", "two", "", "four"]);
    assert!(!editor.is_dirty());
    assert_eq!(cursor(&editor), (0, 0));
}

#[test]
fn open_file_drops_keys_behind_the_last_line_feed() {
    let editor = editor_of("one\ntail", 80, 24);
    assert_eq!(lines(&editor), vec!["one"]);
    let editor = editor_of("no line", 80, 24);
    assert_eq!(editor.rows().len(), 0);
}

#[test]
fn open_file_adds_behind_the_rows_that_are_there() {
    let mut editor = editor_of("one\n", 80, 24);
    editor.open_file(&keys_of("two\n"));
    assert_eq!(lines(&editor), vec!["one", "two"]);
}

#[test]
fn contents_writes_each_row_with_a_line_feed() {
    let editor = editor_of("a\tb\r\n\nc\n", 80, 24);
    assert_eq!(editor.contents(), "a\tb\n\nc\n");
}

#[test]
fn loading_and_saving_gives_the_text_back() {
    let text = "fn main() {\n\tprintln!(\"\u{4E2D}\");\n}\n";
    assert_eq!(editor_of(text, 80, 24).contents(), text);
}

#[test]
fn right_steps_over_whole_keys() {
    let mut editor = editor_of("a\tb\n", 80, 24);
    editor.move_cursor(&RIGHT);
    assert_eq!(cursor(&editor), (1, 0));
    editor.move_cursor(&RIGHT);
    assert_eq!(cursor(&editor), (5, 0));
    editor.move_cursor(&RIGHT);
    assert_eq!(cursor(&editor), (6, 0));
}

#[test]
fn left_steps_over_whole_keys() {
    let mut editor = editor_of("a\tb\n", 80, 24);
    editor.move_cursor(&END);
    assert_eq!(cursor(&editor), (6, 0));
    editor.move_cursor(&LEFT);
    assert_eq!(cursor(&editor), (5, 0));
    editor.move_cursor(&LEFT);
    assert_eq!(cursor(&editor), (1, 0));
    editor.move_cursor(&LEFT);
    assert_eq!(cursor(&editor), (0, 0));
    editor.move_cursor(&LEFT);
    assert_eq!(cursor(&editor), (0, 0));
}

#[test]
fn right_at_the_end_of_a_row_goes_to_the_next_row() {
    let mut editor = editor_of("ab\ncd\n", 80, 24);
    editor.move_cursor(&END);
    editor.move_cursor(&RIGHT);
    assert_eq!(cursor(&editor), (0, 1));
    editor.move_cursor(&END);
    editor.move_cursor(&RIGHT);
    assert_eq!(cursor(&editor), (0, 2));
    editor.move_cursor(&RIGHT);
    assert_eq!(cursor(&editor), (0, 2));
}

#[test]
fn left_at_the_start_of_a_row_goes_to_the_end_of_the_row_above() {
    let mut editor = editor_of("abc\nd\n", 80, 24);
    editor.move_cursor(&DOWN);
    assert_eq!(cursor(&editor), (0, 1));
    editor.move_cursor(&LEFT);
    assert_eq!(cursor(&editor), (3, 0));
}

#[test]
fn vertical_moves_stop_at_the_first_and_behind_the_last_row() {
    let mut editor = editor_of("a\nb\n", 80, 24);
    editor.move_cursor(&UP);
    assert_eq!(cursor(&editor), (0, 0));
    editor.move_cursor(&DOWN);
    editor.move_cursor(&DOWN);
    assert_eq!(cursor(&editor), (0, 2));
    editor.move_cursor(&DOWN);
    assert_eq!(cursor(&editor), (0, 2));
    let mut empty = Editor::new(80, 24);
    empty.move_cursor(&DOWN);
    empty.move_cursor(&UP);
    empty.move_cursor(&RIGHT);
    empty.move_cursor(&LEFT);
    empty.move_cursor(&END);
    assert_eq!(cursor(&empty), (0, 0));
}

#[test]
fn vertical_moves_cap_the_column() {
    let mut editor = editor_of("long line\nab\n\nxyz\n", 80, 24);
    editor.move_cursor(&END);
    assert_eq!(cursor(&editor), (9, 0));
    editor.move_cursor(&DOWN);
    assert_eq!(cursor(&editor), (2, 1));
    editor.move_cursor(&DOWN);
    assert_eq!(cursor(&editor), (0, 2));
    editor.move_cursor(&DOWN);
    assert_eq!(cursor(&editor), (0, 3));
}

#[test]
fn vertical_moves_keep_to_key_boundaries() {
    let mut editor = editor_of("abcdef\na\tb\n\t\n", 80, 24);
    for _ in 0..3 {
        editor.move_cursor(&RIGHT);
    }
    assert_eq!(cursor(&editor), (3, 0));
    editor.move_cursor(&DOWN);
    assert_eq!(cursor(&editor), (1, 1));
    editor.move_cursor(&RIGHT);
    assert_eq!(cursor(&editor), (5, 1));
    editor.move_cursor(&DOWN);
    assert_eq!(cursor(&editor), (4, 2));
    editor.move_cursor(&UP);
    assert_eq!(cursor(&editor), (1, 1));
    editor.move_cursor(&UP);
    assert_eq!(cursor(&editor), (1, 0));
    editor.move_cursor(&END);
    editor.scroll_screen(2, Direction::Down);
    assert_eq!(cursor(&editor), (4, 2));
}

#[test]
fn vertical_moves_scroll_only_at_the_edge_of_the_viewport() {
    let mut editor = editor_of("0\n1\n2\n3\n4\n5\n", 80, 3);
    editor.move_cursor(&DOWN);
    editor.move_cursor(&DOWN);
    assert_eq!(cursor(&editor), (0, 2));
    assert_eq!(editor.row_offset(), 0);
    editor.move_cursor(&DOWN);
    assert_eq!(cursor(&editor), (0, 3));
    assert_eq!(editor.row_offset(), 1);
    editor.move_cursor(&DOWN);
    assert_eq!(editor.row_offset(), 2);
    editor.move_cursor(&UP);
    assert_eq!(cursor(&editor), (0, 3));
    assert_eq!(editor.row_offset(), 2);
    editor.move_cursor(&UP);
    assert_eq!(editor.row_offset(), 2);
    editor.move_cursor(&UP);
    assert_eq!(cursor(&editor), (0, 1));
    assert_eq!(editor.row_offset(), 1);
    editor.move_cursor(&UP);
    editor.move_cursor(&UP);
    assert_eq!(cursor(&editor), (0, 0));
    assert_eq!(editor.row_offset(), 0);
}

#[test]
fn home_and_end() {
    let mut editor = editor_of("0123456789abcdef\nshort\n", 10, 5);
    editor.move_cursor(&END);
    assert_eq!(cursor(&editor), (16, 0));
    assert_eq!(editor.col_offset(), 7);
    editor.move_cursor(&HOME);
    assert_eq!(cursor(&editor), (0, 0));
    assert_eq!(editor.col_offset(), 0);
    editor.move_cursor(&DOWN);
    editor.move_cursor(&END);
    assert_eq!(cursor(&editor), (5, 1));
    assert_eq!(editor.col_offset(), 0);
}

#[test]
fn horizontal_moves_scroll_the_viewport() {
    let mut editor = editor_of("0123456789abcdef\n", 10, 5);
    for _ in 0..9 {
        editor.move_cursor(&RIGHT);
    }
    assert_eq!(cursor(&editor), (9, 0));
    assert_eq!(editor.col_offset(), 0);
    editor.move_cursor(&RIGHT);
    assert_eq!(cursor(&editor), (10, 0));
    assert_eq!(editor.col_offset(), 1);
    editor.move_cursor(&END);
    assert_eq!(editor.col_offset(), 7);
    for _ in 0..9 {
        editor.move_cursor(&LEFT);
    }
    assert_eq!(cursor(&editor), (7, 0));
    assert_eq!(editor.col_offset(), 7);
    editor.move_cursor(&LEFT);
    assert_eq!(cursor(&editor), (6, 0));
    assert_eq!(editor.col_offset(), 6);
}

#[test]
fn moving_to_a_row_that_fits_resets_the_column_offset() {
    let mut editor = editor_of("0123456789abcdef\nshort\n", 10, 5);
    editor.move_cursor(&END);
    assert_eq!(editor.col_offset(), 7);
    editor.move_cursor(&DOWN);
    assert_eq!(cursor(&editor), (5, 1));
    assert_eq!(editor.col_offset(), 0);
}

#[test]
fn other_keys_move_nothing() {
    let mut editor = editor_of("abc\n", 80, 24);
    editor.move_cursor(&RIGHT);
    editor.move_cursor(&Key::Char('x'));
    editor.move_cursor(&Key::FunctionKey(1));
    assert_eq!(cursor(&editor), (1, 0));
    assert_eq!(lines(&editor), vec!["abc"]);
}

#[test]
fn scroll_screen_moves_row_by_row() {
    let mut editor = editor_of("0\n1\n2\n3\n4\n5\n", 80, 3);
    editor.scroll_screen(4, Direction::Down);
    assert_eq!(cursor(&editor), (0, 4));
    assert_eq!(editor.row_offset(), 2);
    editor.scroll_screen(100, Direction::Down);
    assert_eq!(cursor(&editor), (0, 6));
    editor.scroll_screen(2, Direction::Up);
    assert_eq!(cursor(&editor), (0, 4));
    editor.scroll_screen(3, Direction::Left);
    editor.scroll_screen(3, Direction::Right);
    editor.scroll_screen(0, Direction::Up);
    assert_eq!(cursor(&editor), (0, 4));
    editor.scroll_screen(100, Direction::Up);
    assert_eq!(cursor(&editor), (0, 0));
    assert_eq!(editor.row_offset(), 0);
}

#[test]
fn typing_into_an_empty_editor_opens_a_row() {
    let mut editor = Editor::new(80, 24);
    editor.insert(Key::Char('h'));
    editor.insert(Key::Char('i'));
    assert_eq!(lines(&editor), vec!["hi"]);
    assert_eq!(cursor(&editor), (2, 0));
    assert!(editor.is_dirty());
}

#[test]
fn typing_a_key_that_renders_to_nothing_changes_nothing() {
    let mut editor = Editor::new(80, 24);
    editor.insert(Key::ControlKey(ControlKey::Ctrl('q')));
    assert_eq!(editor.rows().len(), 0);
    assert!(!editor.is_dirty());
    editor.insert(Key::Char('a'));
    editor.insert(Key::ControlKey(ControlKey::Insert));
    assert_eq!(lines(&editor), vec!["a"]);
    assert_eq!(cursor(&editor), (1, 0));
}

#[test]
fn typing_in_the_middle_of_a_row() {
    let mut editor = editor_of("ac\n", 80, 24);
    editor.move_cursor(&RIGHT);
    editor.insert(Key::Char('b'));
    assert_eq!(lines(&editor), vec!["abc"]);
    assert_eq!(cursor(&editor), (2, 0));
    editor.insert(TAB);
    assert_eq!(lines(&editor), vec!["ab\tc"]);
    assert_eq!(cursor(&editor), (6, 0));
}

#[test]
fn carriage_return_splits_the_row() {
    let mut editor = editor_of("abcd\nnext\n", 80, 24);
    editor.move_cursor(&RIGHT);
    editor.move_cursor(&RIGHT);
    editor.insert(CR);
    assert_eq!(lines(&editor), vec!["ab", "cd", "next"]);
    assert_eq!(cursor(&editor), (0, 1));
    assert!(editor.is_dirty());
    assert_eq!(message_text(&editor), Some(String::new()));
}

#[test]
fn carriage_return_at_the_end_opens_an_empty_row() {
    let mut editor = editor_of("ab\n", 80, 24);
    editor.move_cursor(&END);
    editor.insert(CR);
    assert_eq!(lines(&editor), vec!["ab", ""]);
    assert_eq!(cursor(&editor), (0, 1));
}

#[test]
fn carriage_return_behind_the_last_row_adds_an_empty_row() {
    let mut editor = editor_of("ab\n", 80, 24);
    editor.move_cursor(&DOWN);
    assert_eq!(cursor(&editor), (0, 1));
    editor.insert(CR);
    assert_eq!(lines(&editor), vec!["ab", ""]);
    assert_eq!(cursor(&editor), (0, 2));
}

#[test]
fn backspace_removes_the_key_before_the_cursor() {
    let mut editor = editor_of("a\tb\n", 80, 24);
    editor.move_cursor(&END);
    editor.backspace();
    assert_eq!(lines(&editor), vec!["a\t"]);
    assert_eq!(cursor(&editor), (5, 0));
    editor.backspace();
    assert_eq!(lines(&editor), vec!["a"]);
    assert_eq!(cursor(&editor), (1, 0));
    assert!(editor.is_dirty());
}

#[test]
fn backspace_at_the_start_of_a_row_joins_it_to_the_row_above() {
    let mut editor = editor_of("ab\ncd\n", 80, 24);
    editor.move_cursor(&DOWN);
    editor.backspace();
    assert_eq!(lines(&editor), vec!["abcd"]);
    assert_eq!(cursor(&editor), (2, 0));
    assert!(editor.is_dirty());
}

#[test]
fn backspace_at_the_origin_changes_nothing() {
    let mut editor = editor_of("ab\n", 80, 24);
    editor.backspace();
    assert_eq!(lines(&editor), vec!["ab"]);
    assert_eq!(cursor(&editor), (0, 0));
    assert!(!editor.is_dirty());
}

#[test]
fn backspace_behind_the_last_row_only_moves() {
    let mut editor = editor_of("ab\n", 80, 24);
    editor.move_cursor(&DOWN);
    editor.backspace();
    assert_eq!(lines(&editor), vec!["ab"]);
    assert_eq!(cursor(&editor), (2, 0));
    assert!(!editor.is_dirty());
}

#[test]
fn backspace_takes_the_viewport_along() {
    let mut editor = editor_of("0123456789abcdef\n", 10, 5);
    editor.move_cursor(&END);
    assert_eq!(editor.col_offset(), 7);
    for _ in 0..10 {
        editor.backspace();
    }
    assert_eq!(cursor(&editor), (6, 0));
    assert_eq!(editor.col_offset(), 6);
}

#[test]
fn delete_removes_the_key_under_the_cursor() {
    let mut editor = editor_of("a\tb\n", 80, 24);
    editor.move_cursor(&RIGHT);
    editor.delete();
    assert_eq!(lines(&editor), vec!["ab"]);
    assert_eq!(cursor(&editor), (1, 0));
}

#[test]
fn delete_at_the_end_of_a_row_joins_the_next_row() {
    let mut editor = editor_of("ab\ncd\n", 80, 24);
    editor.move_cursor(&END);
    editor.delete();
    assert_eq!(lines(&editor), vec!["abcd"]);
    assert_eq!(cursor(&editor), (2, 0));
}

#[test]
fn typing_then_backspace_gives_the_row_back() {
    let mut editor = editor_of("a\tb\n", 80, 24);
    editor.move_cursor(&RIGHT);
    editor.insert(Key::Char('x'));
    assert_eq!(lines(&editor), vec!["ax\tb"]);
    editor.backspace();
    assert_eq!(lines(&editor), vec!["a\tb"]);
    assert_eq!(editor.rows()[0].rendered(), "a    b");
    assert_eq!(cursor(&editor), (1, 0));
}

fn ten_rows() -> String {
    let mut text = String::new();
    for i in 0..10 {
        if i == 5 {
            text.push_str("\there is the needle\n");
        } else {
            text.push_str("nothing to see\n");
        }
    }
    text
}

#[test]
fn search_goes_to_the_only_row_that_holds_the_keys() {
    let mut editor = editor_of(&ten_rows(), 80, 3);
    assert!(editor.search(&keys_of("needle")));
    assert_eq!(editor.cy(), 5);
    assert_eq!(editor.cx(), 4 + 12);
    assert!(editor.row_offset() <= 5 && 5 < editor.row_offset() + editor.max_row());
    assert_eq!(editor.row_offset(), 3);
    assert_eq!(editor.col_offset(), 0);
}

#[test]
fn search_scrolls_the_least() {
    let mut editor = editor_of(&ten_rows(), 10, 8);
    assert!(editor.search(&keys_of("needle")));
    assert_eq!(offsets(&editor), (7, 0));
    editor.scroll_screen(100, Direction::Down);
    assert_eq!(editor.row_offset(), 3);
    editor.scroll_screen(1, Direction::Up);
    assert!(editor.search(&keys_of("nothing")));
    assert_eq!(cursor(&editor), (0, 0));
    assert_eq!(offsets(&editor), (0, 0));
}

#[test]
fn search_finds_the_first_row_and_the_first_place() {
    let mut editor = editor_of("xx ab ab\nab\n", 80, 24);
    assert!(editor.search(&keys_of("ab")));
    assert_eq!(cursor(&editor), (3, 0));
}

#[test]
fn search_matches_keys_and_not_rendered_text() {
    let mut editor = editor_of("a    b\na\tb\n", 80, 24);
    assert!(editor.search(&[Key::Char('a'), TAB]));
    assert_eq!(cursor(&editor), (0, 1));
    assert!(editor.search(&[TAB, Key::Char('b')]));
    assert_eq!(cursor(&editor), (1, 1));
}

#[test]
fn search_without_a_match_changes_nothing() {
    let mut editor = editor_of(&ten_rows(), 80, 3);
    editor.move_cursor(&DOWN);
    editor.move_cursor(&RIGHT);
    assert!(!editor.search(&keys_of("haystack")));
    assert_eq!(cursor(&editor), (1, 1));
    assert_eq!(offsets(&editor), (0, 0));
    let mut empty = Editor::new(80, 24);
    assert!(!empty.search(&[]));
    assert!(!empty.search(&keys_of("a")));
}

#[test]
fn search_for_nothing_is_at_the_origin() {
    let mut editor = editor_of("ab\ncd\n", 80, 24);
    editor.move_cursor(&DOWN);
    assert!(editor.search(&[]));
    assert_eq!(cursor(&editor), (0, 0));
}

#[test]
fn find_shows_the_prompt_and_the_query() {
    let mut editor = editor_of(&ten_rows(), 80, 3);
    let mut session = editor.find_start();
    assert_eq!(SEARCH_PROMPT, "Search: ");
    assert_eq!(SEARCH_PROMPT_LEN, SEARCH_PROMPT.len());
    assert_eq!(message_text(&editor), Some("Search: ".to_string()));
    assert_eq!(session.cursor(), 8);
    assert!(!editor.find_key(&mut session, Ok(Key::Char('n'))));
    assert_eq!(message_text(&editor), Some("Search: n".to_string()));
    assert_eq!(session.cursor(), 9);
    assert_eq!(cursor(&editor), (0, 0));
    assert!(!editor.find_key(&mut session, Ok(Key::Char('e'))));
    assert_eq!(session.query(), &[Key::Char('n'), Key::Char('e')]);
    assert_eq!(cursor(&editor), (16, 5));
    assert_eq!(editor.row_offset(), 3);
    assert!(editor.find_key(&mut session, Ok(CR)));
    assert!(editor.message().is_none());
    assert_eq!(cursor(&editor), (16, 5));
    assert_eq!(lines(&editor).len(), 10);
    assert!(!editor.is_dirty());
}

#[test]
fn find_goes_back_on_escape() {
    let mut editor = editor_of(&ten_rows(), 80, 3);
    editor.move_cursor(&DOWN);
    editor.move_cursor(&RIGHT);
    let mut session = editor.find_start();
    for key in keys_of("needle") {
        assert!(!editor.find_key(&mut session, Ok(key)));
    }
    assert_eq!(cursor(&editor), (16, 5));
    assert!(editor.find_key(&mut session, Ok(ESCAPE)));
    assert_eq!(cursor(&editor), (1, 1));
    assert_eq!(offsets(&editor), (0, 0));
    assert!(editor.message().is_none());
}

#[test]
fn find_says_when_nothing_is_found() {
    let mut editor = editor_of(&ten_rows(), 80, 3);
    editor.move_cursor(&DOWN);
    let mut session = editor.find_start();
    assert!(!editor.find_key(&mut session, Ok(Key::Char('n'))));
    assert!(!editor.find_key(&mut session, Ok(Key::Char('e'))));
    assert_eq!(cursor(&editor), (16, 5));
    assert!(!editor.find_key(&mut session, Ok(Key::Char('x'))));
    assert_eq!(message_text(&editor), Some("Not Found: nex".to_string()));
    assert_eq!(cursor(&editor), (0, 1));
    assert_eq!(offsets(&editor), (0, 0));
    assert!(!editor.find_key(&mut session, Ok(BACKSPACE)));
    assert_eq!(session.query(), &[Key::Char('n'), Key::Char('e')]);
    assert_eq!(message_text(&editor), Some("Search: ne".to_string()));
    assert_eq!(cursor(&editor), (16, 5));
}

#[test]
fn find_prompt_cursor_stays_behind_the_prompt() {
    let mut editor = editor_of("abc\n", 80, 3);
    let mut session = editor.find_start();
    assert!(!editor.find_key(&mut session, Ok(LEFT)));
    assert_eq!(session.cursor(), 8);
    assert!(!editor.find_key(&mut session, Ok(BACKSPACE)));
    assert_eq!(session.cursor(), 8);
    assert_eq!(message_text(&editor), Some("Search: ".to_string()));
    assert!(!editor.find_key(&mut session, Ok(Key::Char('a'))));
    assert!(!editor.find_key(&mut session, Ok(Key::Char('b'))));
    assert_eq!(session.cursor(), 10);
    assert!(!editor.find_key(&mut session, Ok(LEFT)));
    assert_eq!(session.cursor(), 9);
    assert!(!editor.find_key(&mut session, Ok(RIGHT)));
    assert_eq!(session.cursor(), 9);
    assert!(!editor.find_key(&mut session, Ok(UP)));
    assert_eq!(session.query(), &[Key::Char('a'), Key::Char('b')]);
    assert_eq!(session.cursor(), 10);
}

#[test]
fn find_prompt_cursor_stops_at_the_edge_of_the_viewport() {
    let mut editor = editor_of("abc\n", 10, 3);
    let mut session = editor.find_start();
    for key in keys_of("abcd") {
        editor.find_key(&mut session, Ok(key));
    }
    assert_eq!(session.cursor(), 9);
    assert_eq!(session.query().len(), 4);
}

#[test]
fn find_ends_when_a_key_cannot_be_read() {
    let mut editor = editor_of(&ten_rows(), 80, 3);
    editor.move_cursor(&DOWN);
    let mut session = editor.find_start();
    for key in keys_of("needle") {
        editor.find_key(&mut session, Ok(key));
    }
    let error = Editor::get_key(Ok(None));
    assert!(editor.find_key(&mut session, error));
    assert_eq!(
        message_text(&editor),
        Some(
            "Error reading Key: Unexpected end of input while expecting ESC OR CR (got 0 bytes)"
                .to_string()
        )
    );
    assert_eq!(cursor(&editor), (0, 1));
    assert_eq!(offsets(&editor), (0, 0));
}

#[test]
fn get_key_takes_the_end_of_input_as_an_error() {
    assert!(matches!(Editor::get_key(Ok(Some(TAB))), Ok(Key::ControlKey(ControlKey::Tab))));
    match Editor::get_key(Ok(None)) {
        Err(EditorError::UnexpectedEof { expected, actual }) => {
            assert_eq!(expected, "ESC OR CR");
            assert_eq!(actual, 0);
        }
        other => panic!("{:?}", other),
    }
    assert!(matches!(
        Editor::get_key(Err(EditorError::invalid_sequence("x".to_string(), 1))),
        Err(EditorError::InvalidSequence { .. })
    ));
}

#[test]
fn handle_command_routes_keys() {
    let mut editor = editor_of("ab\ncd\n", 80, 24);
    assert_eq!(editor.handle_command(&RIGHT), Command::Done);
    assert_eq!(cursor(&editor), (1, 0));
    assert_eq!(editor.handle_command(&DOWN), Command::Done);
    assert_eq!(cursor(&editor), (1, 1));
    assert_eq!(editor.handle_command(&END), Command::Done);
    assert_eq!(cursor(&editor), (2, 1));
    assert_eq!(editor.handle_command(&HOME), Command::Done);
    assert_eq!(editor.handle_command(&UP), Command::Done);
    assert_eq!(editor.handle_command(&LEFT), Command::Done);
    assert_eq!(cursor(&editor), (0, 0));
    assert_eq!(editor.handle_command(&Key::FunctionKey(5)), Command::FunctionKey(5));
    assert_eq!(editor.handle_command(&ESCAPE), Command::Escape);
    assert_eq!(editor.handle_command(&Key::ControlKey(ControlKey::Ctrl('f'))), Command::Find);
    assert_eq!(editor.handle_command(&Key::ControlKey(ControlKey::Ctrl('s'))), Command::Save);
    assert_eq!(editor.handle_command(&Key::ControlKey(ControlKey::Ctrl('x'))), Command::Done);
    assert_eq!(lines(&editor), vec!["ab", "cd"]);
    assert!(!editor.is_dirty());
    assert_eq!(editor.handle_command(&Key::Char('x')), Command::Done);
    assert_eq!(editor.handle_command(&DELETE), Command::Done);
    assert_eq!(lines(&editor), vec!["xb", "cd"]);
    assert_eq!(editor.handle_command(&BACKSPACE), Command::Done);
    assert_eq!(lines(&editor), vec!["b", "cd"]);
    assert_eq!(editor.handle_command(&CR), Command::Done);
    assert_eq!(lines(&editor), vec!["", "b", "cd"]);
}

#[test]
fn page_keys_move_by_rows() {
    let mut editor = editor_of("0\n1\n2\n3\n4\n5\n", 80, 3);
    assert_eq!(editor.handle_command(&Key::ControlKey(ControlKey::PageDown)), Command::Done);
    assert_eq!(cursor(&editor), (0, 6));
    assert_eq!(editor.row_offset(), 4);
    assert_eq!(editor.handle_command(&Key::ControlKey(ControlKey::PageUp)), Command::Done);
    assert_eq!(cursor(&editor), (0, 0));
    assert_eq!(editor.row_offset(), 0);
}

#[test]
fn typing_text_through_commands() {
    let mut editor = Editor::new(80, 24);
    type_text(&mut editor, "fn main() {\r\t1\r}");
    assert_eq!(lines(&editor), vec!["fn main() {", "\t1", "}"]);
    assert_eq!(editor.contents(), "fn main() {\n\t1\n}\n");
    assert_eq!(cursor(&editor), (1, 2));
    assert!(editor.is_dirty());
    editor.save(SaveOutcome::Failed("disk full".to_string()));
    assert!(editor.is_dirty());
    assert_eq!(message_text(&editor), Some("Error saving file: disk full".to_string()));
    editor.save(SaveOutcome::NoFileName);
    assert!(editor.is_dirty());
    assert_eq!(message_text(&editor), Some("No file name".to_string()));
    editor.save(SaveOutcome::Written);
    assert!(!editor.is_dirty());
    assert_eq!(message_text(&editor), Some("File saved".to_string()));
}

#[test]
fn run_step_ends_on_quit_and_at_the_end_of_input() {
    let mut editor = editor_of("ab\n", 80, 24);
    assert!(matches!(
        editor.run_step(Ok(Some(Key::ControlKey(ControlKey::Ctrl('q'))))),
        RunStep::Quit
    ));
    assert!(matches!(editor.run_step(Ok(None)), RunStep::EndOfInput));
    assert!(matches!(
        editor.run_step(Ok(Some(Key::Char('x')))),
        RunStep::Handled(Command::Done)
    ));
    assert_eq!(lines(&editor), vec!["xab"]);
    assert!(matches!(
        editor.run_step(Ok(Some(Key::ControlKey(ControlKey::Ctrl('s'))))),
        RunStep::Handled(Command::Save)
    ));
    assert!(matches!(
        editor.run_step(Err(EditorError::invalid_sequence("x".to_string(), 1))),
        RunStep::Failed(EditorError::InvalidSequence { .. })
    ));
    assert_eq!(lines(&editor), vec!["xab"]);
}

#[test]
fn messages() {
    let mut editor = Editor::new(80, 24);
    editor.set_message("No file name".to_string());
    assert_eq!(message_text(&editor), Some("No file name".to_string()));
    editor.clear_message();
    assert!(editor.message().is_none());
    let message = Message::new("hello".to_string());
    assert_eq!(message.text(), "hello");
    assert!(message.is_shown());
    assert_eq!(MESSAGE_SECS, 5);
    assert!(Message::shown_after(0));
    assert!(Message::shown_after(4));
    assert!(!Message::shown_after(5));
    assert!(!Message::shown_after(600));
}

#[test]
fn viewport_without_any_place_does_not_break_the_cursor() {
    let mut editor = editor_of("abc\ndef\n", 0, 0);
    editor.move_cursor(&END);
    editor.move_cursor(&DOWN);
    editor.move_cursor(&RIGHT);
    assert!(editor.search(&keys_of("ef")));
    assert_eq!(cursor(&editor), (1, 1));
    assert!(editor.row_offset() <= editor.cy());
    let mut session = editor.find_start();
    editor.find_key(&mut session, Ok(Key::Char('a')));
    assert_eq!(session.cursor(), 8);
}
