use rano::{Direction, Editor};

fn chars(s: &str) -> Vec<char> {
    s.chars().collect()
}

fn editor(lines: &[&str], x: usize, y: usize) -> Editor {
    Editor {
        filename: String::from("test.txt"),
        content: lines.iter().map(|l| chars(l)).collect(),
        cursor_x: x,
        cursor_y: y,
        scroll_y: 0,
        modified: false,
        search_query: None,
    }
}

fn lines(e: &Editor) -> Vec<String> {
    e.content.iter().map(|l| l.iter().collect()).collect()
}

#[test]
fn typing_into_a_new_file() {
    let mut e = Editor::open(String::from("greeting.txt"), &Vec::new());
    e.insert_char('h');
    e.insert_char('i');
    assert_eq!(lines(&e), vec!["hi"]);
    assert_eq!((e.cursor_y, e.cursor_x), (0, 2));
    assert!(e.modified);
    assert_eq!(e.filename, "greeting.txt");
}

#[test]
fn backspace_at_line_start_joins_lines() {
    let mut e = editor(&["hello", "world"], 0, 1);
    e.delete_char();
    assert_eq!(lines(&e), vec!["helloworld"]);
    assert_eq!((e.cursor_y, e.cursor_x), (0, 5));
    assert!(e.modified);
}

#[test]
fn enter_splits_the_line() {
    let mut e = editor(&["abc"], 1, 0);
    e.insert_newline();
    assert_eq!(lines(&e), vec!["a", "bc"]);
    assert_eq!((e.cursor_y, e.cursor_x), (1, 0));
}

#[test]
fn search_finds_last_line() {
    let mut e = editor(&["foo", "bar", "baz"], 0, 0);
    e.search(chars("baz"));
    assert_eq!((e.cursor_y, e.cursor_x), (2, 0));
    assert_eq!(e.search_query, Some(chars("baz")));
}

#[test]
fn search_goes_to_first_occurrence_of_first_line() {
    let mut e = editor(&["xyz", "an apple a day", "apple"], 1, 2);
    e.search(chars("a"));
    assert_eq!((e.cursor_y, e.cursor_x), (1, 0));
    e.search(chars("ppl"));
    assert_eq!((e.cursor_y, e.cursor_x), (1, 4));
    e.search(chars("apple"));
    assert_eq!((e.cursor_y, e.cursor_x), (1, 3));
}

#[test]
fn search_absent_keeps_cursor() {
    let mut e = editor(&["foo", "bar"], 2, 1);
    e.search(chars("qux"));
    assert_eq!((e.cursor_y, e.cursor_x), (1, 2));
    assert_eq!(e.search_query, Some(chars("qux")));
    assert!(!e.modified);
}

#[test]
fn search_term_in_one_line_only() {
    let mut e = editor(&["one", "two", "three"], 0, 0);
    e.search(chars("re"));
    assert_eq!((e.cursor_y, e.cursor_x), (2, 2));
}

#[test]
fn delete_undoes_insert() {
    let mut e = editor(&["abc", "de"], 1, 0);
    e.insert_char('Z');
    assert_eq!(lines(&e), vec!["aZbc", "de"]);
    e.delete_char();
    assert_eq!(lines(&e), vec!["abc", "de"]);
    assert_eq!((e.cursor_y, e.cursor_x), (0, 1));
}

#[test]
fn delete_at_origin_does_nothing() {
    let mut e = editor(&["abc"], 0, 0);
    e.delete_char();
    assert_eq!(lines(&e), vec!["abc"]);
    assert_eq!((e.cursor_y, e.cursor_x), (0, 0));
    assert!(!e.modified);
}

#[test]
fn delete_removes_previous_char() {
    let mut e = editor(&["abc"], 3, 0);
    e.delete_char();
    assert_eq!(lines(&e), vec!["ab"]);
    assert_eq!(e.cursor_x, 2);
}

#[test]
fn delete_past_last_line_moves_up() {
    let mut e = editor(&[], 0, 0);
    e.insert_newline();
    assert_eq!(lines(&e), vec![""]);
    assert_eq!((e.cursor_y, e.cursor_x), (1, 0));
    e.delete_char();
    assert_eq!(lines(&e), vec![""]);
    assert_eq!((e.cursor_y, e.cursor_x), (0, 0));
}

#[test]
fn join_undoes_split() {
    let mut e = editor(&["one", "hello", "two"], 2, 1);
    e.insert_newline();
    assert_eq!(lines(&e), vec!["one", "he", "llo", "two"]);
    e.delete_char();
    assert_eq!(lines(&e), vec!["one", "hello", "two"]);
    assert_eq!((e.cursor_y, e.cursor_x), (1, 2));
}

#[test]
fn split_at_line_end_adds_empty_line() {
    let mut e = editor(&["ab"], 2, 0);
    e.insert_newline();
    assert_eq!(lines(&e), vec!["ab", ""]);
    assert_eq!((e.cursor_y, e.cursor_x), (1, 0));
}

#[test]
fn moves_stay_within_document() {
    let dirs = [Direction::Up, Direction::Down, Direction::Left, Direction::Right];
    let mut e = editor(&["abcd", "", "xy"], 0, 0);
    for step in 0..40 {
        e.move_cursor(dirs[(step * 7 + step / 3) % 4], 2);
        assert!(e.cursor_y < e.content.len());
        assert!(e.cursor_x <= e.content[e.cursor_y].len());
        assert!(e.scroll_y <= e.cursor_y && e.cursor_y < e.scroll_y + 2);
    }
}

#[test]
fn move_up_clamps_column_to_new_line() {
    let mut e = editor(&["ab", "abcdef"], 5, 1);
    e.move_cursor(Direction::Up, 10);
    assert_eq!((e.cursor_y, e.cursor_x), (0, 2));
}

#[test]
fn move_down_scrolls_by_one() {
    let mut e = editor(&["a", "b", "c"], 0, 1);
    e.move_cursor(Direction::Down, 2);
    assert_eq!((e.cursor_y, e.scroll_y), (2, 1));
    e.move_cursor(Direction::Down, 2);
    assert_eq!((e.cursor_y, e.scroll_y), (2, 1));
    e.move_cursor(Direction::Up, 2);
    assert_eq!((e.cursor_y, e.scroll_y), (1, 1));
    e.move_cursor(Direction::Up, 2);
    assert_eq!((e.cursor_y, e.scroll_y), (0, 0));
}

#[test]
fn left_and_right_wrap_between_lines() {
    let mut e = editor(&["abc", "de"], 0, 1);
    e.move_cursor(Direction::Left, 10);
    assert_eq!((e.cursor_y, e.cursor_x), (0, 3));
    e.move_cursor(Direction::Right, 10);
    assert_eq!((e.cursor_y, e.cursor_x), (1, 0));
    e.move_cursor(Direction::Right, 10);
    e.move_cursor(Direction::Right, 10);
    e.move_cursor(Direction::Right, 10);
    assert_eq!((e.cursor_y, e.cursor_x), (1, 2));
}

#[test]
fn moves_in_empty_document_do_nothing() {
    let mut e = editor(&[], 0, 0);
    for d in [Direction::Up, Direction::Down, Direction::Left, Direction::Right] {
        e.move_cursor(d, 5);
        assert_eq!((e.cursor_y, e.cursor_x, e.scroll_y), (0, 0, 0));
    }
}

#[test]
fn current_line_on_and_past_document() {
    let e = editor(&["abc"], 1, 0);
    assert_eq!(e.current_line(), Some(&chars("abc")));
    let e = editor(&["abc"], 0, 1);
    assert_eq!(e.current_line(), None);
}

#[test]
fn save_renames_and_clears_modified() {
    let mut e = editor(&["a", "bc"], 0, 0);
    e.insert_char('x');
    let text = e.begin_save(Some(String::from("other.txt")));
    assert_eq!(text, chars("xa\nbc\n"));
    assert_eq!(e.filename, "other.txt");
    assert!(e.modified);
    e.finish_save(false);
    assert!(e.modified);
    e.finish_save(true);
    assert!(!e.modified);
    let text = e.begin_save(None);
    assert_eq!(text, chars("xa\nbc\n"));
    assert_eq!(e.filename, "other.txt");
}

#[test]
fn typed_text_survives_save_and_load() {
    let mut e = Editor::open(String::from("notes.txt"), &Vec::new());
    for c in "hello world".chars() {
        e.insert_char(c);
    }
    let text = e.begin_save(None);
    assert_eq!(text, chars("hello world\n"));
    let back = Editor::open(String::from("notes.txt"), &text);
    assert_eq!(lines(&back), vec!["hello world"]);
    assert_eq!((back.cursor_y, back.cursor_x, back.scroll_y), (0, 0, 0));
    assert!(!back.modified);
}

#[test]
fn empty_document_saves_as_empty_text() {
    let mut e = Editor::open(String::from("empty.txt"), &Vec::new());
    assert!(e.begin_save(None).is_empty());
    assert!(e.content.is_empty());
}
