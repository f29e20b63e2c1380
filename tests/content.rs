use gemini_chat::content::{
    append_content, convert_negative_index, insert_content, replace_content, select_lines,
    split_lines, EditError, ReadError,
};

#[test]
fn last_line_by_negative_range() {
    assert_eq!(select_lines("one\ntwo\nthree\n", -1, -1).ok().unwrap(), "three");
    assert_eq!(select_lines("only", -1, -1).ok().unwrap(), "only");
}

#[test]
fn start_past_end_names_range() {
    match select_lines("a\nb", 5, -1) {
        Err(e) => {
            assert!(matches!(e, ReadError::StartOutOfRange { start_line: 5, line_count: 2 }));
            assert_eq!(e.message(), "Starting line 5 is outside of the allowed range (1 to 2)");
        }
        Ok(_) => panic!("expected an error"),
    }
}

#[test]
fn line_range_defaults_and_clamps() {
    let text = "l1\nl2\nl3\nl4";
    assert_eq!(select_lines(text, 1, -1).ok().unwrap(), text);
    assert_eq!(select_lines(text, 2, 3).ok().unwrap(), "l2\nl3");
    assert_eq!(select_lines(text, 3, 1).ok().unwrap(), "l3");
    assert_eq!(select_lines(text, 4, 2).ok().unwrap(), "l4");
    assert_eq!(select_lines(text, 3, 100).ok().unwrap(), "l3\nl4");
    assert!(select_lines(text, 0, 0).is_err());
    assert!(select_lines(text, -5, -1).is_err());
    assert_eq!(select_lines(text, -4, 0).ok().unwrap(), text);
    assert_eq!(select_lines(text, -2, -1).ok().unwrap(), "l3\nl4");
    assert!(select_lines("", 1, -1).is_err());
}

#[test]
fn lines_like_str_lines() {
    assert_eq!(split_lines("a\r\nb\n\nc\n"), vec!["a", "b", "", "c"]);
    assert_eq!(split_lines(""), Vec::<String>::new());
    assert_eq!(split_lines("x\r"), vec!["x\r"]);
}

#[test]
fn negative_index_conversion() {
    assert_eq!(convert_negative_index(10, -1), 9);
    assert_eq!(convert_negative_index(10, 0), 10);
    assert_eq!(convert_negative_index(3, -7), 0);
    assert_eq!(convert_negative_index(10, 4), 3);
}

#[test]
fn replace_world_with_mars() {
    assert_eq!(replace_content("hello world", "world", "mars").ok().unwrap(), "hello mars");
    assert_eq!(replace_content("aaa", "aa", "b").ok().unwrap(), "ba");
    assert_eq!(replace_content("ab", "", "-").ok().unwrap(), "-a-b-");
}

#[test]
fn replace_absent_string_fails() {
    match replace_content("hello world", "venus", "mars") {
        Err(e) => {
            assert!(matches!(&e, EditError::StringNotFound(s) if s == "venus"));
            assert_eq!(e.message(), "String not found in file: venus");
        }
        Ok(_) => panic!("expected an error"),
    }
}

#[test]
fn append_adds_single_newlines() {
    assert_eq!(append_content("abc", "def"), "abc\ndef\n");
    assert_eq!(append_content("abc", "def\n"), "abc\ndef\n");
    assert_eq!(append_content("abc\n", "def"), "abc\ndef\n");
    assert_eq!(append_content("", "def"), "def\n");
    assert_eq!(append_content("abc", ""), "abc\n\n");
}

#[test]
fn insert_after_line() {
    assert_eq!(insert_content("a\nb\nc", 1, "X").ok().unwrap(), "a\nX\nb\nc");
    assert_eq!(insert_content("a\nb\nc", 0, "X").ok().unwrap(), "X\na\nb\nc");
    assert_eq!(insert_content("a\nb\nc", 3, "X").ok().unwrap(), "a\nb\nc\nX");
    match insert_content("a\nb", 3, "X") {
        Err(e) => assert_eq!(e.message(), "Line number 3 is out of range (file has 2 lines)"),
        Ok(_) => panic!("expected an error"),
    }
}
