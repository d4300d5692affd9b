use jim::cursor::{Cursor, Vec2};
use jim::file::{EditError, JimFile};

fn buffer(text: &str) -> JimFile {
    JimFile::new(String::from("scratch"), text.chars().collect())
}

fn text_of(file: &JimFile) -> String {
    file.contents.iter().collect()
}

fn cursor_at(x: usize, y: usize, index: usize) -> Cursor {
    Cursor::new(Vec2 { x, y }, index)
}

#[test]
fn new_buffer_holds_path_and_contents() {
    let file = buffer("ab\ncd");
    assert_eq!(file.path, "scratch");
    assert_eq!(text_of(&file), "ab\ncd");
}

#[test]
fn insert_and_remove_in_bounds() {
    let mut file = buffer("ac");
    assert_eq!(file.insert(1, 'b'), Ok(()));
    assert_eq!(text_of(&file), "abc");
    assert_eq!(file.remove(0), Ok('a'));
    assert_eq!(text_of(&file), "bc");
}

#[test]
fn insert_past_end_is_out_of_bounds() {
    let mut file = buffer("ab");
    assert_eq!(file.insert(3, 'x'), Err(EditError::OutOfBounds));
    assert_eq!(text_of(&file), "ab");
}

#[test]
fn remove_at_end_is_out_of_bounds() {
    let mut file = buffer("ab");
    assert_eq!(file.remove(2), Err(EditError::OutOfBounds));
    assert_eq!(text_of(&file), "ab");
}

#[test]
fn line_length_counts_each_line() {
    let file = buffer("ab\ncde");
    assert_eq!(file.line_length(0), Some(2));
    assert_eq!(file.line_length(1), Some(3));
    assert_eq!(file.line_length(2), None);
}

#[test]
fn trailing_newline_makes_an_empty_last_line() {
    // The line count is the newline count plus one, so a trailing newline
    // opens one empty line at the end.
    let file = buffer("ab\n");
    assert_eq!(file.line_length(0), Some(2));
    assert_eq!(file.line_length(1), Some(0));
    assert_eq!(file.line_length(2), None);
}

#[test]
fn empty_buffer_has_one_empty_line() {
    let file = buffer("");
    assert_eq!(file.line_length(0), Some(0));
    assert_eq!(file.line_length(1), None);
}

#[test]
fn write_char_advances_column_and_index() {
    let mut file = buffer("ac");
    let mut cursor = cursor_at(1, 0, 1);
    cursor.write_char_to('b', &mut file);
    assert_eq!(text_of(&file), "abc");
    assert_eq!(cursor.xy_pos, Vec2 { x: 2, y: 0 });
    assert_eq!(cursor.index, 2);
}

#[test]
fn write_newline_starts_next_line() {
    let mut file = buffer("abcd");
    let mut cursor = cursor_at(2, 0, 2);
    cursor.write_char_to('\n', &mut file);
    assert_eq!(text_of(&file), "ab\ncd");
    assert_eq!(cursor.xy_pos, Vec2 { x: 0, y: 1 });
    assert_eq!(cursor.index, 3);
}

#[test]
fn write_then_backspace_restores_state() {
    // Round trip: writing any character and backspacing restores both the
    // buffer and the cursor, for a plain character as for a newline.
    for c in ['x', '\n'] {
        let mut file = buffer("ab\ncd");
        let mut cursor = cursor_at(1, 1, 4);
        cursor.write_char_to(c, &mut file);
        cursor.backspace(&mut file);
        assert_eq!(text_of(&file), "ab\ncd");
        assert_eq!(cursor.xy_pos, Vec2 { x: 1, y: 1 });
        assert_eq!(cursor.index, 4);
    }
}

#[test]
fn backspace_at_start_is_a_noop() {
    let mut file = buffer("ab");
    let mut cursor = cursor_at(0, 0, 0);
    cursor.backspace(&mut file);
    assert_eq!(text_of(&file), "ab");
    assert_eq!(cursor.index, 0);
}

#[test]
fn backspace_across_newline_merges_lines() {
    // Buffer "ab\ncd" with the cursor at the start of the second line:
    // backspace removes the newline and lands at column 2 of line 0.
    let mut file = buffer("ab\ncd");
    let mut cursor = cursor_at(0, 1, 3);
    cursor.backspace(&mut file);
    assert_eq!(text_of(&file), "abcd");
    assert_eq!(cursor.xy_pos, Vec2 { x: 2, y: 0 });
    assert_eq!(cursor.index, 2);
}

#[test]
fn backspace_removes_previous_character() {
    let mut file = buffer("abc");
    let mut cursor = cursor_at(2, 0, 2);
    cursor.backspace(&mut file);
    assert_eq!(text_of(&file), "ac");
    assert_eq!(cursor.xy_pos, Vec2 { x: 1, y: 0 });
    assert_eq!(cursor.index, 1);
}

#[test]
fn move_left_at_column_zero_is_a_noop() {
    let file = buffer("ab\ncd");
    let mut cursor = cursor_at(0, 1, 3);
    cursor.move_left(&file);
    assert_eq!(cursor.xy_pos, Vec2 { x: 0, y: 1 });
    assert_eq!(cursor.index, 3);
}

#[test]
fn move_right_at_last_column_is_a_noop() {
    let file = buffer("ab");
    let mut cursor = cursor_at(1, 0, 1);
    cursor.move_right(&file);
    assert_eq!(cursor.xy_pos, Vec2 { x: 1, y: 0 });
    assert_eq!(cursor.index, 1);
}

#[test]
fn move_up_on_first_line_is_a_noop() {
    let file = buffer("ab\ncd");
    let mut cursor = cursor_at(1, 0, 1);
    cursor.move_up(&file);
    assert_eq!(cursor.xy_pos, Vec2 { x: 1, y: 0 });
    assert_eq!(cursor.index, 1);
}

#[test]
fn move_down_on_last_line_is_a_noop() {
    let file = buffer("ab\ncd");
    let mut cursor = cursor_at(1, 1, 4);
    cursor.move_down(&file);
    assert_eq!(cursor.xy_pos, Vec2 { x: 1, y: 1 });
    assert_eq!(cursor.index, 4);
}

#[test]
fn move_left_and_right_stay_on_the_line() {
    let file = buffer("abc\ndef");
    let mut cursor = cursor_at(0, 1, 4);
    cursor.move_right(&file);
    cursor.move_right(&file);
    // Clamped at the last column.
    cursor.move_right(&file);
    assert_eq!(cursor.xy_pos, Vec2 { x: 2, y: 1 });
    assert_eq!(cursor.index, 6);
    cursor.move_left(&file);
    assert_eq!(cursor.xy_pos, Vec2 { x: 1, y: 1 });
    assert_eq!(cursor.index, 5);
}

#[test]
fn move_down_reclamps_column_to_shorter_line() {
    let file = buffer("abcd\nx\nefgh");
    let mut cursor = cursor_at(3, 0, 3);
    cursor.move_down(&file);
    assert_eq!(cursor.xy_pos, Vec2 { x: 1, y: 1 });
    assert_eq!(cursor.index, 6);
    cursor.move_down(&file);
    assert_eq!(cursor.xy_pos, Vec2 { x: 1, y: 2 });
    assert_eq!(cursor.index, 8);
}

#[test]
fn move_up_reclamps_column_to_shorter_line() {
    let file = buffer("x\nabcd");
    let mut cursor = cursor_at(3, 1, 5);
    cursor.move_up(&file);
    assert_eq!(cursor.xy_pos, Vec2 { x: 1, y: 0 });
    assert_eq!(cursor.index, 1);
}

#[test]
fn force_move_right_reaches_append_position() {
    let file = buffer("ab");
    let mut cursor = cursor_at(1, 0, 1);
    cursor.force_move_right(&file);
    assert_eq!(cursor.xy_pos, Vec2 { x: 2, y: 0 });
    assert_eq!(cursor.index, 2);
    // One past the last character is as far as it goes.
    cursor.force_move_right(&file);
    assert_eq!(cursor.xy_pos, Vec2 { x: 2, y: 0 });
    assert_eq!(cursor.index, 2);
}

#[test]
fn force_move_right_refuses_to_cross_a_newline() {
    let file = buffer("ab\ncd");
    let mut cursor = cursor_at(2, 0, 2);
    cursor.force_move_right(&file);
    assert_eq!(cursor.xy_pos, Vec2 { x: 2, y: 0 });
    assert_eq!(cursor.index, 2);
}

#[test]
fn move_full_left_returns_to_column_zero() {
    let mut cursor = cursor_at(2, 1, 5);
    cursor.move_full_left();
    assert_eq!(cursor.xy_pos, Vec2 { x: 0, y: 1 });
    assert_eq!(cursor.index, 3);
}

#[test]
fn move_full_right_reaches_line_end() {
    let file = buffer("abc\nde");
    let mut cursor = cursor_at(1, 0, 1);
    cursor.move_full_right(&file);
    assert_eq!(cursor.xy_pos, Vec2 { x: 3, y: 0 });
    assert_eq!(cursor.index, 3);
}

#[test]
fn write_to_writes_every_character() {
    let mut file = buffer("");
    let mut cursor = Cursor::default();
    cursor.write_to(&"hi\nyo".chars().collect(), &mut file);
    assert_eq!(text_of(&file), "hi\nyo");
    assert_eq!(cursor.index, 5);
    assert_eq!(cursor.xy_pos, Vec2 { x: 2, y: 1 });
}

#[test]
fn get_position_reports_the_stored_position() {
    let file = buffer("ab\ncd");
    let cursor = cursor_at(1, 1, 4);
    let pos = cursor.get_position(&file);
    assert_eq!(pos, Vec2 { x: 1, y: 1 });
}

#[test]
fn current_line_length_follows_the_cursor() {
    let file = buffer("ab\ncde");
    let cursor = cursor_at(0, 1, 3);
    assert_eq!(cursor.current_line_length(&file), Some(3));
}

#[test]
fn recomputing_index_from_line_and_column_agrees() {
    // The cursor's stored offset always equals the sum of the lengths of
    // the lines above it, one newline each, plus its column.
    let file = buffer("ab\ncde\nf");
    let mut cursor = Cursor::default();
    let ops: Vec<fn(&mut Cursor, &JimFile)> = vec![
        |c, f| c.move_down(f),
        |c, f| c.move_right(f),
        |c, f| c.move_down(f),
        |c, f| c.move_up(f),
        |c, f| c.move_full_right(f),
    ];
    for op in ops {
        op(&mut cursor, &file);
        let mut recomputed = cursor.xy_pos.x;
        for line in 0..cursor.xy_pos.y {
            recomputed += file.line_length(line).unwrap() + 1;
        }
        assert_eq!(cursor.index, recomputed);
    }
}
