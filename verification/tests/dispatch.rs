use jim::builtin_maps::{cmaps, find_char_position, imaps, nmaps};
use jim::cursor::{Cursor, Vec2};
use jim::jim::{Jim, KEY_HISTORY_LIMIT};
use jim::key::Key;
use jim::mapping::{to_mapping, Action, Command, Mapping};
use jim::mode::Mode;

fn editor_with(text: &str, x: usize, y: usize, index: usize) -> Jim {
    let mut jim = Jim::new().add_nmaps(nmaps()).add_imaps(imaps()).add_cmaps(cmaps());
    jim.properties.file.contents = text.chars().collect();
    jim.properties.cursor = Cursor::new(Vec2 { x, y }, index);
    jim
}

fn text_of(jim: &Jim) -> String {
    jim.properties.file.contents.iter().collect()
}

fn press(jim: &mut Jim, c: char) {
    jim.key_press(Key::Char(c));
}

#[test]
fn fresh_editor_starts_in_normal_mode() {
    let jim = Jim::new();
    assert_eq!(jim.properties.mode, Mode::Normal);
    assert_eq!(jim.properties.cursor.index, 0);
    assert!(!jim.properties.quitting);
    assert_eq!(jim.properties.save_requests, 0);
    assert!(jim.properties.buttons_pressed.is_empty());
    assert!(jim.properties.command_line.is_empty());
}

#[test]
fn h_mapping_moves_cursor_left() {
    // A mapping on the single key `h` fires in Normal mode and moves the
    // cursor one column left, clamped at column zero.
    let mut jim = editor_with("ab", 1, 0, 1);
    press(&mut jim, 'h');
    assert_eq!(jim.properties.cursor.xy_pos, Vec2 { x: 0, y: 0 });
    press(&mut jim, 'h');
    assert_eq!(jim.properties.cursor.xy_pos, Vec2 { x: 0, y: 0 });
}

#[test]
fn l_j_k_mappings_move_cursor() {
    let mut jim = editor_with("abc\ndef", 0, 0, 0);
    press(&mut jim, 'l');
    assert_eq!(jim.properties.cursor.xy_pos, Vec2 { x: 1, y: 0 });
    press(&mut jim, 'j');
    assert_eq!(jim.properties.cursor.xy_pos, Vec2 { x: 1, y: 1 });
    press(&mut jim, 'k');
    assert_eq!(jim.properties.cursor.xy_pos, Vec2 { x: 1, y: 0 });
}

#[test]
fn pending_find_jumps_one_past_the_argument() {
    // `f` is two-phase: it arms on `f`, takes the next key as its argument,
    // and jumps one column past that character's next occurrence.
    let mut jim = editor_with("abcXdef", 0, 0, 0);
    press(&mut jim, 'f');
    assert_eq!(jim.properties.cursor.xy_pos, Vec2 { x: 0, y: 0 });
    press(&mut jim, 'X');
    assert_eq!(jim.properties.cursor.xy_pos, Vec2 { x: 4, y: 0 });
    assert_eq!(jim.properties.mode, Mode::Normal);
}

#[test]
fn pending_find_without_occurrence_stays_put() {
    let mut jim = editor_with("abcdef", 0, 0, 0);
    press(&mut jim, 'f');
    press(&mut jim, 'X');
    assert_eq!(jim.properties.cursor.xy_pos, Vec2 { x: 0, y: 0 });
}

#[test]
fn pending_till_stops_short_of_the_argument() {
    // `t` moves up to the next occurrence: one column short of it.
    let mut jim = editor_with("abcXdef", 0, 0, 0);
    press(&mut jim, 't');
    press(&mut jim, 'X');
    assert_eq!(jim.properties.cursor.xy_pos, Vec2 { x: 2, y: 0 });
}

#[test]
fn pending_till_at_adjacent_occurrence_stays_put() {
    // The occurrence right after the cursor is already "reached": till has
    // nowhere to go.
    let mut jim = editor_with("aXbc", 0, 0, 0);
    press(&mut jim, 't');
    press(&mut jim, 'X');
    assert_eq!(jim.properties.cursor.xy_pos, Vec2 { x: 0, y: 0 });
}

#[test]
fn pending_argument_may_match_the_trigger_sequence() {
    // The argument key press is matched against no sequence, so an armed
    // `f` can take `f` itself as its argument and still read it from the
    // history tail.
    let mut jim = editor_with("abfc", 0, 0, 0);
    press(&mut jim, 'f');
    press(&mut jim, 'f');
    assert_eq!(jim.properties.cursor.xy_pos, Vec2 { x: 3, y: 0 });
    assert!(!jim.properties.cant_press_maps);
    assert!(jim.properties.buttons_pressed.is_empty());
}

#[test]
fn armed_mapping_locks_the_others_out() {
    // While `f` waits for its argument, a key that is itself bound — here
    // `h` — must act as the argument, not fire its own mapping.
    let mut jim = editor_with("xhy", 0, 0, 0);
    press(&mut jim, 'f');
    press(&mut jim, 'h');
    assert_eq!(jim.properties.cursor.xy_pos, Vec2 { x: 2, y: 0 });
    assert!(!jim.properties.cant_press_maps);
}

#[test]
fn i_enters_insert_mode_and_escape_steps_back() {
    let mut jim = editor_with("ab", 1, 0, 1);
    press(&mut jim, 'i');
    assert_eq!(jim.properties.mode, Mode::Insert);
    jim.key_press(Key::Esc);
    assert_eq!(jim.properties.mode, Mode::Normal);
    // Leaving Insert mode steps one column left.
    assert_eq!(jim.properties.cursor.xy_pos, Vec2 { x: 0, y: 0 });
}

#[test]
fn a_appends_after_the_cursor() {
    let mut jim = editor_with("ab", 0, 0, 0);
    press(&mut jim, 'a');
    assert_eq!(jim.properties.mode, Mode::Insert);
    assert_eq!(jim.properties.cursor.xy_pos, Vec2 { x: 1, y: 0 });
}

#[test]
fn shift_a_appends_at_line_end() {
    let mut jim = editor_with("ab", 0, 0, 0);
    press(&mut jim, 'A');
    assert_eq!(jim.properties.mode, Mode::Insert);
    assert_eq!(jim.properties.cursor.xy_pos, Vec2 { x: 2, y: 0 });
}

#[test]
fn typing_in_insert_mode_edits_the_buffer() {
    let mut jim = editor_with("", 0, 0, 0);
    press(&mut jim, 'i');
    press(&mut jim, 'h');
    press(&mut jim, 'i');
    jim.key_press(Key::Enter);
    press(&mut jim, '!');
    jim.key_press(Key::Backspace);
    jim.key_press(Key::Esc);
    assert_eq!(text_of(&jim), "hi\n");
    assert_eq!(jim.properties.mode, Mode::Normal);
    assert_eq!(jim.properties.cursor.xy_pos, Vec2 { x: 0, y: 1 });
}

#[test]
fn colon_enters_command_mode() {
    let mut jim = editor_with("ab", 0, 0, 0);
    press(&mut jim, ':');
    assert_eq!(jim.properties.mode, Mode::Command);
    assert!(jim.properties.command_line.is_empty());
}

#[test]
fn w_command_requests_one_save() {
    // Typing `w` then Enter in Command mode invokes save exactly once and
    // returns to Normal mode with an empty command line.
    let mut jim = editor_with("ab", 0, 0, 0);
    press(&mut jim, ':');
    press(&mut jim, 'w');
    jim.key_press(Key::Enter);
    assert_eq!(jim.properties.save_requests, 1);
    assert_eq!(jim.properties.mode, Mode::Normal);
    assert!(jim.properties.command_line.is_empty());
    assert!(!jim.properties.quitting);
}

#[test]
fn quit_commands_set_the_quit_flag() {
    for name in ["q", "quit"] {
        let mut jim = editor_with("ab", 0, 0, 0);
        press(&mut jim, ':');
        for c in name.chars() {
            press(&mut jim, c);
        }
        jim.key_press(Key::Enter);
        assert!(jim.properties.quitting);
        assert_eq!(jim.properties.save_requests, 0);
    }
}

#[test]
fn wq_saves_and_quits() {
    let mut jim = editor_with("ab", 0, 0, 0);
    press(&mut jim, ':');
    press(&mut jim, 'w');
    press(&mut jim, 'q');
    jim.key_press(Key::Enter);
    assert!(jim.properties.quitting);
    assert_eq!(jim.properties.save_requests, 1);
}

#[test]
fn unbound_command_is_silently_ignored() {
    let mut jim = editor_with("ab", 0, 0, 0);
    press(&mut jim, ':');
    press(&mut jim, 'z');
    press(&mut jim, 'z');
    jim.key_press(Key::Enter);
    assert_eq!(jim.properties.mode, Mode::Normal);
    assert!(jim.properties.command_line.is_empty());
    assert!(!jim.properties.quitting);
    assert_eq!(jim.properties.save_requests, 0);
}

#[test]
fn escape_discards_the_command_line() {
    let mut jim = editor_with("ab", 0, 0, 0);
    press(&mut jim, ':');
    press(&mut jim, 'q');
    jim.key_press(Key::Esc);
    assert_eq!(jim.properties.mode, Mode::Normal);
    assert!(jim.properties.command_line.is_empty());
    assert!(!jim.properties.quitting);
}

#[test]
fn command_backspace_shortens_the_line() {
    let mut jim = editor_with("ab", 0, 0, 0);
    press(&mut jim, ':');
    press(&mut jim, 'w');
    press(&mut jim, 'x');
    jim.key_press(Key::Backspace);
    jim.key_press(Key::Enter);
    assert_eq!(jim.properties.save_requests, 1);
}

#[test]
fn window_match_accepts_older_history_too() {
    // The sliding-window test matches anywhere in the retained history,
    // not only at its end.
    let mut jim = Jim::new();
    jim.properties.buttons_pressed = vec![Key::Char('h'), Key::Char('x')];
    let fired = jim.properties.use_mapping(&vec![Key::Char('h')]);
    assert!(fired);
    assert!(jim.properties.buttons_pressed.is_empty());
}

#[test]
fn window_match_misses_an_absent_sequence() {
    let mut jim = Jim::new();
    jim.properties.buttons_pressed = vec![Key::Char('x'), Key::Char('y')];
    let fired = jim.properties.use_mapping(&vec![Key::Char('h')]);
    assert!(!fired);
    assert_eq!(jim.properties.buttons_pressed.len(), 2);
}

#[test]
fn key_history_is_bounded() {
    let mut jim = editor_with("ab", 0, 0, 0);
    for _ in 0..(KEY_HISTORY_LIMIT + 8) {
        press(&mut jim, 'z');
    }
    assert_eq!(jim.properties.buttons_pressed.len(), KEY_HISTORY_LIMIT);
}

#[test]
fn to_mapping_parses_plain_characters() {
    let m = to_mapping(&"hj".chars().collect(), Action::MoveLeft, false);
    assert_eq!(m.buttons, vec![Key::Char('h'), Key::Char('j')]);
    assert!(!m.wait_for_next_press);
    assert!(!m.already_pressed);
}

#[test]
fn to_mapping_parses_named_escapes() {
    let m = to_mapping(&"a<Esc>b<lCr><rCr>".chars().collect(), Action::Quit, true);
    assert_eq!(
        m.buttons,
        vec![
            Key::Char('a'),
            Key::Esc,
            Key::Char('b'),
            Key::LeftControl,
            Key::RightControl,
        ]
    );
    assert!(m.wait_for_next_press);
}

#[test]
fn to_mapping_drops_unknown_and_unclosed_escapes() {
    let m = to_mapping(&"a<foo>b<c".chars().collect(), Action::Quit, false);
    assert_eq!(m.buttons, vec![Key::Char('a'), Key::Char('b')]);
}

#[test]
fn multi_key_mapping_fires_on_its_sequence() {
    let mut jim = Jim::new().add_nmaps(vec![to_mapping(
        &"gg".chars().collect(),
        Action::MoveRight,
        false,
    )]);
    jim.properties.file.contents = "abc".chars().collect();
    press(&mut jim, 'g');
    assert_eq!(jim.properties.cursor.xy_pos, Vec2 { x: 0, y: 0 });
    press(&mut jim, 'g');
    assert_eq!(jim.properties.cursor.xy_pos, Vec2 { x: 1, y: 0 });
    // The history is cleared after a fire, so a third `g` alone does nothing.
    press(&mut jim, 'g');
    assert_eq!(jim.properties.cursor.xy_pos, Vec2 { x: 1, y: 0 });
}

#[test]
fn find_at_line_end_does_nothing() {
    // At the last column nothing lies after the cursor, so the argument
    // character cannot be found.
    let mut jim = editor_with("ab", 1, 0, 1);
    press(&mut jim, 'f');
    press(&mut jim, 'b');
    assert_eq!(jim.properties.cursor.xy_pos, Vec2 { x: 1, y: 0 });
}

#[test]
fn escape_at_column_zero_stays_at_column_zero() {
    let mut jim = editor_with("ab", 0, 0, 0);
    press(&mut jim, 'i');
    jim.key_press(Key::Esc);
    assert_eq!(jim.properties.mode, Mode::Normal);
    assert_eq!(jim.properties.cursor.xy_pos, Vec2 { x: 0, y: 0 });
}

#[test]
fn mapping_new_starts_unarmed() {
    let m = Mapping::new(vec![Key::Char('q')], Action::Quit, true);
    assert_eq!(m.buttons, vec![Key::Char('q')]);
    assert!(m.wait_for_next_press);
    assert!(!m.already_pressed);
}

#[test]
fn command_new_keeps_name_and_action() {
    let c = Command::new(vec!['w'], Action::Save);
    assert_eq!(c.name, vec!['w']);
    assert_eq!(c.action, Action::Save);
}

#[test]
fn find_char_position_reports_first_occurrence() {
    let chars: Vec<char> = "abcabc".chars().collect();
    assert_eq!(find_char_position(&chars, 'b'), Some(1));
    assert_eq!(find_char_position(&chars, 'z'), None);
}

#[test]
fn current_line_reports_the_cursor_line() {
    let jim = editor_with("ab\ncde", 1, 1, 4);
    assert_eq!(jim.properties.current_line(), vec!['c', 'd', 'e']);
}

#[test]
fn builtin_tables_have_the_documented_shape() {
    assert_eq!(nmaps().len(), 10);
    assert!(imaps().is_empty());
    let commands = cmaps();
    assert_eq!(commands.len(), 5);
    let names: Vec<String> = commands.iter().map(|c| c.name.iter().collect()).collect();
    assert_eq!(names, vec!["q", "quit", "w", "write", "wq"]);
}
