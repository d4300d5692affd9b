use vstd::prelude::*;

use crate::cursor::Cursor;
use crate::jim::JimProperties;
use crate::key::Key;
use crate::mapping::{to_mapping, Action, Command, Mapping};
use crate::mode::Mode;
use crate::text::{find_from, line_at};

verus! {

/// The distance from the column just after the cursor to the next
/// occurrence of the character named by the last key in the history: the
/// occurrence at column `j`, strictly after the cursor, is at distance
/// `j - column - 1`. `None` where the history is empty, its last key is not
/// a printable character, or the character does not occur later in the
/// line.
pub open spec fn dist_spec(s: Seq<char>, c: Cursor, hist: Seq<Key>) -> Option<int> {
    if hist.len() == 0 {
        None
    } else {
        match hist.last() {
            Key::Char(target) => {
                let line = line_at(s, c.xy_pos.y as nat);
                let j = find_from(line, c.xy_pos.x + 1, target);
                if j < line.len() {
                    Some(j - c.xy_pos.x - 1)
                } else {
                    None
                }
            },
            _ => None,
        }
    }
}

/// The cursor each action leaves behind, given the buffer content and the
/// key history the action reads its argument from. `Find` lands one past
/// the found occurrence, `Till` moves up to it and stops one column short;
/// both stay put when there is nothing to find.
pub open spec fn action_cursor(a: Action, c: Cursor, s: Seq<char>, hist: Seq<Key>) -> Cursor {
    match a {
        Action::MoveLeft => c.move_left_spec(),
        Action::MoveRight => c.move_right_spec(s),
        Action::MoveUp => c.move_up_spec(s),
        Action::MoveDown => c.move_down_spec(s),
        Action::Find => match dist_spec(s, c, hist) {
            Some(d) => c.move_right_n_spec(s, (d + 2) as nat),
            None => c,
        },
        Action::Till => match dist_spec(s, c, hist) {
            Some(d) => c.move_right_n_spec(s, d as nat),
            None => c,
        },
        Action::Append => c.force_move_right_spec(s),
        Action::AppendEnd => c.move_full_right_spec(s),
        _ => c,
    }
}

/// The mode each action leaves behind.
pub open spec fn action_mode(a: Action, m: Mode) -> Mode {
    match a {
        Action::CommandMode => Mode::Command,
        Action::InsertMode => Mode::Insert,
        Action::Append => Mode::Insert,
        Action::AppendEnd => Mode::Insert,
        _ => m,
    }
}

/// Whether the editor is quitting after the action.
pub open spec fn action_quitting(a: Action, q: bool) -> bool {
    match a {
        Action::Quit => true,
        Action::SaveAndQuit => true,
        _ => q,
    }
}

/// The save-request count after the action: a save asks once more, counted
/// saturating.
pub open spec fn action_saves(a: Action, n: usize) -> usize {
    match a {
        Action::Save => if n < usize::MAX {
            (n + 1) as usize
        } else {
            n
        },
        Action::SaveAndQuit => if n < usize::MAX {
            (n + 1) as usize
        } else {
            n
        },
        _ => n,
    }
}

/// Everything one action does to the editor state.
pub open spec fn action_post(a: Action, p0: JimProperties, p1: JimProperties) -> bool {
    &&& p1.file == p0.file
    &&& p1.buttons_pressed == p0.buttons_pressed
    &&& p1.command_line == p0.command_line
    &&& p1.cant_press_maps == p0.cant_press_maps
    &&& p1.cursor == action_cursor(a, p0.cursor, p0.file.contents@, p0.buttons_pressed@)
    &&& p1.mode == action_mode(a, p0.mode)
    &&& p1.quitting == action_quitting(a, p0.quitting)
    &&& p1.save_requests == action_saves(a, p0.save_requests)
}

/// Asks the editor to end the session after this dispatch.
pub fn quit(jim: &mut JimProperties)
    requires
        old(jim).wf(),
    ensures
        action_post(Action::Quit, *old(jim), *final(jim)),
        final(jim).wf(),
{
    jim.quitting = true;
}

/// Asks the storage collaborator to write the buffer out: the request is
/// counted here and honoured outside the editing core.
pub fn save(jim: &mut JimProperties)
    requires
        old(jim).wf(),
    ensures
        action_post(Action::Save, *old(jim), *final(jim)),
        final(jim).wf(),
{
    if jim.save_requests < usize::MAX {
        jim.save_requests = jim.save_requests + 1;
    }
}

pub fn save_and_quit(jim: &mut JimProperties)
    requires
        old(jim).wf(),
    ensures
        action_post(Action::SaveAndQuit, *old(jim), *final(jim)),
        final(jim).wf(),
{
    if jim.save_requests < usize::MAX {
        jim.save_requests = jim.save_requests + 1;
    }
    jim.quitting = true;
}

/// Enters Command mode.
pub fn command_mode(jim: &mut JimProperties)
    requires
        old(jim).wf(),
    ensures
        action_post(Action::CommandMode, *old(jim), *final(jim)),
        final(jim).wf(),
{
    jim.mode = Mode::Command;
}

/// Enters Insert mode at the cursor.
pub fn i(jim: &mut JimProperties)
    requires
        old(jim).wf(),
    ensures
        action_post(Action::InsertMode, *old(jim), *final(jim)),
        final(jim).wf(),
{
    jim.mode = Mode::Insert;
}

/// Moves one column left.
pub fn h(jim: &mut JimProperties)
    requires
        old(jim).wf(),
    ensures
        action_post(Action::MoveLeft, *old(jim), *final(jim)),
        final(jim).wf(),
{
    proof {
        assert(old(jim).cursor.move_left_n_spec(1) == old(jim).cursor.move_left_n_spec(
            0,
        ).move_left_spec());
        assert(old(jim).cursor.move_left_n_spec(0) == old(jim).cursor);
    }
    jim.move_cursor_left(1);
}

/// Moves one line down.
pub fn j(jim: &mut JimProperties)
    requires
        old(jim).wf(),
    ensures
        action_post(Action::MoveDown, *old(jim), *final(jim)),
        final(jim).wf(),
{
    let ghost s = jim.file.contents@;
    proof {
        assert(old(jim).cursor.move_down_n_spec(s, 1) == old(jim).cursor.move_down_n_spec(
            s,
            0,
        ).move_down_spec(s));
        assert(old(jim).cursor.move_down_n_spec(s, 0) == old(jim).cursor);
    }
    jim.move_cursor_down(1);
}

/// Moves one line up.
pub fn k(jim: &mut JimProperties)
    requires
        old(jim).wf(),
    ensures
        action_post(Action::MoveUp, *old(jim), *final(jim)),
        final(jim).wf(),
{
    let ghost s = jim.file.contents@;
    proof {
        assert(old(jim).cursor.move_up_n_spec(s, 1) == old(jim).cursor.move_up_n_spec(
            s,
            0,
        ).move_up_spec(s));
        assert(old(jim).cursor.move_up_n_spec(s, 0) == old(jim).cursor);
    }
    jim.move_cursor_up(1);
}

/// Moves one column right.
pub fn l(jim: &mut JimProperties)
    requires
        old(jim).wf(),
    ensures
        action_post(Action::MoveRight, *old(jim), *final(jim)),
        final(jim).wf(),
{
    let ghost s = jim.file.contents@;
    proof {
        assert(old(jim).cursor.move_right_n_spec(s, 1) == old(jim).cursor.move_right_n_spec(
            s,
            0,
        ).move_right_spec(s));
        assert(old(jim).cursor.move_right_n_spec(s, 0) == old(jim).cursor);
    }
    jim.move_cursor_right(1);
}

/// Jumps one column past the next occurrence of the argument character in
/// the rest of the current line; does nothing when it does not occur.
pub fn f(jim: &mut JimProperties)
    requires
        old(jim).wf(),
    ensures
        action_post(Action::Find, *old(jim), *final(jim)),
        final(jim).wf(),
{
    match distance_to_next_button(jim) {
        Some(distance) => jim.move_cursor_right(distance + 2),
        None => {},
    }
}

/// Moves up to the next occurrence of the argument character in the rest of
/// the current line, stopping one column short of it; does nothing when it
/// does not occur.
pub fn t(jim: &mut JimProperties)
    requires
        old(jim).wf(),
    ensures
        action_post(Action::Till, *old(jim), *final(jim)),
        final(jim).wf(),
{
    match distance_to_next_button(jim) {
        Some(distance) => jim.move_cursor_right(distance),
        None => {},
    }
}

/// Steps one column right, onto the append position if need be, and enters
/// Insert mode.
pub fn a(jim: &mut JimProperties)
    requires
        old(jim).wf(),
    ensures
        action_post(Action::Append, *old(jim), *final(jim)),
        final(jim).wf(),
{
    let ghost s = jim.file.contents@;
    proof {
        assert(old(jim).cursor.force_move_right_n_spec(s, 1)
            == old(jim).cursor.force_move_right_n_spec(s, 0).force_move_right_spec(s));
        assert(old(jim).cursor.force_move_right_n_spec(s, 0) == old(jim).cursor);
    }
    jim.force_move_cursor_right(1);
    jim.mode = Mode::Insert;
}

/// Moves to the end of the current line and enters Insert mode.
pub fn shift_a(jim: &mut JimProperties)
    requires
        old(jim).wf(),
    ensures
        action_post(Action::AppendEnd, *old(jim), *final(jim)),
        final(jim).wf(),
{
    jim.move_cursor_full_right();
    jim.mode = Mode::Insert;
}

/// Performs one action on the editor state.
pub fn apply_action(a: Action, jim: &mut JimProperties)
    requires
        old(jim).wf(),
    ensures
        action_post(a, *old(jim), *final(jim)),
        final(jim).wf(),
{
    match a {
        Action::CommandMode => command_mode(jim),
        Action::InsertMode => i(jim),
        Action::MoveLeft => h(jim),
        Action::MoveDown => j(jim),
        Action::MoveUp => k(jim),
        Action::MoveRight => l(jim),
        Action::Find => f(jim),
        Action::Till => t(jim),
        Action::Append => crate::builtin_maps::a(jim),
        Action::AppendEnd => shift_a(jim),
        Action::Quit => quit(jim),
        Action::Save => save(jim),
        Action::SaveAndQuit => save_and_quit(jim),
    }
}

/// The distance from the column just after the cursor to the next
/// occurrence of the character named by the last key pressed, within the
/// current line; `None` where there is none to find.
pub fn distance_to_next_button(jim: &JimProperties) -> (r: Option<usize>)
    requires
        jim.wf(),
    ensures
        (match dist_spec(jim.file.contents@, jim.cursor, jim.buttons_pressed@) {
            Some(d) => 0 <= d < usize::MAX - 1 && r == Some(d as usize),
            None => r == None::<usize>,
        }),
{
    let line = jim.current_line();
    if jim.buttons_pressed.len() == 0 {
        return None;
    }
    let last = jim.buttons_pressed[jim.buttons_pressed.len() - 1];
    proof {
        assert(jim.buttons_pressed@.last() == last);
    }
    match last {
        Key::Char(target) => {
            if jim.cursor.xy_pos.x >= line.len() {
                return None;
            }
            proof {
                crate::text::lemma_find_from_props(line@, jim.cursor.xy_pos.x + 1, target);
            }
            let e = find_char_position_from(&line, jim.cursor.xy_pos.x + 1, target);
            match e {
                Some(j) => Some(j - jim.cursor.xy_pos.x - 1),
                None => None,
            }
        },
        _ => None,
    }
}

/// The index of the first occurrence of `target` in `chars` at or after
/// `from`, if any.
fn find_char_position_from(chars: &Vec<char>, from: usize, target: char) -> (r: Option<usize>)
    requires
        from <= chars@.len(),
    ensures
        r == (if find_from(chars@, from as int, target) < chars@.len() {
            Some(find_from(chars@, from as int, target) as usize)
        } else {
            None::<usize>
        }),
{
    let e = crate::text::find_char_from(chars, from, target);
    if e < chars.len() {
        Some(e)
    } else {
        None
    }
}

/// The index of the first occurrence of `target` in `chars`, if any.
pub fn find_char_position(chars: &Vec<char>, target: char) -> (r: Option<usize>)
    ensures
        r == (if find_from(chars@, 0, target) < chars@.len() {
            Some(find_from(chars@, 0, target) as usize)
        } else {
            None::<usize>
        }),
{
    find_char_position_from(chars, 0, target)
}

/// The built-in Normal-mode mappings: mode entries, the four motions, the
/// two two-phase motions, and the two append entries.
pub fn nmaps() -> (r: Vec<Mapping>)
    ensures
        r@.len() == 10,
        r@[0].buttons@ == seq![Key::Char(':')] && r@[0].on_pressed == Action::CommandMode,
        r@[1].buttons@ == seq![Key::Char('i')] && r@[1].on_pressed == Action::InsertMode,
        r@[2].buttons@ == seq![Key::Char('h')] && r@[2].on_pressed == Action::MoveLeft,
        r@[3].buttons@ == seq![Key::Char('j')] && r@[3].on_pressed == Action::MoveDown,
        r@[4].buttons@ == seq![Key::Char('k')] && r@[4].on_pressed == Action::MoveUp,
        r@[5].buttons@ == seq![Key::Char('l')] && r@[5].on_pressed == Action::MoveRight,
        r@[6].buttons@ == seq![Key::Char('f')] && r@[6].on_pressed == Action::Find,
        r@[7].buttons@ == seq![Key::Char('t')] && r@[7].on_pressed == Action::Till,
        r@[8].buttons@ == seq![Key::Char('a')] && r@[8].on_pressed == Action::Append,
        r@[9].buttons@ == seq![Key::Char('A')] && r@[9].on_pressed == Action::AppendEnd,
        forall|k: int|
            0 <= k < 10 ==> ((#[trigger] r@[k]).wait_for_next_press == (k == 6 || k == 7)
                && !r@[k].already_pressed),
{
    let mut v: Vec<Mapping> = Vec::new();
    v.push(single_key_mapping(':', Action::CommandMode, false));
    v.push(single_key_mapping('i', Action::InsertMode, false));
    v.push(single_key_mapping('h', Action::MoveLeft, false));
    v.push(single_key_mapping('j', Action::MoveDown, false));
    v.push(single_key_mapping('k', Action::MoveUp, false));
    v.push(single_key_mapping('l', Action::MoveRight, false));
    v.push(single_key_mapping('f', Action::Find, true));
    v.push(single_key_mapping('t', Action::Till, true));
    v.push(single_key_mapping('a', Action::Append, false));
    v.push(single_key_mapping('A', Action::AppendEnd, false));
    v
}

/// A mapping on one printable key.
fn single_key_mapping(c: char, on_pressed: Action, wait_for_next_press: bool) -> (r: Mapping)
    requires
        c != '<',
    ensures
        r.buttons@ == seq![Key::Char(c)],
        r.on_pressed == on_pressed,
        r.wait_for_next_press == wait_for_next_press,
        r.already_pressed == false,
{
    let mut sequence: Vec<char> = Vec::new();
    sequence.push(c);
    proof {
        assert(sequence@ =~= seq![c]);
        lemma_parse_single(c);
    }
    to_mapping(&sequence, on_pressed, wait_for_next_press)
}

proof fn lemma_parse_single(c: char)
    requires
        c != '<',
    ensures
        crate::mapping::parse_keys(seq![c]) == seq![Key::Char(c)],
{
    let s = seq![c];
    assert(s.skip(1) =~= Seq::<char>::empty());
    assert(crate::mapping::parse_keys_aux(s.skip(1), None) == Seq::<Key>::empty());
    assert(crate::mapping::parse_keys(s) =~= seq![Key::Char(c)]);
}

/// The built-in Insert-mode mappings: none.
pub fn imaps() -> (r: Vec<Mapping>)
    ensures
        r@.len() == 0,
{
    Vec::new()
}

/// The built-in commands: quit, save, and save-then-quit, with their long
/// and short aliases.
pub fn cmaps() -> (r: Vec<Command>)
    ensures
        r@.len() == 5,
        r@[0].name@ == seq!['q'] && r@[0].action == Action::Quit,
        r@[1].name@ == seq!['q', 'u', 'i', 't'] && r@[1].action == Action::Quit,
        r@[2].name@ == seq!['w'] && r@[2].action == Action::Save,
        r@[3].name@ == seq!['w', 'r', 'i', 't', 'e'] && r@[3].action == Action::Save,
        r@[4].name@ == seq!['w', 'q'] && r@[4].action == Action::SaveAndQuit,
{
    let mut v: Vec<Command> = Vec::new();
    v.push(Command::new(vec!['q'], Action::Quit));
    v.push(Command::new(vec!['q', 'u', 'i', 't'], Action::Quit));
    v.push(Command::new(vec!['w'], Action::Save));
    v.push(Command::new(vec!['w', 'r', 'i', 't', 'e'], Action::Save));
    v.push(Command::new(vec!['w', 'q'], Action::SaveAndQuit));
    proof {
        assert(v@[0].name@ =~= seq!['q']);
        assert(v@[1].name@ =~= seq!['q', 'u', 'i', 't']);
        assert(v@[2].name@ =~= seq!['w']);
        assert(v@[3].name@ =~= seq!['w', 'r', 'i', 't', 'e']);
        assert(v@[4].name@ =~= seq!['w', 'q']);
    }
    v
}

} // verus!
