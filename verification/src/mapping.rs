use vstd::prelude::*;

use crate::builtin_maps::{action_cursor, action_mode, action_quitting, action_saves, apply_action};
use crate::jim::{contains_window, JimProperties};
use crate::key::Key;

verus! {

/// The closed set of editing operations a mapping or a command can be bound
/// to. Motions move the cursor a fixed distance; `Find` and `Till` are the
/// two-phase motions that read their argument character from the tail of the
/// key history; the rest switch mode, request a save, or end the session.
#[derive(Clone, Copy, Debug, PartialEq, Eq, Structural)]
pub enum Action {
    CommandMode,
    InsertMode,
    MoveLeft,
    MoveDown,
    MoveUp,
    MoveRight,
    Find,
    Till,
    Append,
    AppendEnd,
    Quit,
    Save,
    SaveAndQuit,
}

/// A declarative binding from a key sequence to an action. A mapping with
/// `wait_for_next_press` does not fire when its sequence matches: it arms
/// itself, locks every other mapping out, and fires on the next key press,
/// which serves as its argument.
#[derive(Debug)]
pub struct Mapping {
    pub buttons: Vec<Key>,
    pub wait_for_next_press: bool,
    pub already_pressed: bool,
    pub on_pressed: Action,
}

/// A named command: typed in Command mode and matched verbatim against
/// `name`.
#[derive(Debug)]
pub struct Command {
    pub name: Vec<char>,
    pub action: Action,
}

impl Command {
    pub fn new(name: Vec<char>, action: Action) -> (r: Self)
        ensures
            r.name == name,
            r.action == action,
    {
        Command { name, action }
    }
}

/// The key sequence a named escape stands for: the left and right control
/// modifiers and the escape key; an unknown name stands for no key at all.
pub open spec fn key_of_name(name: Seq<char>) -> Seq<Key> {
    if name == seq!['l', 'C', 'r'] {
        seq![Key::LeftControl]
    } else if name == seq!['r', 'C', 'r'] {
        seq![Key::RightControl]
    } else if name == seq!['E', 's', 'c'] {
        seq![Key::Esc]
    } else {
        Seq::empty()
    }
}

/// One printable key in front of an already parsed tail.
pub open spec fn cons_char_key(c: char, rest: Seq<Key>) -> Seq<Key> {
    seq![Key::Char(c)] + rest
}

/// What `cons_char_key` builds, spelled out for a caller.
pub proof fn lemma_cons_char_key(c: char, rest: Seq<Key>)
    ensures
        cons_char_key(c, rest) == seq![Key::Char(c)] + rest,
        cons_char_key(c, rest).len() == 1 + rest.len(),
        cons_char_key(c, rest)[0] == Key::Char(c),
        forall|j: int| 0 <= j < rest.len() ==> cons_char_key(c, rest)[j + 1] == rest[j],
{
    assert forall|j: int| 0 <= j < rest.len() implies cons_char_key(c, rest)[j + 1] == rest[j] by {
        assert((seq![Key::Char(c)] + rest)[j + 1] == rest[j]);
    }
}

/// The parse of a key-sequence string, one character at a time: outside an
/// escape, `<` opens one and any other character is itself a key; inside an
/// escape (`esc` holds the name so far), `>` closes it and yields the named
/// key. An escape left open at the end yields nothing.
pub open spec fn parse_keys_aux(s: Seq<char>, esc: Option<Seq<char>>) -> Seq<Key>
    decreases s.len(),
{
    if s.len() == 0 {
        Seq::empty()
    } else {
        match esc {
            Option::None => {
                if s[0] == '<' {
                    parse_keys_aux(s.skip(1), Some(Seq::empty()))
                } else {
                    cons_char_key(s[0], parse_keys_aux(s.skip(1), None))
                }
            },
            Option::Some(name) => {
                if s[0] == '>' {
                    key_of_name(name) + parse_keys_aux(s.skip(1), None)
                } else {
                    parse_keys_aux(s.skip(1), Some(name.push(s[0])))
                }
            },
        }
    }
}

/// The key sequence a key-sequence string denotes.
pub open spec fn parse_keys(s: Seq<char>) -> Seq<Key> {
    parse_keys_aux(s, None)
}


/// The key a complete escape name stands for, if any.
fn key_for_name(name: &Vec<char>) -> (r: Option<Key>)
    ensures
        key_of_name(name@) == (match r {
            Some(k) => seq![k],
            None => Seq::<Key>::empty(),
        }),
{
    proof {
        if name@.len() == 3 {
            assert(name@ =~= seq![name@[0], name@[1], name@[2]]);
        }
    }
    if name.len() == 3 {
        let a = name[0];
        let b = name[1];
        let c = name[2];
        if a == 'l' && b == 'C' && c == 'r' {
            Some(Key::LeftControl)
        } else if a == 'r' && b == 'C' && c == 'r' {
            Some(Key::RightControl)
        } else if a == 'E' && b == 's' && c == 'c' {
            Some(Key::Esc)
        } else {
            None
        }
    } else {
        None
    }
}

/// Parses a key-sequence string — `<...>` delimits a named key, every other
/// character is itself a key — and binds the sequence to `on_pressed`,
/// two-phase when `wait_for_next_press` is set.
pub fn to_mapping(sequence: &Vec<char>, on_pressed: Action, wait_for_next_press: bool) -> (r:
    Mapping)
    ensures
        r.buttons@ == parse_keys(sequence@),
        r.on_pressed == on_pressed,
        r.wait_for_next_press == wait_for_next_press,
        r.already_pressed == false,
{
    let ghost s = sequence@;
    let mut buttons: Vec<Key> = Vec::new();
    let mut in_escape = false;
    let mut escape_name: Vec<char> = Vec::new();
    let mut i: usize = 0;
    proof {
        assert(s.skip(0) =~= s);
        assert(buttons@ + parse_keys_aux(s, None) =~= parse_keys(s));
    }
    while i < sequence.len()
        invariant
            i <= s.len(),
            s == sequence@,
            parse_keys(s) == buttons@ + parse_keys_aux(
                s.skip(i as int),
                if in_escape {
                    Some(escape_name@)
                } else {
                    None
                },
            ),
        decreases s.len() - i,
    {
        let ghost rest = s.skip(i as int);
        let ghost buttons0 = buttons@;
        let ghost esc0: Option<Seq<char>> = if in_escape {
            Some(escape_name@)
        } else {
            None
        };
        proof {
            assert(rest.skip(1) =~= s.skip(i + 1));
            assert(rest[0] == s[i as int]);
        }
        let c = sequence[i];
        if in_escape {
            let ghost name0 = escape_name@;
            if c == '>' {
                proof {
                    assert(parse_keys_aux(rest, esc0) == key_of_name(name0) + parse_keys_aux(
                        rest.skip(1),
                        None,
                    ));
                }
                match key_for_name(&escape_name) {
                    Some(k) => {
                        buttons.push(k);
                        proof {
                            assert(buttons@ =~= buttons0 + key_of_name(name0));
                        }
                    },
                    None => {
                        proof {
                            assert(buttons@ =~= buttons0 + key_of_name(name0));
                        }
                    },
                }
                in_escape = false;
                escape_name = Vec::new();
                proof {
                    assert(buttons@ + parse_keys_aux(s.skip(i + 1), None) =~= buttons0
                        + parse_keys_aux(rest, esc0));
                }
            } else {
                escape_name.push(c);
                proof {
                    assert(parse_keys_aux(rest, esc0) == parse_keys_aux(
                        rest.skip(1),
                        Some(name0.push(c)),
                    ));
                    assert(escape_name@ == name0.push(c));
                }
            }
        } else {
            if c == '<' {
                in_escape = true;
                escape_name = Vec::new();
                proof {
                    assert(parse_keys_aux(rest, esc0) == parse_keys_aux(
                        rest.skip(1),
                        Some(Seq::empty()),
                    ));
                    assert(escape_name@ =~= Seq::<char>::empty());
                }
            } else {
                buttons.push(Key::Char(c));
                proof {
                    assert(parse_keys_aux(rest, None) == cons_char_key(
                        rest[0],
                        parse_keys_aux(rest.skip(1), None),
                    ));
                    assert(buttons@ =~= buttons0.push(Key::Char(c)));
                    assert(cons_char_key(rest[0], parse_keys_aux(rest.skip(1), None))
                        == cons_char_key(c, parse_keys_aux(s.skip(i + 1), None)));
                    lemma_cons_char_key(c, parse_keys_aux(s.skip(i + 1), None));
                    assert(buttons@ + parse_keys_aux(s.skip(i + 1), None) =~= buttons0
                        + cons_char_key(c, parse_keys_aux(s.skip(i + 1), None)));
                }
            }
        }
        i = i + 1;
    }
    Mapping { buttons, wait_for_next_press, already_pressed: false, on_pressed }
}

/// Whether evaluating `m` against dispatch state `p` fires its action: the
/// mappings are not locked against it, its sequence matches the history or
/// it is already armed, and it either needs no argument key or, being armed,
/// has just received one.
pub open spec fn fires(m: Mapping, p: JimProperties) -> bool {
    &&& !(p.cant_press_maps && !m.already_pressed)
    &&& (contains_window(p.buttons_pressed@, m.buttons@) || m.already_pressed)
    &&& (!m.wait_for_next_press || m.already_pressed)
}

/// Whether evaluating `m` against dispatch state `p` arms it: its sequence
/// matches, it waits for an argument key, and it is not armed yet.
pub open spec fn arms(m: Mapping, p: JimProperties) -> bool {
    &&& !(p.cant_press_maps && !m.already_pressed)
    &&& contains_window(p.buttons_pressed@, m.buttons@)
    &&& m.wait_for_next_press && !m.already_pressed
}

/// The key history a fired action reads: an armed mapping fires on the
/// argument key press and reads the history as it stands — the argument at
/// its tail, never matched against any sequence — while a fresh match
/// clears the history before its action runs.
pub open spec fn fire_history(m: Mapping, p: JimProperties) -> Seq<Key> {
    if m.already_pressed {
        p.buttons_pressed@
    } else {
        Seq::empty()
    }
}

/// Everything `Mapping::try_use` does, as a relation from the mapping and
/// dispatch state before to the pair after.
pub open spec fn try_use_post(m0: Mapping, p0: JimProperties, m1: Mapping, p1: JimProperties) -> bool {
    &&& m1.buttons == m0.buttons
    &&& m1.wait_for_next_press == m0.wait_for_next_press
    &&& m1.on_pressed == m0.on_pressed
    &&& p1.file == p0.file
    &&& p1.command_line == p0.command_line
    &&& if fires(m0, p0) {
        &&& m1.already_pressed == false
        &&& p1.cant_press_maps == false
        &&& p1.buttons_pressed@ == Seq::<Key>::empty()
        &&& p1.cursor == action_cursor(
            m0.on_pressed,
            p0.cursor,
            p0.file.contents@,
            fire_history(m0, p0),
        )
        &&& p1.mode == action_mode(m0.on_pressed, p0.mode)
        &&& p1.quitting == action_quitting(m0.on_pressed, p0.quitting)
        &&& p1.save_requests == action_saves(m0.on_pressed, p0.save_requests)
    } else if arms(m0, p0) {
        &&& m1.already_pressed == true
        &&& p1.cant_press_maps == true
        &&& p1.buttons_pressed@ == Seq::<Key>::empty()
        &&& p1.cursor == p0.cursor
        &&& p1.mode == p0.mode
        &&& p1.quitting == p0.quitting
        &&& p1.save_requests == p0.save_requests
    } else {
        &&& m1.already_pressed == m0.already_pressed
        &&& p1 == p0
    }
}

impl Mapping {
    pub fn new(buttons: Vec<Key>, on_pressed: Action, wait_for_next_press: bool) -> (r: Self)
        ensures
            r.buttons == buttons,
            r.on_pressed == on_pressed,
            r.wait_for_next_press == wait_for_next_press,
            r.already_pressed == false,
    {
        Mapping { buttons, on_pressed, wait_for_next_press, already_pressed: false }
    }

    /// Evaluates this mapping once against the dispatch state: fires its
    /// action, arms it for an argument key, or does nothing, exactly as
    /// `try_use_post` states. While the mappings are locked by an armed one,
    /// every other mapping is suppressed. After a fire or an arm the key
    /// history is cleared.
    pub fn try_use(&mut self, properties: &mut JimProperties)
        requires
            old(properties).wf(),
        ensures
            try_use_post(*old(self), *old(properties), *final(self), *final(properties)),
            final(properties).wf(),
    {
        if properties.cant_press_maps && !self.already_pressed {
            return;
        }
        if self.already_pressed {
            // Armed: the key that just arrived is this mapping's argument.
            // It is matched against no sequence; the action reads it from
            // the tail of the history, which is cleared only afterwards.
            self.already_pressed = false;
            properties.cant_press_maps = false;
            apply_action(self.on_pressed, properties);
            properties.buttons_pressed.clear();
            return;
        }
        let matched = properties.use_mapping(&self.buttons);
        if matched {
            if !self.wait_for_next_press {
                apply_action(self.on_pressed, properties);
            } else {
                self.already_pressed = true;
                properties.cant_press_maps = true;
            }
            properties.buttons_pressed.clear();
        }
    }
}

} // verus!
