use vstd::prelude::*;

verus! {

/// One key press arriving from the terminal: a printable character or one of
/// the small fixed set of named keys the editor reacts to.
///
/// Equality is structural.
#[derive(Clone, Copy, Debug, PartialEq, Eq, Structural)]
pub enum Key {
    Char(char),
    Enter,
    Backspace,
    Esc,
    LeftControl,
    RightControl,
}

} // verus!
