use vstd::prelude::*;

verus! {

/// The current input-interpretation state of the editor.
///
/// `Normal` routes keys through the mapping table, `Insert` writes keys into
/// the buffer, and `Command` accumulates a command line that is executed on
/// Enter. The command-line text itself lives in `JimProperties`, cleared on
/// every entry to and exit from `Command` mode.
#[derive(Clone, Copy, Debug, PartialEq, Eq, Structural)]
pub enum Mode {
    Normal,
    Insert,
    Command,
}

} // verus!
