//! Keys handed back to the host application as they are.

use vstd::prelude::*;

verus! {

/// What the keyboard hands back to the application when the engine has nothing to do.
///
/// These cannot be replaced by committed text: deleting a character is the
/// application's business (the keyboard does not know what surrounds the cursor),
/// and Enter may mean "submit" rather than "new line".
#[derive(Debug, Clone, Copy, PartialEq, Eq, Structural)]
pub enum Command {
    /// Delete one character in the application.
    Backspace,
    /// Enter: new line, submit or go, as the application decides.
    Enter,
    /// Move the cursor one step left (a leftward drag on the space bar).
    MoveLeft,
    /// Move the cursor one step right.
    MoveRight,
}

impl Command {
    /// The number each command crosses the language boundary as.
    pub open spec fn spec_code(self) -> i32 {
        match self {
            Command::Backspace => 1,
            Command::Enter => 2,
            Command::MoveLeft => 3,
            Command::MoveRight => 4,
        }
    }

    /// The number shared with the Kotlin side (`QingjianNative.COMMAND_*`).
    pub fn code(self) -> (code: i32)
        ensures
            code == self.spec_code(),
    {
        match self {
            Command::Backspace => 1,
            Command::Enter => 2,
            Command::MoveLeft => 3,
            Command::MoveRight => 4,
        }
    }
}

/// Each command crosses the language boundary as its own number, the one the Kotlin side
/// reads: Backspace 1, Enter 2, cursor left 3, cursor right 4.
pub proof fn lemma_command_codes()
    ensures
        Command::Backspace.spec_code() == 1,
        Command::Enter.spec_code() == 2,
        Command::MoveLeft.spec_code() == 3,
        Command::MoveRight.spec_code() == 4,
{
}

} // verus!
