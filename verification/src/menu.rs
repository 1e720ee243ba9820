//! The menu decision: what one parsed menu choice leads to.

use vstd::prelude::*;

verus! {

/// What the interactive loop does next, given one parsed menu choice.
#[derive(Clone, Copy, Debug, PartialEq, Eq, Structural)]
pub enum MenuAction {
    /// Run the file-creation flow.
    CreateFile,
    /// Terminate the program.
    Exit,
    /// Report an invalid choice and show the menu again.
    Invalid,
}

/// Maps a parsed menu choice to the action the loop takes: `1` creates a
/// file, `2` exits, anything else is invalid.
pub fn menu_action(choice: i32) -> (r: MenuAction)
    ensures
        choice == 1 ==> r == MenuAction::CreateFile,
        choice == 2 ==> r == MenuAction::Exit,
        choice != 1 && choice != 2 ==> r == MenuAction::Invalid,
{
    if choice == 1 {
        MenuAction::CreateFile
    } else if choice == 2 {
        MenuAction::Exit
    } else {
        MenuAction::Invalid
    }
}

} // verus!
