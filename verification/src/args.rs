//! The command line.
//!
//! Reading the process's arguments is the program's business; what the
//! library needs of them is this value.

use vstd::prelude::*;

verus! {

/// Unlock or reset Steam achievements for games in your library. Run with no
/// arguments to pick a game from the window.
#[derive(Clone, Copy, PartialEq, Eq, Debug, Structural)]
pub struct Args {
    /// Open this App ID straight away, e.g. --id 367520
    pub id: Option<u32>,
}

} // verus!
