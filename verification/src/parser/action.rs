//! The actions of the DEC transition table.
use vstd::prelude::*;

verus! {

/// What the DEC parser does with a byte, or on entering or leaving a state.
#[derive(Clone, Copy, PartialEq, Eq, Structural, Debug, Hash)]
pub enum Action {
    /// Nothing.
    Nop,
    /// Forget the current private flag, intermediate characters, final character and
    /// parameters. Fired on entry to `Escape`, `CsiEntry` and `DcsEntry`.
    Clear,
    /// Store the private marker or intermediate character for use when the final
    /// character arrives.
    Collect,
    /// The final character of an escape, CSI or DCS sequence has arrived; dispatch
    /// the corresponding control function.
    Dispatch,
    /// Execute a C0 or C1 control function.
    Execute,
    /// Drop the byte; no observable change to terminal state.
    Ignore,
    /// Collect parameter digits / separators (`0`-`9`, `;`, `:`).
    Param,
    /// In `Ground`, display the byte.
    Print,
}

/// The number of an action, in declaration order.
pub open spec fn action_index(a: Action) -> nat {
    match a {
        Action::Nop => 0,
        Action::Clear => 1,
        Action::Collect => 2,
        Action::Dispatch => 3,
        Action::Execute => 4,
        Action::Ignore => 5,
        Action::Param => 6,
        Action::Print => 7,
    }
}

/// The action with number `n`.
pub open spec fn action_of(n: nat) -> Action {
    if n == 0 {
        Action::Nop
    } else if n == 1 {
        Action::Clear
    } else if n == 2 {
        Action::Collect
    } else if n == 3 {
        Action::Dispatch
    } else if n == 4 {
        Action::Execute
    } else if n == 5 {
        Action::Ignore
    } else if n == 6 {
        Action::Param
    } else {
        Action::Print
    }
}

impl Action {
    /// The number of the action, in declaration order.
    pub fn number(self) -> (n: u8)
        ensures
            n == action_index(self),
            action_of(n as nat) == self,
    {
        match self {
            Action::Nop => 0,
            Action::Clear => 1,
            Action::Collect => 2,
            Action::Dispatch => 3,
            Action::Execute => 4,
            Action::Ignore => 5,
            Action::Param => 6,
            Action::Print => 7,
        }
    }

    /// The action with number `value`; there are eight.
    pub fn from_u8(value: u8) -> (a: Action)
        requires
            value < 8,
        ensures
            a == action_of(value as nat),
            action_index(a) == value,
    {
        if value == 0 {
            Action::Nop
        } else if value == 1 {
            Action::Clear
        } else if value == 2 {
            Action::Collect
        } else if value == 3 {
            Action::Dispatch
        } else if value == 4 {
            Action::Execute
        } else if value == 5 {
            Action::Ignore
        } else if value == 6 {
            Action::Param
        } else {
            Action::Print
        }
    }

    /// The default action, `Nop`.
    pub fn default() -> (a: Action)
        ensures
            a == Action::Nop,
    {
        Action::Nop
    }
}

} // verus!
