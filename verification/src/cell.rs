//! A single position of the board.

use vstd::prelude::*;

verus! {

/// Returned when a mark is put on a cell that already carries one.
#[derive(Debug, Clone, Copy, PartialEq, Eq, Structural)]
pub struct AlreadyOwnedError;

/// One position of the board: free, or marked by one of the two sides.
///
/// `owner` is `true` for the side that plays `X` and `false` for the side
/// that plays `O`; it means something only while `is_owned` holds.
#[derive(Debug, Clone, Copy)]
pub struct BoardCell {
    pub owner: bool,
    pub is_owned: bool,
}

/// The character that stands for a cell's mark in the board encoding.
pub open spec fn mark_char(mark: Option<bool>) -> char {
    match mark {
        None => '-',
        Some(true) => 'X',
        Some(false) => 'O',
    }
}

impl BoardCell {
    /// What the cell carries: `None` while it is free, else the side that owns it.
    pub open spec fn mark(&self) -> Option<bool> {
        if self.is_owned {
            Some(self.owner)
        } else {
            None
        }
    }

    /// A free cell.
    pub fn new() -> (cell: Self)
        ensures
            !cell.is_owned,
            !cell.owner,
            cell.mark() == None::<bool>,
    {
        BoardCell { owner: false, is_owned: false }
    }

    /// Marks a free cell for `owner`. A cell is written once: on a cell that
    /// is already owned nothing changes and the call fails.
    pub fn set_owner(&mut self, owner: bool) -> (res: Result<(), AlreadyOwnedError>)
        ensures
            old(self).is_owned ==> res == Err::<(), AlreadyOwnedError>(AlreadyOwnedError)
                && *final(self) == *old(self),
            !old(self).is_owned ==> res == Ok::<(), AlreadyOwnedError>(())
                && final(self).is_owned && final(self).owner == owner,
    {
        if self.is_owned {
            return Err(AlreadyOwnedError);
        }
        self.is_owned = true;
        self.owner = owner;
        Ok(())
    }

    /// The cell as one character of the board encoding: `-` while free,
    /// `X` or `O` for its owner.
    pub fn get_char(&self) -> (text: &'static str)
        ensures
            text@ == seq![mark_char(self.mark())],
    {
        if !self.is_owned {
            proof {
                reveal_strlit("-");
            }
            assert("-"@ =~= seq!['-']);
            return "-";
        }
        proof {
            reveal_strlit("X");
            reveal_strlit("O");
        }
        assert("X"@ =~= seq!['X']);
        assert("O"@ =~= seq!['O']);
        match self.owner {
            true => "X",
            false => "O",
        }
    }
}

} // verus!
