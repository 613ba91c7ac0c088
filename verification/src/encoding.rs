//! The nine-character encoding of a board: one character per cell in
//! position order, `X` and `O` for the two sides and `-` for a free cell.

use vstd::prelude::*;
use crate::cell::mark_char;

verus! {

/// Why a text was not accepted as a board.
#[derive(Debug, Clone, Copy, PartialEq, Eq, Structural)]
pub enum FormatError {
    /// The text does not have exactly nine characters.
    WrongLength,
}

/// The mark that a character of the encoding stands for: `-` is a free cell,
/// `X` the side that plays `X`, and every other character the side that
/// plays `O`.
pub open spec fn mark_of_char(c: char) -> Option<bool> {
    if c == '-' {
        None
    } else {
        Some(c == 'X')
    }
}

/// A character of the encoding's alphabet.
pub open spec fn is_board_char(c: char) -> bool {
    c == 'X' || c == 'O' || c == '-'
}

/// The encoding of a board.
pub open spec fn encoding_of(marks: Seq<Option<bool>>) -> Seq<char> {
    Seq::new(9, |i: int| mark_char(marks[i]))
}

/// The board `before` after the first `n` characters of `input` were applied
/// to it: a `-` leaves its cell as it was, any other character marks it.
pub open spec fn loaded_upto(before: Seq<Option<bool>>, input: Seq<char>, n: int) -> Seq<
    Option<bool>,
> {
    Seq::new(
        9,
        |i: int|
            if i < n && input[i] != '-' {
                mark_of_char(input[i])
            } else {
                before[i]
            },
    )
}

/// The board `before` after all nine characters of `input` were applied.
pub open spec fn loaded(before: Seq<Option<bool>>, input: Seq<char>) -> Seq<Option<bool>> {
    loaded_upto(before, input, 9)
}

/// Every cell that `input` marks is free on `before`.
pub open spec fn can_load(before: Seq<Option<bool>>, input: Seq<char>) -> bool {
    forall|i: int| 0 <= i < 9 && #[trigger] input[i] != '-' ==> before[i] is None
}

} // verus!
