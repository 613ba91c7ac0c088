//! What holds of the engine as a whole, proved from the rules and the
//! encoding.

use vstd::prelude::*;
use crate::cell::mark_char;
use crate::encoding::{encoding_of, is_board_char, loaded, mark_of_char};
use crate::rules::{
    empty_marks, first_free_in, first_won_line, has_line, is_full,
    lemma_crucial_line_has_free_cell, lemma_one_owner, lemma_owned_in, line, outcome_of,
    owns_all, status_of, with_mark, ActionStatus, LineOutcome,
};

verus! {

/// Loading a text of nine characters, each `X`, `O` or `-`, into an empty
/// board and encoding the board again gives the text back.
pub proof fn lemma_load_then_encode(input: Seq<char>)
    requires
        input.len() == 9,
        forall|i: int| 0 <= i < 9 ==> is_board_char(#[trigger] input[i]),
    ensures
        encoding_of(loaded(empty_marks(), input)) == input,
{
    let marks = loaded(empty_marks(), input);
    assert forall|i: int| 0 <= i < 9 implies #[trigger] encoding_of(marks)[i] == input[i] by {
        assert(is_board_char(input[i]));
        assert(marks[i] == mark_of_char(input[i]));
    }
    assert(encoding_of(marks) =~= input);
}

/// Encoding a board and loading the text into an empty board gives the board
/// back.
pub proof fn lemma_encode_then_load(marks: Seq<Option<bool>>)
    requires
        marks.len() == 9,
    ensures
        encoding_of(marks).len() == 9,
        forall|i: int| 0 <= i < 9 ==> is_board_char(#[trigger] encoding_of(marks)[i]),
        loaded(empty_marks(), encoding_of(marks)) == marks,
{
    let text = encoding_of(marks);
    assert forall|i: int| 0 <= i < 9 implies #[trigger] loaded(empty_marks(), text)[i]
        == marks[i] by {
        assert(text[i] == mark_char(marks[i]));
        if marks[i] is Some {
            assert(marks[i] == Some(true) || marks[i] == Some(false));
        }
    }
    assert(loaded(empty_marks(), text) =~= marks);
}

/// `first_won_line` returns an entirely owned line before which no line is
/// entirely owned, or 8 when no line at or after `from` is.
pub proof fn lemma_first_won_line(marks: Seq<Option<bool>>, from: nat)
    ensures
        first_won_line(marks, from) <= 8,
        first_won_line(marks, from) < 8 ==> from <= first_won_line(marks, from) && (owns_all(
            marks,
            line(first_won_line(marks, from) as int),
            true,
        ) || owns_all(marks, line(first_won_line(marks, from) as int), false)),
        forall|l: int|
            from <= l < first_won_line(marks, from) ==> !owns_all(marks, #[trigger] line(l), true)
                && !owns_all(marks, line(l), false),
    decreases 8 - from,
{
    if from < 8 && !(owns_all(marks, line(from as int), true) || owns_all(
        marks,
        line(from as int),
        false,
    )) {
        lemma_first_won_line(marks, from + 1);
    }
}

/// No line belongs entirely to both sides.
pub proof fn lemma_line_has_one_owner(marks: Seq<Option<bool>>, l: int, side: bool)
    requires
        marks.len() == 9,
        0 <= l < 8,
    ensures
        !(owns_all(marks, line(l), side) && owns_all(marks, line(l), !side)),
{
    let ids = line(l);
    lemma_owned_in(marks, ids, side);
    lemma_owned_in(marks, ids, !side);
    lemma_one_owner(marks, ids[0], side);
}

/// The standing without regard to who has won: the game is won exactly when
/// some line is entirely owned, drawn exactly when the board is full and no
/// line is, and goes on exactly when a cell is free and no line is.
pub proof fn lemma_status_by_lines(marks: Seq<Option<bool>>, us: bool)
    requires
        marks.len() == 9,
    ensures
        (status_of(marks, us) == ActionStatus::AIWon || status_of(marks, us)
            == ActionStatus::PlayerWon) <==> (has_line(marks, us) || has_line(marks, !us)),
        status_of(marks, us) == ActionStatus::AIWon ==> has_line(marks, us),
        status_of(marks, us) == ActionStatus::PlayerWon ==> has_line(marks, !us),
        status_of(marks, us) == ActionStatus::Draw <==> (is_full(marks) && !has_line(marks, us)
            && !has_line(marks, !us)),
        status_of(marks, us) == ActionStatus::Picked <==> (!is_full(marks) && !has_line(marks, us)
            && !has_line(marks, !us)),
{
    lemma_first_won_line(marks, 0);
    let l = first_won_line(marks, 0);
    if l < 8 {
        lemma_line_has_one_owner(marks, l as int, us);
        if owns_all(marks, line(l as int), us) {
            assert(has_line(marks, us));
        } else {
            assert(owns_all(marks, line(l as int), !us));
            assert(has_line(marks, !us));
        }
    } else {
        assert(!has_line(marks, true));
        assert(!has_line(marks, false));
    }
}

/// On a board where at most one side owns a whole line, the standing names
/// that side: the automated side has won exactly when it owns a line, the
/// opponent exactly when the opponent does, the game is drawn exactly when
/// the board is full and nobody owns a line, and it goes on otherwise.
pub proof fn lemma_status_names_the_winner(marks: Seq<Option<bool>>, us: bool)
    requires
        marks.len() == 9,
        !(has_line(marks, us) && has_line(marks, !us)),
    ensures
        status_of(marks, us) == ActionStatus::AIWon <==> has_line(marks, us),
        status_of(marks, us) == ActionStatus::PlayerWon <==> has_line(marks, !us),
        status_of(marks, us) == ActionStatus::Draw <==> (is_full(marks) && !has_line(marks, us)
            && !has_line(marks, !us)),
        status_of(marks, us) == ActionStatus::Picked <==> !(has_line(marks, us) || has_line(
            marks,
            !us,
        ) || is_full(marks)),
{
    lemma_status_by_lines(marks, us);
}

/// Completing a line wins: on a board where the game goes on, taking the
/// free cell of a line whose two other cells the automated side owns leaves
/// a board that the automated side has won.
pub proof fn lemma_completing_a_line_wins(marks: Seq<Option<bool>>, l: int, us: bool)
    requires
        marks.len() == 9,
        0 <= l < 8,
        status_of(marks, us) == ActionStatus::Picked,
        outcome_of(marks, line(l), us) == LineOutcome::CanWin,
    ensures
        first_free_in(marks, line(l)) is Some,
        status_of(with_mark(marks, first_free_in(marks, line(l))->0, us), us)
            == ActionStatus::AIWon,
{
    lemma_crucial_line_has_free_cell(marks, line(l), us);
    let p = first_free_in(marks, line(l))->0;
    let after = with_mark(marks, p, us);
    let them = !us;
    lemma_status_by_lines(marks, us);

    lemma_owned_in(marks, line(l), us);
    lemma_owned_in(marks, line(l), !us);
    lemma_owned_in(after, line(l), us);
    lemma_one_owner(marks, line(l)[0], us);
    lemma_one_owner(marks, line(l)[1], us);
    lemma_one_owner(marks, line(l)[2], us);
    assert(owns_all(after, line(l), us));
    assert(has_line(after, us));

    assert forall|k: int| 0 <= k < 8 implies !(#[trigger] owns_all(after, line(k), them)) by {
        lemma_owned_in(after, line(k), them);
        lemma_owned_in(marks, line(k), them);
        if owns_all(after, line(k), them) {
            assert(owns_all(marks, line(k), them));
            assert(has_line(marks, them));
        }
    }
    assert(!has_line(after, them));
    lemma_status_names_the_winner(after, us);
}

} // verus!
