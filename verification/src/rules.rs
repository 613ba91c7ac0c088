//! The rules of the game as mathematics: the eight lines, who has won, which
//! lines call for an immediate answer, and which cells are still free.
//!
//! A board is modelled as a sequence of nine marks, `None` for a free cell and
//! `Some(side)` for a cell owned by `side`, where `side` is `true` for the
//! player of `X`. Nothing here runs: the executable board states its
//! contracts in these terms.

use vstd::prelude::*;

verus! {

/// How a game stands.
#[derive(Debug, Clone, Copy, PartialEq, Eq, Structural)]
pub enum ActionStatus {
    /// Nobody has won and a cell is still free: the game goes on.
    Picked,
    /// The automated side owns a whole line.
    AIWon,
    /// The opponent owns a whole line.
    PlayerWon,
    /// Every cell is owned and nobody owns a whole line.
    Draw,
}

/// The deciding step found no free cell to take.
#[derive(Debug, Clone, Copy, PartialEq, Eq, Structural)]
pub enum ActionChoiceError {
    NoChoiceMade,
}

/// A move was asked for on a board that has no room for one.
#[derive(Debug, Clone, Copy, PartialEq, Eq, Structural)]
pub enum ActionError {
    NoFreeSpaces,
}

/// What a single line offers to the side that moves next.
#[derive(Debug, Clone, Copy, PartialEq, Eq, Structural)]
pub enum LineOutcome {
    /// The automated side owns two of its cells and the third is free.
    CanWin,
    /// The opponent owns two of its cells and the third is free.
    PlayerCouldWin,
    /// Anything else.
    Nothing,
}

/// The board on which no cell is owned.
pub open spec fn empty_marks() -> Seq<Option<bool>> {
    Seq::new(9, |i: int| None::<bool>)
}

/// The `l`-th winning line as three positions: rows first, then columns, then
/// the two diagonals.
pub open spec fn line(l: int) -> Seq<usize> {
    if l == 0 {
        seq![0usize, 1usize, 2usize]
    } else if l == 1 {
        seq![3usize, 4usize, 5usize]
    } else if l == 2 {
        seq![6usize, 7usize, 8usize]
    } else if l == 3 {
        seq![0usize, 3usize, 6usize]
    } else if l == 4 {
        seq![1usize, 4usize, 7usize]
    } else if l == 5 {
        seq![2usize, 5usize, 8usize]
    } else if l == 6 {
        seq![0usize, 4usize, 8usize]
    } else {
        seq![2usize, 4usize, 6usize]
    }
}

/// Three positions that all lie on the board.
pub open spec fn on_board(ids: Seq<usize>) -> bool {
    ids.len() == 3 && ids[0] < 9 && ids[1] < 9 && ids[2] < 9
}

/// 1 if `side` owns position `p`, else 0.
pub open spec fn owned_at(marks: Seq<Option<bool>>, p: usize, side: bool) -> nat {
    if marks[p as int] == Some(side) {
        1
    } else {
        0
    }
}

/// How many of the first `k` positions of `ids` are owned by `side`.
pub open spec fn partial_count(marks: Seq<Option<bool>>, ids: Seq<usize>, side: bool, k: nat) -> nat
    decreases k,
{
    if k == 0 {
        0
    } else {
        partial_count(marks, ids, side, (k - 1) as nat) + owned_at(marks, ids[k - 1], side)
    }
}

/// How many of the three positions `ids` are owned by `side`.
pub open spec fn owned_in(marks: Seq<Option<bool>>, ids: Seq<usize>, side: bool) -> nat {
    partial_count(marks, ids, side, 3)
}

/// `side` owns all three positions of `ids`.
pub open spec fn owns_all(marks: Seq<Option<bool>>, ids: Seq<usize>, side: bool) -> bool {
    owned_in(marks, ids, side) == 3
}

/// Some winning line belongs entirely to `side`.
pub open spec fn has_line(marks: Seq<Option<bool>>, side: bool) -> bool {
    exists|l: int| 0 <= l < 8 && #[trigger] owns_all(marks, line(l), side)
}

/// Every cell is owned.
pub open spec fn is_full(marks: Seq<Option<bool>>) -> bool {
    forall|i: int| 0 <= i < 9 ==> (#[trigger] marks[i]) is Some
}

/// The first line at or after `from`, in scan order, that one side owns
/// entirely; 8 if there is none.
pub open spec fn first_won_line(marks: Seq<Option<bool>>, from: nat) -> nat
    decreases 8 - from,
{
    if from >= 8 {
        8
    } else if owns_all(marks, line(from as int), true) || owns_all(marks, line(from as int), false) {
        from
    } else {
        first_won_line(marks, from + 1)
    }
}

/// How the game stands on `marks` when the automated side is `us`.
///
/// The owner of the first entirely owned line in scan order has won. With no
/// such line the game is drawn on a full board and goes on otherwise.
pub open spec fn status_of(marks: Seq<Option<bool>>, us: bool) -> ActionStatus {
    let l = first_won_line(marks, 0);
    if l < 8 {
        if owns_all(marks, line(l as int), us) {
            ActionStatus::AIWon
        } else {
            ActionStatus::PlayerWon
        }
    } else if is_full(marks) {
        ActionStatus::Draw
    } else {
        ActionStatus::Picked
    }
}

/// What the three positions `ids` offer: a win when the automated side `us`
/// owns exactly two of them and the third is free, a threat when the opponent
/// does, nothing otherwise.
pub open spec fn outcome_of(marks: Seq<Option<bool>>, ids: Seq<usize>, us: bool) -> LineOutcome {
    let ours = owned_in(marks, ids, us);
    let theirs = owned_in(marks, ids, !us);
    if ours == 2 && theirs == 0 {
        LineOutcome::CanWin
    } else if theirs == 2 && ours == 0 {
        LineOutcome::PlayerCouldWin
    } else {
        LineOutcome::Nothing
    }
}

/// The first of the three positions `ids` that is free, if any.
pub open spec fn first_free_in(marks: Seq<Option<bool>>, ids: Seq<usize>) -> Option<usize> {
    if marks[ids[0] as int] is None {
        Some(ids[0])
    } else if marks[ids[1] as int] is None {
        Some(ids[1])
    } else if marks[ids[2] as int] is None {
        Some(ids[2])
    } else {
        None
    }
}

/// The first line at or after `from`, in scan order, that offers a win or
/// holds a threat; 8 if there is none.
pub open spec fn first_crucial_line(marks: Seq<Option<bool>>, us: bool, from: nat) -> nat
    decreases 8 - from,
{
    if from >= 8 {
        8
    } else if outcome_of(marks, line(from as int), us) != LineOutcome::Nothing {
        from
    } else {
        first_crucial_line(marks, us, from + 1)
    }
}

/// The free positions among the first `n`, in ascending order.
pub open spec fn free_below(marks: Seq<Option<bool>>, n: nat) -> Seq<usize>
    decreases n,
{
    if n == 0 {
        Seq::empty()
    } else if marks[n - 1] is None {
        free_below(marks, (n - 1) as nat).push((n - 1) as usize)
    } else {
        free_below(marks, (n - 1) as nat)
    }
}

/// All free positions of the board, in ascending order.
pub open spec fn free_cells(marks: Seq<Option<bool>>) -> Seq<usize> {
    free_below(marks, 9)
}

/// The board after `side` has taken position `p`.
pub open spec fn with_mark(marks: Seq<Option<bool>>, p: usize, side: bool) -> Seq<Option<bool>> {
    marks.update(p as int, Some(side))
}

/// The position that a crucial move takes: the first free cell of the first
/// line in scan order that offers a win or holds a threat. `None` when no
/// line does.
pub open spec fn crucial_move(marks: Seq<Option<bool>>, us: bool) -> Option<usize> {
    let l = first_crucial_line(marks, us, 0);
    if l < 8 {
        first_free_in(marks, line(l as int))
    } else {
        None
    }
}

/// `after` is `before` with one of its free cells, whichever, taken by `us`.
pub open spec fn takes_some_free_cell(
    before: Seq<Option<bool>>,
    after: Seq<Option<bool>>,
    us: bool,
) -> bool {
    exists|roll: int|
        0 <= roll < free_cells(before).len() && after == with_mark(
            before,
            #[trigger] free_cells(before)[roll],
            us,
        )
}

/// What a random move leaves behind: on a full board nothing changes and the
/// move fails; otherwise some free cell is taken by `us` and the result is the
/// standing after the move.
pub open spec fn random_choice_result(
    before: Seq<Option<bool>>,
    after: Seq<Option<bool>>,
    us: bool,
    res: Result<ActionStatus, ActionChoiceError>,
) -> bool {
    if is_full(before) {
        after == before && res == Err::<ActionStatus, ActionChoiceError>(
            ActionChoiceError::NoChoiceMade,
        )
    } else {
        takes_some_free_cell(before, after, us) && res == Ok::<ActionStatus, ActionChoiceError>(
            status_of(after, us),
        )
    }
}

/// Every cell that is owned on `before` carries the same mark on `after`:
/// marks are neither removed nor overwritten.
pub open spec fn keeps_marks(before: Seq<Option<bool>>, after: Seq<Option<bool>>) -> bool {
    forall|i: int| 0 <= i < 9 && (#[trigger] before[i]) is Some ==> after[i] == before[i]
}

/// The two boards agree at every position other than `p`.
pub open spec fn agree_except_at(
    before: Seq<Option<bool>>,
    after: Seq<Option<bool>>,
    p: int,
) -> bool {
    forall|i: int| 0 <= i < 9 && i != p ==> #[trigger] after[i] == before[i]
}

/// The two boards agree everywhere but, at most, at one position.
pub open spec fn differ_in_at_most_one_cell(
    before: Seq<Option<bool>>,
    after: Seq<Option<bool>>,
) -> bool {
    exists|p: int| 0 <= p < 9 && #[trigger] agree_except_at(before, after, p)
}

/// Every position listed by `free_below` lies below `n` and is free, and the
/// list is empty exactly when none of the first `n` cells is free.
pub proof fn lemma_free_below(marks: Seq<Option<bool>>, n: nat)
    requires
        n <= marks.len(),
        n <= usize::MAX,
    ensures
        free_below(marks, n).len() <= n,
        forall|j: int|
            0 <= j < free_below(marks, n).len() ==> (#[trigger] free_below(marks, n)[j]) < n
                && marks[free_below(marks, n)[j] as int] is None,
        free_below(marks, n).len() == 0 <==> forall|i: int|
            0 <= i < n ==> (#[trigger] marks[i]) is Some,
    decreases n,
{
    if n > 0 {
        lemma_free_below(marks, (n - 1) as nat);
        if marks[n - 1] is None {
            assert(free_below(marks, n).last() == (n - 1) as usize);
        }
    }
}

/// A board has no free cell exactly when it is full.
pub proof fn lemma_free_cells_of_full(marks: Seq<Option<bool>>)
    requires
        marks.len() == 9,
    ensures
        free_cells(marks).len() == 0 <==> is_full(marks),
        forall|j: int|
            0 <= j < free_cells(marks).len() ==> (#[trigger] free_cells(marks)[j]) < 9
                && marks[free_cells(marks)[j] as int] is None,
{
    lemma_free_below(marks, 9);
}

/// An owned cell counts for exactly one of the two sides, a free cell for
/// neither.
pub proof fn lemma_one_owner(marks: Seq<Option<bool>>, p: usize, side: bool)
    requires
        p < marks.len(),
    ensures
        owned_at(marks, p, side) + owned_at(marks, p, !side) == (if marks[p as int] is Some {
            1nat
        } else {
            0nat
        }),
{
    if marks[p as int] is Some {
        assert(marks[p as int] == Some(side) || marks[p as int] == Some(!side));
    }
}

/// The count over a line written out cell by cell.
pub proof fn lemma_owned_in(marks: Seq<Option<bool>>, ids: Seq<usize>, side: bool)
    ensures
        owned_in(marks, ids, side) == owned_at(marks, ids[0], side) + owned_at(
            marks,
            ids[1],
            side,
        ) + owned_at(marks, ids[2], side),
{
    reveal_with_fuel(partial_count, 4);
}

/// A line that offers a win or holds a threat has a free cell.
pub proof fn lemma_crucial_line_has_free_cell(marks: Seq<Option<bool>>, ids: Seq<usize>, us: bool)
    requires
        marks.len() == 9,
        on_board(ids),
        outcome_of(marks, ids, us) != LineOutcome::Nothing,
    ensures
        first_free_in(marks, ids) is Some,
        marks[first_free_in(marks, ids)->0 as int] is None,
{
    lemma_owned_in(marks, ids, us);
    lemma_owned_in(marks, ids, !us);
    lemma_one_owner(marks, ids[0], us);
    lemma_one_owner(marks, ids[1], us);
    lemma_one_owner(marks, ids[2], us);
}

/// The position that a crucial move takes lies on the board and is free.
pub proof fn lemma_crucial_move_is_on_board(marks: Seq<Option<bool>>, us: bool)
    requires
        marks.len() == 9,
    ensures
        crucial_move(marks, us) is Some ==> crucial_move(marks, us)->0 < 9
            && marks[crucial_move(marks, us)->0 as int] is None,
{
    lemma_first_crucial_line(marks, us, 0);
    let l = first_crucial_line(marks, us, 0);
    if l < 8 {
        lemma_crucial_line_has_free_cell(marks, line(l as int), us);
    }
}

/// `first_crucial_line` returns a line that calls for a move, or 8.
pub proof fn lemma_first_crucial_line(marks: Seq<Option<bool>>, us: bool, from: nat)
    ensures
        from <= first_crucial_line(marks, us, from) || first_crucial_line(marks, us, from) == 8,
        first_crucial_line(marks, us, from) <= 8,
        first_crucial_line(marks, us, from) < 8 ==> outcome_of(
            marks,
            line(first_crucial_line(marks, us, from) as int),
            us,
        ) != LineOutcome::Nothing,
        forall|l: int|
            from <= l < first_crucial_line(marks, us, from) ==> outcome_of(
                marks,
                #[trigger] line(l),
                us,
            ) == LineOutcome::Nothing,
    decreases 8 - from,
{
    if from < 8 && outcome_of(marks, line(from as int), us) == LineOutcome::Nothing {
        lemma_first_crucial_line(marks, us, from + 1);
    }
}

/// A board and the same board after one mark was set differ in one cell.
pub proof fn lemma_one_mark_changes_one_cell(
    before: Seq<Option<bool>>,
    after: Seq<Option<bool>>,
    us: bool,
)
    requires
        before.len() == 9,
        (exists|p: usize| p < 9 && after == with_mark(before, p, us)) || takes_some_free_cell(
            before,
            after,
            us,
        ),
    ensures
        differ_in_at_most_one_cell(before, after),
{
    lemma_free_cells_of_full(before);
    let p: usize = if exists|p: usize| p < 9 && after == with_mark(before, p, us) {
        choose|p: usize| p < 9 && after == with_mark(before, p, us)
    } else {
        let roll = choose|roll: int|
            0 <= roll < free_cells(before).len() && after == with_mark(
                before,
                #[trigger] free_cells(before)[roll],
                us,
            );
        free_cells(before)[roll]
    };
    assert(agree_except_at(before, after, p as int));
}

} // verus!
