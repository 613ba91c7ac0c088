//! The board: nine cells and the side that the engine plays.

use vstd::prelude::*;
use crate::chance::roll_below;
use crate::encoding::{can_load, encoding_of, loaded, loaded_upto};
use crate::rules::{
    agree_except_at, crucial_move, differ_in_at_most_one_cell, empty_marks, first_crucial_line,
    first_free_in, first_won_line, free_below, free_cells, is_full, keeps_marks,
    lemma_crucial_line_has_free_cell, lemma_crucial_move_is_on_board, lemma_free_cells_of_full,
    lemma_one_mark_changes_one_cell, line, on_board, outcome_of, partial_count,
    random_choice_result, status_of, takes_some_free_cell, with_mark, LineOutcome,
};

pub use crate::cell::{AlreadyOwnedError, BoardCell};
pub use crate::encoding::FormatError;
pub use crate::rules::{ActionChoiceError, ActionError, ActionStatus};

verus! {

/// Nine cells in row-major order and the side that the engine plays.
#[derive(Debug)]
pub struct Board {
    cells: Vec<BoardCell>,
    our_cell_value: bool,
}

impl View for Board {
    type V = Seq<Option<bool>>;

    /// The marks of the nine cells, in position order.
    closed spec fn view(&self) -> Seq<Option<bool>> {
        Seq::new(self.cells@.len(), |i: int| self.cells@[i].mark())
    }
}

impl Board {
    #[verifier::type_invariant]
    spec fn has_nine_cells(&self) -> bool {
        self.cells@.len() == 9
    }

    /// The side that the engine plays: `true` for `X`.
    pub closed spec fn automated_side(&self) -> bool {
        self.our_cell_value
    }

    /// An empty board on which the engine plays `X`.
    pub fn new() -> (board: Self)
        ensures
            board@ == empty_marks(),
            board.automated_side(),
    {
        let mut cells: Vec<BoardCell> = Vec::new();
        for i in 0..9
            invariant
                cells@.len() == i,
                forall|k: int| 0 <= k < i ==> (#[trigger] cells@[k]).mark() == None::<bool>,
        {
            cells.push(BoardCell::new());
        }
        let board = Board { cells: cells, our_cell_value: true };
        assert(board@ =~= empty_marks());
        board
    }

    /// Whether a cell is still free.
    pub fn is_cells_available(&self) -> (available: bool)
        ensures
            self@.len() == 9,
            available == !is_full(self@),
    {
        proof {
            use_type_invariant(self);
        }
        let mut i: usize = 0;
        while i < 9
            invariant
                i <= 9,
                self.cells@.len() == 9,
                forall|k: int| 0 <= k < i ==> (#[trigger] self@[k]) is Some,
            decreases 9 - i,
        {
            if !self.cells[i].is_owned {
                assert(self@[i as int] is None);
                return true;
            }
            i += 1;
        }
        false
    }

    /// The eight winning lines: three rows, three columns, two diagonals.
    fn get_lines(&self) -> (lines: [[usize; 3]; 8])
        ensures
            forall|l: int| 0 <= l < 8 ==> (#[trigger] lines@[l])@ == line(l),
    {
        let lines: [[usize; 3]; 8] = [
            [0, 1, 2],
            [3, 4, 5],
            [6, 7, 8],
            [0, 3, 6],
            [1, 4, 7],
            [2, 5, 8],
            [0, 4, 8],
            [2, 4, 6],
        ];
        assert forall|l: int| 0 <= l < 8 implies (#[trigger] lines@[l])@ == line(l) by {
            assert(lines@[l]@ =~= line(l));
        }
        lines
    }

    /// What the line `cell_ids` offers: a win, a threat, or nothing.
    fn check_line_for_possible_outcome(&self, cell_ids: [usize; 3]) -> (outcome: LineOutcome)
        requires
            on_board(cell_ids@),
        ensures
            outcome == outcome_of(self@, cell_ids@, self.automated_side()),
    {
        proof {
            use_type_invariant(self);
        }
        let ghost us = self.our_cell_value;
        let mut owned_count: u8 = 0;
        let mut we_own: u8 = 0;
        let mut player_owns: u8 = 0;

        let mut k: usize = 0;
        while k < 3
            invariant
                k <= 3,
                on_board(cell_ids@),
                self.cells@.len() == 9,
                us == self.our_cell_value,
                owned_count == we_own + player_owns,
                owned_count <= k,
                we_own == partial_count(self@, cell_ids@, us, k as nat),
                player_owns == partial_count(self@, cell_ids@, !us, k as nat),
            decreases 3 - k,
        {
            let i: usize = cell_ids[k];
            k += 1;
            if !self.cells[i].is_owned {
                continue;
            }
            owned_count += 1;
            if self.cells[i].owner == self.our_cell_value {
                we_own += 1;
            } else {
                player_owns += 1;
            }
        }

        if owned_count != 2 {
            return LineOutcome::Nothing;
        }
        if we_own == 2 {
            return LineOutcome::CanWin;
        }
        if player_owns == 2 {
            return LineOutcome::PlayerCouldWin;
        }
        LineOutcome::Nothing
    }

    /// How the game stands: won by the owner of the first entirely owned
    /// line, drawn on a full board without one, and going on otherwise.
    pub fn get_board_status(&self) -> (res: Result<ActionStatus, ActionChoiceError>)
        ensures
            self@.len() == 9,
            res == Ok::<ActionStatus, ActionChoiceError>(status_of(self@, self.automated_side())),
    {
        proof {
            use_type_invariant(self);
        }
        let ghost us = self.our_cell_value;
        let lines = self.get_lines();

        let mut i: usize = 0;
        while i < 8
            invariant
                i <= 8,
                self.cells@.len() == 9,
                us == self.our_cell_value,
                forall|l: int| 0 <= l < 8 ==> (#[trigger] lines@[l])@ == line(l),
                first_won_line(self@, 0) == first_won_line(self@, i as nat),
            decreases 8 - i,
        {
            let mut player_count: u8 = 0;
            let mut our_count: u8 = 0;
            let ids: [usize; 3] = lines[i];
            assert(ids@ == line(i as int));

            let mut k: usize = 0;
            while k < 3
                invariant
                    k <= 3,
                    i < 8,
                    ids@ == line(i as int),
                    self.cells@.len() == 9,
                    us == self.our_cell_value,
                    our_count + player_count <= k,
                    our_count == partial_count(self@, ids@, us, k as nat),
                    player_count == partial_count(self@, ids@, !us, k as nat),
                decreases 3 - k,
            {
                let cell_id: usize = ids[k];
                if self.cells[cell_id].is_owned {
                    if self.cells[cell_id].owner == self.our_cell_value {
                        our_count += 1;
                    } else {
                        player_count += 1;
                    }
                }
                k += 1;
            }

            if player_count == 3 {
                return Ok(ActionStatus::PlayerWon);
            } else if our_count == 3 {
                return Ok(ActionStatus::AIWon);
            }
            i += 1;
        }

        if !self.is_cells_available() {
            return Ok(ActionStatus::Draw);
        }
        Ok(ActionStatus::Picked)
    }

    /// Takes the first free cell of the line `cell_ids` for the automated
    /// side. A line without a free cell is left as it is.
    fn place_in_line(&mut self, cell_ids: [usize; 3])
        requires
            on_board(cell_ids@),
        ensures
            final(self).automated_side() == old(self).automated_side(),
            final(self)@ == match first_free_in(old(self)@, cell_ids@) {
                Some(p) => with_mark(old(self)@, p, old(self).automated_side()),
                None => old(self)@,
            },
    {
        proof {
            use_type_invariant(&*self);
        }
        let mut k: usize = 0;
        while k < 3
            invariant
                k <= 3,
                on_board(cell_ids@),
                self.cells@.len() == 9,
                *self == *old(self),
                forall|j: int| 0 <= j < k ==> (#[trigger] self@[cell_ids@[j] as int]) is Some,
            decreases 3 - k,
        {
            let i: usize = cell_ids[k];
            if !self.cells[i].is_owned {
                self.cells[i].set_owner(self.our_cell_value).unwrap();
                assert(self@ =~= with_mark(old(self)@, i, old(self).automated_side()));
                return;
            }
            k += 1;
        }
    }

    /// The positions of the free cells, in ascending order.
    fn free_cell_ids(&self) -> (ids: Vec<usize>)
        ensures
            self@.len() == 9,
            ids@ == free_cells(self@),
    {
        proof {
            use_type_invariant(self);
        }
        let mut ids: Vec<usize> = Vec::new();
        let mut i: usize = 0;
        while i < 9
            invariant
                i <= 9,
                self.cells@.len() == 9,
                ids@ == free_below(self@, i as nat),
            decreases 9 - i,
        {
            if !self.cells[i].is_owned {
                ids.push(i);
            }
            i += 1;
        }
        ids
    }

    /// Takes the free cell that `roll` selects for the automated side and
    /// says how the game then stands. The free cells are numbered from 0 in
    /// ascending position order; a `roll` that selects none leaves the board
    /// as it is and fails.
    pub fn take_free_cell(&mut self, roll: usize) -> (res: Result<ActionStatus, ActionChoiceError>)
        ensures
            final(self).automated_side() == old(self).automated_side(),
            old(self)@.len() == 9,
            roll >= free_cells(old(self)@).len() ==> final(self)@ == old(self)@ && res == Err::<
                ActionStatus,
                ActionChoiceError,
            >(ActionChoiceError::NoChoiceMade),
            roll < free_cells(old(self)@).len() ==> final(self)@ == with_mark(
                old(self)@,
                free_cells(old(self)@)[roll as int],
                old(self).automated_side(),
            ) && res == Ok::<ActionStatus, ActionChoiceError>(
                status_of(final(self)@, old(self).automated_side()),
            ),
    {
        proof {
            use_type_invariant(&*self);
        }
        let free_cells = self.free_cell_ids();
        if roll >= free_cells.len() {
            return Err(ActionChoiceError::NoChoiceMade);
        }
        proof {
            lemma_free_cells_of_full(self@);
        }
        let p: usize = free_cells[roll];
        self.cells[p].set_owner(self.our_cell_value).unwrap();
        assert(self@ =~= with_mark(old(self)@, p, old(self).automated_side()));
        self.get_board_status()
    }

    /// Takes a free cell drawn at random for the automated side and says how
    /// the game then stands. Fails, changing nothing, on a board without a
    /// free cell.
    pub fn make_random_choice(&mut self) -> (res: Result<ActionStatus, ActionChoiceError>)
        ensures
            final(self).automated_side() == old(self).automated_side(),
            old(self)@.len() == 9,
            random_choice_result(old(self)@, final(self)@, old(self).automated_side(), res),
    {
        let free_cells = self.free_cell_ids();
        proof {
            lemma_free_cells_of_full(self@);
        }
        if free_cells.len() == 0 {
            return Err(ActionChoiceError::NoChoiceMade);
        }
        let roll = roll_below(free_cells.len());
        self.take_free_cell(roll)
    }

    /// Makes the move that cannot wait, if there is one, and a random move
    /// otherwise; then says how the game stands.
    ///
    /// The lines are scanned once, in their fixed order. The first line on
    /// which either side owns two cells while the third is free decides: its
    /// free cell is taken, whether that wins the game or stops the opponent
    /// from winning. A threat on an earlier line is therefore answered before
    /// a win on a later line is seen.
    fn make_crucial_move(&mut self) -> (res: Result<ActionStatus, ActionChoiceError>)
        ensures
            final(self).automated_side() == old(self).automated_side(),
            match crucial_move(old(self)@, old(self).automated_side()) {
                Some(p) => final(self)@ == with_mark(old(self)@, p, old(self).automated_side())
                    && res == Ok::<ActionStatus, ActionChoiceError>(
                    status_of(final(self)@, old(self).automated_side()),
                ),
                None => random_choice_result(
                    old(self)@,
                    final(self)@,
                    old(self).automated_side(),
                    res,
                ),
            },
    {
        proof {
            use_type_invariant(&*self);
        }
        let ghost us = self.our_cell_value;
        let lines = self.get_lines();

        let mut i: usize = 0;
        while i < 8
            invariant
                i <= 8,
                self.cells@.len() == 9,
                *self == *old(self),
                us == self.our_cell_value,
                forall|l: int| 0 <= l < 8 ==> (#[trigger] lines@[l])@ == line(l),
                first_crucial_line(self@, us, 0) == first_crucial_line(self@, us, i as nat),
            decreases 8 - i,
        {
            let ids: [usize; 3] = lines[i];
            assert(ids@ == line(i as int));
            if self.check_line_for_possible_outcome(ids) != LineOutcome::Nothing {
                proof {
                    lemma_crucial_line_has_free_cell(self@, ids@, us);
                }
                self.place_in_line(ids);
                return self.get_board_status();
            }
            i += 1;
        }

        return self.make_random_choice();
    }

    /// Plays one ply for the automated side.
    ///
    /// On a board where the game is over nothing is changed and the standing
    /// is returned. Otherwise exactly one free cell is taken: the one that a
    /// crucial move calls for, or, where no line calls for one, a free cell
    /// drawn at random; the standing after the move is returned. The call
    /// never fails: a game that goes on has a free cell.
    pub fn pick(&mut self) -> (res: Result<ActionStatus, ActionError>)
        ensures
            final(self).automated_side() == old(self).automated_side(),
            old(self)@.len() == 9,
            final(self)@.len() == 9,
            res is Ok,
            status_of(old(self)@, old(self).automated_side()) != ActionStatus::Picked ==> {
                &&& final(self)@ == old(self)@
                &&& res == Ok::<ActionStatus, ActionError>(
                    status_of(old(self)@, old(self).automated_side()),
                )
            },
            status_of(old(self)@, old(self).automated_side()) == ActionStatus::Picked ==> {
                &&& res == Ok::<ActionStatus, ActionError>(
                    status_of(final(self)@, old(self).automated_side()),
                )
                &&& match crucial_move(old(self)@, old(self).automated_side()) {
                    Some(p) => final(self)@ == with_mark(
                        old(self)@,
                        p,
                        old(self).automated_side(),
                    ),
                    None => takes_some_free_cell(
                        old(self)@,
                        final(self)@,
                        old(self).automated_side(),
                    ),
                }
            },
            differ_in_at_most_one_cell(old(self)@, final(self)@),
            keeps_marks(old(self)@, final(self)@),
    {
        proof {
            use_type_invariant(&*self);
        }
        let ghost us = self.our_cell_value;
        match self.get_board_status() {
            Ok(status) => {
                if status != ActionStatus::Picked {
                    assert(differ_in_at_most_one_cell(self@, self@)) by {
                        assert(agree_except_at(self@, self@, 0));
                    }
                    return Ok(status);
                }
            },
            Err(_err) => {},
        };

        proof {
            lemma_free_cells_of_full(self@);
            lemma_crucial_move_is_on_board(self@, us);
        }
        match self.make_crucial_move() {
            Ok(status) => {
                proof {
                    lemma_one_mark_changes_one_cell(old(self)@, self@, us);
                }
                Ok(status)
            },
            Err(_why) => Err(ActionError::NoFreeSpaces),
        }
    }

    /// The board in its nine-character encoding.
    pub fn get_board_string(&self) -> (body: String)
        ensures
            self@.len() == 9,
            body@ == encoding_of(self@),
    {
        proof {
            use_type_invariant(self);
        }
        let mut body = String::new();
        let mut i: usize = 0;
        while i < 9
            invariant
                i <= 9,
                self.cells@.len() == 9,
                body@ == encoding_of(self@).subrange(0, i as int),
            decreases 9 - i,
        {
            body.append(self.cells[i].get_char());
            assert(body@ =~= encoding_of(self@).subrange(0, i + 1));
            i += 1;
        }
        assert(body@ =~= encoding_of(self@));
        body
    }

    /// Loads the board from its nine-character encoding.
    ///
    /// A text whose length is not nine characters is refused and the board is
    /// left as it is. Otherwise each character is applied to the cell at its
    /// position: `-` leaves the cell alone, `X` marks it for the side that
    /// plays `X`, and any other character marks it for the other side. A cell
    /// is written once, so the cells that the text marks must be free; on a
    /// new board they all are.
    pub fn read_from_string(&mut self, input: &str) -> (res: Result<(), FormatError>)
        requires
            input@.len() == 9 ==> can_load(old(self)@, input@),
        ensures
            final(self).automated_side() == old(self).automated_side(),
            old(self)@.len() == 9,
            input@.len() != 9 ==> final(self)@ == old(self)@ && res == Err::<(), FormatError>(
                FormatError::WrongLength,
            ),
            input@.len() == 9 ==> final(self)@ == loaded(old(self)@, input@) && res == Ok::<
                (),
                FormatError,
            >(()),
            keeps_marks(old(self)@, final(self)@),
    {
        proof {
            use_type_invariant(&*self);
        }
        if input.unicode_len() != 9 {
            return Err(FormatError::WrongLength);
        }
        let mut i: usize = 0;
        while i < 9
            invariant
                i <= 9,
                input@.len() == 9,
                self.cells@.len() == 9,
                can_load(old(self)@, input@),
                self.automated_side() == old(self).automated_side(),
                self@ == loaded_upto(old(self)@, input@, i as int),
            decreases 9 - i,
        {
            let ic = input.get_char(i);
            if ic != '-' {
                let ghost before = self@;
                assert(before[i as int] == old(self)@[i as int]);
                assert(input@[i as int] != '-');
                assert(self.cells@[i as int].mark() == before[i as int]);
                self.cells[i].set_owner(ic == 'X').unwrap();
                assert(self@ =~= before.update(i as int, Some(ic == 'X')));
            }
            assert(self@ =~= loaded_upto(old(self)@, input@, i + 1));
            i += 1;
        }
        Ok(())
    }
}

} // verus!
