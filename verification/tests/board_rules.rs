use tictactoe::board::{
    ActionChoiceError, ActionError, ActionStatus, AlreadyOwnedError, Board, BoardCell,
    FormatError,
};

const LINES: [[usize; 3]; 8] = [
    [0, 1, 2],
    [3, 4, 5],
    [6, 7, 8],
    [0, 3, 6],
    [1, 4, 7],
    [2, 5, 8],
    [0, 4, 8],
    [2, 4, 6],
];

fn load(text: &str) -> Board {
    let mut board = Board::new();
    assert_eq!(board.read_from_string(text), Ok(()));
    board
}

/// The `n`-th of the 19683 boards, as its encoding.
fn nth_board(n: usize) -> String {
    let mut text = String::new();
    let mut rest = n;
    for _ in 0..9 {
        text.push(match rest % 3 {
            0 => '-',
            1 => 'X',
            _ => 'O',
        });
        rest /= 3;
    }
    text
}

fn owns_a_line(text: &str, side: char) -> bool {
    let cells: Vec<char> = text.chars().collect();
    LINES.iter().any(|l| l.iter().all(|&p| cells[p] == side))
}

fn differing_positions(before: &str, after: &str) -> Vec<usize> {
    let a: Vec<char> = before.chars().collect();
    let b: Vec<char> = after.chars().collect();
    (0..9).filter(|&i| a[i] != b[i]).collect()
}

#[test]
fn new_cell_is_free() {
    let cell = BoardCell::new();
    assert!(!cell.is_owned);
    assert!(!cell.owner);
    assert_eq!(cell.get_char(), "-");
}

#[test]
fn cell_shows_its_owner() {
    let mut x = BoardCell::new();
    assert_eq!(x.set_owner(true), Ok(()));
    assert!(x.is_owned);
    assert!(x.owner);
    assert_eq!(x.get_char(), "X");

    let mut o = BoardCell::new();
    assert_eq!(o.set_owner(false), Ok(()));
    assert!(o.is_owned);
    assert!(!o.owner);
    assert_eq!(o.get_char(), "O");
}

#[test]
fn cell_is_written_once() {
    let mut cell = BoardCell::new();
    assert_eq!(cell.set_owner(false), Ok(()));
    assert_eq!(cell.set_owner(true), Err(AlreadyOwnedError));
    assert!(cell.is_owned);
    assert!(!cell.owner);
    assert_eq!(cell.get_char(), "O");
}

#[test]
fn new_board_is_empty() {
    let board = Board::new();
    assert_eq!(board.get_board_string(), "---------");
    assert!(board.is_cells_available());
    assert_eq!(board.get_board_status(), Ok(ActionStatus::Picked));
}

#[test]
fn encoding_round_trips() {
    for text in ["---------", "XXXXXXXXX", "OOOOOOOOO", "XO-OX--XO", "-X-O-X-O-", "XOXXOOOX-"] {
        assert_eq!(load(text).get_board_string(), text);
    }
}

#[test]
fn encoding_round_trips_on_every_board() {
    for n in 0..19683 {
        let text = nth_board(n);
        assert_eq!(load(&text).get_board_string(), text);
    }
}

#[test]
fn other_characters_count_for_the_second_side() {
    assert_eq!(load("xo?-X-O- ").get_board_string(), "OOO-X-O-O");
    assert_eq!(load("XO\u{e9}------").get_board_string(), "XOO------");
}

#[test]
fn ten_characters_are_refused() {
    let mut board = Board::new();
    assert_eq!(board.read_from_string("XOXOXOXOXO"), Err(FormatError::WrongLength));
    assert_eq!(board.get_board_string(), "---------");
}

#[test]
fn wrong_lengths_are_refused() {
    for text in ["", "X", "XO-", "XOXOXOXO", "XOXOXOXOXO", "-------------------"] {
        let mut board = Board::new();
        assert_eq!(board.read_from_string(text), Err(FormatError::WrongLength));
        assert_eq!(board.get_board_string(), "---------");
    }
}

#[test]
fn length_is_counted_in_characters() {
    // Six characters in nine bytes.
    let mut board = Board::new();
    assert_eq!(
        board.read_from_string("\u{e9}\u{e9}\u{e9}---"),
        Err(FormatError::WrongLength)
    );
    assert_eq!(board.get_board_string(), "---------");
}

#[test]
fn dashes_leave_marked_cells_alone() {
    let mut board = load("X--------");
    assert_eq!(board.read_from_string("-O-------"), Ok(()));
    assert_eq!(board.get_board_string(), "XO-------");
}

#[test]
fn cells_available_until_the_board_is_full() {
    assert!(load("---------").is_cells_available());
    assert!(load("X--------").is_cells_available());
    assert!(load("XOXXOOOX-").is_cells_available());
    assert!(!load("XOXXOOOXX").is_cells_available());
}

#[test]
fn status_of_rows_columns_and_diagonals() {
    assert_eq!(load("XXX------").get_board_status(), Ok(ActionStatus::AIWon));
    assert_eq!(load("---XXX---").get_board_status(), Ok(ActionStatus::AIWon));
    assert_eq!(load("------XXX").get_board_status(), Ok(ActionStatus::AIWon));
    assert_eq!(load("X--X--X--").get_board_status(), Ok(ActionStatus::AIWon));
    assert_eq!(load("-X--X--X-").get_board_status(), Ok(ActionStatus::AIWon));
    assert_eq!(load("--X--X--X").get_board_status(), Ok(ActionStatus::AIWon));
    assert_eq!(load("X---X---X").get_board_status(), Ok(ActionStatus::AIWon));
    assert_eq!(load("--X-X-X--").get_board_status(), Ok(ActionStatus::AIWon));
    assert_eq!(load("OOO------").get_board_status(), Ok(ActionStatus::PlayerWon));
    assert_eq!(load("O--O--O--").get_board_status(), Ok(ActionStatus::PlayerWon));
    assert_eq!(load("--O-O-O--").get_board_status(), Ok(ActionStatus::PlayerWon));
    assert_eq!(load("O---O---O").get_board_status(), Ok(ActionStatus::PlayerWon));
}

#[test]
fn status_without_a_winner() {
    assert_eq!(load("---------").get_board_status(), Ok(ActionStatus::Picked));
    assert_eq!(load("XX-OO----").get_board_status(), Ok(ActionStatus::Picked));
    assert_eq!(load("XOXXOOOX-").get_board_status(), Ok(ActionStatus::Picked));
    assert_eq!(load("XOXXOOOXX").get_board_status(), Ok(ActionStatus::Draw));
    assert_eq!(load("XOXOOXXXO").get_board_status(), Ok(ActionStatus::Draw));
}

#[test]
fn first_owned_line_in_scan_order_decides() {
    assert_eq!(load("XXXOOO---").get_board_status(), Ok(ActionStatus::AIWon));
    assert_eq!(load("OOOXXX---").get_board_status(), Ok(ActionStatus::PlayerWon));
    assert_eq!(load("---OOOXXX").get_board_status(), Ok(ActionStatus::PlayerWon));
}

#[test]
fn status_follows_the_owned_lines_on_every_board() {
    for n in 0..19683 {
        let text = nth_board(n);
        let ours = owns_a_line(&text, 'X');
        let theirs = owns_a_line(&text, 'O');
        let full = !text.contains('-');
        let status = load(&text).get_board_status().unwrap();
        if ours && theirs {
            assert!(status == ActionStatus::AIWon || status == ActionStatus::PlayerWon);
        } else if ours {
            assert_eq!(status, ActionStatus::AIWon);
        } else if theirs {
            assert_eq!(status, ActionStatus::PlayerWon);
        } else if full {
            assert_eq!(status, ActionStatus::Draw);
        } else {
            assert_eq!(status, ActionStatus::Picked);
        }
    }
}

#[test]
fn pick_completes_a_line() {
    let mut board = load("XX-------");
    assert_eq!(board.pick(), Ok(ActionStatus::AIWon));
    assert_eq!(board.get_board_string(), "XXX------");
}

#[test]
fn pick_blocks_a_line() {
    let mut board = load("OO-------");
    assert_eq!(board.pick(), Ok(ActionStatus::Picked));
    assert_eq!(board.get_board_string(), "OOX------");
}

#[test]
fn pick_answers_the_first_line_that_calls_for_a_move() {
    // The threat on the top row comes before the win on the middle row.
    let mut board = load("OO-XX----");
    assert_eq!(board.pick(), Ok(ActionStatus::Picked));
    assert_eq!(board.get_board_string(), "OOXXX----");

    // Here the win comes first.
    let mut board = load("XX-OO----");
    assert_eq!(board.pick(), Ok(ActionStatus::AIWon));
    assert_eq!(board.get_board_string(), "XXXOO----");
}

#[test]
fn pick_takes_the_free_cell_of_a_column_or_diagonal() {
    let mut board = load("O---X-O--");
    assert_eq!(board.pick(), Ok(ActionStatus::Picked));
    assert_eq!(board.get_board_string(), "O--XX-O--");

    let mut board = load("X-O-X-O--");
    assert_eq!(board.pick(), Ok(ActionStatus::AIWon));
    assert_eq!(board.get_board_string(), "X-O-X-O-X");
}

#[test]
fn pick_skips_mixed_lines() {
    // No line holds two marks of one side beside a free cell, and one cell is free.
    let mut board = load("XOXXOOOX-");
    assert_eq!(board.pick(), Ok(ActionStatus::Draw));
    assert_eq!(board.get_board_string(), "XOXXOOOXX");
}

#[test]
fn pick_leaves_a_won_board_alone() {
    let mut board = load("XOXOXOXO-");
    assert_eq!(board.pick(), Ok(ActionStatus::AIWon));
    assert_eq!(board.get_board_string(), "XOXOXOXO-");

    let mut board = load("OOO-XX---");
    assert_eq!(board.pick(), Ok(ActionStatus::PlayerWon));
    assert_eq!(board.get_board_string(), "OOO-XX---");
}

#[test]
fn pick_leaves_a_drawn_board_alone() {
    let mut board = load("XOXXOOOXX");
    assert_eq!(board.pick(), Ok(ActionStatus::Draw));
    assert_eq!(board.get_board_string(), "XOXXOOOXX");
}

#[test]
fn pick_on_an_empty_board_takes_one_cell() {
    let mut board = load("---------");
    assert_eq!(board.pick(), Ok(ActionStatus::Picked));
    let after = board.get_board_string();
    assert_eq!(after.chars().filter(|&c| c == 'X').count(), 1);
    assert_eq!(after.chars().filter(|&c| c == '-').count(), 8);
}

#[test]
fn pick_on_an_empty_board_reaches_every_cell() {
    let mut seen = [0usize; 9];
    for _ in 0..9000 {
        let mut board = load("---------");
        assert_eq!(board.pick(), Ok(ActionStatus::Picked));
        let after = board.get_board_string();
        let changed = differing_positions("---------", &after);
        assert_eq!(changed.len(), 1);
        seen[changed[0]] += 1;
    }
    for count in seen {
        assert!(count > 700 && count < 1300, "counts: {:?}", seen);
    }
}

#[test]
fn pick_changes_at_most_one_cell_on_every_board() {
    for n in 0..19683 {
        let before = nth_board(n);
        let mut board = load(&before);
        let status_before = board.get_board_status().unwrap();
        let result: Result<ActionStatus, ActionError> = board.pick();
        let after = board.get_board_string();
        let changed = differing_positions(&before, &after);
        if status_before != ActionStatus::Picked {
            assert_eq!(result, Ok(status_before));
            assert!(changed.is_empty());
        } else {
            assert_eq!(changed.len(), 1);
            assert_eq!(before.chars().nth(changed[0]), Some('-'));
            assert_eq!(after.chars().nth(changed[0]), Some('X'));
            assert_eq!(result, Ok(board.get_board_status().unwrap()));
        }
    }
}

#[test]
fn take_free_cell_counts_free_cells_in_order() {
    // Free cells: 1, 3, 5, 7, 8.
    let mut board = load("X-O-X-O--");
    assert_eq!(board.take_free_cell(2), Ok(ActionStatus::Picked));
    assert_eq!(board.get_board_string(), "X-O-XXO--");

    let mut board = load("X-O-X-O--");
    assert_eq!(board.take_free_cell(0), Ok(ActionStatus::Picked));
    assert_eq!(board.get_board_string(), "XXO-X-O--");

    let mut board = load("X-O-X-O--");
    assert_eq!(board.take_free_cell(4), Ok(ActionStatus::AIWon));
    assert_eq!(board.get_board_string(), "X-O-X-O-X");
}

#[test]
fn take_free_cell_refuses_a_roll_beyond_the_free_cells() {
    let mut board = load("X-O-X-O--");
    assert_eq!(board.take_free_cell(5), Err(ActionChoiceError::NoChoiceMade));
    assert_eq!(board.get_board_string(), "X-O-X-O--");

    let mut board = load("XOXXOOOXX");
    assert_eq!(board.take_free_cell(0), Err(ActionChoiceError::NoChoiceMade));
    assert_eq!(board.get_board_string(), "XOXXOOOXX");
}

#[test]
fn random_choice_takes_a_free_cell() {
    for _ in 0..200 {
        let mut board = load("XO--O--X-");
        let result = board.make_random_choice();
        let after = board.get_board_string();
        let changed = differing_positions("XO--O--X-", &after);
        assert_eq!(changed.len(), 1);
        assert!([2, 3, 5, 6, 8].contains(&changed[0]));
        assert_eq!(after.chars().nth(changed[0]), Some('X'));
        assert_eq!(result, board.get_board_status());
    }
}

#[test]
fn random_choice_takes_the_last_free_cell() {
    let mut board = load("XOXXOOOX-");
    assert_eq!(board.make_random_choice(), Ok(ActionStatus::Draw));
    assert_eq!(board.get_board_string(), "XOXXOOOXX");
}

#[test]
fn random_choice_fails_on_a_full_board() {
    let mut board = load("XOXXOOOXX");
    assert_eq!(board.make_random_choice(), Err(ActionChoiceError::NoChoiceMade));
    assert_eq!(board.get_board_string(), "XOXXOOOXX");
}
