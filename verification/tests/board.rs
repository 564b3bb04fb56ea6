use minimax_game::game::{GameResult, GameState, Player};
use minimax_game::bitboard::{DRAW, WINNING_POSITIONS};
use minimax_game::tic_tac_toe::{BoardState, Move, Piece};

fn cell(k: usize) -> Move {
    Move::at_cell(k).unwrap()
}

fn play_cells(cells: &[usize]) -> BoardState {
    let mut board = BoardState::new();
    for k in cells {
        assert!(board.try_move(&cell(*k)));
    }
    board
}

fn cells_of(moves: &[Move]) -> Vec<usize> {
    moves.iter().map(|m| m.index()).collect()
}

#[test]
fn test_move() {
    let mut board1 = BoardState::new();
    let mut board2 = BoardState::new();
    board1.apply_move(&cell(0));
    board1.apply_move(&cell(1));
    board2.apply_move(&cell(1));
    board2.apply_move(&cell(0));

    assert_eq!(board1.occupancy(), board2.occupancy())
}

#[test]
fn moves_in_either_order_fill_the_same_cells() {
    for a in 0..9 {
        for b in 0..9 {
            if a == b {
                continue;
            }
            let first = play_cells(&[a, b]);
            let second = play_cells(&[b, a]);
            assert_eq!(first.occupancy(), second.occupancy());
            assert_eq!(first.occupancy(), (1u16 << a) | (1u16 << b));
            assert_eq!(first.current_player(), second.current_player());
            assert_eq!(first.current_player(), Player::One);
        }
    }
}

#[test]
fn the_first_of_two_cells_goes_to_player_one() {
    let first = play_cells(&[0, 1]);
    let second = play_cells(&[1, 0]);
    assert_eq!(first.piece_at(0), Piece::X);
    assert_eq!(first.piece_at(1), Piece::O);
    assert_eq!(second.piece_at(0), Piece::O);
    assert_eq!(second.piece_at(1), Piece::X);
    assert_ne!(first, second);
}

#[test]
fn new_board_is_empty_with_player_one_to_move() {
    let board = BoardState::new();
    assert_eq!(board.occupancy(), 0);
    assert_eq!(board.current_player(), Player::One);
    assert_eq!(board.last_player(), Player::Two);
    assert_eq!(board.game_result(), GameResult::Undetermined);
    assert_eq!(cells_of(&board.legal_moves()), vec![0, 1, 2, 3, 4, 5, 6, 7, 8]);
    assert_eq!(board, BoardState::pick_piece_new(Piece::X));
    assert_eq!(board, <BoardState as GameState>::new());
}

#[test]
fn pick_piece_changes_only_the_symbols() {
    let mut with_o = BoardState::pick_piece_new(Piece::O);
    let mut with_x = BoardState::new();
    for k in [4usize, 0, 8] {
        with_o.apply_move(&cell(k));
        with_x.apply_move(&cell(k));
    }
    assert_eq!(with_o.piece_at(4), Piece::O);
    assert_eq!(with_o.piece_at(0), Piece::X);
    assert_eq!(with_o.piece_at(1), Piece::Empty);
    assert_eq!(with_x.piece_at(4), Piece::X);
    assert_eq!(with_o.game_result(), with_x.game_result());
    assert_eq!(cells_of(&with_o.legal_moves()), cells_of(&with_x.legal_moves()));
    assert_eq!(with_o.occupancy(), with_x.occupancy());
}

#[test]
fn at_cell_knows_nine_cells() {
    for k in 0..9 {
        let m = Move::at_cell(k).unwrap();
        assert_eq!(m.index(), k);
    }
    assert_eq!(Move::at_cell(9), None);
    assert_eq!(Move::at_cell(usize::MAX), None);
    assert_ne!(Move::at_cell(0), Move::at_cell(1));
}

#[test]
fn a_taken_cell_is_never_legal_again() {
    let order = [4usize, 0, 8, 2, 1, 7, 6];
    let mut board = BoardState::new();
    let mut taken: Vec<usize> = Vec::new();
    for k in order {
        let before = cells_of(&board.legal_moves());
        assert!(board.move_is_legal(&cell(k)));
        board.apply_move(&cell(k));
        taken.push(k);
        for t in &taken {
            assert!(!board.move_is_legal(&cell(*t)));
        }
        for free in 0..9 {
            if !taken.contains(&free) {
                assert!(board.move_is_legal(&cell(free)));
            }
        }
        if board.game_result() == GameResult::Undetermined {
            let after = cells_of(&board.legal_moves());
            let expected: Vec<usize> = before.into_iter().filter(|c| *c != k).collect();
            assert_eq!(after, expected);
        }
    }
}

#[test]
fn try_move_refuses_a_taken_cell_and_changes_nothing() {
    let mut board = play_cells(&[4]);
    let copy = board;
    assert!(!board.try_move(&cell(4)));
    assert_eq!(board, copy);
    assert_eq!(board.current_player(), Player::Two);
    assert!(board.try_move(&cell(5)));
    assert_eq!(board.piece_at(5), Piece::O);
    assert_eq!(board.current_player(), Player::One);
}

#[test]
fn next_state_is_a_copy_with_the_move_applied() {
    let board = play_cells(&[0, 4]);
    let copy = board;
    let next = board.next_state(&cell(8));
    assert_eq!(board, copy);
    let mut applied = board;
    applied.apply_move(&cell(8));
    assert_eq!(next, applied);
    assert_eq!(next, GameState::next_state(&board, &cell(8)));
    assert_eq!(next.occupancy(), 0b1_0001_0001);
    assert_eq!(next.current_player(), Player::Two);
}

#[test]
fn top_row_wins_for_player_one() {
    let board = play_cells(&[0, 3, 1, 4, 2]);
    assert_eq!(board.game_result(), GameResult::Win(Player::One));
    assert_eq!(GameState::game_result(&board), GameResult::Win(Player::One));
    assert!(board.legal_moves().is_empty());
    assert!(GameState::legal_moves(&board).is_empty());
    assert!(board.last_player_is_winner());
    assert!(!board.current_player_is_winner());
    assert!(board.is_winner(&Player::One));
    assert!(!board.is_winner(&Player::Two));
    assert_eq!(board.get_winner(), Some(Player::One));
    assert!(!board.is_draw());
    assert!(board.reachable_states().is_empty());
}

#[test]
fn the_game_is_undetermined_until_the_line_is_complete() {
    let mut board = BoardState::new();
    for k in [0usize, 3, 1, 4] {
        board.apply_move(&cell(k));
        assert_eq!(board.game_result(), GameResult::Undetermined);
        assert_eq!(board.get_winner(), None);
    }
    assert_eq!(cells_of(&board.legal_moves()), vec![2, 5, 6, 7, 8]);
}

#[test]
fn a_full_board_without_a_line_is_a_draw() {
    let order = [0usize, 1, 2, 4, 3, 5, 7, 6, 8];
    let mut board = BoardState::new();
    for (ply, k) in order.iter().enumerate() {
        assert_eq!(board.game_result(), GameResult::Undetermined);
        assert_eq!(board.legal_moves().len(), 9 - ply);
        board.apply_move(&cell(*k));
    }
    assert_eq!(board.game_result(), GameResult::Draw);
    assert!(board.is_draw());
    assert_eq!(board.get_winner(), None);
    assert!(board.legal_moves().is_empty());
    assert_eq!(board.occupancy(), DRAW);
}

#[test]
fn the_middle_row_ends_the_game_at_the_seventh_ply() {
    let order = [0usize, 1, 3, 2, 4, 6];
    let mut board = play_cells(&order);
    assert_eq!(board.game_result(), GameResult::Undetermined);
    board.apply_move(&cell(5));
    assert_eq!(board.game_result(), GameResult::Win(Player::One));
    assert!(board.legal_moves().is_empty());
    assert!(!board.is_draw());
    // Cells 7 and 8 are still empty, so the unchecked path can go on.
    board.apply_move(&cell(7));
    board.apply_move(&cell(8));
    assert_eq!(board.occupancy(), DRAW);
    assert!(!board.is_draw());
    assert_eq!(board.game_result(), GameResult::Win(Player::One));
}

#[test]
fn a_full_board_with_a_line_is_no_draw() {
    let board = play_cells(&[0, 2, 1, 3, 5, 6, 8, 7, 4]);
    assert_eq!(board.occupancy(), DRAW);
    assert!(!board.is_draw());
    assert_eq!(board.game_result(), GameResult::Win(Player::One));
    assert_eq!(board.get_winner(), Some(Player::One));
    // The same cells with the side to move changed: still a win, still no draw.
    let set_up = BoardState::from_masks(0b1_0011_0011, 0b0_1100_1100, Player::One, Piece::X);
    let set_up = set_up.unwrap();
    assert_eq!(set_up.occupancy(), DRAW);
    assert!(!set_up.is_draw());
    assert_eq!(set_up.game_result(), GameResult::Win(Player::One));
}

#[test]
fn each_line_wins_for_player_one() {
    let lines: [[usize; 3]; 8] =
        [[0, 1, 2], [3, 4, 5], [6, 7, 8], [0, 3, 6], [1, 4, 7], [2, 5, 8], [0, 4, 8], [2, 4, 6]];
    for (i, line) in lines.iter().enumerate() {
        let others: Vec<usize> = (0..9).filter(|k| !line.contains(k)).collect();
        let board = play_cells(&[line[0], others[0], line[1], others[1], line[2]]);
        assert_eq!(board.game_result(), GameResult::Win(Player::One));
        assert!(board.is_winner(&Player::One));
        assert!(!board.is_winner(&Player::Two));
        assert!(board.legal_moves().is_empty());
        let mask = (1u16 << line[0]) | (1u16 << line[1]) | (1u16 << line[2]);
        assert_eq!(WINNING_POSITIONS[i], mask);
    }
}

#[test]
fn each_line_wins_for_player_two() {
    let lines: [[usize; 3]; 8] =
        [[0, 1, 2], [3, 4, 5], [6, 7, 8], [0, 3, 6], [1, 4, 7], [2, 5, 8], [0, 4, 8], [2, 4, 6]];
    let spare: [[usize; 3]; 8] =
        [[3, 4, 8], [0, 1, 8], [0, 1, 5], [1, 2, 4], [0, 2, 3], [0, 1, 3], [1, 2, 3], [0, 1, 5]];
    for (line, other) in lines.iter().zip(spare.iter()) {
        let board = play_cells(&[other[0], line[0], other[1], line[1], other[2], line[2]]);
        assert_eq!(board.game_result(), GameResult::Win(Player::Two));
        assert_eq!(board.get_winner(), Some(Player::Two));
        assert!(board.last_player_is_winner());
        assert_eq!(board.current_player(), Player::One);
    }
}

#[test]
fn a_line_wins_whatever_else_is_on_the_board() {
    for (i, line) in WINNING_POSITIONS.iter().enumerate() {
        for player in [Player::One, Player::Two] {
            for to_move in [Player::One, Player::Two] {
                // The opponent holds none, one, two or three of the other cells.
                let spare: Vec<u16> =
                    (0..9).map(|k| 1u16 << k).filter(|bit| line & bit == 0).collect();
                let holdings =
                    [0, spare[0], spare[1] | spare[4], spare[0] | spare[3] | spare[5]];
                for other in holdings {
                    if WINNING_POSITIONS.iter().any(|w| other & w == *w) {
                        continue;
                    }
                    let board = match player {
                        Player::One => BoardState::from_masks(*line, other, to_move, Piece::X),
                        Player::Two => BoardState::from_masks(other, *line, to_move, Piece::X),
                    }
                    .unwrap();
                    assert_eq!(board.game_result(), GameResult::Win(player), "line {}", i);
                    assert!(board.is_winner(&player));
                    assert!(!board.is_winner(&player.other_player()));
                    assert_eq!(board.current_player_is_winner(), to_move == player);
                    assert_eq!(board.last_player_is_winner(), to_move != player);
                    assert!(board.legal_moves().is_empty());
                }
            }
        }
    }
}

#[test]
fn with_two_lines_the_last_mover_wins() {
    let board = BoardState::from_masks(0b000_000_111, 0b000_111_000, Player::One, Piece::X);
    let board = board.unwrap();
    assert_eq!(board.game_result(), GameResult::Win(Player::Two));
    let board = BoardState::from_masks(0b000_000_111, 0b000_111_000, Player::Two, Piece::X);
    assert_eq!(board.unwrap().game_result(), GameResult::Win(Player::One));
}

#[test]
fn from_masks_refuses_what_is_no_board() {
    assert_eq!(BoardState::from_masks(0b1, 0b1, Player::One, Piece::X), None);
    assert_eq!(BoardState::from_masks(0b11, 0b110, Player::One, Piece::X), None);
    assert_eq!(BoardState::from_masks(0x200, 0, Player::One, Piece::X), None);
    assert_eq!(BoardState::from_masks(0, 0x8000, Player::Two, Piece::O), None);
    assert_eq!(BoardState::from_masks(0, 0, Player::One, Piece::X), Some(BoardState::new()));
    let played = play_cells(&[4, 0, 8]);
    assert_eq!(
        BoardState::from_masks(0b1_0001_0000, 0b1, Player::Two, Piece::X),
        Some(played)
    );
    let full = BoardState::from_masks(0b1_1000_1101, 0b0_0111_0010, Player::Two, Piece::X);
    assert_eq!(full, Some(play_cells(&[0, 1, 2, 4, 3, 5, 7, 6, 8])));
}

#[test]
fn game_result_can_be_asked_again_and_again() {
    let board = play_cells(&[4, 0, 8]);
    let first = board.game_result();
    let copy = board;
    for _ in 0..5 {
        assert_eq!(board.game_result(), first);
        assert_eq!(board, copy);
    }
}

#[test]
fn reachable_states_follow_the_legal_moves() {
    let board = play_cells(&[4, 0]);
    let moves = board.legal_moves();
    let states = board.reachable_states();
    let pairs = board.states_and_moves();
    assert_eq!(cells_of(&moves), vec![1, 2, 3, 5, 6, 7, 8]);
    assert_eq!(states.len(), moves.len());
    assert_eq!(pairs.len(), moves.len());
    for i in 0..moves.len() {
        assert_eq!(states[i], board.next_state(&moves[i]));
        assert_eq!(pairs[i].0, states[i]);
        assert_eq!(pairs[i].1, moves[i]);
        assert_eq!(states[i].current_player(), Player::Two);
    }
}

#[test]
fn the_board_is_drawn_row_by_row() {
    let empty = BoardState::new();
    assert_eq!(empty.render(), "_|_|_\n_|_|_\n_|_|_\n");
    let board = play_cells(&[0, 3, 1, 4, 2]);
    assert_eq!(board.display_row(0), "X|X|X\n");
    assert_eq!(board.display_row(1), "O|O|_\n");
    assert_eq!(board.display_row(2), "_|_|_\n");
    assert_eq!(board.render(), "X|X|X\nO|O|_\n_|_|_\n");
    let mut swapped = BoardState::pick_piece_new(Piece::O);
    swapped.apply_move(&cell(8));
    swapped.apply_move(&cell(6));
    assert_eq!(swapped.render(), "_|_|_\n_|_|_\nX|_|O\n");
}

#[test]
fn pieces_have_opposites_and_symbols() {
    assert_eq!(Piece::X.other(), Piece::O);
    assert_eq!(Piece::O.other(), Piece::X);
    assert_eq!(Piece::Empty.other(), Piece::Empty);
    assert_eq!(Piece::X.as_str(), "X");
    assert_eq!(Piece::O.as_str(), "O");
    assert_eq!(Piece::Empty.as_str(), "_");
    assert_eq!(Piece::default(), Piece::X);
}
