use minimax_game::driver::{GamePlayer, Phase};
use minimax_game::evaluate::{EmptyEvaluator, Evaluator, TerminalStateEvaluator};
use minimax_game::game::{GameResult, Player};
use minimax_game::strategy::{RandomStrat, Strategy, TerminalStateStrategy};
use minimax_game::tic_tac_toe::{BoardState, Move};

fn at(k: usize) -> Move {
    Move::at_cell(k).unwrap()
}

fn board_after(cells: &[usize]) -> BoardState {
    let mut board = BoardState::new();
    for k in cells {
        assert!(board.try_move(&at(*k)));
    }
    board
}

#[test]
fn the_empty_evaluator_says_nothing() {
    let board = BoardState::new();
    let evaluator = <EmptyEvaluator as Evaluator<BoardState>>::new();
    assert_eq!(evaluator.evaluate(&board, &at(4)), ());
}

#[test]
fn the_terminal_evaluator_reports_the_next_result() {
    let evaluator = <TerminalStateEvaluator as Evaluator<BoardState>>::new();
    let board = board_after(&[0, 3, 1, 4]);
    assert_eq!(evaluator.evaluate(&board, &at(2)), GameResult::Win(Player::One));
    assert_eq!(evaluator.evaluate(&board, &at(8)), GameResult::Undetermined);
    let nearly_full = board_after(&[0, 1, 2, 4, 3, 5, 7, 6]);
    assert_eq!(evaluator.evaluate(&nearly_full, &at(8)), GameResult::Draw);
    // The evaluated state is left as it was.
    assert_eq!(board, board_after(&[0, 3, 1, 4]));
}

#[test]
fn random_play_picks_a_legal_move() {
    let strategy = <RandomStrat as Strategy<BoardState, EmptyEvaluator>>::new();
    let board = board_after(&[4, 0, 8]);
    let legal = board.legal_moves();
    for _ in 0..50 {
        let choice = strategy.choose_move(&board, &EmptyEvaluator).unwrap();
        assert!(legal.contains(&choice));
        assert!(board.move_is_legal(&choice));
    }
}

#[test]
fn random_play_reaches_every_legal_move() {
    let strategy = RandomStrat;
    let board = board_after(&[4, 0, 8, 2, 1, 7]);
    let mut seen = [false; 9];
    for _ in 0..2000 {
        let choice = strategy.choose_move(&board, &EmptyEvaluator).unwrap();
        seen[choice.index()] = true;
    }
    assert_eq!(seen, [false, false, false, true, false, true, true, false, false]);
}

#[test]
fn random_play_has_no_move_when_the_game_is_over() {
    let strategy = RandomStrat;
    let won = board_after(&[0, 3, 1, 4, 2]);
    assert_eq!(strategy.choose_move(&won, &EmptyEvaluator), None);
    let drawn = board_after(&[0, 1, 2, 4, 3, 5, 7, 6, 8]);
    assert_eq!(strategy.choose_move(&drawn, &EmptyEvaluator), None);
}

#[test]
fn look_ahead_takes_the_win() {
    let strategy = <TerminalStateStrategy as Strategy<BoardState, TerminalStateEvaluator>>::new();
    let board = board_after(&[0, 3, 1, 4]);
    assert_eq!(strategy.choose_move(&board, &TerminalStateEvaluator), Some(at(2)));
    // Player two wins at cell 5 rather than blocking at cell 2.
    let board = board_after(&[0, 3, 1, 4, 8]);
    assert_eq!(strategy.choose_move(&board, &TerminalStateEvaluator), Some(at(5)));
}

#[test]
fn look_ahead_blocks_the_opponent() {
    let strategy = TerminalStateStrategy;
    let board = board_after(&[0, 4, 1]);
    assert_eq!(strategy.choose_move(&board, &TerminalStateEvaluator), Some(at(2)));
    let board = board_after(&[4, 0, 8, 2]);
    assert_eq!(strategy.choose_move(&board, &TerminalStateEvaluator), Some(at(1)));
}

#[test]
fn look_ahead_takes_the_first_move_when_all_are_alike() {
    let strategy = TerminalStateStrategy;
    assert_eq!(strategy.choose_move(&BoardState::new(), &TerminalStateEvaluator), Some(at(0)));
    // Player one threatens cells 5 and 6 at once: nothing saves player two.
    let lost = board_after(&[0, 1, 4, 8, 3]);
    assert_eq!(strategy.choose_move(&lost, &TerminalStateEvaluator), Some(at(2)));
}

#[test]
fn look_ahead_has_no_move_when_the_game_is_over() {
    let strategy = TerminalStateStrategy;
    let won = board_after(&[0, 3, 1, 4, 2]);
    assert_eq!(strategy.choose_move(&won, &TerminalStateEvaluator), None);
    let drawn = board_after(&[0, 1, 2, 4, 3, 5, 7, 6, 8]);
    assert_eq!(strategy.choose_move(&drawn, &TerminalStateEvaluator), None);
}

#[test]
fn a_new_driver_starts_in_progress() {
    let game: GamePlayer<BoardState, TerminalStateEvaluator, TerminalStateStrategy> =
        GamePlayer::new();
    assert_eq!(*game.state(), BoardState::new());
    assert_eq!(game.phase(), Phase::InProgress);
}

#[test]
fn step_plays_one_ply() {
    let mut game = GamePlayer::from(BoardState::new(), TerminalStateEvaluator, TerminalStateStrategy);
    assert_eq!(game.step(), Some(at(0)));
    assert_eq!(*game.state(), board_after(&[0]));
    assert_eq!(game.step(), Some(at(1)));
    assert_eq!(*game.state(), board_after(&[0, 1]));
    assert_eq!(game.phase(), Phase::InProgress);
}

#[test]
fn step_leaves_a_finished_game_alone() {
    let won = board_after(&[0, 3, 1, 4, 2]);
    let mut game = GamePlayer::from(won, EmptyEvaluator, RandomStrat);
    assert_eq!(game.phase(), Phase::WonBy(Player::One));
    assert_eq!(game.step(), None);
    assert_eq!(*game.state(), won);
    assert_eq!(game.play(), GameResult::Win(Player::One));
    assert_eq!(*game.state(), won);
}

#[test]
fn look_ahead_against_itself_plays_to_the_end() {
    let mut game = GamePlayer::from(BoardState::new(), TerminalStateEvaluator, TerminalStateStrategy);
    let mut replay = BoardState::new();
    let strategy = TerminalStateStrategy;
    while let Some(mov) = strategy.choose_move(&replay, &TerminalStateEvaluator) {
        replay.apply_move(&mov);
    }
    let result = game.play();
    assert!(result.is_determined());
    assert_eq!(result, game.state().game_result());
    assert_eq!(*game.state(), replay);
    assert!(game.state().legal_moves().is_empty());
    assert_eq!(game.phase(), Phase::from_result(result));
}

#[test]
fn random_play_ends_every_game() {
    for _ in 0..100 {
        let mut game = GamePlayer::from(BoardState::new(), EmptyEvaluator, RandomStrat);
        let result = game.play();
        assert!(result.is_determined());
        assert_eq!(result, game.state().game_result());
        assert!(game.state().legal_moves().is_empty());
        assert!(game.state().occupancy().count_ones() >= 5);
    }
}

#[test]
fn play_goes_on_from_a_given_state() {
    let start = board_after(&[0, 3, 1, 4]);
    let mut game = GamePlayer::from(start, TerminalStateEvaluator, TerminalStateStrategy);
    assert_eq!(game.play(), GameResult::Win(Player::One));
    assert_eq!(*game.state(), board_after(&[0, 3, 1, 4, 2]));
}
