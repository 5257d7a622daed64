use quoridor::ai::{evaluate, AgentError};
use quoridor::ai::greedy::{best_move, GreedyAiPlayer};
use quoridor::ai::mcts::{interpret_evaluation_for_player, MctsAiPlayer, MctsError, QuoridorState};
use quoridor::ai::rubot::QuoridorGame;
use quoridor::bitpacked::BoardV2;
use quoridor::moves::{all_moves, Error};
use quoridor::replay::Replay;
use quoridor::{Direction, Move, Orientation, Player};
use std::convert::TryInto;

fn step(d: Direction) -> Move {
    Move::MoveToken(d)
}

fn wall(orientation: Orientation, x: u8, y: u8) -> Move {
    Move::AddWall {
        orientation,
        location: (x, y),
    }
}

fn golden() -> Vec<Move> {
    vec![
        step(Direction::Down),
        step(Direction::Up),
        step(Direction::Down),
        step(Direction::Up),
        step(Direction::Down),
        step(Direction::Up),
        step(Direction::Down),
        wall(Orientation::Horizontal, 3, 5),
        step(Direction::Right),
        wall(Orientation::Horizontal, 5, 4),
        wall(Orientation::Horizontal, 3, 4),
        step(Direction::Left),
        wall(Orientation::Vertical, 2, 4),
        wall(Orientation::Vertical, 5, 3),
        wall(Orientation::Horizontal, 7, 4),
        wall(Orientation::Vertical, 2, 2),
        wall(Orientation::Horizontal, 5, 5),
        step(Direction::Right),
        wall(Orientation::Vertical, 2, 6),
        step(Direction::Right),
    ]
}

/// The score of every legal move, worked out from the board alone.
fn scores(board: &BoardV2, player: Player) -> Vec<(Move, i8)> {
    all_moves()
        .into_iter()
        .filter(|m| board.is_legal(player, m))
        .map(|m| {
            let mut next = *board;
            next.apply_move(&m, player).unwrap();
            let them = next.distance_to_goal(player.other()).unwrap() as i8;
            let me = next.distance_to_goal(player).unwrap() as i8;
            (m, them - me)
        })
        .collect()
}

#[test]
fn greedy_agents_play_the_golden_transcript() {
    let mut one = GreedyAiPlayer::new(BoardV2::empty(), Player::Player1);
    let mut two = GreedyAiPlayer::new(BoardV2::empty(), Player::Player1);
    let mut transcript: Vec<Move> = Vec::new();
    for ply in 0..20 {
        let m = if ply % 2 == 0 {
            let m = one.receive().unwrap();
            two.send(&m).unwrap();
            m
        } else {
            let m = two.receive().unwrap();
            one.send(&m).unwrap();
            m
        };
        transcript.push(m);
    }
    assert_eq!(transcript, golden());
}

#[test]
fn greedy_choice_is_the_first_of_the_best() {
    let mut board = BoardV2::empty();
    let mut player = Player::Player1;
    for expected in golden() {
        let scored = scores(&board, player);
        let top = scored.iter().map(|(_, s)| *s).max().unwrap();
        let first = scored.iter().find(|(_, s)| *s == top).unwrap().0;
        assert_eq!(first, expected);
        assert_eq!(best_move(board, player), Ok(expected));
        assert!(board.is_legal(player, &expected));
        board.apply_move(&expected, player).unwrap();
        player = player.other();
    }
    assert_eq!(board.repr_string(), "1152974281970286592 8796098527232 42 51 5 6");
    assert_eq!(board.distance_to_goal(Player::Player1), Some(13));
    assert_eq!(board.distance_to_goal(Player::Player2), Some(18));
}

#[test]
fn heuristic_of_a_board() {
    let mut board = BoardV2::empty();
    assert_eq!(evaluate(&board, Player::Player1), 0);
    board.move_token(Player::Player1, Direction::Down).unwrap();
    assert_eq!(evaluate(&board, Player::Player1), 1);
    assert_eq!(evaluate(&board, Player::Player2), -1);
    board.player2_pos = (0, 0).try_into().unwrap();
    board.player1_pos = (8, 0).try_into().unwrap();
    assert_eq!(evaluate(&board, Player::Player1), -8);
    assert_eq!(evaluate(&board, Player::Player2), 8);
}

#[test]
fn heuristic_of_a_board_with_a_player_shut_in() {
    let mut board = BoardV2::empty();
    for x in [0u8, 2, 4, 6] {
        board
            .add_wall(Player::Player1, (x, 3), Orientation::Horizontal)
            .unwrap();
    }
    board
        .add_wall(Player::Player2, (7, 4), Orientation::Vertical)
        .unwrap();
    board
        .add_wall(Player::Player2, (7, 5), Orientation::Horizontal)
        .unwrap();
    assert_eq!(evaluate(&board, Player::Player1), 100);
    assert_eq!(evaluate(&board, Player::Player2), 100);
    assert_eq!(QuoridorState::new(board).evaluate(), 100);
    board.player1_pos = (0, 8).try_into().unwrap();
    assert_eq!(board.distance_to_goal(Player::Player1), Some(0));
    assert_eq!(board.distance_to_goal(Player::Player2), None);
    assert_eq!(QuoridorState::new(board).evaluate(), 100);
    board.player1_pos = (0, 0).try_into().unwrap();
    board.player2_pos = (2, 1).try_into().unwrap();
    assert_eq!(board.distance_to_goal(Player::Player1), None);
    assert_eq!(board.distance_to_goal(Player::Player2), Some(1));
    assert_eq!(QuoridorState::new(board).evaluate(), 100);
}

#[test]
fn greedy_player_refuses_an_illegal_move() {
    let mut player = GreedyAiPlayer::new(BoardV2::empty(), Player::Player1);
    assert_eq!(player.send(&step(Direction::Up)), Err(()));
    assert_eq!(player.send(&wall(Orientation::Horizontal, 8, 0)), Err(()));
    assert_eq!(player.send(&step(Direction::Down)), Ok(()));
    assert_eq!(player.send(&step(Direction::Down)), Err(()));
    assert_eq!(player.receive(), Ok(step(Direction::Up)));
    assert_eq!(player.receive(), Ok(step(Direction::Down)));
}

#[test]
fn greedy_player_for_the_second_player() {
    let mut player = GreedyAiPlayer::new(BoardV2::empty(), Player::Player2);
    assert_eq!(player.receive(), Ok(step(Direction::Up)));
    assert_eq!(player.receive(), Ok(step(Direction::Down)));
}

#[test]
fn no_best_move_without_a_legal_move() {
    let mut board = BoardV2::empty();
    board.player1_pos = (0, 0).try_into().unwrap();
    board.player2_pos = (1, 0).try_into().unwrap();
    board.player1_walls = 0;
    board
        .add_wall(Player::Player2, (0, 0), Orientation::Horizontal)
        .unwrap();
    assert_eq!(board.legal_moves(Player::Player1), Vec::<Move>::new());
    assert_eq!(best_move(board, Player::Player1), Err(()));
    let mut player = GreedyAiPlayer::new(board, Player::Player1);
    assert_eq!(player.receive(), Err(()));
    assert_eq!(player.send(&step(Direction::Right)), Err(()));

    let mut game = MctsAiPlayer::new(board, 10);
    assert_eq!(game.receive(None), Err(MctsError::GreedyError));
    assert!(best_move(board, Player::Player2).is_ok());
}

#[test]
fn game_for_the_alpha_beta_search() {
    let mut game = QuoridorGame::new();
    assert_eq!(game.current_player(), Player::Player1);
    assert_eq!(*game.board(), BoardV2::empty());
    let (mine, moves) = game.actions(Player::Player1);
    assert!(mine);
    assert_eq!(moves, BoardV2::empty().legal_moves(Player::Player1));
    assert_eq!(moves.len(), 131);
    let (mine, moves) = game.actions(Player::Player2);
    assert!(!mine);
    assert_eq!(moves.len(), 131);

    assert_eq!(game.apply_move(&step(Direction::Up)), Err(Error::BlockedOrOffBoard));
    assert_eq!(game.current_player(), Player::Player1);
    assert_eq!(game.apply_move(&wall(Orientation::Vertical, 8, 8)), Err(Error::OutOfBounds));
    assert_eq!(game.apply_move(&step(Direction::Down)), Ok(()));
    assert_eq!(game.current_player(), Player::Player2);
    assert_eq!(game.board().player_location(Player::Player1), (4, 1));

    assert_eq!(game.execute(&step(Direction::Up), Player::Player2), 0);
    assert_eq!(game.current_player(), Player::Player1);
    assert_eq!(game.execute(&step(Direction::Down), Player::Player2), -1);
    assert_eq!(game.execute(&step(Direction::Up), Player::Player1), 0);
}

#[test]
fn fitness_at_the_end_of_a_game() {
    let mut game = QuoridorGame::new();
    for turn in 0..7 {
        game.apply_move(&step(Direction::Down)).unwrap();
        let aside = if turn % 2 == 0 {
            Direction::Left
        } else {
            Direction::Right
        };
        game.apply_move(&step(aside)).unwrap();
    }
    let mut other = game;
    assert_eq!(game.execute(&step(Direction::Down), Player::Player1), 100);
    assert_eq!(other.execute(&step(Direction::Down), Player::Player2), -100);
    assert_eq!(game.board().player_location(Player::Player1), (4, 8));
    let (mine, moves) = game.actions(Player::Player2);
    assert!(mine);
    assert_eq!(moves, Vec::<Move>::new());
    assert_eq!(QuoridorState::new(*game.board()).available_moves(), Vec::<Move>::new());
}

#[test]
fn no_actions_when_neither_player_has_a_wall() {
    let mut board = BoardV2::empty();
    board.player1_walls = 0;
    board.player2_walls = 0;
    assert_eq!(QuoridorState::new(board).available_moves(), Vec::<Move>::new());
    board.player2_walls = 1;
    assert_eq!(
        QuoridorState::new(board).available_moves(),
        vec![step(Direction::Down), step(Direction::Left), step(Direction::Right)]
    );
}

#[test]
fn alpha_beta_player_takes_the_move_found() {
    let mut game = QuoridorGame::new();
    assert_eq!(
        game.receive(Some(step(Direction::Left))),
        Ok(step(Direction::Left))
    );
    assert_eq!(game.board().player_location(Player::Player1), (3, 0));
    assert_eq!(game.current_player(), Player::Player2);
    assert_eq!(
        game.receive(Some(step(Direction::Down))),
        Err(AgentError::IllegalMove)
    );
    assert_eq!(game.current_player(), Player::Player2);
    assert_eq!(game.receive(None), Ok(step(Direction::Up)));
    assert_eq!(game.board().player_location(Player::Player2), (4, 7));
    assert_eq!(game.current_player(), Player::Player1);
}

#[test]
fn alpha_beta_player_without_a_move() {
    let mut first: Vec<Move> = vec![step(Direction::Left); 4];
    for (x, y) in [
        (7u8, 0u8),
        (7, 2),
        (7, 4),
        (7, 6),
        (6, 1),
        (6, 3),
        (6, 5),
        (6, 7),
        (5, 0),
        (5, 2),
    ] {
        first.push(wall(Orientation::Vertical, x, y));
    }
    let mut second: Vec<Move> = vec![step(Direction::Up); 8];
    second.extend(vec![step(Direction::Left); 3]);
    second.push(wall(Orientation::Horizontal, 0, 0));
    second.push(wall(Orientation::Horizontal, 2, 6));
    second.push(wall(Orientation::Horizontal, 0, 6));

    let mut game = QuoridorGame::new();
    for (a, b) in first.iter().zip(second.iter()) {
        assert_eq!(game.apply_move(a), Ok(()));
        assert_eq!(game.apply_move(b), Ok(()));
    }
    assert_eq!(game.current_player(), Player::Player1);
    assert_eq!(game.board().player_location(Player::Player1), (0, 0));
    assert_eq!(game.board().player_location(Player::Player2), (1, 0));
    assert_eq!(game.board().available_walls(Player::Player1), 0);
    assert_eq!(game.board().legal_moves(Player::Player1), Vec::<Move>::new());
    let before = *game.board();
    assert_eq!(game.receive(None), Err(AgentError::NoMove));
    assert_eq!(*game.board(), before);
    assert_eq!(game.current_player(), Player::Player1);
}

#[test]
fn search_state() {
    let mut state = QuoridorState::new(BoardV2::empty());
    assert_eq!(state.current_player(), Player::Player1);
    assert_eq!(state.evaluate(), 0);
    assert_eq!(state.available_moves(), BoardV2::empty().legal_moves(Player::Player1));
    state.make_move(&step(Direction::Down));
    assert_eq!(state.current_player(), Player::Player2);
    assert_eq!(state.evaluate(), 1);
    match state {
        QuoridorState::Clean { board, current_player } => {
            assert_eq!(board.player_location(Player::Player1), (4, 1));
            assert_eq!(current_player, Player::Player2);
        }
        QuoridorState::Dirty { .. } => panic!("a legal move left the state dirty"),
    }
    state.make_move(&step(Direction::Down));
    assert!(matches!(state, QuoridorState::Dirty { offender: Player::Player2 }));
    assert_eq!(state.current_player(), Player::Player1);
    assert_eq!(state.evaluate(), 100);
    assert_eq!(state.hash(), 0);
    assert_eq!(state.available_moves(), Vec::<Move>::new());
    state.make_move(&step(Direction::Down));
    assert!(matches!(state, QuoridorState::Dirty { offender: Player::Player2 }));

    let mut state = QuoridorState::new(BoardV2::empty());
    state.make_move(&wall(Orientation::Horizontal, 8, 8));
    assert!(matches!(state, QuoridorState::Dirty { offender: Player::Player1 }));
    assert_eq!(state.current_player(), Player::Player2);
    assert_eq!(state.evaluate(), -100);
}

#[test]
fn evaluation_seen_by_each_player() {
    assert_eq!(interpret_evaluation_for_player(7, Player::Player1), 7);
    assert_eq!(interpret_evaluation_for_player(7, Player::Player2), -7);
    assert_eq!(interpret_evaluation_for_player(-100, Player::Player2), 100);
    assert_eq!(interpret_evaluation_for_player(-128, Player::Player2), 128);
    assert_eq!(interpret_evaluation_for_player(0, Player::Player2), 0);
}

#[test]
fn tree_search_player() {
    let mut player = MctsAiPlayer::new(BoardV2::empty(), 250);
    assert_eq!(player.think_time(), 250);
    assert!(matches!(
        player.root(),
        QuoridorState::Clean { current_player: Player::Player1, .. }
    ));
    assert_eq!(
        player.send(&step(Direction::Up)),
        Err(MctsError::FoundIllegalMove(step(Direction::Up)))
    );
    assert_eq!(player.send(&step(Direction::Down)), Ok(()));
    assert_eq!(player.root().current_player(), Player::Player2);
    assert_eq!(
        player.receive(Some(wall(Orientation::Horizontal, 3, 0))),
        Ok(wall(Orientation::Horizontal, 3, 0))
    );
    assert_eq!(player.root().current_player(), Player::Player1);
    assert_eq!(
        player.receive(Some(wall(Orientation::Horizontal, 4, 0))),
        Err(MctsError::FoundIllegalMove(wall(Orientation::Horizontal, 4, 0)))
    );
    assert_eq!(player.root().current_player(), Player::Player1);
    assert_eq!(player.receive(None), Ok(step(Direction::Down)));
    match player.root() {
        QuoridorState::Clean { board, current_player } => {
            assert_eq!(current_player, Player::Player2);
            assert_eq!(board.player_location(Player::Player1), (4, 2));
            assert_eq!(board.get_wall_state((3, 0)), Some(Orientation::Horizontal));
            assert_eq!(board.available_walls(Player::Player2), 9);
        }
        QuoridorState::Dirty { .. } => panic!("the player's own game is dirty"),
    }
    assert_eq!(player.think_time(), 250);
}

#[test]
fn game_on_record() {
    let mut replay = Replay::one();
    assert_eq!(replay.0, 0);
    assert_eq!(replay.1.len(), 20);
    assert_eq!(replay.next(), step(Direction::Down));
    assert_eq!(replay.next(), step(Direction::Up));
    assert_eq!(replay.0, 2);
    for _ in 2..9 {
        assert!(matches!(replay.next(), Move::MoveToken(_)));
    }
    assert_eq!(replay.next(), wall(Orientation::Horizontal, 4, 5));
    while replay.0 < 19 {
        replay.next();
    }
    assert_eq!(replay.next(), wall(Orientation::Vertical, 6, 7));
    assert_eq!(replay.0, 20);
}
