use quoridor::ai::greedy::GreedyAiPlayer;
use quoridor::ai::mcts::MctsAiPlayer;
use quoridor::ai::rubot::QuoridorGame;
use quoridor::ai::{AgentError, AiHolder};
use quoridor::bitpacked::BoardV2;
use quoridor::display::{adjust, candidate_cell, cell_display, on_key, DisplayWallState, Key, Prompt};
use quoridor::session::Game;
use quoridor::v1::{BoardV1, Cell, WallState};
use quoridor::{Direction, Move, Orientation, Player};
use std::convert::TryInto;

fn step(d: Direction) -> Move {
    Move::move_token(d)
}

fn wall(orientation: Orientation, x: u8, y: u8) -> Move {
    Move::add_wall(x, y, orientation)
}

#[test]
fn moves_by_their_parts() {
    assert_eq!(
        Move::add_wall(3, 5, Orientation::Vertical),
        Move::AddWall {
            orientation: Orientation::Vertical,
            location: (3, 5)
        }
    );
    assert_eq!(Move::move_token(Direction::Left), Move::MoveToken(Direction::Left));
}

#[test]
fn the_winner() {
    let mut board = BoardV2::empty();
    assert_eq!(board.winner(), None);
    board.player1_pos = (2, 8).try_into().unwrap();
    assert_eq!(board.winner(), Some(Player::Player1));
    board.player2_pos = (2, 0).try_into().unwrap();
    assert_eq!(board.winner(), Some(Player::Player1));
    board.player1_pos = (2, 7).try_into().unwrap();
    assert_eq!(board.winner(), Some(Player::Player2));
    board.player2_pos = (2, 1).try_into().unwrap();
    assert_eq!(board.winner(), None);
}

#[test]
fn host_game_by_numbers() {
    let mut game = Game::new();
    assert_eq!(game.current_player(), 1);
    assert!(!game.is_swapped());
    assert_eq!(game.get_location(1), (4, 0));
    assert_eq!(game.get_location(2), (4, 8));
    assert_eq!(game.available_walls(1), 10);
    assert_eq!(game.distance_to_goal(1), 8);
    assert_eq!(game.distance_to_goal(2), 8);

    assert!(!game.move_token(0));
    assert!(!game.move_token(4));
    assert_eq!(game.current_player(), 1);
    assert!(game.move_token(1));
    assert_eq!(game.get_location(1), (4, 1));
    assert_eq!(game.current_player(), 2);

    assert!(!game.can_add_wall(3, 3, 2));
    assert!(!game.can_add_wall(8, 3, 0));
    assert!(game.can_add_wall(3, 3, 0));
    assert!(!game.add_wall(3, 3, 7));
    assert!(game.add_wall(3, 3, 0));
    assert_eq!(game.get_wall_status(3, 3), 1);
    assert_eq!(game.get_wall_status(4, 3), 0);
    assert_eq!(game.available_walls(2), 9);
    assert_eq!(game.available_walls(1), 10);
    assert_eq!(game.current_player(), 1);
    assert!(!game.add_wall(3, 3, 1));
    assert!(game.add_wall(0, 0, 1));
    assert_eq!(game.get_wall_status(0, 0), 2);
    assert_eq!(game.get_wall_status(8, 8), 0);

    assert!(!game.is_passible(3, 3, 1));
    assert!(!game.is_passible(4, 4, 0));
    assert!(game.is_passible(5, 3, 1));
    assert!(!game.is_passible(0, 0, 3));
    assert!(!game.is_passible(1, 1, 2));
    assert!(!game.is_passible(5, 3, 9));
    assert_eq!(*game.board(), {
        let mut b = BoardV2::empty();
        b.move_token(Player::Player1, Direction::Down).unwrap();
        b.add_wall(Player::Player2, (3, 3), Orientation::Horizontal)
            .unwrap();
        b.add_wall(Player::Player1, (0, 0), Orientation::Vertical)
            .unwrap();
        b
    });
}

#[test]
fn host_game_steps_to_a_cell() {
    let mut game = Game::new();
    assert!(game.can_move_to((4, 1)));
    assert!(game.can_move_to((3, 0)));
    assert!(game.can_move_to((5, 0)));
    assert!(!game.can_move_to((4, 0)));
    assert!(!game.can_move_to((4, 2)));
    assert!(!game.can_move_to((5, 1)));
    assert!(!game.can_move_to((200, 0)));
    assert!(!game.move_token_to((4, 2)));
    assert_eq!(game.current_player(), 1);
    assert!(game.move_token_to((4, 1)));
    assert_eq!(game.get_location(1), (4, 1));
    assert_eq!(game.current_player(), 2);
    assert!(!game.can_move_to((4, 9)));
    assert!(game.move_token_to((3, 8)));
    assert_eq!(game.get_location(2), (3, 8));

    assert!(game.add_wall(4, 1, 0));
    assert!(game.move_token(3));
    assert!(!game.can_move_to((4, 2)));
    assert!(!game.move_token_to((4, 2)));
    assert!(game.can_move_to((3, 1)));
    assert_eq!(game.distance_to_goal(1), 8);
}

#[test]
fn host_game_with_seats_swapped() {
    let mut game = Game::new();
    game.swap_players();
    assert!(game.is_swapped());
    assert_eq!(game.current_player(), 2);
    assert_eq!(game.get_location(2), (4, 0));
    assert_eq!(game.get_location(1), (4, 8));
    assert!(game.move_token(1));
    assert_eq!(game.current_player(), 1);
    assert_eq!(game.get_location(2), (4, 1));
    assert_eq!(game.distance_to_goal(2), 7);
    assert_eq!(game.distance_to_goal(1), 8);
    assert!(game.add_wall(0, 0, 0));
    assert_eq!(game.available_walls(1), 9);
    assert_eq!(game.available_walls(2), 10);
    game.swap_players();
    assert!(!game.is_swapped());
    assert_eq!(game.available_walls(2), 9);
    assert_eq!(game.current_player(), 1);
}

#[test]
fn host_game_with_a_player_shut_in() {
    let mut game = Game::new();
    let mut placed = 0;
    for x in [0u8, 2, 4, 6] {
        assert!(game.apply_move(&wall(Orientation::Horizontal, x, 3)));
        placed += 1;
    }
    assert!(game.apply_move(&wall(Orientation::Vertical, 7, 4)));
    assert_eq!(placed, 4);
    assert!(!game.can_add_wall(7, 5, 0));
    assert!(!game.add_wall(7, 5, 0));
    assert_eq!(game.distance_to_goal(1), 12);
    let copy = game;
    assert_eq!(copy.distance_to_goal(2), 12);
}

#[test]
fn any_player_behind_one_face() {
    let players = vec![
        AiHolder::Greedy(GreedyAiPlayer::new(BoardV2::empty(), Player::Player1)),
        AiHolder::Rubot(QuoridorGame::new()),
        AiHolder::Mcts(MctsAiPlayer::new(BoardV2::empty(), 100)),
    ];
    for mut player in players {
        assert_eq!(player.send(&step(Direction::Up)), Err(AgentError::IllegalMove));
        assert_eq!(player.send(&step(Direction::Down)), Ok(()));
        assert_eq!(player.receive(None), Ok(step(Direction::Up)));
        let found = wall(Orientation::Vertical, 0, 0);
        let searches = !matches!(player, AiHolder::Greedy(_));
        let made = player.receive(Some(found));
        if searches {
            assert_eq!(made, Ok(found));
            assert_eq!(player.send(&found), Err(AgentError::IllegalMove));
            assert_eq!(
                player.receive(Some(wall(Orientation::Vertical, 0, 1))),
                Err(AgentError::IllegalMove)
            );
        } else {
            assert_eq!(made, Ok(step(Direction::Down)));
        }
    }
}

#[test]
fn how_a_cell_is_drawn() {
    let open = Cell {
        right: WallState::Open,
        bottom: WallState::Open,
        joint: WallState::Open,
    };
    let shut = Cell {
        right: WallState::Wall,
        bottom: WallState::Wall,
        joint: WallState::Wall,
    };
    assert!(DisplayWallState::from_wall_state(WallState::Wall) == DisplayWallState::Wall);
    assert!(DisplayWallState::from_wall_state(WallState::Open) == DisplayWallState::Open);

    let plain = cell_display(&open, (3, 3), None);
    assert!(plain.right == DisplayWallState::Open);
    assert!(plain.bottom == DisplayWallState::Open);
    assert!(plain.joint == DisplayWallState::Open);
    let plain = cell_display(&shut, (3, 3), Some(&step(Direction::Up)));
    assert!(plain.right == DisplayWallState::Wall);
    assert!(plain.bottom == DisplayWallState::Wall);
    assert!(plain.joint == DisplayWallState::Wall);

    let v = wall(Orientation::Vertical, 3, 3);
    let at = cell_display(&open, (3, 3), Some(&v));
    assert!(at.right == DisplayWallState::Candidate);
    assert!(at.bottom == DisplayWallState::Open);
    assert!(at.joint == DisplayWallState::Candidate);
    let below = cell_display(&open, (3, 4), Some(&v));
    assert!(below.right == DisplayWallState::Candidate);
    assert!(below.joint == DisplayWallState::Open);
    let beside = cell_display(&open, (4, 3), Some(&v));
    assert!(beside.right == DisplayWallState::Open);
    let further = cell_display(&open, (3, 5), Some(&v));
    assert!(further.right == DisplayWallState::Open);
    let hit = cell_display(&shut, (3, 4), Some(&v));
    assert!(hit.right == DisplayWallState::Collision);
    assert!(hit.bottom == DisplayWallState::Wall);
    assert!(hit.joint == DisplayWallState::Wall);

    let h = wall(Orientation::Horizontal, 3, 3);
    let at = cell_display(&open, (3, 3), Some(&h));
    assert!(at.bottom == DisplayWallState::Candidate);
    assert!(at.right == DisplayWallState::Open);
    assert!(at.joint == DisplayWallState::Candidate);
    let beside = cell_display(&shut, (4, 3), Some(&h));
    assert!(beside.bottom == DisplayWallState::Collision);
    assert!(beside.joint == DisplayWallState::Wall);
    let at = cell_display(&shut, (3, 3), Some(&h));
    assert!(at.joint == DisplayWallState::Collision);
    let far = cell_display(&open, (0, 3), Some(&wall(Orientation::Horizontal, 255, 3)));
    assert!(far.bottom == DisplayWallState::Open);
}

#[test]
fn the_grid_drawn_with_a_wall_in_the_making() {
    let mut board = BoardV2::empty();
    board
        .add_wall(Player::Player1, (2, 2), Orientation::Horizontal)
        .unwrap();
    let grid = BoardV1::from(board);
    let candidate = wall(Orientation::Horizontal, 3, 2);
    let cell = cell_display(grid.cell(&(3, 2)), (3, 2), Some(&candidate));
    assert!(cell.bottom == DisplayWallState::Collision);
    assert!(cell.joint == DisplayWallState::Candidate);
    let cell = cell_display(grid.cell(&(4, 2)), (4, 2), Some(&candidate));
    assert!(cell.bottom == DisplayWallState::Candidate);
    let cell = cell_display(grid.cell(&(2, 2)), (2, 2), Some(&candidate));
    assert!(cell.bottom == DisplayWallState::Wall);
    assert!(cell.joint == DisplayWallState::Wall);
}

#[test]
fn where_a_step_would_lead() {
    let board = BoardV2::empty();
    assert_eq!(
        candidate_cell(&board, Player::Player1, &step(Direction::Down)),
        Some((4, 1))
    );
    assert_eq!(candidate_cell(&board, Player::Player1, &step(Direction::Up)), None);
    assert_eq!(
        candidate_cell(&board, Player::Player2, &step(Direction::Left)),
        Some((3, 8))
    );
    assert_eq!(
        candidate_cell(&board, Player::Player1, &wall(Orientation::Horizontal, 1, 1)),
        None
    );
}

#[test]
fn keys_change_the_move_in_the_making() {
    let w = wall(Orientation::Horizontal, 4, 4);
    assert_eq!(adjust(w, Key::Toggle), step(Direction::Up));
    assert_eq!(adjust(step(Direction::Left), Key::Toggle), w);
    assert_eq!(adjust(w, Key::Rotate), wall(Orientation::Vertical, 4, 4));
    assert_eq!(adjust(wall(Orientation::Vertical, 4, 4), Key::Rotate), w);
    assert_eq!(adjust(step(Direction::Left), Key::Rotate), step(Direction::Left));
    assert_eq!(adjust(w, Key::Left), wall(Orientation::Horizontal, 3, 4));
    assert_eq!(adjust(w, Key::Right), wall(Orientation::Horizontal, 5, 4));
    assert_eq!(adjust(w, Key::Up), wall(Orientation::Horizontal, 4, 3));
    assert_eq!(adjust(w, Key::Down), wall(Orientation::Horizontal, 4, 5));
    assert_eq!(
        adjust(wall(Orientation::Vertical, 0, 0), Key::Left),
        wall(Orientation::Vertical, 0, 0)
    );
    assert_eq!(
        adjust(wall(Orientation::Vertical, 0, 0), Key::Up),
        wall(Orientation::Vertical, 0, 0)
    );
    assert_eq!(
        adjust(wall(Orientation::Vertical, 7, 7), Key::Right),
        wall(Orientation::Vertical, 7, 7)
    );
    assert_eq!(
        adjust(wall(Orientation::Vertical, 7, 7), Key::Down),
        wall(Orientation::Vertical, 7, 7)
    );
    assert_eq!(
        adjust(wall(Orientation::Vertical, 200, 200), Key::Right),
        wall(Orientation::Vertical, 7, 200)
    );
    assert_eq!(adjust(step(Direction::Up), Key::Left), step(Direction::Left));
    assert_eq!(adjust(step(Direction::Up), Key::Right), step(Direction::Right));
    assert_eq!(adjust(step(Direction::Left), Key::Up), step(Direction::Up));
    assert_eq!(adjust(step(Direction::Up), Key::Down), step(Direction::Down));
    for key in [Key::Other, Key::Quit, Key::Confirm] {
        assert_eq!(adjust(w, key), w);
        assert_eq!(adjust(step(Direction::Up), key), step(Direction::Up));
    }
}

#[test]
fn keys_at_the_prompt() {
    let board = BoardV2::empty();
    let down = step(Direction::Down);
    let up = step(Direction::Up);
    assert_eq!(on_key(&board, Player::Player1, down, Key::Quit), Prompt::Quit);
    assert_eq!(on_key(&board, Player::Player1, down, Key::Confirm), Prompt::Done(down));
    assert_eq!(on_key(&board, Player::Player1, up, Key::Confirm), Prompt::Again(up));
    assert_eq!(on_key(&board, Player::Player2, up, Key::Confirm), Prompt::Done(up));
    assert_eq!(
        on_key(&board, Player::Player1, up, Key::Left),
        Prompt::Again(step(Direction::Left))
    );
    assert_eq!(
        on_key(&board, Player::Player1, up, Key::Toggle),
        Prompt::Again(wall(Orientation::Horizontal, 4, 4))
    );
    assert_eq!(on_key(&board, Player::Player1, up, Key::Other), Prompt::Again(up));
}
