use fxhash::FxHasher64;
use quoridor::ai::mcts::QuoridorState;
use quoridor::bitpacked::BoardV2;
use quoridor::{Direction, Orientation, Player};
use std::hash::Hasher;

fn round(state: u64, word: u64) -> u64 {
    (state.rotate_left(5) ^ word).wrapping_mul(0x517cc1b727220a95)
}

fn by_hand(start: u64, board: &BoardV2) -> u64 {
    let mut state = start;
    state = round(state, board.horizontal);
    state = round(state, board.vertical);
    state = round(state, board.player1_pos.idx() as u64 + 1);
    state = round(state, board.player2_pos.idx() as u64 + 1);
    state = round(state, board.player1_walls as u64);
    round(state, board.player2_walls as u64)
}

fn some_board() -> BoardV2 {
    let mut board = BoardV2::empty();
    board
        .add_wall(Player::Player1, (2, 5), Orientation::Horizontal)
        .unwrap();
    board
        .add_wall(Player::Player2, (6, 1), Orientation::Vertical)
        .unwrap();
    board.move_token(Player::Player1, Direction::Down).unwrap();
    board
}

#[test]
fn board_hash_is_the_fx_hash_of_its_fields() {
    for board in [BoardV2::empty(), some_board()] {
        let mut hasher = FxHasher64::default();
        board.fx_hash(&mut hasher);
        assert_eq!(hasher.finish(), by_hand(0, &board));

        let mut direct = FxHasher64::default();
        direct.write_u64(board.horizontal);
        direct.write_u64(board.vertical);
        direct.write_u8(board.player1_pos.idx() + 1);
        direct.write_u8(board.player2_pos.idx() + 1);
        direct.write_u8(board.player1_walls);
        direct.write_u8(board.player2_walls);
        assert_eq!(hasher.finish(), direct.finish());
    }
}

#[test]
fn board_hash_of_the_start() {
    let mut hasher = FxHasher64::default();
    BoardV2::empty().fx_hash(&mut hasher);
    let mut state = 0u64;
    for word in [0u64, 0, 5, 77, 10, 10] {
        state = round(state, word);
    }
    assert_eq!(hasher.finish(), state);
    assert_ne!(hasher.finish(), 0);
}

#[test]
fn board_hash_goes_on_from_what_the_hasher_held() {
    let board = some_board();
    let mut hasher = FxHasher64::default();
    hasher.write_u64(0xdead_beef);
    let before = hasher.finish();
    assert_eq!(before, round(0, 0xdead_beef));
    board.fx_hash(&mut hasher);
    assert_eq!(hasher.finish(), by_hand(before, &board));
}

#[test]
fn board_hash_takes_in_every_field() {
    let board = some_board();
    let hash = |b: &BoardV2| {
        let mut hasher = FxHasher64::default();
        b.fx_hash(&mut hasher);
        hasher.finish()
    };
    let base = hash(&board);
    let mut other = board;
    other.horizontal ^= 1;
    assert_ne!(hash(&other), base);
    let mut other = board;
    other.vertical ^= 1;
    assert_ne!(hash(&other), base);
    let mut other = board;
    other.move_token(Player::Player1, Direction::Left).unwrap();
    assert_ne!(hash(&other), base);
    let mut other = board;
    other.move_token(Player::Player2, Direction::Left).unwrap();
    assert_ne!(hash(&other), base);
    let mut other = board;
    other.player1_walls -= 1;
    assert_ne!(hash(&other), base);
    let mut other = board;
    other.player2_walls -= 1;
    assert_ne!(hash(&other), base);
}

#[test]
fn equal_boards_hash_alike() {
    let mut one = BoardV2::empty();
    one.add_wall(Player::Player1, (2, 5), Orientation::Horizontal)
        .unwrap();
    one.move_token(Player::Player1, Direction::Down).unwrap();
    one.add_wall(Player::Player2, (6, 1), Orientation::Vertical)
        .unwrap();
    let two = some_board();
    assert_eq!(one, two);
    assert_eq!(QuoridorState::new(one).hash(), QuoridorState::new(two).hash());
    let mut h1 = FxHasher64::default();
    let mut h2 = FxHasher64::default();
    one.fx_hash(&mut h1);
    two.fx_hash(&mut h2);
    assert_eq!(h1.finish(), h2.finish());
}

#[test]
fn state_hash_tells_the_player_to_move() {
    let board = some_board();
    let first = QuoridorState::Clean {
        board,
        current_player: Player::Player1,
    };
    let second = QuoridorState::Clean {
        board,
        current_player: Player::Player2,
    };
    assert_eq!(first.hash(), by_hand(round(0, 177), &board));
    assert_eq!(second.hash(), by_hand(round(0, 87), &board));
    assert_ne!(first.hash(), second.hash());
    assert_eq!(QuoridorState::new(board).hash(), first.hash());
    assert_eq!(
        QuoridorState::Dirty {
            offender: Player::Player1
        }
        .hash(),
        0
    );
}
