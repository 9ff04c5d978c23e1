use tic_tac_toe::board::{Board, Cell, Coord, Outcome, Role};
use tic_tac_toe::error::ContractError;
use tic_tac_toe::game::{Action, Game, Status};
use tic_tac_toe::identity::Identity;

fn invited() -> Game {
    Game::invite(Identity::new("A"), Identity::new("B"), 7, Coord::new(0, 0)).unwrap()
}

#[test]
fn invite_creates_the_game() {
    let game = invited();
    assert_eq!(game.status, Status::Created);
    assert_eq!(game.turn, Role::Opponent);
    assert_eq!(game.host, Identity::new("A"));
    assert_eq!(game.opponent, Identity::new("B"));
    assert_eq!(game.id, 7);
    assert_eq!(game.board, Board::new().apply(Coord::new(0, 0), Role::Host).unwrap());
    assert_eq!(game.outcome(), Outcome::Ongoing);
}

#[test]
fn invite_refuses_off_board_before_self_invite() {
    let a = Identity::new("A");
    assert_eq!(
        Game::invite(a.clone(), Identity::new("B"), 0, Coord::new(0, 3)),
        Err(ContractError::InvalidCoordinate)
    );
    assert_eq!(
        Game::invite(a.clone(), a.clone(), 0, Coord::new(3, 3)),
        Err(ContractError::InvalidCoordinate)
    );
    assert_eq!(Game::invite(a.clone(), a, 0, Coord::new(1, 1)), Err(ContractError::SelfInvite));
}

#[test]
fn reject_only_from_created() {
    let game = invited();
    let rejected = game.reject().unwrap();
    assert_eq!(rejected.status, Status::Rejected);
    assert_eq!(rejected.board, game.board);
    assert_eq!(rejected.turn, game.turn);
    assert_eq!(rejected.id, 7);
    assert_eq!(rejected.reject(), Err(ContractError::InvalidStatus));
    let started = game.accept(Coord::new(1, 1)).unwrap();
    assert_eq!(started.reject(), Err(ContractError::InvalidStatus));
}

#[test]
fn accept_starts_the_game() {
    let game = invited();
    let started = game.accept(Coord::new(1, 1)).unwrap();
    assert_eq!(started.status, Status::Started);
    assert_eq!(started.turn, Role::Host);
    assert_eq!(started.board.get(Coord::new(1, 1)), Some(Cell::Opponent));
    assert_eq!(started.board.get(Coord::new(0, 0)), Some(Cell::Host));
    assert_eq!(started.host, game.host);
    assert_eq!(started.opponent, game.opponent);
}

#[test]
fn accept_errors_in_order() {
    let game = invited();
    assert_eq!(game.accept(Coord::new(0, 0)), Err(ContractError::CellOccupied));
    assert_eq!(game.accept(Coord::new(3, 0)), Err(ContractError::InvalidCoordinate));
    let started = game.accept(Coord::new(1, 1)).unwrap();
    assert_eq!(started.accept(Coord::new(2, 2)), Err(ContractError::InvalidStatus));
    assert_eq!(started.accept(Coord::new(9, 9)), Err(ContractError::InvalidStatus));
}

#[test]
fn play_errors_in_order() {
    let game = invited();
    assert_eq!(game.play(Role::Opponent, Coord::new(1, 1)), Err(ContractError::InvalidStatus));
    let started = game.accept(Coord::new(1, 1)).unwrap();
    assert_eq!(started.play(Role::Opponent, Coord::new(2, 2)), Err(ContractError::NotYourTurn));
    assert_eq!(started.play(Role::Opponent, Coord::new(7, 7)), Err(ContractError::NotYourTurn));
    assert_eq!(started.play(Role::Host, Coord::new(7, 7)), Err(ContractError::InvalidCoordinate));
    assert_eq!(started.play(Role::Host, Coord::new(1, 1)), Err(ContractError::CellOccupied));
}

#[test]
fn play_passes_the_turn() {
    let started = invited().accept(Coord::new(1, 1)).unwrap();
    let one = started.play(Role::Host, Coord::new(0, 1)).unwrap();
    assert_eq!(one.status, Status::Started);
    assert_eq!(one.turn, Role::Opponent);
    let two = one.play(Role::Opponent, Coord::new(2, 2)).unwrap();
    assert_eq!(two.status, Status::Started);
    assert_eq!(two.turn, Role::Host);
}

#[test]
fn deciding_move_finishes_and_keeps_the_turn() {
    let started = invited().accept(Coord::new(1, 1)).unwrap();
    let one = started.play(Role::Host, Coord::new(0, 1)).unwrap();
    let two = one.play(Role::Opponent, Coord::new(2, 2)).unwrap();
    let won = two.play(Role::Host, Coord::new(0, 2)).unwrap();
    assert_eq!(won.status, Status::Finished);
    assert_eq!(won.turn, Role::Host);
    assert_eq!(won.outcome(), Outcome::Win(Role::Host));
    assert_eq!(won.play(Role::Opponent, Coord::new(2, 0)), Err(ContractError::InvalidStatus));
    assert_eq!(won.play(Role::Host, Coord::new(2, 0)), Err(ContractError::InvalidStatus));
}

#[test]
fn status_table() {
    assert!(Status::Created.allows(Action::Reject));
    assert!(Status::Created.allows(Action::Accept));
    assert!(!Status::Created.allows(Action::Play));
    assert!(Status::Started.allows(Action::Play));
    assert!(!Status::Started.allows(Action::Reject));
    assert!(!Status::Started.allows(Action::Accept));
    for action in [Action::Reject, Action::Accept, Action::Play] {
        assert!(!Status::Finished.allows(action));
        assert!(!Status::Rejected.allows(action));
    }
    assert!(Status::Finished.is_terminal());
    assert!(Status::Rejected.is_terminal());
    assert!(!Status::Created.is_terminal());
    assert!(!Status::Started.is_terminal());
}

#[test]
fn clone_copies_every_field() {
    let game = invited().accept(Coord::new(2, 0)).unwrap();
    assert_eq!(game.clone(), game);
}

#[test]
fn lifecycle_table() {
    for decided in [false, true] {
        assert_eq!(Status::Created.after(Action::Reject, decided), Some(Status::Rejected));
        assert_eq!(Status::Created.after(Action::Accept, decided), Some(Status::Started));
        assert_eq!(Status::Created.after(Action::Play, decided), None);
        assert_eq!(Status::Started.after(Action::Reject, decided), None);
        assert_eq!(Status::Started.after(Action::Accept, decided), None);
        for action in [Action::Reject, Action::Accept, Action::Play] {
            assert_eq!(Status::Finished.after(action, decided), None);
            assert_eq!(Status::Rejected.after(action, decided), None);
        }
    }
    assert_eq!(Status::Started.after(Action::Play, false), Some(Status::Started));
    assert_eq!(Status::Started.after(Action::Play, true), Some(Status::Finished));
}
