//! One game: its record, the stages it passes through and the four steps
//! that carry it from one stage to the next.
//!
//! A game is `Created` by an invitation, which already places the host's
//! first mark. From there it is `Rejected`, or accepted with the opponent's
//! first mark and `Started`. A started game is played in turns until a move
//! decides it, and is then `Finished`. No step leads out of `Finished` or
//! `Rejected`.

use vstd::prelude::*;
use crate::board::{empty_cells, outcome_of, place, Board, Cell, Coord, Outcome, Role};
use crate::error::ContractError;
use crate::identity::Identity;

verus! {

/// The stage of a game.
#[derive(Clone, Copy, Debug, PartialEq, Eq, Structural)]
pub enum Status {
    /// Invited, waiting for the opponent's answer.
    Created,
    /// Accepted and in progress.
    Started,
    /// Decided: won or drawn.
    Finished,
    /// The invitation was declined.
    Rejected,
}

/// What a participant can do with a game that exists.
#[derive(Clone, Copy, Debug, PartialEq, Eq, Structural)]
pub enum Action {
    Reject,
    Accept,
    Play,
}

/// The key under which a game is stored, as a mathematical value.
pub struct GameKey {
    pub host: Seq<char>,
    pub opponent: Seq<char>,
    pub id: nat,
}

/// A game as a mathematical value.
pub struct GameView {
    pub board: Seq<Cell>,
    pub status: Status,
    pub turn: Role,
    pub host: Seq<char>,
    pub opponent: Seq<char>,
    pub id: nat,
}

/// The record of one game.
#[derive(Debug, PartialEq, Eq)]
pub struct Game {
    pub board: Board,
    pub status: Status,
    /// Who moves next while the game is in progress.
    pub turn: Role,
    pub host: Identity,
    pub opponent: Identity,
    pub id: u64,
}

/// The table of the lifecycle: the stage that follows `status` when
/// `action` is taken, or `None` where `action` is not legal in that stage.
/// `decided` says whether the move decided the game; it matters for `Play`
/// alone.
pub open spec fn next_status(status: Status, action: Action, decided: bool) -> Option<Status> {
    match (status, action) {
        (Status::Created, Action::Reject) => Some(Status::Rejected),
        (Status::Created, Action::Accept) => Some(Status::Started),
        (Status::Started, Action::Play) => Some(
            if decided {
                Status::Finished
            } else {
                Status::Started
            },
        ),
        _ => None,
    }
}

/// The game that an invitation creates: the host's mark at `coord` on an
/// empty board, the opponent to move. Refused where `coord` is off the board
/// and where host and opponent are the same participant.
pub open spec fn invited(host: Seq<char>, opponent: Seq<char>, id: nat, coord: Coord) -> Result<
    GameView,
    ContractError,
> {
    match place(empty_cells(), coord, Role::Host) {
        Err(e) => Err(e),
        Ok(board) => if host == opponent {
            Err(ContractError::SelfInvite)
        } else {
            Ok(
                GameView {
                    board,
                    status: Status::Created,
                    turn: Role::Opponent,
                    host,
                    opponent,
                    id,
                },
            )
        },
    }
}

/// The game after its invitation was declined.
pub open spec fn rejected(game: GameView) -> Result<GameView, ContractError> {
    match next_status(game.status, Action::Reject, false) {
        None => Err(ContractError::InvalidStatus),
        Some(status) => Ok(GameView { status, ..game }),
    }
}

/// The game after the opponent accepted with a first mark at `coord`: in
/// progress, the host to move.
pub open spec fn accepted(game: GameView, coord: Coord) -> Result<GameView, ContractError> {
    match next_status(game.status, Action::Accept, false) {
        None => Err(ContractError::InvalidStatus),
        Some(status) => match place(game.board, coord, Role::Opponent) {
            Err(e) => Err(e),
            Ok(board) => Ok(GameView { board, status, turn: Role::Host, ..game }),
        },
    }
}

/// The game after `role` moved at `coord`. The move is refused unless the
/// game is in progress, `role` is to move and the cell can take a mark. A
/// move that decides the game finishes it; any other passes the turn.
pub open spec fn played(game: GameView, role: Role, coord: Coord) -> Result<GameView, ContractError> {
    if next_status(game.status, Action::Play, false) is None {
        Err(ContractError::InvalidStatus)
    } else if game.turn != role {
        Err(ContractError::NotYourTurn)
    } else {
        match place(game.board, coord, role) {
            Err(e) => Err(e),
            Ok(board) => {
                let decided = outcome_of(board) != Outcome::Ongoing;
                Ok(
                    GameView {
                        board,
                        status: next_status(game.status, Action::Play, decided).unwrap(),
                        turn: if decided {
                            game.turn
                        } else {
                            role.opposite()
                        },
                        ..game
                    },
                )
            },
        }
    }
}

/// What an exec transition returned, against what the rules say: the new
/// game where they allow the step, their error where they refuse it.
pub open spec fn agrees(result: Result<Game, ContractError>, expected: Result<GameView, ContractError>) -> bool {
    match result {
        Ok(game) => expected == Ok::<GameView, ContractError>(game@),
        Err(e) => expected == Err::<GameView, ContractError>(e),
    }
}

impl Status {
    /// The stage that follows this one when `action` is taken, as the table
    /// of the lifecycle has it.
    pub fn after(self, action: Action, decided: bool) -> (next: Option<Status>)
        ensures
            next == next_status(self, action, decided),
    {
        match (self, action) {
            (Status::Created, Action::Reject) => Some(Status::Rejected),
            (Status::Created, Action::Accept) => Some(Status::Started),
            (Status::Started, Action::Play) => Some(
                if decided {
                    Status::Finished
                } else {
                    Status::Started
                },
            ),
            _ => None,
        }
    }

    /// Whether `action` is legal in this stage.
    pub fn allows(self, action: Action) -> (legal: bool)
        ensures
            legal == next_status(self, action, false).is_some(),
    {
        self.after(action, false).is_some()
    }

    /// Whether no step leads out of this stage.
    pub open spec fn terminal(self) -> bool {
        self == Status::Finished || self == Status::Rejected
    }

    /// Whether no step leads out of this stage.
    pub fn is_terminal(self) -> (end: bool)
        ensures
            end == self.terminal(),
    {
        self == Status::Finished || self == Status::Rejected
    }
}

impl View for Game {
    type V = GameView;

    open spec fn view(&self) -> GameView {
        GameView {
            board: self.board@,
            status: self.status,
            turn: self.turn,
            host: self.host@,
            opponent: self.opponent@,
            id: self.id as nat,
        }
    }
}

impl GameView {
    /// The key under which this game is stored.
    pub open spec fn key(self) -> GameKey {
        GameKey { host: self.host, opponent: self.opponent, id: self.id }
    }
}

impl Clone for Game {
    fn clone(&self) -> (copy: Game)
        ensures
            copy@ == self@,
    {
        Game {
            board: self.board,
            status: self.status,
            turn: self.turn,
            host: self.host.clone(),
            opponent: self.opponent.clone(),
            id: self.id,
        }
    }
}

impl Game {
    /// The game that `host` opens by inviting `opponent` with a first mark
    /// at `coord`, to be stored under `id`.
    pub fn invite(host: Identity, opponent: Identity, id: u64, coord: Coord) -> (result: Result<
        Game,
        ContractError,
    >)
        ensures
            agrees(result, invited(host@, opponent@, id as nat, coord)),
    {
        let board = match Board::new().apply(coord, Role::Host) {
            Ok(board) => board,
            Err(e) => {
                return Err(e);
            },
        };
        if host.same_as(&opponent) {
            return Err(ContractError::SelfInvite);
        }
        Ok(Game { board, status: Status::Created, turn: Role::Opponent, host, opponent, id })
    }

    /// This game with its invitation declined.
    pub fn reject(&self) -> (result: Result<Game, ContractError>)
        ensures
            agrees(result, rejected(self@)),
    {
        let status = match self.status.after(Action::Reject, false) {
            Some(status) => status,
            None => {
                return Err(ContractError::InvalidStatus);
            },
        };
        let mut game = self.clone();
        game.status = status;
        Ok(game)
    }

    /// This game accepted by the opponent with a first mark at `coord`.
    pub fn accept(&self, coord: Coord) -> (result: Result<Game, ContractError>)
        ensures
            agrees(result, accepted(self@, coord)),
    {
        let status = match self.status.after(Action::Accept, false) {
            Some(status) => status,
            None => {
                return Err(ContractError::InvalidStatus);
            },
        };
        let board = match self.board.apply(coord, Role::Opponent) {
            Ok(board) => board,
            Err(e) => {
                return Err(e);
            },
        };
        let mut game = self.clone();
        game.board = board;
        game.status = status;
        game.turn = Role::Host;
        Ok(game)
    }

    /// This game after `role` moved at `coord`.
    pub fn play(&self, role: Role, coord: Coord) -> (result: Result<Game, ContractError>)
        ensures
            agrees(result, played(self@, role, coord)),
    {
        if !self.status.allows(Action::Play) {
            return Err(ContractError::InvalidStatus);
        }
        if self.turn != role {
            return Err(ContractError::NotYourTurn);
        }
        let board = match self.board.apply(coord, role) {
            Ok(board) => board,
            Err(e) => {
                return Err(e);
            },
        };
        let decided = board.check_outcome() != Outcome::Ongoing;
        let status = match self.status.after(Action::Play, decided) {
            Some(status) => status,
            None => {
                return Err(ContractError::InvalidStatus);
            },
        };
        let mut game = self.clone();
        game.board = board;
        game.status = status;
        if !decided {
            game.turn = role.other();
        }
        Ok(game)
    }

    /// How the game stands on its board.
    pub fn outcome(&self) -> (o: Outcome)
        ensures
            o == outcome_of(self@.board),
    {
        self.board.check_outcome()
    }
}

} // verus!
