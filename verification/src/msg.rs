//! The typed requests that the library takes: what to set up, what to do
//! with a game, and what to look up. Every participant named in a request
//! has been validated before the request is built.

use vstd::prelude::*;
use crate::board::Coord;
use crate::game::Status;
use crate::identity::Identity;

verus! {

/// The request to set the contract up. It carries nothing.
#[derive(Clone, Copy, Debug, PartialEq, Eq, Structural)]
pub struct InstantiateMsg {}

/// A request that changes a game, submitted by one of its participants.
#[derive(Debug, PartialEq, Eq)]
pub enum ExecuteMsg {
    /// Open a game against `opponent` with a first mark at `coord`.
    Invite { coord: Coord, opponent: Identity },
    /// Decline an invitation. `opponent` names the other participant: the
    /// invited one where the sender acts as host, the host where not.
    Reject { as_host: bool, opponent: Identity, game_id: u64 },
    /// Accept `host`'s invitation with a first mark at `coord`.
    Accept { coord: Coord, host: Identity, game_id: u64 },
    /// Move at `coord`. `opponent` names the other participant, as in
    /// `Reject`.
    Play { as_host: bool, coord: Coord, opponent: Identity, game_id: u64 },
}

/// The two participants of the game that a query asks for.
#[derive(Debug, PartialEq, Eq)]
pub struct QueryKey {
    pub host: Identity,
    pub opponent: Identity,
}

/// A request that only reads.
#[derive(Debug, PartialEq, Eq)]
pub enum QueryMsg {
    /// The name and version under which the contract was deployed.
    GetContractVersion {},
    /// The game of `key`'s participants with the id `game_id`.
    Game { key: QueryKey, game_id: u64 },
    /// All games, or those in the stage `status`.
    Games { status: Option<Status> },
}

/// A changing request as a mathematical value.
pub enum Command {
    Invite { coord: Coord, opponent: Seq<char> },
    Reject { as_host: bool, opponent: Seq<char>, game_id: nat },
    Accept { coord: Coord, host: Seq<char>, game_id: nat },
    Play { as_host: bool, coord: Coord, opponent: Seq<char>, game_id: nat },
}

impl View for ExecuteMsg {
    type V = Command;

    open spec fn view(&self) -> Command {
        match *self {
            ExecuteMsg::Invite { coord, opponent } => Command::Invite { coord, opponent: opponent@ },
            ExecuteMsg::Reject { as_host, opponent, game_id } => Command::Reject {
                as_host,
                opponent: opponent@,
                game_id: game_id as nat,
            },
            ExecuteMsg::Accept { coord, host, game_id } => Command::Accept {
                coord,
                host: host@,
                game_id: game_id as nat,
            },
            ExecuteMsg::Play { as_host, coord, opponent, game_id } => Command::Play {
                as_host,
                coord,
                opponent: opponent@,
                game_id: game_id as nat,
            },
        }
    }
}

} // verus!
