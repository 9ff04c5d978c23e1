//! The three entry points: setting the contract up, carrying out a request
//! that changes a game, and answering a request that only reads.

use cosmwasm_std::{Empty, Response};
use vstd::prelude::*;
use crate::error::ContractError;
use crate::execution::{
    accept_step, addressed, carried_out, invite_step, play_step, reject_step, try_accept,
    try_invite, try_play, try_reject,
};
use crate::game::{GameKey, GameView};
use crate::identity::Identity;
use crate::msg::{Command, ExecuteMsg, InstantiateMsg, QueryMsg};
use crate::query::{game_answer, games_answer, query_game, query_games, response_views, GameResponse};
use crate::response::{action_attributes, action_response, response_attributes};
use crate::store::{GameStore, Ledger};

verus! {

/// The name under which the contract is deployed.
pub const CONTRACT_NAME: &'static str = "tic-tac-toe";

/// The version under which the contract is deployed.
pub const CONTRACT_VERSION: &'static str = "0.1.0";

/// The answer to a reading request.
#[derive(Debug, PartialEq, Eq)]
pub enum QueryAnswer {
    /// The deployed name and version were asked for. They are kept by the
    /// host's versioning service, where the caller fetches them.
    ContractVersion,
    /// The games that were asked for.
    Games(Vec<GameResponse>),
}

/// The step that a request of `sender` takes on the ledger.
pub open spec fn execute_step(ledger: Ledger, sender: Seq<char>, command: Command) -> Result<
    Ledger,
    ContractError,
> {
    match command {
        Command::Invite { coord, opponent } => invite_step(ledger, sender, coord, opponent),
        Command::Reject { as_host, opponent, game_id } => reject_step(
            ledger,
            sender,
            as_host,
            opponent,
            game_id,
        ),
        Command::Accept { coord, host, game_id } => accept_step(ledger, sender, coord, host, game_id),
        Command::Play { as_host, coord, opponent, game_id } => play_step(
            ledger,
            sender,
            as_host,
            coord,
            opponent,
            game_id,
        ),
    }
}

/// The key of the game that a request addresses. An invitation addresses
/// the key that it is about to create.
pub open spec fn target(ledger: Ledger, sender: Seq<char>, command: Command) -> GameKey {
    match command {
        Command::Invite { opponent, .. } => GameKey { host: sender, opponent, id: ledger.counter },
        Command::Reject { as_host, opponent, game_id } => addressed(sender, as_host, opponent, game_id),
        Command::Accept { host, game_id, .. } => GameKey { host, opponent: sender, id: game_id },
        Command::Play { as_host, opponent, game_id, .. } => addressed(sender, as_host, opponent, game_id),
    }
}

/// The name of the action that a request asks for.
pub open spec fn action_name(command: Command) -> Seq<char> {
    match command {
        Command::Invite { .. } => "invite"@,
        Command::Reject { .. } => "reject"@,
        Command::Accept { .. } => "accept"@,
        Command::Play { .. } => "play"@,
    }
}

/// The games that a reading request asks for; nothing for the request for
/// the deployed version.
pub open spec fn query_answer(store: GameStore, msg: QueryMsg) -> Seq<crate::query::GameResponseView> {
    match msg {
        QueryMsg::GetContractVersion {  } => Seq::empty(),
        QueryMsg::Game { key, game_id } => game_answer(store@, key.host@, key.opponent@, game_id as nat),
        QueryMsg::Games { status } => games_answer(store.listing(), status),
    }
}

/// Sets the contract up: a store without games whose counter stands at
/// zero, acknowledged under the contract's name.
pub fn instantiate(_msg: InstantiateMsg) -> (created: (GameStore, Response<Empty>))
    ensures
        created.0.wf(),
        created.0.listing() == Seq::<GameView>::empty(),
        created.0@ == (Ledger { games: Map::<GameKey, GameView>::empty(), counter: 0 }),
        response_attributes(created.1) == action_attributes(CONTRACT_NAME@),
{
    (GameStore::new(), action_response(CONTRACT_NAME))
}

/// The key of the game that a request of `sender` addresses, as host,
/// opponent and id: the only key under which carrying the request out reads
/// or writes a game.
pub fn target_key(store: &GameStore, sender: &Identity, msg: &ExecuteMsg) -> (key: (Identity, Identity, u64))
    ensures
        (GameKey { host: key.0@, opponent: key.1@, id: key.2 as nat }) == target(store@, sender@, msg@),
{
    match msg {
        ExecuteMsg::Invite { opponent, .. } => (sender.clone(), opponent.clone(), store.counter()),
        ExecuteMsg::Reject { as_host, opponent, game_id } => {
            if *as_host {
                (sender.clone(), opponent.clone(), *game_id)
            } else {
                (opponent.clone(), sender.clone(), *game_id)
            }
        },
        ExecuteMsg::Accept { host, game_id, .. } => (host.clone(), sender.clone(), *game_id),
        ExecuteMsg::Play { as_host, opponent, game_id, .. } => {
            if *as_host {
                (sender.clone(), opponent.clone(), *game_id)
            } else {
                (opponent.clone(), sender.clone(), *game_id)
            }
        },
    }
}

/// Carries out a request of `sender` that changes a game.
pub fn execute(store: &mut GameStore, sender: &Identity, msg: ExecuteMsg) -> (result: Result<
    Response<Empty>,
    ContractError,
>)
    requires
        old(store).wf(),
        msg is Invite ==> old(store)@.counter < u64::MAX,
    ensures
        final(store).wf(),
        carried_out(
            result,
            execute_step(old(store)@, sender@, msg@),
            *old(store),
            *final(store),
            action_name(msg@),
        ),
{
    match msg {
        ExecuteMsg::Invite { coord, opponent } => try_invite(store, sender, coord, &opponent),
        ExecuteMsg::Reject { as_host, opponent, game_id } => try_reject(
            store,
            sender,
            as_host,
            &opponent,
            game_id,
        ),
        ExecuteMsg::Accept { coord, host, game_id } => try_accept(store, sender, coord, &host, game_id),
        ExecuteMsg::Play { as_host, coord, opponent, game_id } => try_play(
            store,
            sender,
            as_host,
            coord,
            &opponent,
            game_id,
        ),
    }
}

/// Answers a request that only reads.
pub fn query(store: &GameStore, msg: QueryMsg) -> (answer: QueryAnswer)
    requires
        store.wf(),
    ensures
        match answer {
            QueryAnswer::ContractVersion => msg is GetContractVersion,
            QueryAnswer::Games(responses) => !(msg is GetContractVersion) && response_views(responses@)
                == query_answer(*store, msg),
        },
{
    match msg {
        QueryMsg::GetContractVersion {  } => QueryAnswer::ContractVersion,
        QueryMsg::Game { key, game_id } => QueryAnswer::Games(query_game(store, key, game_id)),
        QueryMsg::Games { status } => QueryAnswer::Games(query_games(store, status)),
    }
}

} // verus!
