//! The four actions on the store: invite, reject, accept and play.
//!
//! Each action is first stated as a step on the ledger, the mathematical
//! value of the store: either the ledger that results or the reason for
//! which the action is refused. The executable handlers are proved to take
//! exactly that step. A refused action leaves the store as it was.

use cosmwasm_std::{Empty, Response};
use vstd::prelude::*;
use crate::board::{Coord, Role};
use crate::error::ContractError;
use crate::game::{accepted, invited, played, rejected, Game, GameKey, GameView};
use crate::identity::Identity;
use crate::response::{action_attributes, action_response, response_attributes};
use crate::store::{GameStore, Ledger};

verus! {

/// The role in which the sender of a request acts.
pub open spec fn acting(as_host: bool) -> Role {
    if as_host {
        Role::Host
    } else {
        Role::Opponent
    }
}

/// The key that a request of `sender` addresses: `sender` is the host and
/// `counterpart` the opponent where `sender` acts as host, and the other way
/// round where not.
pub open spec fn addressed(sender: Seq<char>, as_host: bool, counterpart: Seq<char>, id: nat) -> GameKey {
    if as_host {
        GameKey { host: sender, opponent: counterpart, id }
    } else {
        GameKey { host: counterpart, opponent: sender, id }
    }
}

/// The ledger after `sender` invited `opponent` with a first mark at
/// `coord`: the new game stored under the counter's value as its id, and the
/// counter moved on by one.
pub open spec fn invite_step(ledger: Ledger, sender: Seq<char>, coord: Coord, opponent: Seq<char>) -> Result<
    Ledger,
    ContractError,
> {
    match invited(sender, opponent, ledger.counter, coord) {
        Err(e) => Err(e),
        Ok(game) => if ledger.games.contains_key(game.key()) {
            Err(ContractError::DuplicateGame)
        } else {
            Ok(Ledger { games: ledger.games.insert(game.key(), game), counter: ledger.counter + 1 })
        },
    }
}

/// The ledger after the game under `key` took the step `next`: refused with
/// `GameNotFound` where no game is stored there, and as `next` refuses.
pub open spec fn amend(ledger: Ledger, key: GameKey, next: Result<GameView, ContractError>) -> Result<
    Ledger,
    ContractError,
> {
    if !ledger.games.contains_key(key) {
        Err(ContractError::GameNotFound)
    } else {
        match next {
            Err(e) => Err(e),
            Ok(game) => Ok(Ledger { games: ledger.games.insert(key, game), ..ledger }),
        }
    }
}

/// The ledger after `sender` declined the invitation of the addressed game.
pub open spec fn reject_step(
    ledger: Ledger,
    sender: Seq<char>,
    as_host: bool,
    counterpart: Seq<char>,
    id: nat,
) -> Result<Ledger, ContractError> {
    let key = addressed(sender, as_host, counterpart, id);
    amend(ledger, key, rejected(ledger.games[key]))
}

/// The ledger after `sender` accepted `host`'s invitation with a first mark
/// at `coord`.
pub open spec fn accept_step(ledger: Ledger, sender: Seq<char>, coord: Coord, host: Seq<char>, id: nat) -> Result<
    Ledger,
    ContractError,
> {
    let key = GameKey { host, opponent: sender, id };
    amend(ledger, key, accepted(ledger.games[key], coord))
}

/// The ledger after `sender` moved at `coord` in the addressed game.
pub open spec fn play_step(
    ledger: Ledger,
    sender: Seq<char>,
    as_host: bool,
    coord: Coord,
    counterpart: Seq<char>,
    id: nat,
) -> Result<Ledger, ContractError> {
    let key = addressed(sender, as_host, counterpart, id);
    amend(ledger, key, played(ledger.games[key], acting(as_host), coord))
}

/// What a handler did, against the step that the rules prescribe. Where the
/// rules allow the action, the handler succeeded, the store holds the new
/// ledger, and the response carries the action's name as its only attribute.
/// Where they refuse it, the handler returned their error and the store is
/// untouched.
pub open spec fn carried_out(
    result: Result<Response<Empty>, ContractError>,
    step: Result<Ledger, ContractError>,
    before: GameStore,
    after: GameStore,
    action: Seq<char>,
) -> bool {
    match step {
        Ok(ledger) => {
            &&& result is Ok
            &&& response_attributes(result->Ok_0) == action_attributes(action)
            &&& after@ == ledger
        },
        Err(e) => {
            &&& result is Err
            &&& result->Err_0 == e
            &&& after == before
        },
    }
}

/// `sender` invites `opponent` to a new game and places the first mark at
/// `coord`.
pub fn try_invite(store: &mut GameStore, sender: &Identity, coord: Coord, opponent: &Identity) -> (result:
    Result<Response<Empty>, ContractError>)
    requires
        old(store).wf(),
        old(store)@.counter < u64::MAX,
    ensures
        final(store).wf(),
        carried_out(
            result,
            invite_step(old(store)@, sender@, coord, opponent@),
            *old(store),
            *final(store),
            "invite"@,
        ),
{
    let id = store.counter();
    let game = match Game::invite(sender.clone(), opponent.clone(), id, coord) {
        Ok(game) => game,
        Err(e) => {
            return Err(e);
        },
    };
    match store.insert(game) {
        Ok(_) => {},
        Err(e) => {
            return Err(e);
        },
    }
    let _ = store.next_game_id();
    Ok(action_response("invite"))
}

/// `sender` declines the invitation of the game that `sender` shares with
/// `counterpart` under `game_id`.
pub fn try_reject(
    store: &mut GameStore,
    sender: &Identity,
    as_host: bool,
    counterpart: &Identity,
    game_id: u64,
) -> (result: Result<Response<Empty>, ContractError>)
    requires
        old(store).wf(),
    ensures
        final(store).wf(),
        carried_out(
            result,
            reject_step(old(store)@, sender@, as_host, counterpart@, game_id as nat),
            *old(store),
            *final(store),
            "reject"@,
        ),
{
    let found = if as_host {
        store.load(sender, counterpart, game_id)
    } else {
        store.load(counterpart, sender, game_id)
    };
    let game = match found {
        Some(game) => game,
        None => {
            return Err(ContractError::GameNotFound);
        },
    };
    let next = match game.reject() {
        Ok(next) => next,
        Err(e) => {
            return Err(e);
        },
    };
    store.save(next);
    Ok(action_response("reject"))
}

/// `sender` accepts the invitation that `host` made under `game_id` and
/// places the opponent's first mark at `coord`.
pub fn try_accept(store: &mut GameStore, sender: &Identity, coord: Coord, host: &Identity, game_id: u64) -> (result:
    Result<Response<Empty>, ContractError>)
    requires
        old(store).wf(),
    ensures
        final(store).wf(),
        carried_out(
            result,
            accept_step(old(store)@, sender@, coord, host@, game_id as nat),
            *old(store),
            *final(store),
            "accept"@,
        ),
{
    let game = match store.load(host, sender, game_id) {
        Some(game) => game,
        None => {
            return Err(ContractError::GameNotFound);
        },
    };
    let next = match game.accept(coord) {
        Ok(next) => next,
        Err(e) => {
            return Err(e);
        },
    };
    store.save(next);
    Ok(action_response("accept"))
}

/// `sender` moves at `coord` in the game that `sender` shares with
/// `counterpart` under `game_id`.
pub fn try_play(
    store: &mut GameStore,
    sender: &Identity,
    as_host: bool,
    coord: Coord,
    counterpart: &Identity,
    game_id: u64,
) -> (result: Result<Response<Empty>, ContractError>)
    requires
        old(store).wf(),
    ensures
        final(store).wf(),
        carried_out(
            result,
            play_step(old(store)@, sender@, as_host, coord, counterpart@, game_id as nat),
            *old(store),
            *final(store),
            "play"@,
        ),
{
    let found = if as_host {
        store.load(sender, counterpart, game_id)
    } else {
        store.load(counterpart, sender, game_id)
    };
    let game = match found {
        Some(game) => game,
        None => {
            return Err(ContractError::GameNotFound);
        },
    };
    let role = if as_host {
        Role::Host
    } else {
        Role::Opponent
    };
    let next = match game.play(role, coord) {
        Ok(next) => next,
        Err(e) => {
            return Err(e);
        },
    };
    store.save(next);
    Ok(action_response("play"))
}

} // verus!
