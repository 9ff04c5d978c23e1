//! Looking games up: one game by its key, or all games in key order with an
//! optional filter on the stage. A lookup changes nothing, and a game that
//! is not there is an empty answer, not an error.

use vstd::prelude::*;
use crate::game::{Game, GameKey, GameView, Status};
use crate::identity::Identity;
use crate::msg::QueryKey;
use crate::store::{selection, views, GameStore, Ledger};

verus! {

/// A game together with its two participants.
#[derive(Debug, PartialEq, Eq)]
pub struct GameResponse {
    pub game: Game,
    pub host: Identity,
    pub opponent: Identity,
}

/// An answered game as a mathematical value.
pub struct GameResponseView {
    pub game: GameView,
    pub host: Seq<char>,
    pub opponent: Seq<char>,
}

impl View for GameResponse {
    type V = GameResponseView;

    open spec fn view(&self) -> GameResponseView {
        GameResponseView { game: self.game@, host: self.host@, opponent: self.opponent@ }
    }
}

/// The mathematical values of a sequence of answers.
pub open spec fn response_views(responses: Seq<GameResponse>) -> Seq<GameResponseView> {
    responses.map_values(|response: GameResponse| response@)
}

/// A game with the participants under which it is stored.
pub open spec fn described(game: GameView) -> GameResponseView {
    GameResponseView { game, host: game.host, opponent: game.opponent }
}

/// The answer to the question for one game: the game stored under the key
/// with the two participants asked for, or nothing.
pub open spec fn game_answer(ledger: Ledger, host: Seq<char>, opponent: Seq<char>, id: nat) -> Seq<
    GameResponseView,
> {
    let key = GameKey { host, opponent, id };
    if ledger.games.contains_key(key) {
        seq![GameResponseView { game: ledger.games[key], host, opponent }]
    } else {
        Seq::empty()
    }
}

/// The answer to the question for all games: those of the listing that pass
/// the filter, in the listing's order.
pub open spec fn games_answer(listing: Seq<GameView>, status: Option<Status>) -> Seq<GameResponseView> {
    selection(listing, status).map_values(|game: GameView| described(game))
}

/// The game of `key`'s participants with the id `game_id`: one answer where
/// it exists, none where it does not.
pub fn query_game(store: &GameStore, key: QueryKey, game_id: u64) -> (responses: Vec<GameResponse>)
    requires
        store.wf(),
    ensures
        response_views(responses@) == game_answer(store@, key.host@, key.opponent@, game_id as nat),
{
    let mut responses: Vec<GameResponse> = Vec::new();
    match store.load(&key.host, &key.opponent, game_id) {
        Some(game) => {
            responses.push(GameResponse { game, host: key.host, opponent: key.opponent });
        },
        None => {},
    }
    assert(response_views(responses@) =~= game_answer(
        store@,
        key.host@,
        key.opponent@,
        game_id as nat,
    ));
    responses
}

/// All games in the order of their keys, or, with a filter, those of them
/// that are in the stage `status`.
pub fn query_games(store: &GameStore, status: Option<Status>) -> (responses: Vec<GameResponse>)
    ensures
        response_views(responses@) == games_answer(store.listing(), status),
{
    let games = store.scan(status);
    let mut responses: Vec<GameResponse> = Vec::new();
    let mut at: usize = 0;
    while at < games.len()
        invariant
            at <= games.len(),
            responses.len() == at,
            forall|i: int| 0 <= i < at ==> (#[trigger] responses[i])@ == described(games[i]@),
        decreases games.len() - at,
    {
        let game = games[at].clone();
        let host = game.host.clone();
        let opponent = game.opponent.clone();
        responses.push(GameResponse { game, host, opponent });
        at += 1;
    }
    assert(response_views(responses@) =~= games_answer(store.listing(), status)) by {
        assert forall|i: int| 0 <= i < games.len() implies games[i]@ == selection(
            store.listing(),
            status,
        )[i] by {
            assert(views(games@)[i] == games[i]@);
        }
    }
    responses
}

} // verus!
