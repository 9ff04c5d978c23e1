//! The index of all games and the counter that numbers them.
//!
//! Games are stored under the key (host, opponent, id) and listed in the
//! order of their keys: by the host's name, then by the opponent's name, then
//! by the id, names in the order that the identity module defines. No two
//! games share a key. The counter hands out the ids: each request returns the
//! current value and moves the counter on by one.

use vstd::prelude::*;
use crate::error::ContractError;
use crate::game::{Game, GameKey, GameView, Status};
use crate::identity::{
    lemma_names_irreflexive, lemma_names_total, lemma_names_transitive, name_precedes, Identity,
};

verus! {

/// The key `a` sorts strictly before the key `b`: by host, then by opponent,
/// then by id.
pub open spec fn key_precedes(a: GameKey, b: GameKey) -> bool {
    ||| name_precedes(a.host, b.host)
    ||| a.host == b.host && name_precedes(a.opponent, b.opponent)
    ||| a.host == b.host && a.opponent == b.opponent && a.id < b.id
}

/// No key sorts before itself.
pub proof fn lemma_keys_irreflexive(a: GameKey)
    ensures
        !key_precedes(a, a),
{
    lemma_names_irreflexive(a.host);
    lemma_names_irreflexive(a.opponent);
}

/// The order of keys is transitive.
pub proof fn lemma_keys_transitive(a: GameKey, b: GameKey, c: GameKey)
    requires
        key_precedes(a, b),
        key_precedes(b, c),
    ensures
        key_precedes(a, c),
{
    if name_precedes(a.host, b.host) && name_precedes(b.host, c.host) {
        lemma_names_transitive(a.host, b.host, c.host);
    }
    if name_precedes(a.opponent, b.opponent) && name_precedes(b.opponent, c.opponent) {
        lemma_names_transitive(a.opponent, b.opponent, c.opponent);
    }
}

/// Of two distinct keys one sorts before the other.
pub proof fn lemma_keys_total(a: GameKey, b: GameKey)
    ensures
        a == b || key_precedes(a, b) || key_precedes(b, a),
{
    lemma_names_total(a.host, b.host);
    lemma_names_total(a.opponent, b.opponent);
}

/// The games are listed in strictly ascending order of their keys.
pub open spec fn sorted(games: Seq<GameView>) -> bool {
    forall|i: int, j: int|
        0 <= i < j < games.len() ==> key_precedes(#[trigger] games[i].key(), #[trigger] games[j].key())
}

/// Position `i` of `games` holds the game with key `key`.
pub open spec fn holds_at(games: Seq<GameView>, key: GameKey, i: int) -> bool {
    0 <= i < games.len() && games[i].key() == key
}

/// Some game of `games` has the key `key`.
pub open spec fn holds(games: Seq<GameView>, key: GameKey) -> bool {
    exists|i: int| holds_at(games, key, i)
}

/// The games of a listing, each under its key.
pub open spec fn indexed(games: Seq<GameView>) -> Map<GameKey, GameView> {
    Map::new(|key: GameKey| holds(games, key), |key: GameKey| games[choose|i: int| holds_at(games, key, i)])
}

/// The mathematical values of a sequence of game records.
pub open spec fn views(games: Seq<Game>) -> Seq<GameView> {
    games.map_values(|game: Game| game@)
}

/// Whether a game passes the filter: any game where there is none, else the
/// games in exactly that stage.
pub open spec fn passes(status: Option<Status>, game: GameView) -> bool {
    match status {
        Some(wanted) => game.status == wanted,
        None => true,
    }
}

/// The games of a listing that pass the filter, in the listing's order.
pub open spec fn selection(games: Seq<GameView>, status: Option<Status>) -> Seq<GameView> {
    games.filter(|game: GameView| passes(status, game))
}

/// In a sorted listing a key names at most one position.
pub proof fn lemma_sorted_position(games: Seq<GameView>, i: int)
    requires
        sorted(games),
        0 <= i < games.len(),
    ensures
        indexed(games).contains_key(games[i].key()),
        indexed(games)[games[i].key()] == games[i],
{
    assert(holds_at(games, games[i].key(), i));
}

/// A sorted listing is determined by the games it holds under their keys:
/// two sorted listings with the same index are the same listing.
pub proof fn lemma_listing_unique(a: Seq<GameView>, b: Seq<GameView>)
    requires
        sorted(a),
        sorted(b),
        indexed(a) == indexed(b),
    ensures
        a == b,
    decreases a.len(),
{
    if a.len() == 0 {
        if b.len() > 0 {
            lemma_sorted_position(b, 0);
        }
    } else if b.len() == 0 {
        lemma_sorted_position(a, 0);
    } else {
        let m = a.len() - 1;
        let n = b.len() - 1;
        // The last game of each listing is the one with the greatest key.
        lemma_sorted_position(a, m);
        lemma_sorted_position(b, n);
        let a0 = a.drop_last();
        let b0 = b.drop_last();
        assert(indexed(a0) =~= indexed(b0)) by {
            lemma_dropped_last(a);
            lemma_dropped_last(b);
        }
        lemma_listing_unique(a0, b0);
        assert(a =~= a0.push(a[m]));
    }
}

/// Dropping the last game of a sorted listing removes its key from the index
/// and leaves the rest as it was.
proof fn lemma_dropped_last(games: Seq<GameView>)
    requires
        sorted(games),
        games.len() > 0,
    ensures
        indexed(games.drop_last()) == indexed(games).remove(games.last().key()),
{
    let rest = games.drop_last();
    let last = games.last();
    assert forall|key: GameKey| holds(rest, key) <==> (holds(games, key) && key != last.key()) by {
        if holds(rest, key) {
            let i = choose|i: int| holds_at(rest, key, i);
            assert(holds_at(games, key, i));
        }
        if holds(games, key) && key != last.key() {
            let i = choose|i: int| holds_at(games, key, i);
            assert(holds_at(rest, key, i));
        }
    }
}

/// Putting a game into a sorted listing at the place where its key belongs
/// keeps the listing sorted and adds the game to the index.
proof fn lemma_inserted(games: Seq<GameView>, at: int, game: GameView)
    requires
        sorted(games),
        0 <= at <= games.len(),
        forall|i: int| 0 <= i < at ==> key_precedes(#[trigger] games[i].key(), game.key()),
        at < games.len() ==> key_precedes(game.key(), games[at].key()),
    ensures
        sorted(games.insert(at, game)),
        !holds(games, game.key()),
        indexed(games.insert(at, game)) == indexed(games).insert(game.key(), game),
{
    let after = games.insert(at, game);
    assert forall|j: int| at <= j < games.len() implies key_precedes(
        game.key(),
        #[trigger] games[j].key(),
    ) by {
        if at < j {
            lemma_keys_transitive(game.key(), games[at].key(), games[j].key());
        }
    }
    assert forall|key: GameKey| holds(after, key) <==> (holds(games, key) || key == game.key()) by {
        if holds(after, key) {
            let i = choose|i: int| holds_at(after, key, i);
            if i < at {
                assert(holds_at(games, key, i));
            } else if i > at {
                assert(holds_at(games, key, i - 1));
            }
        }
        if holds(games, key) {
            let i = choose|i: int| holds_at(games, key, i);
            if i < at {
                assert(holds_at(after, key, i));
            } else {
                assert(holds_at(after, key, i + 1));
            }
        }
        if key == game.key() {
            assert(holds_at(after, key, at));
        }
    }
}

/// Replacing a game of a sorted listing by one with the same key keeps the
/// listing sorted and replaces the game in the index.
proof fn lemma_replaced(games: Seq<GameView>, at: int, game: GameView)
    requires
        sorted(games),
        0 <= at < games.len(),
        games[at].key() == game.key(),
    ensures
        sorted(games.update(at, game)),
        indexed(games.update(at, game)) == indexed(games).insert(game.key(), game),
{
    let after = games.update(at, game);
    assert forall|key: GameKey| holds(after, key) <==> (holds(games, key) || key == game.key()) by {
        if holds(after, key) {
            let i = choose|i: int| holds_at(after, key, i);
            assert(holds_at(games, key, i));
        }
        if holds(games, key) {
            let i = choose|i: int| holds_at(games, key, i);
            assert(holds_at(after, key, i));
        }
        if key == game.key() {
            assert(holds_at(after, key, at));
        }
    }
}

/// Where no game passes the filter, the selection is empty.
pub proof fn lemma_selection_of_none(games: Seq<GameView>, status: Option<Status>)
    requires
        forall|i: int| 0 <= i < games.len() ==> !passes(status, #[trigger] games[i]),
    ensures
        selection(games, status) == Seq::<GameView>::empty(),
    decreases games.len(),
{
    reveal(Seq::filter);
    if games.len() > 0 {
        assert(!passes(status, games[games.len() - 1]));
        assert forall|i: int| 0 <= i < games.drop_last().len() implies !passes(
            status,
            #[trigger] games.drop_last()[i],
        ) by {
            assert(games.drop_last()[i] == games[i]);
        }
        lemma_selection_of_none(games.drop_last(), status);
    }
}

/// A scan in steps meets the games of the selection, one after the other:
/// where the game at position `at` is the first from position `from` on
/// that passes the filter, the selection from `from` on is that game
/// followed by the selection from behind `at` on.
pub proof fn lemma_selection_in_steps(games: Seq<GameView>, from: int, at: int, status: Option<Status>)
    requires
        0 <= from <= at < games.len(),
        passes(status, games[at]),
        forall|i: int| from <= i < at ==> !passes(status, #[trigger] games[i]),
    ensures
        selection(games.skip(from), status) == seq![games[at]] + selection(games.skip(at + 1), status),
{
    let pred = |game: GameView| passes(status, game);
    let before = games.subrange(from, at);
    let found = seq![games[at]];
    let rest = games.skip(at + 1);
    assert(games.skip(from) =~= before + (found + rest));
    Seq::filter_distributes_over_add(before, found + rest, pred);
    Seq::filter_distributes_over_add(found, rest, pred);
    lemma_selection_of_none(before, status);
    assert(found.filter(pred) == found) by {
        reveal(Seq::filter);
        assert(found.drop_last() =~= Seq::<GameView>::empty());
        assert(found.drop_last().filter(pred) =~= Seq::<GameView>::empty());
        assert(found.last() == games[at]);
        assert(found =~= Seq::<GameView>::empty().push(games[at]));
    }
    assert(selection(games.skip(from), status) =~= found + selection(rest, status));
}

/// The state of the store as a mathematical value: every game under its
/// key, and the counter.
pub struct Ledger {
    pub games: Map<GameKey, GameView>,
    pub counter: nat,
}

impl Ledger {
    /// Every game is filed under its own key.
    pub open spec fn filed(self) -> bool {
        forall|key: GameKey| #[trigger] self.games.contains_key(key) ==> self.games[key].key() == key
    }

    /// Every id in use lies below the counter, so that the id which the
    /// counter hands out next is in use nowhere.
    pub open spec fn numbered(self) -> bool {
        forall|key: GameKey| #[trigger] self.games.contains_key(key) ==> key.id < self.counter
    }
}

/// The index of all games together with the counter of ids.
#[derive(Debug)]
pub struct GameStore {
    games: Vec<Game>,
    counter: u64,
}

/// Whether the key (`host`, `opponent`, `id`) sorts strictly before the key
/// (`other_host`, `other_opponent`, `other_id`).
fn key_before(
    host: &Identity,
    opponent: &Identity,
    id: u64,
    other_host: &Identity,
    other_opponent: &Identity,
    other_id: u64,
) -> (before: bool)
    ensures
        before == key_precedes(
            GameKey { host: host@, opponent: opponent@, id: id as nat },
            GameKey { host: other_host@, opponent: other_opponent@, id: other_id as nat },
        ),
{
    if host.precedes(other_host) {
        return true;
    }
    if !host.same_as(other_host) {
        return false;
    }
    if opponent.precedes(other_opponent) {
        return true;
    }
    if !opponent.same_as(other_opponent) {
        return false;
    }
    id < other_id
}

impl View for GameStore {
    type V = Ledger;

    open spec fn view(&self) -> Ledger {
        Ledger { games: indexed(self.listing()), counter: self.count() }
    }
}

impl GameStore {
    /// All games in the order of their keys.
    pub closed spec fn listing(&self) -> Seq<GameView> {
        views(self.games@)
    }

    /// The value of the counter: the id that the next new game receives.
    pub closed spec fn count(&self) -> nat {
        self.counter as nat
    }

    /// The listing is in strictly ascending key order, so no two games share
    /// a key.
    pub open spec fn wf(&self) -> bool {
        sorted(self.listing())
    }

    /// The store files every game under the game's own key.
    pub proof fn lemma_filed(&self)
        ensures
            self@.filed(),
    {
    }

    /// A store without games whose counter stands at zero.
    pub fn new() -> (store: GameStore)
        ensures
            store.wf(),
            store.listing() == Seq::<GameView>::empty(),
            store@.games == Map::<GameKey, GameView>::empty(),
            store@.counter == 0,
    {
        GameStore::starting_at(0)
    }

    /// A store without games whose counter stands at `counter`.
    pub fn starting_at(counter: u64) -> (store: GameStore)
        ensures
            store.wf(),
            store.listing() == Seq::<GameView>::empty(),
            store@.games == Map::<GameKey, GameView>::empty(),
            store@.counter == counter,
    {
        GameStore { games: Vec::new(), counter }
    }

    /// The value of the counter.
    pub fn counter(&self) -> (counter: u64)
        ensures
            counter == self@.counter,
    {
        self.counter
    }

    /// The number of games.
    pub fn len(&self) -> (len: usize)
        ensures
            len == self.listing().len(),
    {
        self.games.len()
    }

    /// Hands out the id for a new game: the counter's value, which is then
    /// moved on by one. The games stay as they are.
    pub fn next_game_id(&mut self) -> (id: u64)
        requires
            old(self)@.counter < u64::MAX,
        ensures
            id == old(self)@.counter,
            final(self)@.counter == old(self)@.counter + 1,
            final(self).listing() == old(self).listing(),
    {
        let id = self.counter;
        self.counter = id + 1;
        id
    }

    /// The place of a key in the listing: the position of the first game
    /// whose key does not sort before it, and whether that game has the key.
    fn locate(&self, host: &Identity, opponent: &Identity, id: u64) -> (place: (usize, bool))
        requires
            self.wf(),
        ensures
            place.0 <= self.listing().len(),
            forall|i: int|
                0 <= i < place.0 ==> key_precedes(
                    #[trigger] self.listing()[i].key(),
                    GameKey { host: host@, opponent: opponent@, id: id as nat },
                ),
            place.1 ==> holds_at(
                self.listing(),
                GameKey { host: host@, opponent: opponent@, id: id as nat },
                place.0 as int,
            ),
            !place.1 && place.0 < self.listing().len() ==> key_precedes(
                GameKey { host: host@, opponent: opponent@, id: id as nat },
                self.listing()[place.0 as int].key(),
            ),
    {
        let ghost key = GameKey { host: host@, opponent: opponent@, id: id as nat };
        let mut at: usize = 0;
        while at < self.games.len()
            invariant
                at <= self.games.len(),
                key == (GameKey { host: host@, opponent: opponent@, id: id as nat }),
                forall|i: int| 0 <= i < at ==> key_precedes(#[trigger] self.listing()[i].key(), key),
            decreases self.games.len() - at,
        {
            let game = &self.games[at];
            if !key_before(&game.host, &game.opponent, game.id, host, opponent, id) {
                let found = game.host.same_as(host) && game.opponent.same_as(opponent) && game.id
                    == id;
                proof {
                    lemma_keys_total(game@.key(), key);
                }
                return (at, found);
            }
            at += 1;
        }
        (at, false)
    }

    /// Whether a game is stored under the key.
    pub fn contains(&self, host: &Identity, opponent: &Identity, id: u64) -> (found: bool)
        requires
            self.wf(),
        ensures
            found == self@.games.contains_key(GameKey { host: host@, opponent: opponent@, id: id as nat }),
    {
        let (at, found) = self.locate(host, opponent, id);
        proof {
            self.lemma_located(GameKey { host: host@, opponent: opponent@, id: id as nat }, at as int, found);
        }
        found
    }

    /// What the place of a key says about the index: the key is in use
    /// exactly where the game at its place has it, and that game is then
    /// the one that the index holds under the key.
    proof fn lemma_located(&self, key: GameKey, at: int, found: bool)
        requires
            self.wf(),
            0 <= at <= self.listing().len(),
            forall|i: int| 0 <= i < at ==> key_precedes(#[trigger] self.listing()[i].key(), key),
            found ==> holds_at(self.listing(), key, at),
            !found && at < self.listing().len() ==> key_precedes(key, self.listing()[at].key()),
        ensures
            found == holds(self.listing(), key),
            found ==> indexed(self.listing())[key] == self.listing()[at],
    {
        let games = self.listing();
        if found {
            lemma_sorted_position(games, at);
        } else if holds(games, key) {
            let i = choose|i: int| holds_at(games, key, i);
            lemma_keys_irreflexive(key);
            if i > at {
                lemma_keys_transitive(key, games[at].key(), games[i].key());
            }
        }
    }

    /// The game stored under the key, if there is one.
    pub fn load(&self, host: &Identity, opponent: &Identity, id: u64) -> (game: Option<Game>)
        requires
            self.wf(),
        ensures
            match game {
                Some(game) => self@.games.contains_key(game@.key()) && self@.games[game@.key()]
                    == game@ && game@.key() == (GameKey { host: host@, opponent: opponent@, id: id as nat }),
                None => !self@.games.contains_key(GameKey { host: host@, opponent: opponent@, id: id as nat }),
            },
    {
        let (at, found) = self.locate(host, opponent, id);
        proof {
            self.lemma_located(GameKey { host: host@, opponent: opponent@, id: id as nat }, at as int, found);
        }
        if found {
            Some(self.games[at].clone())
        } else {
            None
        }
    }

    /// Stores a new game under its key. Refused with `DuplicateGame`, and
    /// nothing changed, where a game is already stored under that key.
    pub fn insert(&mut self, game: Game) -> (result: Result<(), ContractError>)
        requires
            old(self).wf(),
        ensures
            final(self).wf(),
            final(self)@.counter == old(self)@.counter,
            match result {
                Ok(_) => !old(self)@.games.contains_key(game@.key()) && final(self)@.games == old(
                    self,
                )@.games.insert(game@.key(), game@),
                Err(e) => e == ContractError::DuplicateGame && old(self)@.games.contains_key(
                    game@.key(),
                ) && *final(self) == *old(self),
            },
    {
        let (at, found) = self.locate(&game.host, &game.opponent, game.id);
        proof {
            self.lemma_located(game@.key(), at as int, found);
        }
        if found {
            return Err(ContractError::DuplicateGame);
        }
        proof {
            lemma_inserted(self.listing(), at as int, game@);
            assert(views(self.games@.insert(at as int, game)) =~= self.listing().insert(
                at as int,
                game@,
            ));
        }
        self.games.insert(at, game);
        Ok(())
    }

    /// Stores a game under its key, in place of the game that was stored
    /// there, if any.
    pub fn save(&mut self, game: Game)
        requires
            old(self).wf(),
        ensures
            final(self).wf(),
            final(self)@.counter == old(self)@.counter,
            final(self)@.games == old(self)@.games.insert(game@.key(), game@),
    {
        let (at, found) = self.locate(&game.host, &game.opponent, game.id);
        proof {
            self.lemma_located(game@.key(), at as int, found);
        }
        if found {
            proof {
                lemma_replaced(self.listing(), at as int, game@);
                assert(views(self.games@.update(at as int, game)) =~= self.listing().update(
                    at as int,
                    game@,
                ));
            }
            self.games[at] = game;
        } else {
            proof {
                lemma_inserted(self.listing(), at as int, game@);
                assert(views(self.games@.insert(at as int, game)) =~= self.listing().insert(
                    at as int,
                    game@,
                ));
            }
            self.games.insert(at, game);
        }
    }

    /// One step of a scan that hands the games out one at a time: the first
    /// game at or behind position `from` of the listing that passes the
    /// filter, with its position, or `None` where no game from there on
    /// passes. A scan that begins at position 0 and goes on behind each
    /// position that it was handed meets the games of `scan`, in the same
    /// order.
    pub fn scan_from(&self, from: usize, status: Option<Status>) -> (next: Option<(usize, Game)>)
        ensures
            match next {
                Some((at, game)) => {
                    &&& from <= at < self.listing().len()
                    &&& game@ == self.listing()[at as int]
                    &&& passes(status, game@)
                    &&& forall|i: int| from <= i < at ==> !passes(status, #[trigger] self.listing()[i])
                    &&& selection(self.listing().skip(from as int), status) == seq![game@] + selection(
                        self.listing().skip(at + 1),
                        status,
                    )
                },
                None => {
                    &&& forall|i: int|
                        from <= i < self.listing().len() ==> !passes(
                            status,
                            #[trigger] self.listing()[i],
                        )
                    &&& from <= self.listing().len() ==> selection(
                        self.listing().skip(from as int),
                        status,
                    ) == Seq::<GameView>::empty()
                },
            },
    {
        let mut at: usize = from;
        while at < self.games.len()
            invariant
                from <= at,
                forall|i: int|
                    from <= i < at && i < self.listing().len() ==> !passes(
                        status,
                        #[trigger] self.listing()[i],
                    ),
            decreases self.games.len() - at,
        {
            let game = &self.games[at];
            let wanted = match status {
                Some(wanted) => game.status == wanted,
                None => true,
            };
            if wanted {
                proof {
                    lemma_selection_in_steps(self.listing(), from as int, at as int, status);
                }
                return Some((at, game.clone()));
            }
            at += 1;
        }
        proof {
            if from <= self.listing().len() {
                lemma_selection_of_none(self.listing().skip(from as int), status);
            }
        }
        None
    }

    /// All games in the order of their keys, or, with a filter, those of
    /// them that are in the given stage.
    pub fn scan(&self, status: Option<Status>) -> (games: Vec<Game>)
        ensures
            views(games@) == selection(self.listing(), status),
    {
        let mut found: Vec<Game> = Vec::new();
        let mut at: usize = 0;
        proof {
            reveal(Seq::filter);
        }
        while at < self.games.len()
            invariant
                at <= self.games.len(),
                views(found@) == selection(self.listing().take(at as int), status),
            decreases self.games.len() - at,
        {
            let game = &self.games[at];
            let wanted = match status {
                Some(wanted) => game.status == wanted,
                None => true,
            };
            proof {
                reveal(Seq::filter);
                assert(self.listing().take(at + 1).drop_last() =~= self.listing().take(at as int));
            }
            if wanted {
                found.push(game.clone());
            }
            at += 1;
        }
        assert(self.listing().take(at as int) =~= self.listing());
        found
    }
}

} // verus!
