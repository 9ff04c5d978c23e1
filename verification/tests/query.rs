use tic_tac_toe::board::Coord;
use tic_tac_toe::contract::{instantiate, query, QueryAnswer};
use tic_tac_toe::execution::{try_accept, try_invite, try_reject};
use tic_tac_toe::game::Status;
use tic_tac_toe::identity::Identity;
use tic_tac_toe::msg::{InstantiateMsg, QueryKey, QueryMsg};
use tic_tac_toe::query::{query_game, query_games, GameResponse};
use tic_tac_toe::store::GameStore;

fn id(name: &str) -> Identity {
    Identity::new(name)
}

fn key(host: &str, opponent: &str) -> QueryKey {
    QueryKey { host: id(host), opponent: id(opponent) }
}

/// Games 0 (alice, bob, started), 1 (bob, alice, created), 2 (al, bob,
/// rejected) and 3 (alice, bob, created).
fn sample() -> GameStore {
    let (mut store, _) = instantiate(InstantiateMsg {});
    try_invite(&mut store, &id("alice"), Coord::new(0, 0), &id("bob")).unwrap();
    try_invite(&mut store, &id("bob"), Coord::new(1, 1), &id("alice")).unwrap();
    try_invite(&mut store, &id("al"), Coord::new(2, 2), &id("bob")).unwrap();
    try_invite(&mut store, &id("alice"), Coord::new(0, 1), &id("bob")).unwrap();
    try_accept(&mut store, &id("bob"), Coord::new(1, 1), &id("alice"), 0).unwrap();
    try_reject(&mut store, &id("bob"), false, &id("al"), 2).unwrap();
    store
}

fn summary(responses: &[GameResponse]) -> Vec<(String, String, u64, Status)> {
    responses
        .iter()
        .map(|r| {
            assert_eq!(r.host, r.game.host);
            assert_eq!(r.opponent, r.game.opponent);
            (r.host.as_str().to_string(), r.opponent.as_str().to_string(), r.game.id, r.game.status)
        })
        .collect()
}

fn entry(host: &str, opponent: &str, id: u64, status: Status) -> (String, String, u64, Status) {
    (host.to_string(), opponent.to_string(), id, status)
}

#[test]
fn query_game_finds_the_game() {
    let store = sample();
    let found = query_game(&store, key("alice", "bob"), 0);
    assert_eq!(found.len(), 1);
    assert_eq!(found[0].host, id("alice"));
    assert_eq!(found[0].opponent, id("bob"));
    assert_eq!(found[0].game, store.load(&id("alice"), &id("bob"), 0).unwrap());
    assert_eq!(found[0].game.status, Status::Started);
}

#[test]
fn query_game_absent_is_empty() {
    let store = sample();
    assert_eq!(query_game(&store, key("alice", "bob"), 1), Vec::new());
    assert_eq!(query_game(&store, key("bob", "alice"), 0), Vec::new());
    assert_eq!(query_game(&store, key("alice", "carol"), 0), Vec::new());
    assert_eq!(query_game(&GameStore::new(), key("alice", "bob"), 0), Vec::new());
}

#[test]
fn query_game_twice_is_the_same() {
    let store = sample();
    let first = query_game(&store, key("bob", "alice"), 1);
    let second = query_game(&store, key("bob", "alice"), 1);
    assert_eq!(first, second);
    assert_eq!(first.len(), 1);
    let none_first = query_game(&store, key("bob", "alice"), 8);
    let none_second = query_game(&store, key("bob", "alice"), 8);
    assert_eq!(none_first, none_second);
}

#[test]
fn query_games_lists_in_key_order() {
    let store = sample();
    assert_eq!(
        summary(&query_games(&store, None)),
        vec![
            entry("al", "bob", 2, Status::Rejected),
            entry("bob", "alice", 1, Status::Created),
            entry("alice", "bob", 0, Status::Started),
            entry("alice", "bob", 3, Status::Created),
        ]
    );
}

#[test]
fn query_games_filters_by_status() {
    let store = sample();
    assert_eq!(
        summary(&query_games(&store, Some(Status::Created))),
        vec![entry("bob", "alice", 1, Status::Created), entry("alice", "bob", 3, Status::Created)]
    );
    assert_eq!(
        summary(&query_games(&store, Some(Status::Started))),
        vec![entry("alice", "bob", 0, Status::Started)]
    );
    assert_eq!(
        summary(&query_games(&store, Some(Status::Rejected))),
        vec![entry("al", "bob", 2, Status::Rejected)]
    );
    assert_eq!(query_games(&store, Some(Status::Finished)), Vec::new());
    assert_eq!(query_games(&GameStore::new(), None), Vec::new());
}

#[test]
fn query_games_twice_is_the_same() {
    let store = sample();
    assert_eq!(query_games(&store, None), query_games(&store, None));
}

#[test]
fn query_dispatches_every_request() {
    let store = sample();
    assert_eq!(query(&store, QueryMsg::GetContractVersion {}), QueryAnswer::ContractVersion);
    assert_eq!(
        query(&store, QueryMsg::Game { key: key("alice", "bob"), game_id: 3 }),
        QueryAnswer::Games(query_game(&store, key("alice", "bob"), 3))
    );
    assert_eq!(
        query(&store, QueryMsg::Game { key: key("alice", "bob"), game_id: 9 }),
        QueryAnswer::Games(Vec::new())
    );
    assert_eq!(
        query(&store, QueryMsg::Games { status: Some(Status::Created) }),
        QueryAnswer::Games(query_games(&store, Some(Status::Created)))
    );
    match query(&store, QueryMsg::Games { status: None }) {
        QueryAnswer::Games(all) => assert_eq!(all.len(), 4),
        QueryAnswer::ContractVersion => panic!("games were asked for"),
    }
}
