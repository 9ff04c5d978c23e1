//! What holds of the rules as a whole, proved from the steps that the
//! handlers take.
//!
//! The laws that speak of the store are stated for every outcome that
//! `execute` can have: for a store before the call, a sender, a request,
//! and a result and a store after the call that meet what `execute`
//! ensures.

use cosmwasm_std::{Empty, Response};
use vstd::prelude::*;
use crate::board::{
    cell_at, empty_cells, fills_column, fills_row, holds_line, outcome_of, place, Cell, Coord,
    Outcome, Role,
};
use crate::contract::{action_name, execute_step, target};
use crate::error::ContractError;
use crate::execution::{acting, carried_out, invite_step};
use crate::game::{accepted, invited, played, rejected, GameKey, GameView, Status};
use crate::msg::Command;
use crate::query::{game_answer, games_answer, response_views, GameResponse};
use crate::store::{GameStore, Ledger};

verus! {

/// `result` and `after` are an outcome of `execute` for `sender`'s request
/// `command` on the store `before`.
pub open spec fn executed(
    before: GameStore,
    sender: Seq<char>,
    command: Command,
    result: Result<Response<Empty>, ContractError>,
    after: GameStore,
) -> bool {
    carried_out(result, execute_step(before@, sender, command), before, after, action_name(command))
}

/// The request places a mark, and its coordinate lies off the board.
pub open spec fn off_board(command: Command) -> bool {
    match command {
        Command::Invite { coord, .. } => !coord.in_range(),
        Command::Accept { coord, .. } => !coord.in_range(),
        Command::Play { coord, .. } => !coord.in_range(),
        Command::Reject { .. } => false,
    }
}

/// Nothing stands between the request and the placing of its mark: an
/// invitation always gets there; an acceptance where the game exists and
/// waits for an answer; a move where the game exists, is in progress and the
/// sender is to move.
pub open spec fn reaches_board(ledger: Ledger, sender: Seq<char>, command: Command) -> bool {
    let key = target(ledger, sender, command);
    match command {
        Command::Invite { .. } => true,
        Command::Reject { .. } => false,
        Command::Accept { .. } => ledger.games.contains_key(key) && ledger.games[key].status
            == Status::Created,
        Command::Play { as_host, .. } => ledger.games.contains_key(key) && ledger.games[key].status
            == Status::Started && ledger.games[key].turn == acting(as_host),
    }
}

/// A mark cannot be placed off the board: the attempt is refused with
/// `InvalidCoordinate`, whatever the board holds.
pub proof fn lemma_place_off_board(cells: Seq<Cell>, coord: Coord, role: Role)
    requires
        !coord.in_range(),
    ensures
        place(cells, coord, role) == Err::<Seq<Cell>, ContractError>(ContractError::InvalidCoordinate),
{
}

/// A request whose coordinate lies off the board never succeeds and leaves
/// the store untouched.
pub proof fn lemma_off_board_changes_nothing(
    before: GameStore,
    sender: Seq<char>,
    command: Command,
    result: Result<Response<Empty>, ContractError>,
    after: GameStore,
)
    requires
        executed(before, sender, command, result, after),
        off_board(command),
    ensures
        result is Err,
        after == before,
{
}

/// A request whose coordinate lies off the board is refused with
/// `InvalidCoordinate`, and the store is untouched, wherever the request
/// gets as far as placing its mark.
pub proof fn lemma_off_board_is_invalid_coordinate(
    before: GameStore,
    sender: Seq<char>,
    command: Command,
    result: Result<Response<Empty>, ContractError>,
    after: GameStore,
)
    requires
        executed(before, sender, command, result, after),
        off_board(command),
        reaches_board(before@, sender, command),
    ensures
        result is Err,
        result->Err_0 == ContractError::InvalidCoordinate,
        after == before,
{
}

/// Once a game is finished or rejected, every further request that
/// addresses it is refused with `InvalidStatus` and leaves the store
/// untouched.
pub proof fn lemma_terminal_is_final(
    before: GameStore,
    sender: Seq<char>,
    command: Command,
    result: Result<Response<Empty>, ContractError>,
    after: GameStore,
)
    requires
        executed(before, sender, command, result, after),
        !(command is Invite),
        before@.games.contains_key(target(before@, sender, command)),
        before@.games[target(before@, sender, command)].status.terminal(),
    ensures
        result is Err,
        result->Err_0 == ContractError::InvalidStatus,
        after == before,
{
}

/// A game that is finished or rejected stays as it is, whatever request is
/// carried out afterwards, on its key or on another.
pub proof fn lemma_terminal_game_stays(ledger: Ledger, sender: Seq<char>, command: Command, key: GameKey)
    requires
        ledger.games.contains_key(key),
        ledger.games[key].status.terminal(),
        execute_step(ledger, sender, command) is Ok,
    ensures
        execute_step(ledger, sender, command)->Ok_0.games.contains_key(key),
        execute_step(ledger, sender, command)->Ok_0.games[key] == ledger.games[key],
{
}

/// The stage `next` can follow the stage `stage` in one step: a created game
/// is started or rejected, a started game goes on or is finished.
pub open spec fn follows(stage: Status, next: Status) -> bool {
    match stage {
        Status::Created => next == Status::Started || next == Status::Rejected,
        Status::Started => next == Status::Started || next == Status::Finished,
        Status::Finished => false,
        Status::Rejected => false,
    }
}

/// Every step that a game takes leads forward: no stage is entered twice
/// but `Started`, which a move that decides nothing keeps, and no step
/// leads out of `Finished` or `Rejected`. The participants and the id never
/// change.
pub proof fn lemma_stages_only_advance(game: GameView, role: Role, coord: Coord)
    ensures
        rejected(game) matches Ok(next) ==> follows(game.status, next.status) && next.key()
            == game.key(),
        accepted(game, coord) matches Ok(next) ==> follows(game.status, next.status) && next.key()
            == game.key(),
        played(game, role, coord) matches Ok(next) ==> follows(game.status, next.status)
            && next.key() == game.key(),
{
}

/// A successful acceptance or move changes exactly one cell of the board,
/// from empty to the mark of the participant who placed it; a rejection
/// changes none.
pub proof fn lemma_step_marks_one_cell(game: GameView, role: Role, coord: Coord)
    ensures
        rejected(game) matches Ok(next) ==> next.board == game.board,
        accepted(game, coord) matches Ok(next) ==> coord.in_range() && game.board[coord.offset()]
            == Cell::Empty && next.board == game.board.update(coord.offset(), Cell::Opponent),
        played(game, role, coord) matches Ok(next) ==> coord.in_range() && game.board[coord.offset()]
            == Cell::Empty && next.board == game.board.update(coord.offset(), role.mark()),
{
}

/// A mark completes no line of the other participant: where the other
/// held no line before the mark was placed, the other holds none after it.
pub proof fn lemma_mark_completes_own_line_only(cells: Seq<Cell>, coord: Coord, role: Role)
    requires
        cells.len() == 9,
        place(cells, coord, role) is Ok,
        !holds_line(cells, role.opposite().mark()),
    ensures
        !holds_line(place(cells, coord, role)->Ok_0, role.opposite().mark()),
{
    let after = place(cells, coord, role)->Ok_0;
    let other = role.opposite().mark();
    assert forall|r: int, c: int| 0 <= r < 3 && 0 <= c < 3 && cell_at(after, r, c) == other implies cell_at(
        cells,
        r,
        c,
    ) == other by {}
    if holds_line(after, other) {
        if exists|r: int| 0 <= r < 3 && #[trigger] fills_row(after, r, other) {
            let r = choose|r: int| 0 <= r < 3 && #[trigger] fills_row(after, r, other);
            assert(fills_row(cells, r, other));
        } else if exists|c: int| 0 <= c < 3 && #[trigger] fills_column(after, c, other) {
            let c = choose|c: int| 0 <= c < 3 && #[trigger] fills_column(after, c, other);
            assert(fills_column(cells, c, other));
        }
    }
}

/// The board holds the marks that the stage of the game allows: nine
/// cells; before the opponent's answer, the host's first mark and nothing
/// else; while the game is in progress, no line and an empty cell; once it
/// is finished, a line or no empty cell.
pub open spec fn coherent(game: GameView) -> bool {
    &&& game.board.len() == 9
    &&& match game.status {
        Status::Created | Status::Rejected => exists|coord: Coord|
            coord.in_range() && game.board == #[trigger] empty_cells().update(
                coord.offset(),
                Cell::Host,
            ),
        Status::Started => outcome_of(game.board) == Outcome::Ongoing,
        Status::Finished => outcome_of(game.board) != Outcome::Ongoing,
    }
}

/// Every game that an invitation creates is coherent, and every step keeps
/// it so. In particular a game is in progress exactly as long as its board
/// is undecided, and a move that finishes it leaves a line of the mover's
/// marks or a full board.
pub proof fn lemma_games_stay_coherent(game: GameView, role: Role, coord: Coord)
    ensures
        invited(game.host, game.opponent, game.id, coord) matches Ok(next) ==> coherent(next),
        coherent(game) ==> (rejected(game) matches Ok(next) ==> coherent(next)),
        coherent(game) ==> (accepted(game, coord) matches Ok(next) ==> coherent(next)),
        coherent(game) ==> (played(game, role, coord) matches Ok(next) ==> coherent(next)
            && outcome_of(next.board) != Outcome::Win(role.opposite())),
{
    if coherent(game) {
        if accepted(game, coord) is Ok {
            let first = choose|first: Coord|
                first.in_range() && game.board == #[trigger] empty_cells().update(
                    first.offset(),
                    Cell::Host,
                );
            lemma_two_marks_decide_nothing(first, coord);
        }
        if played(game, role, coord) is Ok {
            lemma_mark_completes_own_line_only(game.board, coord, role);
        }
    }
}

/// A board with one mark of the host and one of the opponent is undecided.
proof fn lemma_two_marks_decide_nothing(first: Coord, second: Coord)
    requires
        first.in_range(),
        second.in_range(),
        first != second,
    ensures
        outcome_of(
            empty_cells().update(first.offset(), Cell::Host).update(second.offset(), Cell::Opponent),
        ) == Outcome::Ongoing,
{
    let cells = empty_cells().update(first.offset(), Cell::Host).update(
        second.offset(),
        Cell::Opponent,
    );
    assert forall|mark: Cell| mark != Cell::Empty implies !holds_line(cells, mark) by {
        assert forall|r: int| 0 <= r < 3 implies !fills_row(cells, r, mark) by {
            assert(cell_at(cells, r, 0) == mark && cell_at(cells, r, 1) == mark && cell_at(cells, r, 2)
                == mark ==> false);
        }
        assert forall|c: int| 0 <= c < 3 implies !fills_column(cells, c, mark) by {
            assert(cell_at(cells, 0, c) == mark && cell_at(cells, 1, c) == mark && cell_at(cells, 2, c)
                == mark ==> false);
        }
        assert(cell_at(cells, 0, 0) == mark && cell_at(cells, 1, 1) == mark && cell_at(cells, 2, 2)
            == mark ==> false);
        assert(cell_at(cells, 0, 2 - 0) == mark && cell_at(cells, 1, 2 - 1) == mark && cell_at(
            cells,
            2,
            2 - 2,
        ) == mark ==> false);
    }
}

/// The game after a sequence of moves, each by the named participant, or
/// the error of the first move that is refused.
pub open spec fn replay(game: GameView, moves: Seq<(Role, Coord)>) -> Result<GameView, ContractError>
    decreases moves.len(),
{
    if moves.len() == 0 {
        Ok(game)
    } else {
        match replay(game, moves.drop_last()) {
            Err(e) => Err(e),
            Ok(before) => played(before, moves.last().0, moves.last().1),
        }
    }
}

/// The participant who is to move after `n` moves that passed the turn.
pub open spec fn turn_after(first: Role, n: nat) -> Role {
    if n % 2 == 0 {
        first
    } else {
        first.opposite()
    }
}

/// In a sequence of moves that are all accepted the participants take
/// strict turns, beginning with the one who was to move: the move at
/// position `i` is made by the participant whose turn it is after `i`
/// moves. While the game is not decided, the recorded turn after all the
/// moves is that of the participant who did not move last.
pub proof fn lemma_turns_alternate(game: GameView, moves: Seq<(Role, Coord)>)
    requires
        replay(game, moves) is Ok,
    ensures
        forall|i: int| 0 <= i < moves.len() ==> (#[trigger] moves[i]).0 == turn_after(game.turn, i as nat),
        replay(game, moves)->Ok_0.status == Status::Started ==> replay(game, moves)->Ok_0.turn
            == turn_after(game.turn, moves.len()),
        moves.len() > 0 ==> game.status == Status::Started && (replay(game, moves)->Ok_0.status
            == Status::Started || replay(game, moves)->Ok_0.status == Status::Finished),
    decreases moves.len(),
{
    if moves.len() > 0 {
        let earlier = moves.drop_last();
        lemma_turns_alternate(game, earlier);
        assert forall|i: int| 0 <= i < moves.len() implies (#[trigger] moves[i]).0 == turn_after(
            game.turn,
            i as nat,
        ) by {
            if i < earlier.len() {
                assert(moves[i] == earlier[i]);
            }
        }
    }
}

/// Once a move has decided the game, no further move is accepted: a
/// sequence of accepted moves holds a deciding move only as its last.
pub proof fn lemma_play_stops_when_decided(game: GameView, moves: Seq<(Role, Coord)>, n: int)
    requires
        replay(game, moves) is Ok,
        0 <= n < moves.len(),
    ensures
        replay(game, moves.take(n)) is Ok,
        replay(game, moves.take(n))->Ok_0.status == Status::Started,
    decreases moves.len(),
{
    if n < moves.len() - 1 {
        let earlier = moves.drop_last();
        lemma_play_stops_when_decided(game, earlier, n);
        assert(moves.take(n) =~= earlier.take(n));
    }
}

/// The ledger after a sequence of invitations, each given by sender,
/// coordinate and opponent, or the error of the first that is refused.
pub open spec fn invite_all(ledger: Ledger, invitations: Seq<(Seq<char>, Coord, Seq<char>)>) -> Result<
    Ledger,
    ContractError,
>
    decreases invitations.len(),
{
    if invitations.len() == 0 {
        Ok(ledger)
    } else {
        match invite_all(ledger, invitations.drop_last()) {
            Err(e) => Err(e),
            Ok(before) => invite_step(
                before,
                invitations.last().0,
                invitations.last().1,
                invitations.last().2,
            ),
        }
    }
}

/// The id that the invitation at position `i` of a sequence receives: the
/// value of the counter when its turn comes.
pub open spec fn minted(ledger: Ledger, invitations: Seq<(Seq<char>, Coord, Seq<char>)>, i: int) -> nat {
    invite_all(ledger, invitations.take(i))->Ok_0.counter
}

/// After a sequence of successful invitations the counter has grown by
/// their number. The invitation at position `i` received the id that lies
/// `i` above the counter's first value, so no two of them received the same
/// id, and each game is stored under its sender, its opponent and that id.
pub proof fn lemma_counter_counts_invitations(ledger: Ledger, invitations: Seq<(Seq<char>, Coord, Seq<char>)>)
    requires
        invite_all(ledger, invitations) is Ok,
    ensures
        invite_all(ledger, invitations)->Ok_0.counter == ledger.counter + invitations.len(),
        forall|i: int|
            0 <= i < invitations.len() ==> #[trigger] minted(ledger, invitations, i) == ledger.counter
                + i,
        forall|i: int, j: int|
            0 <= i < j < invitations.len() ==> #[trigger] minted(ledger, invitations, i)
                != #[trigger] minted(ledger, invitations, j),
        forall|i: int|
            0 <= i < invitations.len() ==> invite_all(ledger, invitations)->Ok_0.games.contains_key(
                GameKey {
                    host: (#[trigger] invitations[i]).0,
                    opponent: invitations[i].2,
                    id: (ledger.counter + i) as nat,
                },
            ),
    decreases invitations.len(),
{
    if invitations.len() > 0 {
        let earlier = invitations.drop_last();
        let n = earlier.len() as int;
        lemma_counter_counts_invitations(ledger, earlier);
        assert forall|i: int| 0 <= i < invitations.len() implies #[trigger] minted(
            ledger,
            invitations,
            i,
        ) == ledger.counter + i by {
            if i < n {
                assert(invitations.take(i) =~= earlier.take(i));
                assert(minted(ledger, earlier, i) == ledger.counter + i);
            }
        }
        assert forall|i: int| 0 <= i < invitations.len() implies invite_all(
            ledger,
            invitations,
        )->Ok_0.games.contains_key(
            GameKey {
                host: (#[trigger] invitations[i]).0,
                opponent: invitations[i].2,
                id: (ledger.counter + i) as nat,
            },
        ) by {
            if i < n {
                assert(invitations[i] == earlier[i]);
            }
        }
    }
}

/// A request that succeeds keeps every game filed under its own key and
/// every id in use below the counter.
pub proof fn lemma_order_is_kept(ledger: Ledger, sender: Seq<char>, command: Command)
    requires
        ledger.filed(),
        ledger.numbered(),
        execute_step(ledger, sender, command) is Ok,
    ensures
        execute_step(ledger, sender, command)->Ok_0.filed(),
        execute_step(ledger, sender, command)->Ok_0.numbered(),
{
}

/// While every id in use lies below the counter, the key of a new game is
/// free: an invitation is never refused with `DuplicateGame`.
pub proof fn lemma_new_key_is_free(ledger: Ledger, sender: Seq<char>, coord: Coord, opponent: Seq<char>)
    requires
        ledger.numbered(),
    ensures
        invite_step(ledger, sender, coord, opponent) != Err::<Ledger, ContractError>(
            ContractError::DuplicateGame,
        ),
{
}

/// Asking for one game twice, with no change to the store in between, gives
/// the same answer twice: the answer depends on the ledger and the key
/// alone.
pub proof fn lemma_query_game_repeats(
    store: GameStore,
    host: Seq<char>,
    opponent: Seq<char>,
    id: nat,
    first: Vec<GameResponse>,
    second: Vec<GameResponse>,
)
    requires
        response_views(first@) == game_answer(store@, host, opponent, id),
        response_views(second@) == game_answer(store@, host, opponent, id),
    ensures
        response_views(first@) == response_views(second@),
        first.len() == second.len(),
        first.len() <= 1,
{
    assert(response_views(first@).len() == first@.len());
}

/// Listing the games twice, with no change to the store in between, gives
/// the same games in the same order.
pub proof fn lemma_query_games_repeats(
    store: GameStore,
    status: Option<Status>,
    first: Vec<GameResponse>,
    second: Vec<GameResponse>,
)
    requires
        response_views(first@) == games_answer(store.listing(), status),
        response_views(second@) == games_answer(store.listing(), status),
    ensures
        response_views(first@) == response_views(second@),
        first.len() == second.len(),
{
    assert(response_views(first@).len() == first@.len());
}

} // verus!
