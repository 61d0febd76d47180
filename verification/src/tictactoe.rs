use vstd::prelude::*;

use crate::fanout::{publish_spec, EpisodeEvent, EventHub, HubEventView};
use crate::storage::EpisodeStorage;

verus! {

/// An empty cell on the board.
pub const CELL_EMPTY: u8 = 0;

/// A cell taken by the first player.
pub const CELL_FIRST: u8 = 1;

/// A cell taken by the second player.
pub const CELL_SECOND: u8 = 2;

/// Where a tic-tac-toe game stands.
#[derive(Debug, Clone, Copy, PartialEq, Eq, Structural)]
pub enum TttStatus {
    InProgress { first_player_turn: bool },
    Winner { first_player_won: bool },
    Draw,
}

/// A tic-tac-toe game as this layer models it: nine cells in row-major
/// order, each empty or taken by one of the two players, and the game's
/// status.
#[derive(Debug)]
pub struct TttState {
    pub cells: Vec<u8>,
    pub status: TttStatus,
}

/// A well-formed game holds exactly nine cells, each empty or a player's.
pub open spec fn ttt_wf(cells: Seq<u8>) -> bool {
    cells.len() == 9 && forall|i: int| 0 <= i < 9 ==> #[trigger] cells[i] <= 2
}

/// The symbol of a cell: the first player plays crosses, the second noughts,
/// and an empty cell shows a space.
pub open spec fn cell_symbol(c: u8) -> char {
    if c == 1 {
        'X'
    } else if c == 2 {
        'O'
    } else {
        ' '
    }
}

/// How many moves have been played: the taken cells.
pub open spec fn turn_count(cells: Seq<u8>) -> int
    decreases cells.len(),
{
    if cells.len() == 0 {
        0
    } else {
        turn_count(cells.drop_last()) + if cells.last() != 0 {
            1int
        } else {
            0int
        }
    }
}

/// The status label shown to the interface.
pub open spec fn status_label(s: TttStatus) -> Seq<char> {
    match s {
        TttStatus::InProgress { .. } => "in_progress"@,
        TttStatus::Winner { .. } => "winner"@,
        TttStatus::Draw => "draw"@,
    }
}

/// The winner's announcement: the winning player's symbol, or the word for a
/// draw; a running game announces nothing.
pub open spec fn winner_label(s: TttStatus) -> Option<Seq<char>> {
    match s {
        TttStatus::InProgress { .. } => None,
        TttStatus::Winner { first_player_won } => if first_player_won {
            Some("X"@)
        } else {
            Some("O"@)
        },
        TttStatus::Draw => Some("Draw"@),
    }
}

/// What the interface is shown about a game.
#[derive(Debug)]
pub struct TttSummary {
    pub cells: Vec<char>,
    pub current_player: Option<char>,
    pub status: String,
    pub winner: Option<char>,
    pub turn: u32,
}

/// Derives the interface's view of a game: each cell's symbol, whose turn it
/// is while the game runs, the status label, the winner's symbol once one
/// exists, and how many moves were played.
pub fn ui_summary(state: &TttState) -> (r: TttSummary)
    requires
        ttt_wf(state.cells@),
    ensures
        r.cells@ == state.cells@.map_values(|c: u8| cell_symbol(c)),
        r.current_player == (match state.status {
            TttStatus::InProgress { first_player_turn } => Some(
                if first_player_turn {
                    'X'
                } else {
                    'O'
                },
            ),
            _ => None::<char>,
        }),
        r.status@ == status_label(state.status),
        r.winner == (match state.status {
            TttStatus::Winner { first_player_won } => Some(
                if first_player_won {
                    'X'
                } else {
                    'O'
                },
            ),
            _ => None::<char>,
        }),
        r.turn == turn_count(state.cells@),
{
    let mut cells: Vec<char> = Vec::new();
    let mut turn: u32 = 0;
    let mut i: usize = 0;
    while i < state.cells.len()
        invariant
            ttt_wf(state.cells@),
            i <= state.cells@.len(),
            cells@ =~= state.cells@.map_values(|c: u8| cell_symbol(c)).take(i as int),
            turn == turn_count(state.cells@.take(i as int)),
            turn <= i,
        decreases state.cells@.len() - i,
    {
        proof {
            assert(state.cells@.take(i + 1).drop_last() =~= state.cells@.take(i as int));
        }
        let c = state.cells[i];
        cells.push(
            if c == 1 {
                'X'
            } else if c == 2 {
                'O'
            } else {
                ' '
            },
        );
        if c != 0 {
            turn = turn + 1;
        }
        proof {
            assert(cells@ =~= state.cells@.map_values(|c: u8| cell_symbol(c)).take(i + 1));
        }
        i = i + 1;
    }
    proof {
        assert(state.cells@.take(state.cells@.len() as int) =~= state.cells@);
        assert(state.cells@.map_values(|c: u8| cell_symbol(c)).take(state.cells@.len() as int)
            =~= state.cells@.map_values(|c: u8| cell_symbol(c)));
    }
    let current_player: Option<char> = match state.status {
        TttStatus::InProgress { first_player_turn } => Some(
            if first_player_turn {
                'X'
            } else {
                'O'
            },
        ),
        _ => None,
    };
    let status: String = match state.status {
        TttStatus::InProgress { .. } => "in_progress".to_owned(),
        TttStatus::Winner { .. } => "winner".to_owned(),
        TttStatus::Draw => "draw".to_owned(),
    };
    let winner: Option<char> = match state.status {
        TttStatus::Winner { first_player_won } => Some(
            if first_player_won {
                'X'
            } else {
                'O'
            },
        ),
        _ => None,
    };
    TttSummary { cells, current_player, status, winner, turn }
}

/// The serialized form of a game: a status tag and its detail, then the nine
/// cells.
pub open spec fn ttt_state_bytes(cells: Seq<u8>, status: TttStatus) -> Seq<u8> {
    (match status {
        TttStatus::InProgress { first_player_turn } => seq![
            0u8,
            if first_player_turn {
                1u8
            } else {
                0u8
            },
        ],
        TttStatus::Winner { first_player_won } => seq![
            1u8,
            if first_player_won {
                1u8
            } else {
                0u8
            },
        ],
        TttStatus::Draw => seq![2u8, 0u8],
    }) + cells
}

/// Serializes a game into the fan-out's state bytes.
pub fn encode_ttt_state(state: &TttState) -> (r: Vec<u8>)
    ensures
        r@ == ttt_state_bytes(state.cells@, state.status),
{
    let mut out: Vec<u8> = Vec::new();
    match state.status {
        TttStatus::InProgress { first_player_turn } => {
            out.push(0u8);
            out.push(
                if first_player_turn {
                    1u8
                } else {
                    0u8
                },
            );
        },
        TttStatus::Winner { first_player_won } => {
            out.push(1u8);
            out.push(
                if first_player_won {
                    1u8
                } else {
                    0u8
                },
            );
        },
        TttStatus::Draw => {
            out.push(2u8);
            out.push(0u8);
        },
    }
    let ghost mid = out@;
    out.extend_from_slice(state.cells.as_slice());
    proof {
        assert(out@ =~= ttt_state_bytes(state.cells@, state.status));
    }
    out
}

/// Publishes a game's state change: the fan-out's cache takes the serialized
/// state, every subscriber is offered the state update, and a finished game
/// additionally announces its outcome.
pub fn publish_tictactoe_update(hub: &mut EventHub, episode_id: &str, state: &TttState)
    requires
        old(hub).wf(),
    ensures
        final(hub).wf(),
        final(hub).cache().has_state(episode_id@),
        final(hub).cache().state_of(episode_id@) == ttt_state_bytes(state.cells@, state.status),
        ({
            let update = HubEventView::StateUpdate {
                episode_id: episode_id@,
                state: ttt_state_bytes(state.cells@, state.status),
            };
            let once = publish_spec(old(hub).subs(), update, old(hub).cap());
            match winner_label(state.status) {
                None => final(hub).subs() == once,
                Some(w) => final(hub).subs() == publish_spec(
                    once,
                    HubEventView::GameOver { episode_id: episode_id@, winner: Some(w) },
                    old(hub).cap(),
                ),
            }
        }),
{
    let bytes = encode_ttt_state(state);
    hub.publish_state(episode_id, bytes);
    match state.status {
        TttStatus::InProgress { .. } => {
        },
        TttStatus::Winner { first_player_won } => {
            let winner: String = if first_player_won {
                "X".to_owned()
            } else {
                "O".to_owned()
            };
            hub.publish(
                EpisodeEvent::GameOver { episode_id: episode_id.to_owned(), winner: Some(winner) },
            );
        },
        TttStatus::Draw => {
            hub.publish(
                EpisodeEvent::GameOver {
                    episode_id: episode_id.to_owned(),
                    winner: Some("Draw".to_owned()),
                },
            );
        },
    }
}

} // verus!
