//! The mathematical model of the session store.
//!
//! `StoreModel` is the abstract value of a [`crate::store::Module`]:
//! the session status, the in-session score map, the roster of this
//! session's participants in first-submission order, the all-time win-count
//! map, and the log of emitted notifications. The three spec transition
//! functions say exactly what each controller operation does to that value;
//! the executable operations ensure they agree with them.

use crate::types::GameError;
use crate::types::GameEvent;
use crate::types::GameState;
use crate::types::Origin;
use vstd::prelude::*;

verus! {

/// The abstract state of a session store.
#[verifier::ext_equal]
pub ghost struct StoreModel {
    /// Whether a session is currently running.
    pub state: GameState,
    /// Accumulated score of each account that has submitted in the current
    /// session and has not yet been cleared by winner selection.
    pub results: Map<u64, u64>,
    /// Every participant of the current session, in first-submission order,
    /// each at most once. Drives winner selection, so ties are reproducible.
    pub players: Seq<u64>,
    /// Cumulative number of sessions each account has ever won. An account
    /// enters this map with count 0 on its first submission ever.
    pub records: Map<u64, u64>,
    /// All notifications emitted so far, in emission order.
    pub events: Seq<GameEvent>,
}

impl StoreModel {
    /// Well-formedness: the roster lists each participant once, it carries
    /// exactly the accounts with an in-session score, every participant has
    /// a win-count record, and between sessions the roster (hence the score
    /// map) is empty.
    pub open spec fn inv(self) -> bool {
        &&& self.players.no_duplicates()
        &&& forall|k: u64| #[trigger] self.results.dom().contains(k) ==> self.players.contains(k)
        &&& forall|i: int|
            0 <= i < self.players.len() ==> self.results.dom().contains(
                #[trigger] self.players[i],
            )
        &&& forall|i: int|
            0 <= i < self.players.len() ==> self.records.dom().contains(
                #[trigger] self.players[i],
            )
        &&& self.state is Ended ==> self.players.len() == 0
    }
}

/// The value stored for `k`, or 0 where no entry exists: absent accounts
/// read as zero, as a win count or in-session score of zero does.
pub open spec fn count_of(m: Map<u64, u64>, k: u64) -> u64 {
    if m.dom().contains(k) {
        m[k]
    } else {
        0u64
    }
}

/// Winner selection: one pass over the roster in first-submission order,
/// keeping the running best and replacing it only on a strictly greater
/// score, so the earliest submitter among ties keeps the win. Accounts
/// without an entry in `results` are passed over.
pub open spec fn best_of(results: Map<u64, u64>, players: Seq<u64>) -> Option<(u64, u64)>
    decreases players.len(),
{
    if players.len() == 0 {
        None
    } else {
        let prev = best_of(results, players.drop_last());
        let p = players.last();
        if results.dom().contains(p) {
            match prev {
                None => Some((p, results[p])),
                Some(b) => if results[p] > b.1 {
                    Some((p, results[p]))
                } else {
                    prev
                },
            }
        } else {
            prev
        }
    }
}

/// The win-count map after a session ends with the given winner: the
/// winner's count rises by exactly one, every other count is untouched, and
/// with no winner nothing changes.
pub open spec fn records_after_win(records: Map<u64, u64>, winner: Option<(u64, u64)>) -> Map<
    u64,
    u64,
> {
    match winner {
        Some(b) => records.insert(b.0, (count_of(records, b.0) + 1) as u64),
        None => records,
    }
}

/// What starting a session does: only the authority may start, only while
/// no session runs; on success the status flips to playing and a
/// `GameStarted` notification is emitted. No score state is touched.
pub open spec fn spec_start(m: StoreModel, origin: Origin) -> (StoreModel, Result<
    (),
    GameError,
>) {
    if !(origin is Root) {
        (m, Err(GameError::Unauthorized))
    } else if !(m.state is Ended) {
        (m, Err(GameError::GameAlreadyStarted))
    } else {
        (
            StoreModel {
                state: GameState::CurrentlyPlaying,
                events: m.events.push(GameEvent::GameStarted),
                ..m
            },
            Ok(()),
        )
    }
}

/// What submitting a score does: a signed account, while a session runs,
/// either joins (first submission ever: win count initialised to 0, score
/// set to the delta, appended to the roster, `NewPlayerJoined` then
/// `ScoreAddedFor` emitted), accumulates (already scored this session: the
/// delta is added to its score), or re-enters (seen in some earlier session
/// but not in this one: score set to exactly the delta, appended to the
/// roster).
pub open spec fn spec_add_score(m: StoreModel, origin: Origin, new_score: u64) -> (StoreModel, Result<
    (),
    GameError,
>) {
    match origin {
        Origin::Root => (m, Err(GameError::Unauthorized)),
        Origin::Signed(player) => {
            if !(m.state is CurrentlyPlaying) {
                (m, Err(GameError::GameAlreadyEnded))
            } else if !m.records.dom().contains(player) {
                (
                    StoreModel {
                        results: m.results.insert(player, new_score),
                        players: m.players.push(player),
                        records: m.records.insert(player, 0),
                        events: m.events.push(GameEvent::NewPlayerJoined(player)).push(
                            GameEvent::ScoreAddedFor(player, new_score),
                        ),
                        ..m
                    },
                    Ok(()),
                )
            } else if m.results.dom().contains(player) {
                (
                    StoreModel {
                        results: m.results.insert(
                            player,
                            (m.results[player] + new_score) as u64,
                        ),
                        events: m.events.push(
                            GameEvent::ScoreAddedFor(
                                player,
                                (m.results[player] + new_score) as u64,
                            ),
                        ),
                        ..m
                    },
                    Ok(()),
                )
            } else {
                (
                    StoreModel {
                        results: m.results.insert(player, new_score),
                        players: m.players.push(player),
                        events: m.events.push(GameEvent::ScoreAddedFor(player, new_score)),
                        ..m
                    },
                    Ok(()),
                )
            }
        },
    }
}

/// What ending a session does: only the authority may end, only while a
/// session runs; on success the winner (if any) is selected over the
/// roster, its win count rises by one, the score map and roster are cleared
/// for the next session, the status flips to ended, and `GameWonBy` or
/// `NoWinnerInThisMatch` is emitted, then `GameEnded`.
pub open spec fn spec_end(m: StoreModel, origin: Origin) -> (StoreModel, Result<
    Option<(u64, u64)>,
    GameError,
>) {
    if !(origin is Root) {
        (m, Err(GameError::Unauthorized))
    } else if !(m.state is CurrentlyPlaying) {
        (m, Err(GameError::GameAlreadyEnded))
    } else {
        let winner = best_of(m.results, m.players);
        let won_event = match winner {
            Some(b) => GameEvent::GameWonBy(b.0, b.1),
            None => GameEvent::NoWinnerInThisMatch,
        };
        (
            StoreModel {
                state: GameState::Ended,
                results: Map::empty(),
                players: Seq::empty(),
                records: records_after_win(m.records, winner),
                events: m.events.push(won_event).push(GameEvent::GameEnded),
            },
            Ok(winner),
        )
    }
}

} // verus!
