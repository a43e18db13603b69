//! The executable session store and its three controller operations.

use crate::model::best_of;
use crate::model::count_of;
use crate::model::records_after_win;
use crate::model::spec_add_score;
use crate::model::spec_end;
use crate::model::spec_start;
use crate::model::StoreModel;
use crate::types::GameError;
use crate::types::GameEvent;
use crate::types::GameState;
use crate::types::Origin;
use vstd::hash_map::HashMapWithView;
use vstd::prelude::*;

verus! {

broadcast use vstd::std_specs::hash::group_hash_axioms;

/// The one shared store: session status, in-session scores, the roster of
/// the current session's participants, all-time win counts, and the log of
/// emitted notifications. All mutation goes through the three controller
/// operations, which are meant to be serialized by the host.
pub struct Module {
    state: GameState,
    results: HashMapWithView<u64, u64>,
    players: Vec<u64>,
    records: HashMapWithView<u64, u64>,
    events: Vec<GameEvent>,
}

impl View for Module {
    type V = StoreModel;

    closed spec fn view(&self) -> StoreModel {
        StoreModel {
            state: self.state,
            results: self.results@,
            players: self.players@,
            records: self.records@,
            events: self.events@,
        }
    }
}

impl Module {
    /// The store's abstract value is well formed.
    pub open spec fn wf(self) -> bool {
        self@.inv()
    }

    /// A fresh store: no session running, no scores, no participants, no
    /// win counts, no notifications yet.
    pub fn new() -> (s: Module)
        ensures
            s.wf(),
            s@.state is Ended,
            s@.results == Map::<u64, u64>::empty(),
            s@.players == Seq::<u64>::empty(),
            s@.records == Map::<u64, u64>::empty(),
            s@.events == Seq::<GameEvent>::empty(),
    {
        let s = Module {
            state: GameState::Ended,
            results: HashMapWithView::new(),
            players: Vec::new(),
            records: HashMapWithView::new(),
            events: Vec::new(),
        };
        proof {
            assert(s@.players =~= Seq::<u64>::empty());
            assert(s@.events =~= Seq::<GameEvent>::empty());
        }
        s
    }

    /// Current session status.
    pub fn game_state(&self) -> (st: GameState)
        ensures
            st == self@.state,
    {
        self.state
    }

    /// The given account's accumulated score in the current session, 0 if
    /// it has not submitted in this session.
    pub fn result_pool(&self, player: u64) -> (score: u64)
        ensures
            score == count_of(self@.results, player),
    {
        match self.results.get(&player) {
            Some(v) => *v,
            None => 0,
        }
    }

    /// The current session's roster, in first-submission order.
    pub fn players(&self) -> (p: &Vec<u64>)
        ensures
            p@ == self@.players,
    {
        &self.players
    }

    /// The given account's all-time win count, 0 if it has never been seen.
    pub fn game_records(&self, player: u64) -> (count: u64)
        ensures
            count == count_of(self@.records, player),
    {
        match self.records.get(&player) {
            Some(v) => *v,
            None => 0,
        }
    }

    /// Every notification emitted so far, in emission order.
    pub fn events(&self) -> (log: &Vec<GameEvent>)
        ensures
            log@ == self@.events,
    {
        &self.events
    }

    /// Start a new session. Only the authority may start one, and only
    /// while none is running; a rejected call leaves the store untouched.
    pub fn start_new_game(&mut self, origin: Origin) -> (r: Result<(), GameError>)
        requires
            old(self).wf(),
        ensures
            final(self).wf(),
            final(self)@ == spec_start(old(self)@, origin).0,
            r == spec_start(old(self)@, origin).1,
    {
        match origin {
            Origin::Signed(_) => {
                return Err(GameError::Unauthorized);
            },
            Origin::Root => {},
        }
        if self.state == GameState::CurrentlyPlaying {
            return Err(GameError::GameAlreadyStarted);
        }
        self.state = GameState::CurrentlyPlaying;
        self.events.push(GameEvent::GameStarted);
        proof {
            assert(self@ =~= spec_start(old(self)@, origin).0);
            crate::laws::lemma_start_preserves_inv(old(self)@, origin);
        }
        Ok(())
    }

    /// Submit a score delta for the calling account in the active session.
    /// The delta may be 0; an account submitting 0 still becomes a tracked
    /// participant. The one bound asked of callers is the machine limit
    /// that the account's accumulated score must still fit in a `u64`.
    pub fn add_score(&mut self, origin: Origin, new_score: u64) -> (r: Result<(), GameError>)
        requires
            old(self).wf(),
            origin matches Origin::Signed(player) ==> count_of(old(self)@.results, player)
                + new_score <= u64::MAX,
        ensures
            final(self).wf(),
            final(self)@ == spec_add_score(old(self)@, origin, new_score).0,
            r == spec_add_score(old(self)@, origin, new_score).1,
    {
        let player = match origin {
            Origin::Root => {
                return Err(GameError::Unauthorized);
            },
            Origin::Signed(p) => p,
        };
        if self.state == GameState::Ended {
            return Err(GameError::GameAlreadyEnded);
        }
        if !self.records.contains_key(&player) {
            self.events.push(GameEvent::NewPlayerJoined(player));
            self.records.insert(player, 0);
            self.results.insert(player, new_score);
            self.players.push(player);
            self.events.push(GameEvent::ScoreAddedFor(player, new_score));
            proof {
                assert(self@ =~= spec_add_score(old(self)@, origin, new_score).0);
                crate::laws::lemma_add_score_preserves_inv(old(self)@, origin, new_score);
            }
        } else if self.results.contains_key(&player) {
            let current = match self.results.get(&player) {
                Some(v) => *v,
                None => 0,
            };
            let updated = current + new_score;
            self.results.insert(player, updated);
            self.events.push(GameEvent::ScoreAddedFor(player, updated));
            proof {
                assert(self@ =~= spec_add_score(old(self)@, origin, new_score).0);
                crate::laws::lemma_add_score_preserves_inv(old(self)@, origin, new_score);
            }
        } else {
            self.results.insert(player, new_score);
            self.players.push(player);
            self.events.push(GameEvent::ScoreAddedFor(player, new_score));
            proof {
                assert(self@ =~= spec_add_score(old(self)@, origin, new_score).0);
                crate::laws::lemma_add_score_preserves_inv(old(self)@, origin, new_score);
            }
        }
        Ok(())
    }

    /// End the active session. Only the authority may end one, and only
    /// while one is running; a rejected call leaves the store untouched. On
    /// success the winner (if any) is returned, its win count rises by one,
    /// and the score map and roster are cleared for the next session.
    pub fn end_current_game(&mut self, origin: Origin) -> (r: Result<
        Option<(u64, u64)>,
        GameError,
    >)
        requires
            old(self).wf(),
            (origin is Root && old(self)@.state is CurrentlyPlaying) ==> (best_of(
                old(self)@.results,
                old(self)@.players,
            ) matches Some(b) ==> count_of(old(self)@.records, b.0) < u64::MAX),
        ensures
            final(self).wf(),
            final(self)@ == spec_end(old(self)@, origin).0,
            r == spec_end(old(self)@, origin).1,
    {
        match origin {
            Origin::Signed(_) => {
                return Err(GameError::Unauthorized);
            },
            Origin::Root => {},
        }
        if self.state == GameState::Ended {
            return Err(GameError::GameAlreadyEnded);
        }
        let winner = self.get_winner();
        match winner {
            Some((w, s)) => self.events.push(GameEvent::GameWonBy(w, s)),
            None => self.events.push(GameEvent::NoWinnerInThisMatch),
        }
        self.state = GameState::Ended;
        self.players = Vec::new();
        self.events.push(GameEvent::GameEnded);
        proof {
            assert(self@.players =~= Seq::<u64>::empty());
            assert(self@ =~= spec_end(old(self)@, origin).0);
            crate::laws::lemma_end_preserves_inv(old(self)@, origin);
        }
        Ok(winner)
    }

    /// Winner selection: one pass over the roster in first-submission
    /// order, keeping the account with the strictly greatest score seen so
    /// far, so the earliest submitter among ties keeps the win; then the
    /// winner's record is updated and the in-session score map is drained.
    /// The status, roster and event log are left for the caller.
    pub fn get_winner(&mut self) -> (winner: Option<(u64, u64)>)
        requires
            old(self).wf(),
            best_of(old(self)@.results, old(self)@.players) matches Some(b) ==> count_of(
                old(self)@.records,
                b.0,
            ) < u64::MAX,
        ensures
            winner == best_of(old(self)@.results, old(self)@.players),
            final(self)@.results == Map::<u64, u64>::empty(),
            final(self)@.records == records_after_win(old(self)@.records, winner),
            final(self)@.state == old(self)@.state,
            final(self)@.players == old(self)@.players,
            final(self)@.events == old(self)@.events,
    {
        let mut best: Option<(u64, u64)> = None;
        let n = self.players.len();
        let mut i: usize = 0;
        while i < n
            invariant
                i <= n,
                n == self@.players.len(),
                *self == *old(self),
                best == best_of(self@.results, self@.players.take(i as int)),
            decreases n - i,
        {
            let p = self.players[i];
            if self.results.contains_key(&p) {
                let score = match self.results.get(&p) {
                    Some(v) => *v,
                    None => 0,
                };
                best = match best {
                    None => Some((p, score)),
                    Some(b) => if score > b.1 {
                        Some((p, score))
                    } else {
                        Some(b)
                    },
                };
            }
            proof {
                assert(self@.players.take(i as int + 1).drop_last() =~= self@.players.take(
                    i as int,
                ));
                assert(self@.players.take(i as int + 1).last() == self@.players[i as int]);
            }
            i += 1;
        }
        proof {
            assert(self@.players.take(n as int) =~= self@.players);
        }
        self.update_game_records(&best);
        self.results = HashMapWithView::new();
        proof {
            assert(self@.results =~= Map::<u64, u64>::empty());
        }
        best
    }

    /// Record a won session: the winner's all-time win count rises by
    /// exactly one; with no winner, nothing changes. No other account's
    /// count is touched.
    pub fn update_game_records(&mut self, player: &Option<(u64, u64)>)
        requires
            *player matches Some(b) ==> count_of(old(self)@.records, b.0) < u64::MAX,
        ensures
            final(self)@.records == records_after_win(old(self)@.records, *player),
            final(self)@.state == old(self)@.state,
            final(self)@.results == old(self)@.results,
            final(self)@.players == old(self)@.players,
            final(self)@.events == old(self)@.events,
    {
        match player {
            Some((player_address, _)) => {
                let current = match self.records.get(player_address) {
                    Some(v) => *v,
                    None => 0,
                };
                self.records.insert(*player_address, current + 1);
            },
            None => {},
        }
    }
}

} // verus!
