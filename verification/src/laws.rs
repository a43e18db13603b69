//! The general properties of the session store, proved once and for all
//! over the spec transition functions that the executable operations are
//! verified against.

use crate::model::best_of;
use crate::model::count_of;
use crate::model::spec_add_score;
use crate::model::spec_end;
use crate::model::spec_start;
use crate::model::StoreModel;
use crate::types::GameError;
use crate::types::GameEvent;
use crate::types::Origin;
use vstd::prelude::*;

verus! {

/// Appending an account that is not yet on the roster keeps the roster
/// free of duplicates.
proof fn lemma_push_fresh_keeps_no_duplicates(players: Seq<u64>, p: u64)
    requires
        players.no_duplicates(),
        !players.contains(p),
    ensures
        players.push(p).no_duplicates(),
{
    let pushed = players.push(p);
    assert forall|i: int, j: int|
        0 <= i < pushed.len() && 0 <= j < pushed.len() && i != j implies pushed[i]
        != pushed[j] by {
        if i < players.len() && j < players.len() {
            assert(players[i] != players[j]);
        } else if i < players.len() {
            assert(players.contains(players[i]));
        } else if j < players.len() {
            assert(players.contains(players[j]));
        }
    }
}

/// An account that has no win-count record is not on the roster, and one
/// with no in-session score is not on the roster either.
proof fn lemma_absent_account_off_roster(m: StoreModel, player: u64)
    requires
        m.inv(),
        !m.records.dom().contains(player) || !m.results.dom().contains(player),
    ensures
        !m.players.contains(player),
{
    if m.players.contains(player) {
        let i = choose|i: int| 0 <= i < m.players.len() && m.players[i] == player;
        assert(m.records.dom().contains(m.players[i]));
        assert(m.results.dom().contains(m.players[i]));
    }
}

/// Starting a session preserves the store's well-formedness.
pub proof fn lemma_start_preserves_inv(m: StoreModel, origin: Origin)
    requires
        m.inv(),
    ensures
        spec_start(m, origin).0.inv(),
{
}

/// Submitting a score preserves the store's well-formedness.
pub proof fn lemma_add_score_preserves_inv(m: StoreModel, origin: Origin, new_score: u64)
    requires
        m.inv(),
    ensures
        spec_add_score(m, origin, new_score).0.inv(),
{
    let m2 = spec_add_score(m, origin, new_score).0;
    match origin {
        Origin::Root => {},
        Origin::Signed(player) => {
            if m.state is CurrentlyPlaying && !(m.records.dom().contains(player)
                && m.results.dom().contains(player)) {
                lemma_absent_account_off_roster(m, player);
                lemma_push_fresh_keeps_no_duplicates(m.players, player);
                assert forall|k: u64| #[trigger] m2.results.dom().contains(k) implies m2.players.contains(
                    k,
                ) by {
                    if k == player {
                        assert(m2.players[m.players.len() as int] == player);
                    } else {
                        assert(m.results.dom().contains(k));
                        let i = choose|i: int| 0 <= i < m.players.len() && m.players[i] == k;
                        assert(m2.players[i] == k);
                    }
                }
            }
        },
    }
}

/// Ending a session preserves the store's well-formedness.
pub proof fn lemma_end_preserves_inv(m: StoreModel, origin: Origin)
    requires
        m.inv(),
    ensures
        spec_end(m, origin).0.inv(),
{
}

/// The authorization gate: a non-authority caller can neither start nor
/// end a session; the call fails with `Unauthorized` and changes nothing —
/// no state, no notifications — whatever the current status.
pub proof fn lemma_unauthorized_rejected(m: StoreModel, origin: Origin)
    requires
        !(origin is Root),
    ensures
        spec_start(m, origin) == (m, Err::<(), GameError>(GameError::Unauthorized)),
        spec_end(m, origin) == (
            m,
            Err::<Option<(u64, u64)>, GameError>(GameError::Unauthorized),
        ),
{
}

/// State-machine legality for an authorized caller: starting fails, with
/// `GameAlreadyStarted`, exactly when a session is already running; ending
/// fails, with `GameAlreadyEnded`, exactly when none is; and submitting a
/// score fails, with `GameAlreadyEnded`, exactly when none is.
pub proof fn lemma_state_machine_legality(m: StoreModel, player: u64, delta: u64)
    ensures
        spec_start(m, Origin::Root).1 == Err::<(), GameError>(GameError::GameAlreadyStarted)
            <==> m.state is CurrentlyPlaying,
        spec_end(m, Origin::Root).1 == Err::<Option<(u64, u64)>, GameError>(
            GameError::GameAlreadyEnded,
        ) <==> m.state is Ended,
        spec_add_score(m, Origin::Signed(player), delta).1 == Err::<(), GameError>(
            GameError::GameAlreadyEnded,
        ) <==> m.state is Ended,
{
}

/// Accumulation: while a session runs, an account that has not scored yet
/// in it and then submits first `s1` and then `s2` holds the score
/// `s1 + s2`, not `s2`.
pub proof fn lemma_scores_accumulate(m: StoreModel, player: u64, s1: u64, s2: u64)
    requires
        m.state is CurrentlyPlaying,
        !m.results.dom().contains(player),
        s1 + s2 <= u64::MAX,
    ensures
        ({
            let m1 = spec_add_score(m, Origin::Signed(player), s1).0;
            let m2 = spec_add_score(m1, Origin::Signed(player), s2).0;
            m2.results[player] == s1 + s2
        }),
{
}

/// Winner selection is sound: when nobody scored it selects nobody, and a
/// selected winner is a participant holding its own recorded score, which
/// no participant's score exceeds.
pub proof fn lemma_winner_is_best(results: Map<u64, u64>, players: Seq<u64>)
    ensures
        best_of(results, players) is None ==> forall|i: int|
            0 <= i < players.len() ==> !results.dom().contains(#[trigger] players[i]),
        best_of(results, players) matches Some(b) ==> {
            &&& players.contains(b.0)
            &&& results.dom().contains(b.0)
            &&& results[b.0] == b.1
            &&& forall|i: int|
                0 <= i < players.len() && results.dom().contains(#[trigger] players[i])
                    ==> results[players[i]] <= b.1
        },
    decreases players.len(),
{
    if players.len() == 0 {
    } else {
        let prefix = players.drop_last();
        let p = players.last();
        lemma_winner_is_best(results, prefix);
        assert(forall|i: int| 0 <= i < prefix.len() ==> prefix[i] == #[trigger] players[i]);
        assert(players[players.len() - 1] == p);
        match best_of(results, prefix) {
            Some(pb) => {
                assert(prefix.contains(pb.0));
                let i = choose|i: int| 0 <= i < prefix.len() && prefix[i] == pb.0;
                assert(players[i] == pb.0);
                assert(players.contains(pb.0));
            },
            None => {},
        }
    }
}

/// Tie-breaking is by submission order: every participant who submitted
/// before the winner's deciding submission scored strictly below the
/// winning score — among equal best scores, the earliest submitter wins.
pub proof fn lemma_winner_earliest_among_ties(results: Map<u64, u64>, players: Seq<u64>)
    ensures
        best_of(results, players) matches Some(b) ==> exists|wi: int|
            {
                &&& 0 <= wi < players.len()
                &&& players[wi] == b.0
                &&& forall|i: int|
                    0 <= i < wi && results.dom().contains(#[trigger] players[i])
                        ==> results[players[i]] < b.1
            },
    decreases players.len(),
{
    if players.len() == 0 {
    } else {
        let prefix = players.drop_last();
        let p = players.last();
        lemma_winner_earliest_among_ties(results, prefix);
        lemma_winner_is_best(results, prefix);
        assert(forall|i: int| 0 <= i < prefix.len() ==> prefix[i] == #[trigger] players[i]);
        match best_of(results, players) {
            None => {},
            Some(b) => {
                let prev = best_of(results, prefix);
                if prev matches Some(pb) && b == pb {
                    let wi = choose|wi: int|
                        {
                            &&& 0 <= wi < prefix.len()
                            &&& prefix[wi] == b.0
                            &&& forall|i: int|
                                0 <= i < wi && results.dom().contains(#[trigger] prefix[i])
                                    ==> results[prefix[i]] < b.1
                        };
                    assert(players[wi] == b.0);
                    assert(forall|i: int|
                        0 <= i < wi && results.dom().contains(#[trigger] players[i])
                            ==> results[players[i]] < b.1);
                } else {
                    let wi = players.len() - 1;
                    assert(players[wi] == b.0);
                    assert(forall|i: int|
                        0 <= i < wi && results.dom().contains(#[trigger] players[i])
                            ==> results[players[i]] < b.1);
                }
            },
        }
    }
}

/// Among tied best scores the earliest submitter keeps the win: if a
/// participant holds the winning score but is not the winner, the winner
/// submitted earlier.
pub proof fn lemma_tie_break_by_roster_order(results: Map<u64, u64>, players: Seq<u64>, j: int)
    requires
        0 <= j < players.len(),
        results.dom().contains(players[j]),
        best_of(results, players) matches Some(b) && b.0 != players[j] && b.1 == results[
            players[j]
        ],
    ensures
        best_of(results, players) matches Some(b) ==> exists|wi: int|
            0 <= wi < j && players[wi] == b.0,
{
    lemma_winner_earliest_among_ties(results, players);
    match best_of(results, players) {
        None => {},
        Some(b) => {
            let wi = choose|wi: int|
                {
                    &&& 0 <= wi < players.len()
                    &&& players[wi] == b.0
                    &&& forall|i: int|
                        0 <= i < wi && results.dom().contains(#[trigger] players[i])
                            ==> results[players[i]] < b.1
                };
            assert(wi != j);
            if wi > j {
                assert(results[players[j]] < b.1);
            }
            assert(0 <= wi < j && players[wi] == b.0);
        },
    }
}

/// A session ended without any submission yields no winner: win counts are
/// exactly as before, and the log gains `GameStarted`,
/// `NoWinnerInThisMatch`, `GameEnded` and nothing else.
pub proof fn lemma_no_submissions_no_winner(m: StoreModel)
    requires
        m.inv(),
        m.state is Ended,
    ensures
        ({
            let m1 = spec_start(m, Origin::Root).0;
            let after = spec_end(m1, Origin::Root);
            &&& after.1 == Ok::<Option<(u64, u64)>, GameError>(None)
            &&& after.0.records == m.records
            &&& after.0.events == m.events.push(GameEvent::GameStarted).push(
                GameEvent::NoWinnerInThisMatch,
            ).push(GameEvent::GameEnded)
        }),
{
}

/// Win counts persist: ending a session raises the winner's count by
/// exactly one and leaves every other account's count — a loser's in
/// particular — untouched.
pub proof fn lemma_win_count_persistence(m: StoreModel, p: u64)
    requires
        m.state is CurrentlyPlaying,
        best_of(m.results, m.players) matches Some(b) && b.0 == p ==> count_of(m.records, p)
            < u64::MAX,
    ensures
        ({
            let m2 = spec_end(m, Origin::Root).0;
            match best_of(m.results, m.players) {
                Some(b) => if b.0 == p {
                    count_of(m2.records, p) == count_of(m.records, p) + 1
                } else {
                    count_of(m2.records, p) == count_of(m.records, p)
                },
                None => count_of(m2.records, p) == count_of(m.records, p),
            }
        }),
{
}

/// Win-count records are never removed and never decrease, whichever
/// operation runs; only ending a session with a winner whose count is at
/// the machine limit is excluded, as the executable operation is.
pub proof fn lemma_win_counts_monotone(m: StoreModel, origin: Origin, delta: u64, p: u64)
    requires
        best_of(m.results, m.players) matches Some(b) ==> count_of(m.records, b.0) < u64::MAX,
    ensures
        count_of(spec_start(m, origin).0.records, p) >= count_of(m.records, p),
        count_of(spec_add_score(m, origin, delta).0.records, p) >= count_of(m.records, p),
        count_of(spec_end(m, origin).0.records, p) >= count_of(m.records, p),
        m.records.dom().contains(p) ==> spec_start(m, origin).0.records.dom().contains(p),
        m.records.dom().contains(p) ==> spec_add_score(m, origin, delta).0.records.dom().contains(
            p,
        ),
        m.records.dom().contains(p) ==> spec_end(m, origin).0.records.dom().contains(p),
{
}

/// Post-session reset: ending a session empties the in-session score map,
/// and an account seen in an earlier session that submits in the next one
/// starts fresh at exactly the submitted delta.
pub proof fn lemma_fresh_score_after_reset(m: StoreModel, player: u64, delta: u64)
    requires
        m.state is CurrentlyPlaying,
        m.records.dom().contains(player),
    ensures
        ({
            let m1 = spec_end(m, Origin::Root).0;
            let m2 = spec_start(m1, Origin::Root).0;
            let m3 = spec_add_score(m2, Origin::Signed(player), delta).0;
            &&& m1.results == Map::<u64, u64>::empty()
            &&& m3.results[player] == delta
        }),
{
}

} // verus!
