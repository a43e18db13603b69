use game_session::GameError;
use game_session::GameEvent;
use game_session::GameState;
use game_session::Origin;
use game_session::Module;

#[test]
fn fresh_store_is_empty() {
    let store = Module::new();
    assert_eq!(store.game_state(), GameState::Ended);
    assert_eq!(store.result_pool(1), 0);
    assert_eq!(store.game_records(1), 0);
    assert!(store.players().is_empty());
    assert!(store.events().is_empty());
}

#[test]
fn default_state_is_ended() {
    assert_eq!(GameState::default(), GameState::Ended);
}

#[test]
fn scores_accumulate_for_same_account() {
    let mut store = Module::new();
    assert!(store.start_new_game(Origin::Root).is_ok());
    assert!(store.add_score(Origin::Signed(7), 20).is_ok());
    assert!(store.add_score(Origin::Signed(7), 10).is_ok());
    assert_eq!(store.result_pool(7), 30);
}

#[test]
fn tie_goes_to_first_submitter() {
    let mut store = Module::new();
    assert!(store.start_new_game(Origin::Root).is_ok());
    assert!(store.add_score(Origin::Signed(1), 20).is_ok());
    assert!(store.add_score(Origin::Signed(2), 20).is_ok());
    assert_eq!(store.end_current_game(Origin::Root), Ok(Some((1, 20))));
    assert_eq!(store.game_records(1), 1);
    assert_eq!(store.game_records(2), 0);
}

#[test]
fn session_without_submissions_has_no_winner() {
    let mut store = Module::new();
    assert!(store.start_new_game(Origin::Root).is_ok());
    assert_eq!(store.end_current_game(Origin::Root), Ok(None));
    assert_eq!(store.events()[1], GameEvent::NoWinnerInThisMatch);
    assert_eq!(store.game_records(1), 0);
}

#[test]
fn win_counts_persist_across_sessions() {
    let mut store = Module::new();

    assert!(store.start_new_game(Origin::Root).is_ok());
    assert!(store.add_score(Origin::Signed(1), 10).is_ok());
    assert!(store.add_score(Origin::Signed(2), 20).is_ok());
    assert_eq!(store.end_current_game(Origin::Root), Ok(Some((2, 20))));
    assert_eq!(store.game_records(1), 0);
    assert_eq!(store.game_records(2), 1);

    assert!(store.start_new_game(Origin::Root).is_ok());
    assert!(store.add_score(Origin::Signed(1), 30).is_ok());
    assert!(store.add_score(Origin::Signed(2), 5).is_ok());
    assert_eq!(store.end_current_game(Origin::Root), Ok(Some((1, 30))));
    assert_eq!(store.game_records(1), 1);
    assert_eq!(store.game_records(2), 1);

    assert!(store.start_new_game(Origin::Root).is_ok());
    assert_eq!(store.end_current_game(Origin::Root), Ok(None));
    assert_eq!(store.game_records(1), 1);
    assert_eq!(store.game_records(2), 1);
}

#[test]
fn score_starts_fresh_in_next_session() {
    let mut store = Module::new();
    assert!(store.start_new_game(Origin::Root).is_ok());
    assert!(store.add_score(Origin::Signed(4), 25).is_ok());
    assert_eq!(store.end_current_game(Origin::Root), Ok(Some((4, 25))));
    assert_eq!(store.result_pool(4), 0);
    assert!(store.players().is_empty());

    assert!(store.start_new_game(Origin::Root).is_ok());
    assert!(store.add_score(Origin::Signed(4), 5).is_ok());
    assert_eq!(store.result_pool(4), 5);
}

#[test]
fn roster_keeps_first_submission_order() {
    let mut store = Module::new();
    assert!(store.start_new_game(Origin::Root).is_ok());
    assert!(store.add_score(Origin::Signed(3), 1).is_ok());
    assert!(store.add_score(Origin::Signed(1), 2).is_ok());
    assert!(store.add_score(Origin::Signed(2), 3).is_ok());
    assert!(store.add_score(Origin::Signed(1), 4).is_ok());
    assert_eq!(store.players(), &vec![3, 1, 2]);
}

#[test]
fn zero_score_still_joins() {
    let mut store = Module::new();
    assert!(store.start_new_game(Origin::Root).is_ok());
    assert!(store.add_score(Origin::Signed(9), 0).is_ok());
    assert_eq!(store.events()[1], GameEvent::NewPlayerJoined(9));
    assert_eq!(store.events()[2], GameEvent::ScoreAddedFor(9, 0));
    assert_eq!(store.end_current_game(Origin::Root), Ok(Some((9, 0))));
    assert_eq!(store.game_records(9), 1);
}

#[test]
fn start_twice_is_rejected() {
    let mut store = Module::new();
    assert!(store.start_new_game(Origin::Root).is_ok());
    assert_eq!(
        store.start_new_game(Origin::Root),
        Err(GameError::GameAlreadyStarted)
    );
    assert_eq!(store.game_state(), GameState::CurrentlyPlaying);
    assert_eq!(store.events().len(), 1);
}

#[test]
fn end_without_session_is_rejected() {
    let mut store = Module::new();
    assert_eq!(
        store.end_current_game(Origin::Root),
        Err(GameError::GameAlreadyEnded)
    );
    assert!(store.events().is_empty());
}

#[test]
fn score_outside_session_is_rejected() {
    let mut store = Module::new();
    assert_eq!(
        store.add_score(Origin::Signed(1), 10),
        Err(GameError::GameAlreadyEnded)
    );
    assert_eq!(store.result_pool(1), 0);
    assert!(store.events().is_empty());
}

#[test]
fn score_from_authority_is_rejected() {
    let mut store = Module::new();
    assert!(store.start_new_game(Origin::Root).is_ok());
    assert_eq!(store.add_score(Origin::Root, 10), Err(GameError::Unauthorized));
    assert_eq!(store.events().len(), 1);
}

#[test]
fn reentering_account_is_not_announced_again() {
    let mut store = Module::new();
    assert!(store.start_new_game(Origin::Root).is_ok());
    assert!(store.add_score(Origin::Signed(5), 8).is_ok());
    assert_eq!(store.end_current_game(Origin::Root), Ok(Some((5, 8))));

    assert!(store.start_new_game(Origin::Root).is_ok());
    assert!(store.add_score(Origin::Signed(5), 3).is_ok());
    let n = store.events().len();
    assert_eq!(store.events()[n - 1], GameEvent::ScoreAddedFor(5, 3));
    assert_eq!(store.players(), &vec![5]);
}
