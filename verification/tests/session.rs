use game_session::GameError;
use game_session::GameEvent;
use game_session::GameState;
use game_session::Origin;
use game_session::Module;

#[test]
fn check_intial_storage() {
    let store = Module::new();
    assert_eq!(store.game_state(), GameState::Ended);
}

#[test]
fn start_new_game_with_root() {
    let mut store = Module::new();
    assert_eq!(store.game_state(), GameState::Ended);

    assert!(store.start_new_game(Origin::Root).is_ok());

    assert_eq!(store.events()[0], GameEvent::GameStarted);

    assert_eq!(store.game_state(), GameState::CurrentlyPlaying);
}

#[test]
fn start_new_game_with_signed() {
    let mut store = Module::new();
    assert_eq!(store.game_state(), GameState::Ended);
    assert_eq!(
        store.start_new_game(Origin::Signed(0)),
        Err(GameError::Unauthorized)
    );
    assert_eq!(store.game_state(), GameState::Ended);
    assert!(store.events().is_empty());
}

#[test]
fn end_current_game_with_root() {
    let mut store = Module::new();
    assert!(store.start_new_game(Origin::Root).is_ok());

    assert!(store.end_current_game(Origin::Root).is_ok());

    assert_eq!(store.events()[0], GameEvent::GameStarted);

    assert_eq!(store.events()[1], GameEvent::NoWinnerInThisMatch);

    assert_eq!(store.events()[2], GameEvent::GameEnded);

    assert_eq!(store.game_state(), GameState::Ended);
}

#[test]
fn end_current_game_with_signed() {
    let mut store = Module::new();
    assert!(store.start_new_game(Origin::Root).is_ok());
    assert_eq!(
        store.end_current_game(Origin::Signed(0)),
        Err(GameError::Unauthorized)
    );
    assert_eq!(store.game_state(), GameState::CurrentlyPlaying);
}

#[test]
fn end_current_game_with_root_after_score_update() {
    let mut store = Module::new();
    assert!(store.start_new_game(Origin::Root).is_ok());

    assert!(store.add_score(Origin::Signed(1), 20).is_ok());
    assert!(store.add_score(Origin::Signed(2), 20).is_ok());
    assert!(store.add_score(Origin::Signed(3), 40).is_ok());
    assert!(store.add_score(Origin::Signed(1), 10).is_ok());

    assert!(store.end_current_game(Origin::Root).is_ok());

    assert_eq!(store.events()[0], GameEvent::GameStarted);

    assert_eq!(store.events()[1], GameEvent::NewPlayerJoined(1));

    assert_eq!(store.events()[2], GameEvent::ScoreAddedFor(1, 20));

    assert_eq!(store.events()[3], GameEvent::NewPlayerJoined(2));

    assert_eq!(store.events()[4], GameEvent::ScoreAddedFor(2, 20));

    assert_eq!(store.events()[5], GameEvent::NewPlayerJoined(3));

    assert_eq!(store.events()[6], GameEvent::ScoreAddedFor(3, 40));

    assert_eq!(store.events()[7], GameEvent::ScoreAddedFor(1, 30));

    assert_eq!(store.events()[8], GameEvent::GameWonBy(3, 40));

    assert_eq!(store.events()[9], GameEvent::GameEnded);

    assert_eq!(store.game_state(), GameState::Ended);

    assert_eq!(store.game_records(1), 0);
    assert_eq!(store.game_records(2), 0);
    assert_eq!(store.game_records(3), 1);
}
