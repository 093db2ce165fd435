use name_game::bits::{fit_guesses, write_bit, MAX_GUESS_INDEX};
use name_game::game::{Epoch, GameState, NameId, UnknownPhase};
use name_game::notify::{parse_decimal, Notification, NotificationError, StoreCache};
use name_game::store::{GameStore, StoreError};

fn sorted(mut v: Vec<String>) -> Vec<String> {
    v.sort();
    v
}

#[test]
fn scenario_three_names_then_playing() {
    let mut store = GameStore::new();
    assert_eq!(store.state(), GameState::Submitting(Epoch(0)));
    for name in ["Alice", "Bob", "Carol"] {
        store.add_name(name).unwrap();
    }
    assert_eq!(
        store.take_notifications(),
        vec![Notification::NameCount(1), Notification::NameCount(2), Notification::NameCount(3)]
    );
    store.change_state_to_playing_with_seed(42).unwrap();
    assert_eq!(store.take_notifications(), vec![Notification::Playing]);
    assert_eq!(store.state(), GameState::Playing);
    let (names, guesses) = store.names_and_guesses();
    assert_eq!(sorted(names.clone()), vec!["Alice", "Bob", "Carol"]);
    assert_eq!(guesses, vec![0]);
    let (again, _) = store.names_and_guesses();
    assert_eq!(names, again);
}

#[test]
fn same_seed_same_order() {
    let mut a = GameStore::new();
    let mut b = GameStore::new();
    let names: Vec<String> = (0..10).map(|i| format!("player {i}")).collect();
    for (k, n) in names.iter().enumerate() {
        a.add_name_with_id(NameId(k as u128), n).unwrap();
        b.add_name_with_id(NameId(k as u128), n).unwrap();
    }
    a.change_state_to_playing_with_seed(42).unwrap();
    b.change_state_to_playing_with_seed(42).unwrap();
    let (order_a, _) = a.names_and_guesses();
    let (order_b, _) = b.names_and_guesses();
    assert_eq!(order_a, order_b);
    assert_eq!(sorted(order_a.clone()), sorted(names.clone()));
    assert_ne!(order_a, names);
}

#[test]
fn order_stays_frozen_across_guesses() {
    let mut store = GameStore::new();
    for name in ["a", "b", "c", "d", "e"] {
        store.add_name(name).unwrap();
    }
    store.change_state_to_playing().unwrap();
    let (first, _) = store.names_and_guesses();
    store.guess_name(2).unwrap();
    store.unguess_name(0).unwrap();
    assert_eq!(store.add_name("late"), Err(StoreError::WrongPhase));
    assert_eq!(store.change_state_to_playing(), Err(StoreError::WrongPhase));
    let (second, _) = store.names_and_guesses();
    assert_eq!(first, second);
}

#[test]
fn name_count_follows_adds_and_removes() {
    let mut store = GameStore::new();
    let alice = store.add_name("Alice").unwrap();
    let bob = store.add_name("Bob").unwrap();
    assert_ne!(alice, bob);
    assert_eq!(store.name_count(), 2);
    store.remove_name(alice).unwrap();
    assert_eq!(store.name_count(), 1);
    // removing an absent id succeeds and republishes the count
    store.remove_name(alice).unwrap();
    assert_eq!(store.name_count(), 1);
    store.add_name_with_id(NameId(5), "Dan").unwrap();
    store.add_name_with_id(NameId(5), "Dana").unwrap();
    assert_eq!(store.name_count(), 2);
    let (names, _) = store.names_and_guesses();
    assert_eq!(sorted(names), vec!["Bob", "Dana"]);
    assert_eq!(
        store.take_notifications(),
        vec![
            Notification::NameCount(1),
            Notification::NameCount(2),
            Notification::NameCount(1),
            Notification::NameCount(1),
            Notification::NameCount(2),
            Notification::NameCount(2),
        ]
    );
    store.remove_name(bob).unwrap();
    store.remove_name(NameId(5)).unwrap();
    assert_eq!(store.name_count(), 0);
}

#[test]
fn scenario_new_round_after_playing() {
    let mut store = GameStore::new();
    let old_ids: Vec<NameId> = ["x", "y"].iter().map(|n| store.add_name(n).unwrap()).collect();
    store.change_state_to_playing_with_seed(1).unwrap();
    store.guess_name(0).unwrap();
    store.take_notifications();
    store.change_state_to_submitting().unwrap();
    assert_eq!(store.take_notifications(), vec![Notification::Submitting(Epoch(1))]);
    assert_eq!(store.state(), GameState::Submitting(Epoch(1)));
    assert_eq!(store.name_count(), 0);
    assert_eq!(store.names_and_guesses(), (vec![], vec![]));
    let new_id = store.add_name("z").unwrap();
    assert!(!old_ids.contains(&new_id));
    store.change_state_to_submitting().unwrap();
    assert_eq!(store.state(), GameState::Submitting(Epoch(2)));
}

#[test]
fn guess_and_unguess_bits() {
    let mut store = GameStore::new();
    for name in ["a", "b", "c"] {
        store.add_name(name).unwrap();
    }
    store.change_state_to_playing_with_seed(7).unwrap();
    store.take_notifications();
    store.guess_name(1).unwrap();
    assert_eq!(store.names_and_guesses().1, vec![0b0100_0000]);
    store.guess_name(2).unwrap();
    assert_eq!(store.names_and_guesses().1, vec![0b0110_0000]);
    store.unguess_name(1).unwrap();
    assert_eq!(store.names_and_guesses().1, vec![0b0010_0000]);
    // past the names: recorded, no error, cut from what readers see
    store.guess_name(20).unwrap();
    assert_eq!(store.names_and_guesses().1, vec![0b0010_0000]);
    assert_eq!(
        store.take_notifications(),
        vec![
            Notification::Guessed(1),
            Notification::Guessed(2),
            Notification::Unguessed(1),
            Notification::Guessed(20),
        ]
    );
}

#[test]
fn guess_beyond_count_is_kept_for_later() {
    let mut store = GameStore::new();
    store.guess_name(9).unwrap();
    for k in 0..10u128 {
        store.add_name_with_id(NameId(k), "n").unwrap();
    }
    store.change_state_to_playing_with_seed(3).unwrap();
    assert_eq!(store.names_and_guesses().1, vec![0, 0b0100_0000]);
}

#[test]
fn store_refusals() {
    let mut store = GameStore::new();
    let id = store.add_name("a").unwrap();
    store.change_state_to_playing_with_seed(0).unwrap();
    assert_eq!(store.remove_name(id), Err(StoreError::WrongPhase));
    assert_eq!(store.add_name_with_id(NameId(1), "b"), Err(StoreError::WrongPhase));
    assert_eq!(store.change_state_to_playing_with_seed(0), Err(StoreError::WrongPhase));
    if usize::MAX > MAX_GUESS_INDEX {
        assert_eq!(store.guess_name(MAX_GUESS_INDEX + 1), Err(StoreError::IndexTooLarge));
        assert_eq!(store.unguess_name(usize::MAX), Err(StoreError::IndexTooLarge));
    }
    store.take_notifications();
    assert_eq!(store.take_notifications(), vec![]);
}

#[test]
fn playing_with_no_names() {
    let mut store = GameStore::new();
    store.change_state_to_playing_with_seed(5).unwrap();
    assert_eq!(store.names_and_guesses(), (vec![], vec![]));
    assert_eq!(store.name_count(), 0);
}

#[test]
fn fit_guesses_cuts_and_pads() {
    assert_eq!(fit_guesses(&vec![1, 2, 3], 3), vec![1]);
    assert_eq!(fit_guesses(&vec![1, 2, 3], 9), vec![1, 2]);
    assert_eq!(fit_guesses(&vec![], 17), vec![0, 0, 0]);
    assert_eq!(fit_guesses(&vec![5], 0), Vec::<u8>::new());
    assert_eq!(fit_guesses(&vec![5, 6], 16), vec![5, 6]);
}

#[test]
fn write_bit_pads_and_toggles() {
    let mut bits = vec![];
    write_bit(&mut bits, 0, true);
    assert_eq!(bits, vec![0x80]);
    write_bit(&mut bits, 15, true);
    assert_eq!(bits, vec![0x80, 0x01]);
    write_bit(&mut bits, 0, false);
    assert_eq!(bits, vec![0x00, 0x01]);
    write_bit(&mut bits, 30, false);
    assert_eq!(bits, vec![0x00, 0x01, 0x00, 0x00]);
}

#[test]
fn decimal_numbers() {
    assert_eq!(parse_decimal(b"42", u64::MAX), Some(42));
    assert_eq!(parse_decimal(b"+7", u64::MAX), Some(7));
    assert_eq!(parse_decimal(b"007", u64::MAX), Some(7));
    assert_eq!(parse_decimal(b"", u64::MAX), None);
    assert_eq!(parse_decimal(b"+", u64::MAX), None);
    assert_eq!(parse_decimal(b"-1", u64::MAX), None);
    assert_eq!(parse_decimal(b"4a", u64::MAX), None);
    assert_eq!(parse_decimal(b"18446744073709551615", u64::MAX), Some(u64::MAX));
    assert_eq!(parse_decimal(b"18446744073709551616", u64::MAX), None);
    assert_eq!(parse_decimal(b"255", 255), Some(255));
    assert_eq!(parse_decimal(b"256", 255), None);
}

#[test]
fn notifications_from_channels() {
    assert_eq!(Notification::decode(b"numNames", b"3"), Ok(Notification::NameCount(3)));
    assert_eq!(Notification::decode(b"guess", b"1"), Ok(Notification::Guessed(1)));
    assert_eq!(Notification::decode(b"unguess", b"12"), Ok(Notification::Unguessed(12)));
    assert_eq!(
        Notification::decode(b"stateSubmitting", b"7"),
        Ok(Notification::Submitting(Epoch(7)))
    );
    assert_eq!(Notification::decode(b"statePlaying", b""), Ok(Notification::Playing));
    assert_eq!(Notification::decode(b"other", b"1"), Err(NotificationError::UnknownChannel));
    assert_eq!(Notification::decode(b"guess", b"x"), Err(NotificationError::NotANumber));
    assert_eq!(
        Notification::decode(b"stateSubmitting", b"4294967296"),
        Err(NotificationError::NotANumber)
    );
}

#[test]
fn cache_follows_notifications() {
    let mut cache = StoreCache { state: GameState::Submitting(Epoch(0)), name_count: 0 };
    cache.apply(Notification::NameCount(4));
    assert_eq!(cache.name_count, 4);
    cache.apply(Notification::Playing);
    assert_eq!(cache, StoreCache { state: GameState::Playing, name_count: 4 });
    cache.apply(Notification::Guessed(2));
    assert_eq!(cache, StoreCache { state: GameState::Playing, name_count: 4 });
    cache.apply(Notification::Submitting(Epoch(3)));
    assert_eq!(cache, StoreCache { state: GameState::Submitting(Epoch(3)), name_count: 0 });
}

#[test]
fn state_from_stored_values() {
    assert_eq!(GameState::from_stored(None, None), Ok(GameState::Submitting(Epoch(0))));
    assert_eq!(GameState::from_stored(None, Some(9)), Ok(GameState::Submitting(Epoch(9))));
    assert_eq!(
        GameState::from_stored(Some("submitting".to_string()), Some(4)),
        Ok(GameState::Submitting(Epoch(4)))
    );
    assert_eq!(GameState::from_stored(Some("playing".to_string()), Some(4)), Ok(GameState::Playing));
    assert_eq!(GameState::from_stored(Some("paused".to_string()), None), Err(UnknownPhase));
}

#[test]
fn phase_predicate() {
    assert!(GameState::Submitting(Epoch(3)).is_submitting());
    assert!(!GameState::Playing.is_submitting());
}
