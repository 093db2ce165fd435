use name_game::game::NameId;
use name_game::shuffle::{seeded_draws, shuffle_with};
use name_game::store::GameStore;

fn strings(v: &[&str]) -> Vec<String> {
    v.iter().map(|s| s.to_string()).collect()
}

#[test]
fn shuffle_with_swaps_in_order() {
    let mut items = strings(&["a", "b", "c", "d"]);
    // 0<->2: c b a d; 1<->3: c d a b; 2<->2: unchanged
    shuffle_with(&mut items, &vec![2, 3, 2]);
    assert_eq!(items, strings(&["c", "d", "a", "b"]));
    let mut same = strings(&["x", "y"]);
    shuffle_with(&mut same, &vec![]);
    assert_eq!(same, strings(&["x", "y"]));
}

#[test]
fn seeded_draws_fit_and_repeat() {
    for n in [0usize, 1, 2, 5, 40] {
        let d = seeded_draws(9, n);
        assert_eq!(d.len(), n.saturating_sub(1));
        for (i, j) in d.iter().enumerate() {
            assert!(i <= *j && *j < n);
        }
        assert_eq!(d, seeded_draws(9, n));
    }
    assert_ne!(seeded_draws(1, 40), seeded_draws(2, 40));
}

#[test]
fn playing_with_given_draws() {
    let mut store = GameStore::new();
    for (k, name) in ["a", "b", "c"].iter().enumerate() {
        store.add_name_with_id(NameId(k as u128), name).unwrap();
    }
    store.change_state_to_playing_with_draws(&vec![2, 1]).unwrap();
    assert_eq!(store.names_and_guesses().0, strings(&["c", "b", "a"]));
}

#[test]
fn seeded_draws_exact_values() {
    assert_eq!(seeded_draws(0, 3), vec![2, 1]);
    assert_eq!(seeded_draws(0, 1), Vec::<usize>::new());
}

#[test]
fn seeded_playing_matches_its_draws() {
    let build = || {
        let mut store = GameStore::new();
        for (k, name) in ["a", "b", "c", "d", "e", "f"].iter().enumerate() {
            store.add_name_with_id(NameId(k as u128), name).unwrap();
        }
        store
    };
    let mut seeded = build();
    seeded.change_state_to_playing_with_seed(42).unwrap();
    let mut drawn = build();
    drawn.change_state_to_playing_with_draws(&seeded_draws(42, 6)).unwrap();
    assert_eq!(seeded.names_and_guesses(), drawn.names_and_guesses());
}
