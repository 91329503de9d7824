use cs_trade_up::error::EngineError;
use cs_trade_up::models::Skin;
use cs_trade_up::scripts::open_skins::{rarity_weight, select, select_index, weight_for};
use rand::rngs::StdRng;
use rand::{Rng, SeedableRng};

#[test]
fn each_label_has_its_weight() {
    assert_eq!(weight_for(Some("common")), 70);
    assert_eq!(weight_for(Some("uncommon")), 20);
    assert_eq!(weight_for(Some("rare")), 8);
    assert_eq!(weight_for(Some("epic")), 2);
    assert_eq!(weight_for(Some("mythic")), 2);
    assert_eq!(weight_for(Some("legendary")), 2);
    assert_eq!(weight_for(Some("covert")), 10);
    assert_eq!(weight_for(Some("")), 10);
    assert_eq!(weight_for(Some("Common")), 10);
    assert_eq!(weight_for(Some(" common")), 10);
    assert_eq!(weight_for(None), 10);
}

#[test]
fn labels_are_lowercased_and_trimmed_before_weighing() {
    assert_eq!(rarity_weight(&Some("Common".to_string())), 70);
    assert_eq!(rarity_weight(&Some("  common\t\n".to_string())), 70);
    assert_eq!(rarity_weight(&Some(" UNCOMMON ".to_string())), 20);
    assert_eq!(rarity_weight(&Some("Rare".to_string())), 8);
    assert_eq!(rarity_weight(&Some("LEGENDARY".to_string())), 2);
    assert_eq!(rarity_weight(&Some("very common".to_string())), 10);
    assert_eq!(rarity_weight(&Some("Consumer Grade".to_string())), 10);
    assert_eq!(rarity_weight(&None), 10);
}

#[test]
fn nothing_is_selected_from_nothing() {
    assert_eq!(select_index(&vec![], 0), Err(EngineError::EmptyCandidateSet));
    assert_eq!(select_index(&vec![], 5), Err(EngineError::EmptyCandidateSet));
}

#[test]
fn the_walk_stops_where_the_running_sum_exceeds_the_draw() {
    let weights = vec![70, 20, 8, 2];
    assert_eq!(select_index(&weights, 0), Ok(0));
    assert_eq!(select_index(&weights, 69), Ok(0));
    assert_eq!(select_index(&weights, 70), Ok(1));
    assert_eq!(select_index(&weights, 89), Ok(1));
    assert_eq!(select_index(&weights, 90), Ok(2));
    assert_eq!(select_index(&weights, 97), Ok(2));
    assert_eq!(select_index(&weights, 98), Ok(3));
    assert_eq!(select_index(&weights, 99), Ok(3));
}

#[test]
fn a_walk_that_overruns_returns_the_last_index() {
    let weights = vec![70, 20, 8, 2];
    assert_eq!(select_index(&weights, 100), Ok(3));
    assert_eq!(select_index(&weights, u128::MAX), Ok(3));
    assert_eq!(select_index(&vec![0, 0, 0], 0), Ok(2));
    assert_eq!(select_index(&vec![5], 1_000), Ok(0));
}

#[test]
fn items_without_weight_are_never_drawn_below_the_total() {
    let weights = vec![0, 3, 0, 2, 0];
    let picks: Vec<usize> = (0..5).map(|draw| select_index(&weights, draw).unwrap()).collect();
    assert_eq!(picks, vec![1, 1, 1, 3, 3]);
    assert_eq!(select_index(&weights, 5), Ok(4));
}

#[test]
fn the_largest_weights_do_not_overflow() {
    let weights = vec![u64::MAX, u64::MAX, 1];
    assert_eq!(select_index(&weights, u64::MAX as u128 - 1), Ok(0));
    assert_eq!(select_index(&weights, u64::MAX as u128), Ok(1));
    assert_eq!(select_index(&weights, 2 * (u64::MAX as u128)), Ok(2));
    assert_eq!(select_index(&weights, 2 * (u64::MAX as u128) + 1), Ok(2));
}

#[test]
fn a_seeded_source_draws_in_proportion_to_the_weights() {
    let weights = vec![90, 10];
    let mut source = StdRng::seed_from_u64(0x5eed);
    let samples = 10_000;
    let mut heavy = 0;
    for _ in 0..samples {
        let draw: u128 = source.gen_range(0..100);
        match select_index(&weights, draw).unwrap() {
            0 => heavy += 1,
            1 => {}
            other => panic!("index {} is out of range", other),
        }
    }
    let share = heavy as f64 / samples as f64;
    assert!((share - 0.9).abs() < 0.02, "the heavy item came up in {} of the draws", share);
}

#[test]
fn every_draw_below_the_total_is_counted_once() {
    let weights = vec![90, 10];
    let heavy = (0..100u128).filter(|draw| select_index(&weights, *draw) == Ok(0)).count();
    let light = (0..100u128).filter(|draw| select_index(&weights, *draw) == Ok(1)).count();
    assert_eq!((heavy, light), (90, 10));
}

fn item(id: i64, rarity: Option<&str>) -> Skin {
    Skin {
        id,
        name: format!("item {}", id),
        rarity: rarity.map(|r| r.to_string()),
        price: 0,
        collection: None,
        weapon_type: None,
        image_base64: None,
    }
}

#[test]
fn the_selector_weighs_items_by_their_rarity() {
    let items = vec![item(4, Some("Uncommon")), item(9, None), item(2, Some("epic ")), item(7, Some("common"))];
    // The weights are 20, 10, 2 and 70.
    let picks: Vec<i64> =
        [0, 19, 20, 29, 30, 31, 32, 101, 102, 5_000].iter().map(|draw| select(&items, *draw).unwrap().id).collect();
    assert_eq!(picks, vec![4, 4, 9, 9, 2, 2, 7, 7, 7, 7]);
    assert_eq!(select(&items, 31).unwrap().name, "item 2");
}

#[test]
fn the_selector_refuses_an_empty_list() {
    assert_eq!(select(&vec![], 0).unwrap_err(), EngineError::EmptyCandidateSet);
    assert_eq!(select(&vec![], 77).unwrap_err(), EngineError::EmptyCandidateSet);
}
