use cs_trade_up::db::{
    add_inventory_item, add_skin, create_user, exchange_records, get_inventory_item, get_user_by_id, list_records,
    list_skins, Store,
};
use cs_trade_up::error::EngineError;
use cs_trade_up::models::{InventoryItem, Skin, User};
use cs_trade_up::rarity::Tier;
use cs_trade_up::scripts::tradeup::{
    blade_marked, compose_tradeup, excluded_from_output, plan_tradeup, tradeup_candidates, tradeup_target,
    TRADEUP_INPUTS,
};

fn armory() -> Store {
    let mut store = Store::new();
    create_user(&mut store, "ann", "secret").unwrap();
    create_user(&mut store, "bob", "secret").unwrap();
    add_skin(&mut store, "P250 | Sand Dune", Some("Consumer Grade"), 300, None, Some("Pistol"), None).unwrap();
    add_skin(&mut store, "MP7 | Forest", Some("consumer grade"), 200, None, Some("SMG"), None).unwrap();
    add_skin(&mut store, "MAC-10 | Candy", Some("Industrial Grade"), 900, None, Some("SMG"), None).unwrap();
    add_skin(&mut store, "Galil | Tuxedo", Some("INDUSTRIAL"), 800, None, None, None).unwrap();
    add_skin(&mut store, "AK-47 | Slate", Some("Mil-Spec"), 2_000, None, Some("Rifle"), None).unwrap();
    add_skin(&mut store, "\u{2605} Karambit | Doppler", Some("Rare-Special"), 90_000, None, Some("Knife"), None)
        .unwrap();
    add_skin(&mut store, "Sticker | Crown", Some("Contraband"), 50_000, None, None, None).unwrap();
    store
}

fn give(store: &mut Store, user_id: i64, skin_id: i64, count: usize) -> Vec<i64> {
    (0..count).map(|_| add_inventory_item(store, user_id, skin_id).unwrap().id).collect()
}

fn skin_row(id: i64, name: &str, rarity: &str, weapon_type: Option<&str>) -> Skin {
    Skin {
        id,
        name: name.to_string(),
        rarity: Some(rarity.to_string()),
        price: 0,
        collection: None,
        weapon_type: weapon_type.map(|w| w.to_string()),
        image_base64: None,
    }
}

#[test]
fn a_tradeup_takes_ten_records() {
    assert_eq!(TRADEUP_INPUTS, 10);
}

#[test]
fn nine_or_eleven_records_are_refused() {
    let mut store = armory();
    let ids = give(&mut store, 1, 1, 11);
    assert_eq!(compose_tradeup(&mut store, 1, ids[..9].to_vec()), Err(EngineError::InvalidInputCount));
    assert_eq!(compose_tradeup(&mut store, 1, ids.clone()), Err(EngineError::InvalidInputCount));
    assert_eq!(compose_tradeup(&mut store, 1, vec![]), Err(EngineError::InvalidInputCount));
    assert_eq!(compose_tradeup(&mut store, 9, vec![77; 11]), Err(EngineError::InvalidInputCount));
    assert_eq!(list_records(&store).len(), 11);
    assert_eq!(get_user_by_id(&store, 1).unwrap().balance, 10_000);
}

#[test]
fn mixed_tiers_are_refused() {
    let mut store = armory();
    let mut ids = give(&mut store, 1, 1, 9);
    ids.extend(give(&mut store, 1, 3, 1));
    let before = list_records(&store);
    assert_eq!(compose_tradeup(&mut store, 1, ids.clone()), Err(EngineError::MixedTiers));
    assert_eq!(tradeup_target(&store, 1, &ids), Err(EngineError::MixedTiers));
    assert_eq!(list_records(&store), before);
    assert_eq!(get_user_by_id(&store, 1).unwrap().balance, 10_000);
}

#[test]
fn ten_consumer_records_become_one_industrial_record() {
    let mut store = armory();
    let mut ids = give(&mut store, 1, 1, 6);
    let kept = give(&mut store, 1, 5, 1);
    ids.extend(give(&mut store, 1, 2, 4));
    let others = give(&mut store, 2, 1, 2);
    let before = list_records(&store).len();
    let new_id = compose_tradeup(&mut store, 1, ids.clone()).unwrap();
    assert_eq!(new_id, 14);
    let after = list_records(&store);
    assert_eq!(after.len(), before - 9);
    for id in &ids {
        assert_eq!(get_inventory_item(&store, *id), None);
    }
    for id in kept.iter().chain(others.iter()) {
        assert!(get_inventory_item(&store, *id).is_some());
    }
    let gained = get_inventory_item(&store, new_id).unwrap();
    assert_eq!(gained.user_id, 1);
    assert!(gained.skin_id == 3 || gained.skin_id == 4);
    assert_eq!(after.iter().filter(|r| !ids.contains(&r.id) && r.id != new_id).count(), 3);
    assert_eq!(get_user_by_id(&store, 1).unwrap().balance, 10_000);
    assert_eq!(list_skins(&store).len(), 7);
}

#[test]
fn every_candidate_comes_up_sooner_or_later() {
    let mut seen = [false; 2];
    for _ in 0..200 {
        let mut store = armory();
        let ids = give(&mut store, 1, 1, 10);
        let new_id = compose_tradeup(&mut store, 1, ids).unwrap();
        match get_inventory_item(&store, new_id).unwrap().skin_id {
            3 => seen[0] = true,
            4 => seen[1] = true,
            other => panic!("item {} is no candidate", other),
        }
    }
    assert_eq!(seen, [true, true]);
}

#[test]
fn the_top_tier_has_nothing_to_trade_up_to() {
    let mut store = armory();
    let ids = give(&mut store, 1, 6, 10);
    assert_eq!(compose_tradeup(&mut store, 1, ids.clone()), Err(EngineError::NoHigherTier));
    add_skin(&mut store, "Dragon Lore", Some("rare-special"), 1, None, None, None).unwrap();
    assert_eq!(compose_tradeup(&mut store, 1, ids), Err(EngineError::NoHigherTier));
    assert_eq!(list_records(&store).len(), 10);
}

#[test]
fn an_unknown_tier_is_not_in_the_progression() {
    let mut store = armory();
    add_skin(&mut store, "Mystery", None, 1, None, None, None).unwrap();
    let mut ids = give(&mut store, 1, 7, 9);
    ids.extend(give(&mut store, 1, 8, 1));
    assert_eq!(compose_tradeup(&mut store, 1, ids), Err(EngineError::UnsupportedTier));
    assert_eq!(list_records(&store).len(), 10);
}

#[test]
fn a_record_of_another_account_is_refused() {
    let mut store = armory();
    let mut ids = give(&mut store, 1, 1, 9);
    let foreign = give(&mut store, 2, 1, 1);
    ids.insert(4, foreign[0]);
    assert_eq!(compose_tradeup(&mut store, 1, ids.clone()), Err(EngineError::NotOwned(foreign[0])));
    ids[4] = 999;
    ids[7] = foreign[0];
    assert_eq!(compose_tradeup(&mut store, 1, ids), Err(EngineError::NotOwned(999)));
    assert_eq!(list_records(&store).len(), 10);
}

#[test]
fn a_record_without_its_catalog_item_is_refused() {
    let users = vec![User { id: 1, username: "ann".to_string(), password: "pw".to_string(), balance: 0 }];
    let skins = vec![skin_row(1, "a", "consumer", None), skin_row(2, "b", "industrial", None)];
    let mut inventory: Vec<InventoryItem> =
        (1..=9).map(|id| InventoryItem { id, user_id: 1, skin_id: 1 }).collect();
    inventory.push(InventoryItem { id: 10, user_id: 1, skin_id: 55 });
    let mut store = Store::from_rows(users, skins, inventory).unwrap();
    let ids: Vec<i64> = (1..=10).collect();
    assert_eq!(compose_tradeup(&mut store, 1, ids), Err(EngineError::DanglingItem(10)));
    assert_eq!(list_records(&store).len(), 10);
}

#[test]
fn a_tier_without_candidates_is_refused() {
    let mut store = armory();
    let ids = give(&mut store, 1, 5, 10);
    assert_eq!(compose_tradeup(&mut store, 1, ids), Err(EngineError::NoCandidates));
    assert_eq!(list_records(&store).len(), 10);
}

#[test]
fn blades_are_no_candidates() {
    let users = vec![User { id: 1, username: "ann".to_string(), password: "pw".to_string(), balance: 0 }];
    let skins = vec![
        skin_row(1, "A covert thing", "covert", None),
        skin_row(2, "Bayonet", "rare-special", Some("Knife")),
        skin_row(3, "Butterfly KNIFE | Fade", "rare-special", None),
        skin_row(4, "Sport Gloves", "rare-special", Some("Gloves")),
        skin_row(6, "Ursus", "Rare-Special", Some("Ursus Knife")),
        skin_row(5, "\u{2605} Talon", "rare-special", Some("Blade")),
    ];
    let inventory: Vec<InventoryItem> = (1..=10).map(|id| InventoryItem { id, user_id: 1, skin_id: 1 }).collect();
    let mut store = Store::from_rows(users, skins, inventory).unwrap();
    assert_eq!(tradeup_candidates(&store, Tier::RareSpecial), vec![4]);
    assert_eq!(plan_tradeup(&store, 1, &(1..=10).collect()), Ok(vec![4]));
    let new_id = compose_tradeup(&mut store, 1, (1..=10).collect()).unwrap();
    assert_eq!(list_records(&store), vec![InventoryItem { id: new_id, user_id: 1, skin_id: 4 }]);
    assert_eq!(new_id, 11);
}

#[test]
fn a_blade_is_told_by_its_weapon_type_or_its_name() {
    assert!(blade_marked("bayonet", "knife"));
    assert!(blade_marked("bayonet", "a knife of sorts"));
    assert!(blade_marked("flip knife | fade", ""));
    assert!(blade_marked("\u{2605} gloves", "gloves"));
    assert!(!blade_marked("ak-47 | slate", "rifle"));
    assert!(!blade_marked("ursus", "throwing knives"));
    assert!(!blade_marked("KNIFE", "KNIFE"));
    assert!(!blade_marked("", ""));
    assert!(excluded_from_output(&skin_row(1, "Bayonet", "covert", Some("KNIFE"))));
    assert!(excluded_from_output(&skin_row(1, "Huntsman Knife", "covert", None)));
    assert!(!excluded_from_output(&skin_row(1, "AK-47 | Slate", "covert", Some("Rifle"))));
}

#[test]
fn candidates_are_listed_in_catalog_order() {
    let store = armory();
    assert_eq!(tradeup_candidates(&store, Tier::Industrial), vec![4, 3]);
    assert_eq!(tradeup_candidates(&store, Tier::Consumer), vec![2, 1]);
    assert_eq!(tradeup_candidates(&store, Tier::MilSpec), vec![5]);
    assert_eq!(tradeup_candidates(&store, Tier::RareSpecial), Vec::<i64>::new());
    assert_eq!(tradeup_candidates(&store, Tier::Unknown), vec![7]);
}

#[test]
fn the_checks_come_in_their_order() {
    let mut store = armory();
    let mut ids = give(&mut store, 1, 1, 9);
    ids.extend(give(&mut store, 1, 6, 1));
    assert_eq!(tradeup_target(&store, 1, &ids), Err(EngineError::MixedTiers));
    ids[0] = 500;
    assert_eq!(tradeup_target(&store, 1, &ids), Err(EngineError::NotOwned(500)));
    ids.push(501);
    assert_eq!(tradeup_target(&store, 1, &ids), Err(EngineError::InvalidInputCount));
    let same = give(&mut store, 1, 1, 10);
    assert_eq!(tradeup_target(&store, 1, &same), Ok(Tier::Industrial));
    assert_eq!(plan_tradeup(&store, 1, &same), Ok(vec![4, 3]));
}

#[test]
fn a_record_listed_twice_rolls_everything_back() {
    let mut store = armory();
    let mut ids = give(&mut store, 1, 1, 9);
    ids.push(ids[2]);
    let before = list_records(&store);
    assert_eq!(compose_tradeup(&mut store, 1, ids.clone()), Err(EngineError::ConsumptionFailed(ids[2])));
    assert_eq!(list_records(&store), before);
    assert_eq!(exchange_records(&mut store, 1, &ids, 3), Err(EngineError::ConsumptionFailed(ids[2])));
    assert_eq!(list_records(&store), before);
}

#[test]
fn an_exchange_is_all_or_nothing() {
    let mut store = armory();
    let mine = give(&mut store, 1, 1, 3);
    let theirs = give(&mut store, 2, 1, 1);
    let before = list_records(&store);
    assert_eq!(
        exchange_records(&mut store, 1, &vec![mine[0], mine[1], theirs[0]], 3),
        Err(EngineError::ConsumptionFailed(theirs[0]))
    );
    assert_eq!(exchange_records(&mut store, 1, &vec![mine[0], 42], 3), Err(EngineError::ConsumptionFailed(42)));
    assert_eq!(exchange_records(&mut store, 7, &mine, 3), Err(EngineError::AccountNotFound));
    assert_eq!(exchange_records(&mut store, 1, &mine, 70), Err(EngineError::ItemNotFound));
    assert_eq!(list_records(&store), before);
    assert_eq!(exchange_records(&mut store, 1, &vec![mine[2], mine[0]], 3), Ok(5));
    assert_eq!(
        list_records(&store),
        vec![
            InventoryItem { id: 2, user_id: 1, skin_id: 1 },
            InventoryItem { id: 4, user_id: 2, skin_id: 1 },
            InventoryItem { id: 5, user_id: 1, skin_id: 3 },
        ]
    );
    assert_eq!(exchange_records(&mut store, 1, &vec![6], 3), Ok(6));
    assert_eq!(exchange_records(&mut store, 1, &vec![], 3), Ok(6));
    assert_eq!(list_records(&store).len(), 4);
}
