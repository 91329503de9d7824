use cs_trade_up::db::{
    add_inventory_item, add_skin, authenticate, change_user_balance, create_user, find_owned_record,
    get_inventory_for_user, get_inventory_item, get_skin_by_id, get_skin_by_name, get_user_by_id, list_records,
    list_skins, list_users, next_inventory_id, remove_inventory_item, Store,
};
use cs_trade_up::error::EngineError;
use cs_trade_up::model::STARTING_BALANCE;
use cs_trade_up::models::{InventoryItem, Skin, User};

fn plain_skin(store: &mut Store, name: &str, rarity: &str, price: u64) -> Skin {
    add_skin(store, name, Some(rarity), price, None, None, None).unwrap()
}

fn skin_row(id: i64, name: &str) -> Skin {
    Skin {
        id,
        name: name.to_string(),
        rarity: None,
        price: 0,
        collection: None,
        weapon_type: None,
        image_base64: None,
    }
}

fn user_row(id: i64, name: &str, balance: u64) -> User {
    User { id, username: name.to_string(), password: "pw".to_string(), balance }
}

#[test]
fn a_new_store_is_empty() {
    let store = Store::new();
    assert!(list_users(&store).is_empty());
    assert!(list_skins(&store).is_empty());
    assert!(list_records(&store).is_empty());
    assert_eq!(next_inventory_id(&store), Some(1));
}

#[test]
fn registering_gives_the_next_id_and_the_starting_balance() {
    let mut store = Store::new();
    let ann = create_user(&mut store, "ann", "secret").unwrap();
    assert_eq!(ann.id, 1);
    assert_eq!(ann.username, "ann");
    assert_eq!(ann.password, "secret");
    assert_eq!(ann.balance, 10_000);
    assert_eq!(STARTING_BALANCE, 10_000);
    let bob = create_user(&mut store, "bob", "other").unwrap();
    assert_eq!(bob.id, 2);
    assert_eq!(list_users(&store).len(), 2);
}

#[test]
fn a_taken_handle_is_refused() {
    let mut store = Store::new();
    create_user(&mut store, "ann", "secret").unwrap();
    assert_eq!(create_user(&mut store, "ann", "again").unwrap_err(), EngineError::HandleTaken);
    assert_eq!(list_users(&store).len(), 1);
    assert_eq!(get_user_by_id(&store, 1).unwrap().password, "secret");
    assert!(create_user(&mut store, "Ann", "again").is_ok());
}

#[test]
fn authenticating_needs_the_handle_and_its_secret() {
    let mut store = Store::new();
    create_user(&mut store, "ann", "secret").unwrap();
    create_user(&mut store, "bob", "hunter2").unwrap();
    assert_eq!(authenticate(&store, "bob", "hunter2").unwrap().id, 2);
    assert!(authenticate(&store, "bob", "secret").is_none());
    assert!(authenticate(&store, "carol", "secret").is_none());
    assert!(authenticate(&store, "ann", "").is_none());
}

#[test]
fn an_account_is_found_by_its_id_only() {
    let mut store = Store::new();
    create_user(&mut store, "ann", "secret").unwrap();
    assert_eq!(get_user_by_id(&store, 1).unwrap().username, "ann");
    assert!(get_user_by_id(&store, 2).is_none());
    assert!(get_user_by_id(&store, 0).is_none());
}

#[test]
fn a_balance_changes_by_the_delta() {
    let mut store = Store::new();
    create_user(&mut store, "ann", "secret").unwrap();
    create_user(&mut store, "bob", "secret").unwrap();
    assert_eq!(change_user_balance(&mut store, 1, 250), Ok(10_250));
    assert_eq!(change_user_balance(&mut store, 1, -10_250), Ok(0));
    assert_eq!(change_user_balance(&mut store, 1, 0), Ok(0));
    assert_eq!(get_user_by_id(&store, 1).unwrap().balance, 0);
    assert_eq!(get_user_by_id(&store, 2).unwrap().balance, 10_000);
}

#[test]
fn a_balance_never_goes_negative_or_out_of_range() {
    let mut store = Store::new();
    create_user(&mut store, "ann", "secret").unwrap();
    assert_eq!(change_user_balance(&mut store, 1, -10_001), Err(EngineError::InsufficientFunds));
    assert_eq!(change_user_balance(&mut store, 1, i128::MIN), Err(EngineError::InsufficientFunds));
    assert_eq!(
        change_user_balance(&mut store, 1, u64::MAX as i128 - 9_999),
        Err(EngineError::BalanceOverflow)
    );
    assert_eq!(change_user_balance(&mut store, 1, i128::MAX), Err(EngineError::BalanceOverflow));
    assert_eq!(change_user_balance(&mut store, 9, 1), Err(EngineError::AccountNotFound));
    assert_eq!(get_user_by_id(&store, 1).unwrap().balance, 10_000);
    assert_eq!(change_user_balance(&mut store, 1, u64::MAX as i128 - 10_000), Ok(u64::MAX));
}

#[test]
fn adding_the_same_name_twice_returns_the_same_item() {
    let mut store = Store::new();
    let before = list_skins(&store).len();
    let first = add_skin(&mut store, "X", None, 5, None, None, None).unwrap();
    let second = add_skin(&mut store, "X", None, 5, None, None, None).unwrap();
    assert_eq!(first.id, second.id);
    assert_eq!(list_skins(&store).len(), before + 1);
}

#[test]
fn the_first_definition_of_a_name_wins() {
    let mut store = Store::new();
    let first = add_skin(&mut store, "X", Some("Covert"), 5, Some("Alpha"), Some("Rifle"), Some("aGk=")).unwrap();
    let second = add_skin(&mut store, "X", Some("Consumer"), 9, None, None, None).unwrap();
    assert_eq!(second.id, first.id);
    assert_eq!(second.price, 5);
    assert_eq!(second.rarity.as_deref(), Some("Covert"));
    assert_eq!(second.collection.as_deref(), Some("Alpha"));
    assert_eq!(second.weapon_type.as_deref(), Some("Rifle"));
    assert_eq!(second.image_base64.as_deref(), Some("aGk="));
    assert_eq!(list_skins(&store).len(), 1);
}

#[test]
fn catalog_ids_count_up_from_one() {
    let mut store = Store::new();
    assert_eq!(plain_skin(&mut store, "m", "covert", 1).id, 1);
    assert_eq!(plain_skin(&mut store, "a", "covert", 1).id, 2);
    assert_eq!(plain_skin(&mut store, "z", "covert", 1).id, 3);
    assert_eq!(get_skin_by_id(&store, 2).unwrap().name, "a");
    assert!(get_skin_by_id(&store, 4).is_none());
}

#[test]
fn the_catalog_is_listed_by_name() {
    let mut store = Store::new();
    for name in ["delta", "alpha", "charlie", "Bravo", "alpha 2", "alph"] {
        plain_skin(&mut store, name, "covert", 1);
    }
    let names: Vec<String> = list_skins(&store).into_iter().map(|s| s.name).collect();
    assert_eq!(names, vec!["Bravo", "alph", "alpha", "alpha 2", "charlie", "delta"]);
}

#[test]
fn names_are_ordered_by_code_point() {
    let mut store = Store::new();
    for name in ["\u{e9}clair", "zebra", "\u{2605} Karambit", "Zebra", "", "\u{1f600}"] {
        plain_skin(&mut store, name, "covert", 1);
    }
    let names: Vec<String> = list_skins(&store).into_iter().map(|s| s.name).collect();
    assert_eq!(names, vec!["", "Zebra", "zebra", "\u{e9}clair", "\u{2605} Karambit", "\u{1f600}"]);
}

#[test]
fn a_catalog_item_is_found_by_its_exact_name() {
    let mut store = Store::new();
    plain_skin(&mut store, "AK-47 | Redline", "Classified", 1500);
    let found = get_skin_by_name(&store, "AK-47 | Redline").unwrap();
    assert_eq!(found.id, 1);
    assert_eq!(found.price, 1500);
    assert!(get_skin_by_name(&store, "ak-47 | redline").is_none());
    assert!(get_skin_by_name(&store, "AK-47").is_none());
}

#[test]
fn a_record_needs_its_account_and_its_item() {
    let mut store = Store::new();
    create_user(&mut store, "ann", "secret").unwrap();
    plain_skin(&mut store, "X", "covert", 1);
    assert_eq!(add_inventory_item(&mut store, 2, 1), Err(EngineError::AccountNotFound));
    assert_eq!(add_inventory_item(&mut store, 1, 2), Err(EngineError::ItemNotFound));
    assert_eq!(add_inventory_item(&mut store, 2, 2), Err(EngineError::AccountNotFound));
    assert!(list_records(&store).is_empty());
    assert_eq!(add_inventory_item(&mut store, 1, 1), Ok(InventoryItem { id: 1, user_id: 1, skin_id: 1 }));
    assert_eq!(add_inventory_item(&mut store, 1, 1), Ok(InventoryItem { id: 2, user_id: 1, skin_id: 1 }));
    assert_eq!(list_records(&store).len(), 2);
}

#[test]
fn a_freed_top_id_is_given_out_again() {
    let mut store = Store::new();
    create_user(&mut store, "ann", "secret").unwrap();
    plain_skin(&mut store, "X", "covert", 1);
    for _ in 0..3 {
        add_inventory_item(&mut store, 1, 1).unwrap();
    }
    assert!(remove_inventory_item(&mut store, 3));
    assert_eq!(add_inventory_item(&mut store, 1, 1).unwrap().id, 3);
    assert!(remove_inventory_item(&mut store, 1));
    assert_eq!(add_inventory_item(&mut store, 1, 1).unwrap().id, 4);
}

#[test]
fn removing_a_record_tells_whether_there_was_one() {
    let mut store = Store::new();
    create_user(&mut store, "ann", "secret").unwrap();
    plain_skin(&mut store, "X", "covert", 1);
    add_inventory_item(&mut store, 1, 1).unwrap();
    add_inventory_item(&mut store, 1, 1).unwrap();
    assert!(!remove_inventory_item(&mut store, 7));
    assert_eq!(list_records(&store).len(), 2);
    assert!(remove_inventory_item(&mut store, 1));
    assert!(!remove_inventory_item(&mut store, 1));
    assert_eq!(list_records(&store), vec![InventoryItem { id: 2, user_id: 1, skin_id: 1 }]);
    assert_eq!(get_inventory_item(&store, 2), Some(InventoryItem { id: 2, user_id: 1, skin_id: 1 }));
    assert_eq!(get_inventory_item(&store, 1), None);
}

#[test]
fn an_inventory_lists_only_the_accounts_records() {
    let mut store = Store::new();
    create_user(&mut store, "ann", "secret").unwrap();
    create_user(&mut store, "bob", "secret").unwrap();
    plain_skin(&mut store, "X", "covert", 1);
    plain_skin(&mut store, "A", "consumer", 2);
    add_inventory_item(&mut store, 1, 1).unwrap();
    add_inventory_item(&mut store, 2, 1).unwrap();
    add_inventory_item(&mut store, 1, 2).unwrap();
    add_inventory_item(&mut store, 1, 1).unwrap();
    let owned = get_inventory_for_user(&store, 1);
    let rows: Vec<(i64, i64, String)> =
        owned.iter().map(|o| (o.inventory.id, o.inventory.skin_id, o.skin.as_ref().unwrap().name.clone())).collect();
    assert_eq!(rows, vec![(1, 1, "X".to_string()), (3, 2, "A".to_string()), (4, 1, "X".to_string())]);
    assert_eq!(get_inventory_for_user(&store, 2).len(), 1);
    assert!(get_inventory_for_user(&store, 3).is_empty());
}

#[test]
fn a_dangling_reference_is_listed_without_its_item() {
    let users = vec![user_row(1, "ann", 50)];
    let skins = vec![skin_row(1, "X")];
    let inventory =
        vec![InventoryItem { id: 1, user_id: 1, skin_id: 1 }, InventoryItem { id: 2, user_id: 1, skin_id: 77 }];
    let store = Store::from_rows(users, skins, inventory).unwrap();
    let owned = get_inventory_for_user(&store, 1);
    assert_eq!(owned.len(), 2);
    assert_eq!(owned[0].skin.as_ref().unwrap().name, "X");
    assert_eq!(owned[1].inventory, InventoryItem { id: 2, user_id: 1, skin_id: 77 });
    assert!(owned[1].skin.is_none());
}

#[test]
fn the_first_record_of_an_item_is_found() {
    let mut store = Store::new();
    create_user(&mut store, "ann", "secret").unwrap();
    create_user(&mut store, "bob", "secret").unwrap();
    plain_skin(&mut store, "X", "covert", 1);
    plain_skin(&mut store, "Y", "covert", 1);
    add_inventory_item(&mut store, 2, 2).unwrap();
    add_inventory_item(&mut store, 1, 1).unwrap();
    add_inventory_item(&mut store, 1, 2).unwrap();
    add_inventory_item(&mut store, 1, 2).unwrap();
    assert_eq!(find_owned_record(&store, 1, 2), Some(InventoryItem { id: 3, user_id: 1, skin_id: 2 }));
    assert_eq!(find_owned_record(&store, 2, 1), None);
}

#[test]
fn rows_in_order_make_a_store() {
    let users = vec![user_row(-3, "ann", 1), user_row(4, "bob", 2)];
    let skins = vec![skin_row(9, "a"), skin_row(2, "b"), skin_row(5, "c")];
    let inventory = vec![InventoryItem { id: 10, user_id: 4, skin_id: 2 }];
    let mut store = Store::from_rows(users, skins, inventory).unwrap();
    assert_eq!(create_user(&mut store, "carol", "pw").unwrap().id, 5);
    assert_eq!(add_skin(&mut store, "bb", None, 1, None, None, None).unwrap().id, 10);
    assert_eq!(add_inventory_item(&mut store, 4, 9).unwrap().id, 11);
    let names: Vec<String> = list_skins(&store).into_iter().map(|s| s.name).collect();
    assert_eq!(names, vec!["a", "b", "bb", "c"]);
}

#[test]
fn rows_out_of_order_make_no_store() {
    assert!(Store::from_rows(vec![user_row(2, "ann", 1), user_row(1, "bob", 1)], vec![], vec![]).is_none());
    assert!(Store::from_rows(vec![user_row(1, "ann", 1), user_row(1, "bob", 1)], vec![], vec![]).is_none());
    assert!(Store::from_rows(vec![user_row(1, "ann", 1), user_row(2, "ann", 1)], vec![], vec![]).is_none());
    assert!(Store::from_rows(vec![], vec![skin_row(1, "b"), skin_row(2, "a")], vec![]).is_none());
    assert!(Store::from_rows(vec![], vec![skin_row(1, "a"), skin_row(2, "a")], vec![]).is_none());
    assert!(Store::from_rows(vec![], vec![skin_row(1, "a"), skin_row(2, "b"), skin_row(1, "c")], vec![]).is_none());
    let rows = vec![InventoryItem { id: 2, user_id: 1, skin_id: 1 }, InventoryItem { id: 2, user_id: 1, skin_id: 1 }];
    assert!(Store::from_rows(vec![], vec![], rows).is_none());
    assert!(Store::from_rows(vec![], vec![], vec![]).is_some());
}

#[test]
fn the_largest_id_leaves_no_id() {
    let users = vec![user_row(i64::MAX, "ann", 1)];
    let skins = vec![skin_row(i64::MAX, "a")];
    let inventory = vec![InventoryItem { id: i64::MAX, user_id: i64::MAX, skin_id: i64::MAX }];
    let mut store = Store::from_rows(users, skins, inventory).unwrap();
    assert_eq!(create_user(&mut store, "bob", "pw").unwrap_err(), EngineError::IdSpaceExhausted);
    assert_eq!(add_skin(&mut store, "b", None, 1, None, None, None).unwrap_err(), EngineError::IdSpaceExhausted);
    assert_eq!(add_inventory_item(&mut store, i64::MAX, i64::MAX), Err(EngineError::IdSpaceExhausted));
    assert_eq!(next_inventory_id(&store), None);
    assert_eq!(add_skin(&mut store, "a", None, 1, None, None, None).unwrap().id, i64::MAX);
    assert_eq!(list_users(&store).len(), 1);
    assert_eq!(list_skins(&store).len(), 1);
    assert_eq!(list_records(&store).len(), 1);
}
