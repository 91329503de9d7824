use cs_trade_up::db::{get_skin_by_name, list_skins, Store};
use cs_trade_up::models::{image_payload, Skin};
use cs_trade_up::seed::{seed_all, seed_one, SeedSkin};

fn seed(name: &str, price: Option<u64>) -> SeedSkin {
    SeedSkin {
        name: name.to_string(),
        rarity: Some("Covert".to_string()),
        price,
        collection: None,
        weapon_type: Some("Rifle".to_string()),
        image_base64: None,
    }
}

#[test]
fn a_seed_without_price_costs_nothing() {
    let mut store = Store::new();
    assert_eq!(seed_one(&mut store, &seed("AK-47 | Redline", None)), Ok(()));
    assert_eq!(seed_one(&mut store, &seed("AWP | Asiimov", Some(9_000))), Ok(()));
    assert_eq!(get_skin_by_name(&store, "AK-47 | Redline").unwrap().price, 0);
    let awp = get_skin_by_name(&store, "AWP | Asiimov").unwrap();
    assert_eq!((awp.id, awp.price), (2, 9_000));
    assert_eq!(awp.rarity.as_deref(), Some("Covert"));
    assert_eq!(awp.weapon_type.as_deref(), Some("Rifle"));
}

#[test]
fn seeding_a_name_again_is_ignored() {
    let mut store = Store::new();
    let list = vec![seed("b", Some(1)), seed("a", Some(2)), seed("b", Some(3)), seed("c", None), seed("a", None)];
    seed_all(&mut store, &list);
    let rows: Vec<(i64, String, u64)> = list_skins(&store).into_iter().map(|s| (s.id, s.name, s.price)).collect();
    assert_eq!(rows, vec![(2, "a".to_string(), 2), (1, "b".to_string(), 1), (3, "c".to_string(), 0)]);
    seed_all(&mut store, &list);
    assert_eq!(list_skins(&store).len(), 3);
    seed_all(&mut store, &vec![]);
    assert_eq!(list_skins(&store).len(), 3);
}

#[test]
fn a_seed_that_cannot_be_added_is_passed_over() {
    let top = Skin {
        id: i64::MAX,
        name: "m".to_string(),
        rarity: None,
        price: 0,
        collection: None,
        weapon_type: None,
        image_base64: None,
    };
    let mut store = Store::from_rows(vec![], vec![top], vec![]).unwrap();
    seed_all(&mut store, &vec![seed("a", None), seed("m", Some(4)), seed("z", None)]);
    assert_eq!(list_skins(&store).len(), 1);
    assert!(seed_one(&mut store, &seed("a", None)).is_err());
    assert!(seed_one(&mut store, &seed("m", None)).is_ok());
}

#[test]
fn the_payload_of_a_data_uri_follows_its_first_comma() {
    assert_eq!(image_payload("data:image/png;base64,iVBORw0KGgo="), "iVBORw0KGgo=");
    assert_eq!(image_payload("data:,a,b"), "a,b");
    assert_eq!(image_payload("data:image/png;base64,"), "");
    assert_eq!(image_payload("data:"), "data:");
    assert_eq!(image_payload("data:image/png;base64"), "data:image/png;base64");
}

#[test]
fn any_other_text_is_its_own_payload() {
    assert_eq!(image_payload("iVBORw0KGgo="), "iVBORw0KGgo=");
    assert_eq!(image_payload("a,b"), "a,b");
    assert_eq!(image_payload("Data:x,y"), "Data:x,y");
    assert_eq!(image_payload(" data:x,y"), " data:x,y");
    assert_eq!(image_payload(""), "");
}
