//! Giving an account items by definition, and taking items from it.

use vstd::prelude::*;
use crate::db;
use crate::db::Store;
use crate::model::{add_skin_outcome, add_skin_state, lemma_add_skin_effect, owned_view, StoreView};
use crate::error::EngineError;
use crate::models::{borrow_text, text_view, InventoryItem, OwnedSkin, OwnedSkinView, SkinView};

verus! {

/// The definition of a catalog item that is to be owned. The price is in
/// minor units.
#[derive(Debug)]
pub struct SkinInfo {
    pub name: String,
    pub rarity: Option<String>,
    pub price: u64,
    pub collection: Option<String>,
    pub weapon_type: Option<String>,
    pub image_base64: Option<String>,
}

impl View for SkinInfo {
    type V = SkinView;

    /// The definition as a catalog item that has no id yet.
    open spec fn view(&self) -> SkinView {
        SkinView {
            id: 0,
            name: self.name@,
            rarity: text_view(self.rarity),
            price: self.price,
            collection: text_view(self.collection),
            weapon_type: text_view(self.weapon_type),
            image_base64: text_view(self.image_base64),
        }
    }
}

/// The view of a result that holds an owned item.
pub open spec fn owned_result_view(r: Result<OwnedSkin, EngineError>) -> Result<OwnedSkinView, EngineError> {
    match r {
        Ok(o) => Ok(o@),
        Err(e) => Err(e),
    }
}

/// What giving an account an item by definition returns: the new record with
/// the catalog item of the definition's name. It is rejected, in this order,
/// where the account is missing; where no record id is left; where the name
/// is new to the catalog and no catalog id is left.
pub open spec fn grant_outcome(s: StoreView, user_id: i64, definition: SkinView) -> Result<
    OwnedSkinView,
    EngineError,
> {
    if !s.has_user(user_id) {
        Err(EngineError::AccountNotFound)
    } else if s.next_record_id() > i64::MAX {
        Err(EngineError::IdSpaceExhausted)
    } else {
        match add_skin_outcome(s, definition) {
            Err(e) => Err(e),
            Ok(skin) => Ok(
                OwnedSkinView {
                    inventory: InventoryItem { id: s.next_record_id() as i64, user_id, skin_id: skin.id },
                    skin: Some(skin),
                },
            ),
        }
    }
}

/// The store after giving an account an item by definition: the catalog
/// holds the definition's name and the account has one more record. A
/// rejected gift changes nothing.
pub open spec fn grant_state(s: StoreView, user_id: i64, definition: SkinView) -> StoreView {
    match grant_outcome(s, user_id, definition) {
        Err(_) => s,
        Ok(owned) => add_skin_state(s, definition).with_record(owned.inventory),
    }
}

/// What taking one unit of a named catalog item from an account returns. It
/// is rejected where the catalog has no item of that name, and where the
/// account has no record of that item.
pub open spec fn take_outcome(s: StoreView, user_id: i64, skin_name: Seq<char>) -> Result<(), EngineError> {
    if !s.has_skin_named(skin_name) {
        Err(EngineError::ItemNotFound)
    } else if s.first_held(user_id, s.skin_named(skin_name).id) is None {
        Err(EngineError::RecordNotFound)
    } else {
        Ok(())
    }
}

/// The store after taking one unit of a named catalog item from an account:
/// the account's first record of that item is gone.
pub open spec fn take_state(s: StoreView, user_id: i64, skin_name: Seq<char>) -> StoreView {
    match take_outcome(s, user_id, skin_name) {
        Err(_) => s,
        Ok(_) => s.without_record(s.first_held(user_id, s.skin_named(skin_name).id)->Some_0.id),
    }
}

/// Gives an account one unit of the catalog item that a definition names.
/// Where the catalog does not hold the name yet, the definition is added to
/// it first.
pub fn add_skin(store: &mut Store, user_id: i64, skin: SkinInfo) -> (r: Result<OwnedSkin, EngineError>)
    requires
        old(store).wf(),
    ensures
        final(store).wf(),
        owned_result_view(r) == grant_outcome(old(store)@, user_id, skin@),
        final(store)@ == grant_state(old(store)@, user_id, skin@),
{
    if db::get_user_by_id(store, user_id).is_none() {
        return Err(EngineError::AccountNotFound);
    }
    if db::next_inventory_id(store).is_none() {
        return Err(EngineError::IdSpaceExhausted);
    }
    let catalog_skin = match db::add_skin(
        store,
        skin.name.as_str(),
        borrow_text(&skin.rarity),
        skin.price,
        borrow_text(&skin.collection),
        borrow_text(&skin.weapon_type),
        borrow_text(&skin.image_base64),
    ) {
        Ok(catalog_skin) => catalog_skin,
        Err(e) => {
            return Err(e);
        },
    };
    let ghost listed = store@;
    proof {
        let before = old(store)@;
        assert(listed.users == before.users);
        assert(listed.inventory == before.inventory);
        assert(listed.has_user(user_id) == before.has_user(user_id));
        lemma_add_skin_effect(before, skin@);
    }
    let inv = match db::add_inventory_item(store, user_id, catalog_skin.id) {
        Ok(inv) => inv,
        Err(e) => {
            return Err(e);
        },
    };
    Ok(OwnedSkin { inventory: inv, skin: Some(catalog_skin) })
}

/// Takes one unit of the catalog item with this name from an account: its
/// first record of that item.
pub fn remove_skin_by_name(store: &mut Store, user_id: i64, skin_name: &str) -> (r: Result<(), EngineError>)
    requires
        old(store).wf(),
    ensures
        final(store).wf(),
        r == take_outcome(old(store)@, user_id, skin_name@),
        final(store)@ == take_state(old(store)@, user_id, skin_name@),
{
    let skin = match db::get_skin_by_name(store, skin_name) {
        Some(skin) => skin,
        None => {
            return Err(EngineError::ItemNotFound);
        },
    };
    match db::find_owned_record(store, user_id, skin.id) {
        Some(existing) => {
            db::remove_inventory_item(store, existing.id);
            Ok(())
        },
        None => Err(EngineError::RecordNotFound),
    }
}

/// All ownership records of an account, each with its catalog item.
pub fn list_inventory(store: &Store, user_id: i64) -> (r: Vec<OwnedSkin>)
    requires
        store.wf(),
    ensures
        owned_view(r@) == store@.owned_by(user_id),
{
    db::get_inventory_for_user(store, user_id)
}

/// Removes the ownership record with this id and tells whether there was
/// one.
pub fn remove_item(store: &mut Store, item_id: i64) -> (removed: bool)
    requires
        old(store).wf(),
    ensures
        final(store).wf(),
        removed == old(store)@.has_record(item_id),
        final(store)@ == old(store)@.without_record(item_id),
{
    db::remove_inventory_item(store, item_id)
}

} // verus!
