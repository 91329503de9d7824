//! Buying a catalog item.

use vstd::prelude::*;
use crate::db::{add_inventory_item, change_user_balance, get_skin_by_id, get_user_by_id, next_inventory_id, Store};
use crate::model::{lemma_add_record_resolves, lemma_with_balance_effect, lemma_with_balance_resolves};
use crate::model::{lemma_with_record_effect, StoreView};
use crate::error::EngineError;
use crate::models::InventoryItem;

verus! {

/// Whether a purchase goes through. It is rejected, in this order, where the
/// account is missing; where the catalog item is missing; where the account's
/// balance is below the item's price in the catalog; where no record id is
/// left.
pub open spec fn buy_outcome(s: StoreView, user_id: i64, skin_id: i64) -> Result<(), EngineError> {
    if !s.has_user(user_id) {
        Err(EngineError::AccountNotFound)
    } else if !s.has_skin(skin_id) {
        Err(EngineError::ItemNotFound)
    } else if s.user(user_id).balance < s.skin(skin_id).price {
        Err(EngineError::InsufficientFunds)
    } else if s.next_record_id() > i64::MAX {
        Err(EngineError::IdSpaceExhausted)
    } else {
        Ok(())
    }
}

/// The store after a purchase: the item's price in the catalog is taken from
/// the account's balance and the account has one more record, of the item. A
/// rejected purchase changes nothing.
pub open spec fn buy_state(s: StoreView, user_id: i64, skin_id: i64) -> StoreView {
    if buy_outcome(s, user_id, skin_id) is Ok {
        s.with_balance(user_id, (s.user(user_id).balance - s.skin(skin_id).price) as u64).with_record(
            InventoryItem { id: s.next_record_id() as i64, user_id, skin_id },
        )
    } else {
        s
    }
}

/// Buys one unit of a catalog item for an account. What is charged is the
/// item's price in the catalog; the price that the caller expects to pay has
/// no part in it. All checks come before any change; then the price is taken
/// from the balance, and then the record is added.
pub fn attempt_buy(store: &mut Store, user_id: i64, skin_id: i64, _expected_price: u64) -> (r: Result<
    (),
    EngineError,
>)
    requires
        old(store).wf(),
    ensures
        final(store).wf(),
        r == buy_outcome(old(store)@, user_id, skin_id),
        final(store)@ == buy_state(old(store)@, user_id, skin_id),
{
    let user = match get_user_by_id(store, user_id) {
        Some(user) => user,
        None => {
            return Err(EngineError::AccountNotFound);
        },
    };
    let skin = match get_skin_by_id(store, skin_id) {
        Some(skin) => skin,
        None => {
            return Err(EngineError::ItemNotFound);
        },
    };
    if user.balance < skin.price {
        return Err(EngineError::InsufficientFunds);
    }
    if next_inventory_id(store).is_none() {
        return Err(EngineError::IdSpaceExhausted);
    }
    if let Err(e) = change_user_balance(store, user_id, -(skin.price as i128)) {
        return Err(e);
    }
    proof {
        let before = old(store)@;
        lemma_with_balance_effect(before, user_id, (before.user(user_id).balance - skin.price) as u64);
        assert(store@.has_skin(skin_id) == before.has_skin(skin_id));
        assert(store@.next_record_id() == before.next_record_id());
    }
    match add_inventory_item(store, user_id, skin_id) {
        Ok(_) => Ok(()),
        Err(e) => Err(e),
    }
}

/// A purchase that goes through leaves a well-formed store. The buyer's
/// balance has gone down by the item's price in the catalog and is not
/// negative; every other account is as it was; the buyer has exactly one more
/// record, of the catalog item, and every older record is as it was.
pub proof fn lemma_purchase_effect(s: StoreView, user_id: i64, skin_id: i64)
    requires
        s.wf(),
        buy_outcome(s, user_id, skin_id) is Ok,
    ensures
        buy_state(s, user_id, skin_id).wf(),
        s.has_user(user_id) && buy_state(s, user_id, skin_id).has_user(user_id),
        s.has_skin(skin_id),
        buy_state(s, user_id, skin_id).user(user_id).balance == s.user(user_id).balance - s.skin(skin_id).price,
        0 <= s.user(user_id).balance - s.skin(skin_id).price,
        forall|id: i64|
            s.has_user(id) && id != user_id ==> #[trigger] buy_state(s, user_id, skin_id).user(id) == s.user(id),
        buy_state(s, user_id, skin_id).inventory == s.inventory.push(
            InventoryItem { id: s.next_record_id() as i64, user_id, skin_id },
        ),
        !s.has_record(s.next_record_id() as i64),
        buy_state(s, user_id, skin_id).skins == s.skins,
{
    let balance = (s.user(user_id).balance - s.skin(skin_id).price) as u64;
    let debited = s.with_balance(user_id, balance);
    let row = InventoryItem { id: s.next_record_id() as i64, user_id, skin_id };
    lemma_with_balance_effect(s, user_id, balance);
    lemma_with_record_effect(debited, row);
    lemma_with_record_effect(s, row);
    let t = buy_state(s, user_id, skin_id);
    assert(t.users == debited.users);
    assert(debited.has_user(user_id));
    assert(t.has_user(user_id) == debited.has_user(user_id));
    assert(t.user(user_id) == debited.user(user_id));
    assert forall|id: i64| s.has_user(id) && id != user_id implies #[trigger] t.user(id) == s.user(id) by {
        assert(t.user(id) == debited.user(id));
        assert(debited.user(id) == s.user(id));
    }
}

/// A purchase that is rejected, for want of funds or otherwise, changes
/// neither a balance nor the number of records. It is rejected for want of
/// funds exactly where account and item are there and the balance is below
/// the item's price.
pub proof fn lemma_rejected_purchase_changes_nothing(s: StoreView, user_id: i64, skin_id: i64)
    ensures
        buy_outcome(s, user_id, skin_id) is Err ==> buy_state(s, user_id, skin_id) == s,
        buy_outcome(s, user_id, skin_id) == Err::<(), EngineError>(EngineError::InsufficientFunds) <==> s.has_user(
            user_id,
        ) && s.has_skin(skin_id) && s.user(user_id).balance < s.skin(skin_id).price,
{
}

/// In a store whose records all refer to accounts and catalog items that it
/// holds, they still do after a purchase, whether it went through or not.
pub proof fn lemma_purchase_keeps_references(s: StoreView, user_id: i64, skin_id: i64)
    requires
        s.references_resolve(),
    ensures
        buy_state(s, user_id, skin_id).references_resolve(),
{
    if buy_outcome(s, user_id, skin_id) is Ok {
        let balance = (s.user(user_id).balance - s.skin(skin_id).price) as u64;
        let debited = s.with_balance(user_id, balance);
        lemma_with_balance_resolves(s, user_id, balance);
        assert(debited.has_user(user_id)) by {
            let k = choose|k: int| 0 <= k < s.users.len() && s.users[k].id == user_id;
            assert(debited.users[k].id == user_id);
        }
        assert(debited.has_skin(skin_id) == s.has_skin(skin_id));
        assert(debited.next_record_id() == s.next_record_id());
        lemma_add_record_resolves(debited, user_id, skin_id);
    }
}

} // verus!
