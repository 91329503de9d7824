//! Selling an owned item back.

use vstd::prelude::*;
use crate::db::{change_user_balance, get_inventory_item, remove_inventory_item, Store};
use crate::model::{lemma_with_balance_effect, lemma_with_balance_resolves, lemma_without_record_effect};
use crate::model::{lemma_without_record_resolves, StoreView};
use crate::error::EngineError;

verus! {

/// What a sale returns: the account's new balance. It is rejected, in this
/// order, where the record is missing; where it belongs to another account;
/// where the account is missing; where the balance would grow too large.
pub open spec fn sell_outcome(s: StoreView, user_id: i64, inventory_id: i64, price: u64) -> Result<u64, EngineError> {
    if !s.has_record(inventory_id) {
        Err(EngineError::RecordNotFound)
    } else if s.record(inventory_id).user_id != user_id {
        Err(EngineError::NotOwned(inventory_id))
    } else if !s.has_user(user_id) {
        Err(EngineError::AccountNotFound)
    } else if s.user(user_id).balance + price > u64::MAX {
        Err(EngineError::BalanceOverflow)
    } else {
        Ok((s.user(user_id).balance + price) as u64)
    }
}

/// The store after a sale: the price is added to the account's balance and
/// the record is gone. A rejected sale changes nothing.
pub open spec fn sell_state(s: StoreView, user_id: i64, inventory_id: i64, price: u64) -> StoreView {
    match sell_outcome(s, user_id, inventory_id, price) {
        Ok(balance) => s.with_balance(user_id, balance).without_record(inventory_id),
        Err(_) => s,
    }
}

/// Sells one record of an account at the given price and returns the new
/// balance.
pub fn sell_item(store: &mut Store, user_id: i64, inventory_id: i64, price: u64) -> (r: Result<u64, EngineError>)
    requires
        old(store).wf(),
    ensures
        final(store).wf(),
        r == sell_outcome(old(store)@, user_id, inventory_id, price),
        final(store)@ == sell_state(old(store)@, user_id, inventory_id, price),
{
    let record = match get_inventory_item(store, inventory_id) {
        Some(record) => record,
        None => {
            return Err(EngineError::RecordNotFound);
        },
    };
    if record.user_id != user_id {
        return Err(EngineError::NotOwned(inventory_id));
    }
    let balance = match change_user_balance(store, user_id, price as i128) {
        Ok(balance) => balance,
        Err(e) => {
            return Err(e);
        },
    };
    let ghost credited = store@;
    remove_inventory_item(store, inventory_id);
    proof {
        let before = old(store)@;
        assert(credited.inventory == before.inventory);
        assert(credited.has_record(inventory_id) == before.has_record(inventory_id));
        assert(credited.record_index(inventory_id) == before.record_index(inventory_id));
    }
    Ok(balance)
}

/// Nobody sells a record of another account: the sale is rejected and
/// nothing changes, whatever the price.
pub proof fn lemma_sale_of_foreign_record_is_rejected(s: StoreView, user_id: i64, inventory_id: i64, price: u64)
    requires
        s.has_record(inventory_id),
        s.record(inventory_id).user_id != user_id,
    ensures
        sell_outcome(s, user_id, inventory_id, price) == Err::<u64, EngineError>(EngineError::NotOwned(inventory_id)),
        sell_state(s, user_id, inventory_id, price) == s,
{
}

/// A sale that goes through leaves a well-formed store. The seller's balance
/// has gone up by the price; every other account is as it was; the record is
/// gone and every other record is as it was.
pub proof fn lemma_sale_effect(s: StoreView, user_id: i64, inventory_id: i64, price: u64)
    requires
        s.wf(),
        sell_outcome(s, user_id, inventory_id, price) is Ok,
    ensures
        sell_state(s, user_id, inventory_id, price).wf(),
        s.owns(user_id, inventory_id),
        s.has_user(user_id) && sell_state(s, user_id, inventory_id, price).has_user(user_id),
        sell_state(s, user_id, inventory_id, price).user(user_id).balance == s.user(user_id).balance + price,
        forall|id: i64|
            s.has_user(id) && id != user_id ==> #[trigger] sell_state(s, user_id, inventory_id, price).user(id)
                == s.user(id),
        sell_state(s, user_id, inventory_id, price).inventory.len() == s.inventory.len() - 1,
        forall|id: i64| #[trigger]
            sell_state(s, user_id, inventory_id, price).has_record(id) <==> (s.has_record(id) && id
                != inventory_id),
        forall|id: i64|
            s.has_record(id) && id != inventory_id ==> #[trigger] sell_state(s, user_id, inventory_id, price).record(
                id,
            ) == s.record(id),
{
    let balance = (s.user(user_id).balance + price) as u64;
    let credited = s.with_balance(user_id, balance);
    lemma_with_balance_effect(s, user_id, balance);
    lemma_without_record_effect(credited, inventory_id);
    lemma_without_record_effect(s, inventory_id);
    let t = sell_state(s, user_id, inventory_id, price);
    assert(t.users == credited.users);
    assert(credited.has_record(inventory_id) == s.has_record(inventory_id));
    assert(credited.has_user(user_id));
    assert(t.has_user(user_id) == credited.has_user(user_id));
    assert(t.user(user_id) == credited.user(user_id));
    assert forall|id: i64| s.has_user(id) && id != user_id implies #[trigger] t.user(id) == s.user(id) by {
        assert(t.user(id) == credited.user(id));
        assert(credited.user(id) == s.user(id));
    }
    assert forall|id: i64| s.has_record(id) && id != inventory_id implies #[trigger] t.record(id) == s.record(id) by {
        assert(credited.has_record(id) == s.has_record(id));
        assert(credited.record(id) == s.record(id));
    }
    assert forall|id: i64| #[trigger] t.has_record(id) <==> (s.has_record(id) && id != inventory_id) by {
        assert(credited.has_record(id) == s.has_record(id));
    }
}

/// In a store whose records all refer to accounts and catalog items that it
/// holds, they still do after a sale, whether it went through or not.
pub proof fn lemma_sale_keeps_references(s: StoreView, user_id: i64, inventory_id: i64, price: u64)
    requires
        s.references_resolve(),
    ensures
        sell_state(s, user_id, inventory_id, price).references_resolve(),
{
    if let Ok(balance) = sell_outcome(s, user_id, inventory_id, price) {
        lemma_with_balance_resolves(s, user_id, balance);
        lemma_without_record_resolves(s.with_balance(user_id, balance), inventory_id);
    }
}

} // verus!
