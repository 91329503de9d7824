//! Opening a case: a draw from the whole catalog, weighted by rarity.

use vstd::prelude::*;
use crate::chance;
use crate::db::{add_inventory_item, change_user_balance, get_user_by_id, list_skins, next_inventory_id, Store};
use crate::model::{catalog_view, lemma_rows_are_found, lemma_with_balance_effect};
use crate::model::{lemma_add_record_resolves, lemma_with_balance_resolves, lemma_with_record_effect, StoreView};
use crate::error::EngineError;
use crate::models::{borrowed_text_view, text_view, InventoryItem, Skin, SkinView};
use crate::text::{lowercase_of, trimmed_of};
use crate::text;

verus! {

/// The weight of a rarity label that is in lowercase and trimmed; an absent
/// or unlisted label weighs 10.
pub open spec fn label_weight(label: Option<Seq<char>>) -> u64 {
    match label {
        Some(l) => if l == "common"@ {
            70
        } else if l == "uncommon"@ {
            20
        } else if l == "rare"@ {
            8
        } else if l == "epic"@ || l == "mythic"@ || l == "legendary"@ {
            2
        } else {
            10
        },
        None => 10,
    }
}

/// The weight with which a catalog item of this rarity label is drawn: that
/// of the label in lowercase and trimmed.
pub open spec fn rarity_weight_of(rarity: Option<Seq<char>>) -> u64 {
    label_weight(
        match rarity {
            Some(l) => Some(trimmed_of(lowercase_of(l))),
            None => None,
        },
    )
}

/// The sum of the first `upto` weights.
pub open spec fn weight_sum(weights: Seq<u64>, upto: int) -> int
    decreases upto,
{
    if upto <= 0 {
        0
    } else {
        weight_sum(weights, upto - 1) + weights[upto - 1]
    }
}

/// The sum of all weights.
pub open spec fn total_weight(weights: Seq<u64>) -> int {
    weight_sum(weights, weights.len() as int)
}

/// A draw selects this index: the weights before it sum to at most the draw
/// and, with its own weight, to more. A draw that is not below the total
/// selects the last index.
pub open spec fn selects(weights: Seq<u64>, draw: int, index: int) -> bool {
    &&& 0 <= index < weights.len()
    &&& if draw < total_weight(weights) {
        weight_sum(weights, index) <= draw < weight_sum(weights, index + 1)
    } else {
        index == weights.len() - 1
    }
}

/// The index that a draw selects.
pub open spec fn selected_index(weights: Seq<u64>, draw: int) -> int {
    choose|index: int| selects(weights, draw, index)
}

/// The weights of catalog items, in their order.
pub open spec fn weights_of(skins: Seq<SkinView>) -> Seq<u64> {
    skins.map_values(|k: SkinView| rarity_weight_of(k.rarity))
}

/// The weights of the catalog's items, in catalog order.
pub open spec fn case_weights(s: StoreView) -> Seq<u64> {
    weights_of(s.skins)
}

/// Whether a case can be opened. It cannot, in this order, where the account
/// is missing; where its balance is below the cost; where the catalog is
/// empty; where no record id is left.
pub open spec fn open_case_check(s: StoreView, user_id: i64, case_cost: u64) -> Result<(), EngineError> {
    if !s.has_user(user_id) {
        Err(EngineError::AccountNotFound)
    } else if s.user(user_id).balance < case_cost {
        Err(EngineError::InsufficientFunds)
    } else if s.skins.len() == 0 {
        Err(EngineError::EmptyCatalog)
    } else if s.next_record_id() > i64::MAX {
        Err(EngineError::IdSpaceExhausted)
    } else {
        Ok(())
    }
}

/// What opening a case with a given draw returns: the id of the new record
/// and the catalog item that the draw selects.
pub open spec fn open_case_outcome(s: StoreView, user_id: i64, case_cost: u64, draw: int) -> Result<
    (i64, SkinView),
    EngineError,
> {
    match open_case_check(s, user_id, case_cost) {
        Err(e) => Err(e),
        Ok(_) => Ok((s.next_record_id() as i64, s.skins[selected_index(case_weights(s), draw)])),
    }
}

/// The store after opening a case with a given draw: the cost is taken from
/// the account's balance and the account has one more record, of the selected
/// item. A case that cannot be opened changes nothing.
pub open spec fn open_case_state(s: StoreView, user_id: i64, case_cost: u64, draw: int) -> StoreView {
    match open_case_check(s, user_id, case_cost) {
        Err(_) => s,
        Ok(_) => s.with_balance(user_id, (s.user(user_id).balance - case_cost) as u64).with_record(
            InventoryItem {
                id: s.next_record_id() as i64,
                user_id,
                skin_id: s.skins[selected_index(case_weights(s), draw)].id,
            },
        ),
    }
}

/// The view of a result that holds a record id and a catalog item.
pub open spec fn opened_view(r: Result<(i64, Skin), EngineError>) -> Result<(i64, SkinView), EngineError> {
    match r {
        Ok((id, skin)) => Ok((id, skin@)),
        Err(e) => Err(e),
    }
}

/// The sums of weights grow with the number of weights summed.
pub proof fn lemma_weight_sum_grows(weights: Seq<u64>, i: int, j: int)
    requires
        0 <= i <= j,
    ensures
        weight_sum(weights, i) <= weight_sum(weights, j),
    decreases j - i,
{
    if i < j {
        lemma_weight_sum_grows(weights, i, j - 1);
    }
}

/// A draw selects at most one index.
pub proof fn lemma_selection_is_unique(weights: Seq<u64>, draw: int, i: int, j: int)
    requires
        selects(weights, draw, i),
        selects(weights, draw, j),
    ensures
        i == j,
{
    if i < j {
        lemma_weight_sum_grows(weights, i + 1, j);
    } else if j < i {
        lemma_weight_sum_grows(weights, j + 1, i);
    }
}

/// The weight of a rarity label that is already in lowercase and trimmed.
pub fn weight_for(label: Option<&str>) -> (w: u64)
    ensures
        w == label_weight(borrowed_text_view(label)),
{
    match label {
        Some(l) => {
            if text::same(l, "common") {
                70
            } else if text::same(l, "uncommon") {
                20
            } else if text::same(l, "rare") {
                8
            } else if text::same(l, "epic") || text::same(l, "mythic") || text::same(l, "legendary") {
                2
            } else {
                10
            }
        },
        None => 10,
    }
}

/// The weight with which a catalog item of this rarity label is drawn.
pub fn rarity_weight(r: &Option<String>) -> (w: u64)
    ensures
        w == rarity_weight_of(text_view(*r)),
        w <= 70,
{
    match r {
        Some(label) => {
            let lower = text::to_lowercase(label.as_str());
            let trimmed = text::trim(lower.as_str());
            weight_for(Some(trimmed))
        },
        None => weight_for(None),
    }
}

/// Walks the weights and returns the index that the draw selects; with no
/// weights there is nothing to select.
pub fn select_index(weights: &Vec<u64>, draw: u128) -> (r: Result<usize, EngineError>)
    ensures
        match r {
            Ok(index) => selects(weights@, draw as int, index as int) && index == selected_index(
                weights@,
                draw as int,
            ),
            Err(e) => weights.len() == 0 && e == EngineError::EmptyCandidateSet,
        },
{
    if weights.len() == 0 {
        return Err(EngineError::EmptyCandidateSet);
    }
    let mut remaining = draw;
    let mut i: usize = 0;
    while i < weights.len()
        invariant
            i <= weights.len(),
            weights.len() > 0,
            remaining == draw - weight_sum(weights@, i as int),
        decreases weights.len() - i,
    {
        if remaining < weights[i] as u128 {
            proof {
                lemma_weight_sum_grows(weights@, i + 1, weights.len() as int);
                assert(selects(weights@, draw as int, i as int));
                lemma_selection_is_unique(weights@, draw as int, i as int, selected_index(weights@, draw as int));
            }
            return Ok(i);
        }
        remaining = remaining - weights[i] as u128;
        i += 1;
    }
    let last = weights.len() - 1;
    proof {
        assert(selects(weights@, draw as int, last as int));
        lemma_selection_is_unique(weights@, draw as int, last as int, selected_index(weights@, draw as int));
    }
    Ok(last)
}

/// The weights of the listed catalog items and their sum.
fn weigh(skins: &Vec<Skin>) -> (r: (Vec<u64>, u128))
    ensures
        r.0@ == weights_of(catalog_view(skins@)),
        r.1 == total_weight(r.0@),
        skins.len() > 0 ==> r.1 > 0,
{
    let mut weights: Vec<u64> = Vec::new();
    let mut total: u128 = 0;
    let mut i: usize = 0;
    while i < skins.len()
        invariant
            i <= skins.len(),
            weights.len() == i,
            forall|k: int| 0 <= k < i ==> weights@[k] == rarity_weight_of(skins@[k]@.rarity),
            total == weight_sum(weights@, i as int),
            2 * i <= total <= 70 * i,
        decreases skins.len() - i,
    {
        let w = rarity_weight(&skins[i].rarity);
        proof {
            lemma_weight_sum_keeps(weights@, weights@.push(w), i as int);
        }
        weights.push(w);
        total = total + w as u128;
        i += 1;
    }
    proof {
        assert(weights@ =~= weights_of(catalog_view(skins@)));
    }
    (weights, total)
}

/// Two lists of weights that agree on their first `upto` weights have the
/// same sum there.
proof fn lemma_weight_sum_keeps(a: Seq<u64>, b: Seq<u64>, upto: int)
    requires
        0 <= upto <= a.len(),
        upto <= b.len(),
        forall|k: int| 0 <= k < upto ==> a[k] == b[k],
    ensures
        weight_sum(a, upto) == weight_sum(b, upto),
    decreases upto,
{
    if upto > 0 {
        lemma_weight_sum_keeps(a, b, upto - 1);
    }
}

/// The weighted selector: returns the item that the draw selects among the
/// items, each of which weighs what its rarity label says. With no items there
/// is nothing to select.
pub fn select(items: &Vec<Skin>, draw: u128) -> (r: Result<Skin, EngineError>)
    ensures
        match r {
            Ok(skin) => items.len() > 0 && skin@ == catalog_view(items@)[selected_index(
                weights_of(catalog_view(items@)),
                draw as int,
            )],
            Err(e) => items.len() == 0 && e == EngineError::EmptyCandidateSet,
        },
{
    let weighed = weigh(items);
    match select_index(&weighed.0, draw) {
        Ok(index) => Ok(items[index].clone()),
        Err(e) => Err(e),
    }
}

/// Opens a case with a given draw. All checks come before any change; then
/// the cost is taken from the balance, the draw selects an item of the
/// catalog, and the account gets a record of it. Returns the new record's id
/// and the item.
pub fn open_case_with_draw(store: &mut Store, user_id: i64, case_cost: u64, draw: u128) -> (r: Result<
    (i64, Skin),
    EngineError,
>)
    requires
        old(store).wf(),
    ensures
        final(store).wf(),
        opened_view(r) == open_case_outcome(old(store)@, user_id, case_cost, draw as int),
        final(store)@ == open_case_state(old(store)@, user_id, case_cost, draw as int),
{
    let user = match get_user_by_id(store, user_id) {
        Some(user) => user,
        None => {
            return Err(EngineError::AccountNotFound);
        },
    };
    if user.balance < case_cost {
        return Err(EngineError::InsufficientFunds);
    }
    let skins = list_skins(store);
    if skins.len() == 0 {
        return Err(EngineError::EmptyCatalog);
    }
    if next_inventory_id(store).is_none() {
        return Err(EngineError::IdSpaceExhausted);
    }
    if let Err(e) = change_user_balance(store, user_id, -(case_cost as i128)) {
        return Err(e);
    }
    let selected = match select(&skins, draw) {
        Ok(selected) => selected,
        Err(e) => {
            return Err(e);
        },
    };
    proof {
        let before = old(store)@;
        lemma_selection_exists(case_weights(before), draw as int);
        lemma_rows_are_found(before);
        lemma_with_balance_effect(before, user_id, (before.user(user_id).balance - case_cost) as u64);
        assert(store@.has_skin(selected.id) == before.has_skin(selected.id));
        assert(store@.next_record_id() == before.next_record_id());
    }
    match add_inventory_item(store, user_id, selected.id) {
        Ok(record) => Ok((record.id, selected)),
        Err(e) => Err(e),
    }
}

/// Opens a case: charges the cost, draws a catalog item at random, weighted
/// by rarity, and gives the account a record of it. Returns the new record's
/// id and the item. A case that cannot be opened leaves the store as it was.
pub fn open_case(store: &mut Store, user_id: i64, case_cost: u64) -> (r: Result<(i64, Skin), EngineError>)
    requires
        old(store).wf(),
    ensures
        final(store).wf(),
        exists|draw: int|
            0 <= draw && (old(store)@.skins.len() > 0 ==> draw < total_weight(case_weights(old(store)@)))
                && opened_view(r) == #[trigger] open_case_outcome(old(store)@, user_id, case_cost, draw)
                && final(store)@ == open_case_state(old(store)@, user_id, case_cost, draw),
{
    let skins = list_skins(store);
    let draw = if skins.len() == 0 {
        0
    } else {
        let weighed = weigh(&skins);
        chance::below(weighed.1)
    };
    let r = open_case_with_draw(store, user_id, case_cost, draw);
    proof {
        assert(opened_view(r) == open_case_outcome(old(store)@, user_id, case_cost, draw as int));
    }
    r
}

/// A draw that is below the sum of the first `upto` weights falls on one of
/// them.
pub proof fn lemma_draw_falls_on_a_weight(weights: Seq<u64>, draw: int, upto: int)
    requires
        0 <= upto,
        0 <= draw < weight_sum(weights, upto),
    ensures
        exists|index: int|
            0 <= index < upto && weight_sum(weights, index) <= draw < #[trigger] weight_sum(weights, index + 1),
    decreases upto,
{
    if draw < weight_sum(weights, upto - 1) {
        lemma_draw_falls_on_a_weight(weights, draw, upto - 1);
    } else {
        let index = upto - 1;
        assert(weight_sum(weights, index) <= draw < weight_sum(weights, index + 1));
    }
}

/// With at least one weight, every draw that is not negative selects an
/// index: the one that `selected_index` names.
pub proof fn lemma_selection_exists(weights: Seq<u64>, draw: int)
    requires
        weights.len() > 0,
        0 <= draw,
    ensures
        selects(weights, draw, selected_index(weights, draw)),
{
    if draw < total_weight(weights) {
        lemma_draw_falls_on_a_weight(weights, draw, weights.len() as int);
        let index = choose|index: int|
            0 <= index < weights.len() && weight_sum(weights, index) <= draw < #[trigger] weight_sum(
                weights,
                index + 1,
            );
        assert(selects(weights, draw, index));
    } else {
        assert(selects(weights, draw, weights.len() - 1));
    }
}

/// Opening a case leaves a well-formed store. The account's balance has gone
/// down by the cost and is not negative; every other account is as it was;
/// the account has exactly one more record, of an item of the catalog, and
/// every older record is as it was.
pub proof fn lemma_opened_case_effect(s: StoreView, user_id: i64, case_cost: u64, draw: int)
    requires
        s.wf(),
        0 <= draw,
        open_case_check(s, user_id, case_cost) is Ok,
    ensures
        open_case_state(s, user_id, case_cost, draw).wf(),
        s.has_user(user_id) && open_case_state(s, user_id, case_cost, draw).has_user(user_id),
        open_case_state(s, user_id, case_cost, draw).user(user_id).balance == s.user(user_id).balance - case_cost,
        0 <= s.user(user_id).balance - case_cost,
        forall|id: i64|
            s.has_user(id) && id != user_id ==> #[trigger] open_case_state(s, user_id, case_cost, draw).user(id)
                == s.user(id),
        0 <= selected_index(case_weights(s), draw) < s.skins.len(),
        open_case_state(s, user_id, case_cost, draw).inventory == s.inventory.push(
            InventoryItem {
                id: s.next_record_id() as i64,
                user_id,
                skin_id: s.skins[selected_index(case_weights(s), draw)].id,
            },
        ),
        !s.has_record(s.next_record_id() as i64),
        open_case_state(s, user_id, case_cost, draw).skins == s.skins,
{
    lemma_selection_exists(case_weights(s), draw);
    let balance = (s.user(user_id).balance - case_cost) as u64;
    let debited = s.with_balance(user_id, balance);
    let row = InventoryItem {
        id: s.next_record_id() as i64,
        user_id,
        skin_id: s.skins[selected_index(case_weights(s), draw)].id,
    };
    lemma_with_balance_effect(s, user_id, balance);
    lemma_with_record_effect(debited, row);
    lemma_with_record_effect(s, row);
    let t = open_case_state(s, user_id, case_cost, draw);
    assert(t.users == debited.users);
    assert(debited.has_user(user_id));
    assert(t.has_user(user_id) == debited.has_user(user_id));
    assert(t.user(user_id) == debited.user(user_id));
    assert forall|id: i64| s.has_user(id) && id != user_id implies #[trigger] t.user(id) == s.user(id) by {
        assert(t.user(id) == debited.user(id));
        assert(debited.user(id) == s.user(id));
    }
}

/// A case that cannot be opened changes neither a balance nor a record.
pub proof fn lemma_refused_case_changes_nothing(s: StoreView, user_id: i64, case_cost: u64, draw: int)
    requires
        open_case_check(s, user_id, case_cost) is Err,
    ensures
        open_case_state(s, user_id, case_cost, draw) == s,
        open_case_outcome(s, user_id, case_cost, draw) is Err,
{
}

/// Below the total, an item is selected by exactly the draws from the sum of
/// the weights before it up to, but not including, that sum and its own
/// weight: by as many draws as its weight says. An item without weight is
/// selected by none of them.
pub proof fn lemma_each_weight_gets_its_draws(weights: Seq<u64>, index: int, draw: int)
    requires
        0 <= index < weights.len(),
        0 <= draw < total_weight(weights),
    ensures
        selects(weights, draw, index) <==> weight_sum(weights, index) <= draw < weight_sum(weights, index)
            + weights[index],
        weight_sum(weights, index) + weights[index] <= total_weight(weights),
{
    lemma_weight_sum_grows(weights, index + 1, weights.len() as int);
}

/// In a store whose records all refer to accounts and catalog items that it
/// holds, they still do after a case, whether it was opened or not.
pub proof fn lemma_case_keeps_references(s: StoreView, user_id: i64, case_cost: u64, draw: int)
    requires
        s.wf(),
        s.references_resolve(),
        0 <= draw,
    ensures
        open_case_state(s, user_id, case_cost, draw).references_resolve(),
{
    if open_case_check(s, user_id, case_cost) is Ok {
        lemma_selection_exists(case_weights(s), draw);
        lemma_rows_are_found(s);
        let balance = (s.user(user_id).balance - case_cost) as u64;
        let debited = s.with_balance(user_id, balance);
        let skin_id = s.skins[selected_index(case_weights(s), draw)].id;
        lemma_with_balance_resolves(s, user_id, balance);
        assert(debited.has_user(user_id)) by {
            let k = choose|k: int| 0 <= k < s.users.len() && s.users[k].id == user_id;
            assert(debited.users[k].id == user_id);
        }
        assert(debited.has_skin(skin_id) == s.has_skin(skin_id));
        assert(debited.next_record_id() == s.next_record_id());
        lemma_add_record_resolves(debited, user_id, skin_id);
    }
}

} // verus!
