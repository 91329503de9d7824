//! The trade-up: ten records of one tier for one record of the next tier.
//!
//! A trade-up is validated, then a catalog item is selected, then the store
//! is changed in one unit. Validating and selecting only read the store.

use vstd::prelude::*;
use std::collections::HashMap;
use crate::chance;
use crate::db::{exchange_records, get_inventory_for_user, list_skins, Store};
use crate::model::{consume, exchange_outcome, exchange_state, is_listed, lemma_consume_effect};
use crate::model::{lemma_owned_listing, lemma_rows_are_found};
use crate::model::{lemma_with_record_effect, StoreView};
use crate::error::EngineError;
use crate::models::{InventoryItem, Skin, SkinView};
use crate::rarity::{rarity_tier, tier_of_rarity, Tier};
use crate::text::{has_substring, lowercase_of};
use crate::text;

verus! {

/// The number of records that a trade-up consumes.
pub const TRADEUP_INPUTS: usize = 10;

/// The tier of the catalog item behind a record that the account offers, or
/// why the record cannot be offered: it is not a record of the account, or
/// the catalog does not hold its item.
pub open spec fn input_tier(s: StoreView, user_id: i64, record_id: i64) -> Result<Tier, EngineError> {
    if !s.owns(user_id, record_id) {
        Err(EngineError::NotOwned(record_id))
    } else if !s.has_skin(s.record(record_id).skin_id) {
        Err(EngineError::DanglingItem(record_id))
    } else {
        Ok(tier_of_rarity(s.skin(s.record(record_id).skin_id).rarity))
    }
}

/// The tiers of the offered records, in their order, or the reason for which
/// the first record that cannot be offered is refused.
pub open spec fn input_tiers(s: StoreView, user_id: i64, ids: Seq<i64>) -> Result<Seq<Tier>, EngineError>
    decreases ids.len(),
{
    if ids.len() == 0 {
        Ok(Seq::empty())
    } else {
        match input_tiers(s, user_id, ids.drop_last()) {
            Err(e) => Err(e),
            Ok(tiers) => match input_tier(s, user_id, ids.last()) {
                Err(e) => Err(e),
                Ok(t) => Ok(tiers.push(t)),
            },
        }
    }
}

/// Not all of the tiers are the same.
pub open spec fn mixed(tiers: Seq<Tier>) -> bool {
    exists|i: int| 0 <= i < tiers.len() && #[trigger] tiers[i] != tiers.first()
}

/// The tier that the trade-up yields, or why it is rejected. The checks come
/// in this order: the count of records, each record in turn, that the tiers
/// agree, that the tier has a successor.
pub open spec fn target_tier(s: StoreView, user_id: i64, ids: Seq<i64>) -> Result<Tier, EngineError> {
    if ids.len() != TRADEUP_INPUTS {
        Err(EngineError::InvalidInputCount)
    } else {
        match input_tiers(s, user_id, ids) {
            Err(e) => Err(e),
            Ok(tiers) => if mixed(tiers) {
                Err(EngineError::MixedTiers)
            } else {
                tiers.first().spec_successor()
            },
        }
    }
}

/// A lowercase name or weapon type marks a blade: the weapon type or the name
/// mentions a knife, or the name carries the star.
pub open spec fn marks_blade(name: Seq<char>, weapon_type: Seq<char>) -> bool {
    has_substring(weapon_type, "knife"@) || has_substring(name, "\u{2605}"@) || has_substring(name, "knife"@)
}

/// The catalog item is a blade, which no trade-up yields: its name or its
/// weapon type, in lowercase, marks it as one.
pub open spec fn is_blade(skin: SkinView) -> bool {
    marks_blade(
        lowercase_of(skin.name),
        match skin.weapon_type {
            Some(w) => lowercase_of(w),
            None => Seq::empty(),
        },
    )
}

/// The catalog item can come out of a trade-up to this tier.
pub open spec fn eligible(skin: SkinView, target: Tier) -> bool {
    tier_of_rarity(skin.rarity) == target && !is_blade(skin)
}

/// The ids of the eligible items among the first `upto` catalog items, in
/// catalog order.
pub open spec fn candidates_among(skins: Seq<SkinView>, target: Tier, upto: int) -> Seq<i64>
    decreases upto,
{
    if upto <= 0 {
        Seq::empty()
    } else if eligible(skins[upto - 1], target) {
        candidates_among(skins, target, upto - 1).push(skins[upto - 1].id)
    } else {
        candidates_among(skins, target, upto - 1)
    }
}

/// The ids of all catalog items that can come out of a trade-up to this tier.
pub open spec fn candidates(s: StoreView, target: Tier) -> Seq<i64> {
    candidates_among(s.skins, target, s.skins.len() as int)
}

/// The candidates of a trade-up, or why it is rejected: for one of the
/// reasons of `target_tier`, or because the next tier has no candidate.
pub open spec fn plan(s: StoreView, user_id: i64, ids: Seq<i64>) -> Result<Seq<i64>, EngineError> {
    match target_tier(s, user_id, ids) {
        Err(e) => Err(e),
        Ok(target) => if candidates(s, target).len() == 0 {
            Err(EngineError::NoCandidates)
        } else {
            Ok(candidates(s, target))
        },
    }
}

/// The view of a result that holds a list of ids.
pub open spec fn ids_result_view(r: Result<Vec<i64>, EngineError>) -> Result<Seq<i64>, EngineError> {
    match r {
        Ok(v) => Ok(v@),
        Err(e) => Err(e),
    }
}

/// Tells from a lowercase name and a lowercase weapon type whether they mark
/// a blade.
pub fn blade_marked(name: &str, weapon_type: &str) -> (b: bool)
    ensures
        b == marks_blade(name@, weapon_type@),
{
    text::contains(weapon_type, "knife") || text::contains(name, "\u{2605}") || text::contains(name, "knife")
}

/// Tells whether a catalog item is a blade.
pub fn excluded_from_output(skin: &Skin) -> (b: bool)
    ensures
        b == is_blade(skin@),
{
    let name = text::to_lowercase(skin.name.as_str());
    match &skin.weapon_type {
        Some(w) => {
            let weapon_type = text::to_lowercase(w.as_str());
            blade_marked(name.as_str(), weapon_type.as_str())
        },
        None => {
            proof {
                reveal_strlit("");
                assert(""@ =~= Seq::<char>::empty());
            }
            blade_marked(name.as_str(), "")
        },
    }
}

/// Validates a trade-up and returns the tier that it yields. The account's
/// records are listed once and found by their ids through a hash map.
pub fn tradeup_target(store: &Store, user_id: i64, ids: &Vec<i64>) -> (r: Result<Tier, EngineError>)
    requires
        store.wf(),
    ensures
        r == target_tier(store@, user_id, ids@),
{
    if ids.len() != TRADEUP_INPUTS {
        return Err(EngineError::InvalidInputCount);
    }
    let owned = get_inventory_for_user(store, user_id);
    let ghost listing = store@.owned_by(user_id);
    proof {
        lemma_owned_listing(store@, user_id, store@.inventory.len() as int);
        assert(forall|k: int| 0 <= k < owned.len() ==> (#[trigger] owned[k])@ == listing[k]);
    }
    let mut by_id: HashMap<i64, usize> = HashMap::new();
    let mut n: usize = 0;
    while n < owned.len()
        invariant
            n <= owned.len(),
            owned.len() == listing.len(),
            forall|k: int| 0 <= k < owned.len() ==> (#[trigger] owned[k])@ == listing[k],
            forall|id: i64|
                by_id@.contains_key(id) ==> (#[trigger] by_id@[id]) < n && listing[by_id@[id] as int].inventory.id
                    == id,
            forall|k: int| 0 <= k < n ==> by_id@.contains_key((#[trigger] listing[k]).inventory.id),
        decreases owned.len() - n,
    {
        by_id.insert(owned[n].inventory.id, n);
        n += 1;
    }
    let mut tiers: Vec<Tier> = Vec::new();
    let mut i: usize = 0;
    while i < ids.len()
        invariant
            store.wf(),
            ids.len() == TRADEUP_INPUTS,
            i <= ids.len(),
            listing == store@.owned_by(user_id),
            owned.len() == listing.len(),
            forall|k: int| 0 <= k < owned.len() ==> (#[trigger] owned[k])@ == listing[k],
            forall|id: i64|
                by_id@.contains_key(id) ==> (#[trigger] by_id@[id]) < owned.len() && listing[by_id@[id] as int]
                    .inventory.id == id,
            forall|k: int| 0 <= k < owned.len() ==> by_id@.contains_key((#[trigger] listing[k]).inventory.id),
            input_tiers(store@, user_id, ids@.subrange(0, i as int)) == Ok::<Seq<Tier>, EngineError>(tiers@),
            tiers.len() == i,
        decreases ids.len() - i,
    {
        let id = ids[i];
        proof {
            let upto = ids@.subrange(0, i + 1);
            assert(upto.drop_last() =~= ids@.subrange(0, i as int));
            assert(upto.last() == id);
            assert(ids@.subrange(0, ids.len() as int) =~= ids@);
            lemma_owned_listing(store@, user_id, store@.inventory.len() as int);
            lemma_rows_are_found(store@);
        }
        let at = match by_id.get(&id) {
            Some(at) => *at,
            None => {
                proof {
                    if store@.owns(user_id, id) {
                        let row = store@.record_index(id);
                        assert(store@.inventory[row].user_id == user_id);
                        assert(is_listed(listing, id));
                        let k = choose|k: int| 0 <= k < listing.len() && (#[trigger] listing[k]).inventory.id == id;
                        assert(by_id@.contains_key(listing[k].inventory.id));
                    }
                    lemma_rejected_stays_rejected(store@, user_id, ids@, i as int);
                }
                return Err(EngineError::NotOwned(id));
            },
        };
        let entry = &owned[at];
        proof {
            assert(entry@ == listing[at as int]);
            assert(listing[at as int].inventory.id == id);
        }
        match &entry.skin {
            Some(skin) => {
                tiers.push(rarity_tier(&skin.rarity));
            },
            None => {
                proof {
                    lemma_rejected_stays_rejected(store@, user_id, ids@, i as int);
                }
                return Err(EngineError::DanglingItem(id));
            },
        }
        i += 1;
    }
    proof {
        assert(ids@.subrange(0, ids.len() as int) =~= ids@);
    }
    let first = tiers[0];
    let mut j: usize = 1;
    while j < tiers.len()
        invariant
            ids.len() == TRADEUP_INPUTS,
            input_tiers(store@, user_id, ids@) == Ok::<Seq<Tier>, EngineError>(tiers@),
            1 <= j <= tiers.len(),
            first == tiers@.first(),
            forall|k: int| 0 <= k < j ==> tiers@[k] == first,
        decreases tiers.len() - j,
    {
        if tiers[j] != first {
            return Err(EngineError::MixedTiers);
        }
        j += 1;
    }
    first.successor()
}

/// Where the record at position `at` is refused and all before it pass, the
/// whole list is refused for that record's reason.
proof fn lemma_rejected_stays_rejected(s: StoreView, user_id: i64, ids: Seq<i64>, at: int)
    requires
        0 <= at < ids.len(),
        input_tiers(s, user_id, ids.subrange(0, at)) is Ok,
        input_tier(s, user_id, ids[at]) is Err,
    ensures
        input_tiers(s, user_id, ids) == Err::<Seq<Tier>, EngineError>(input_tier(s, user_id, ids[at])->Err_0),
    decreases ids.len(),
{
    if at == ids.len() - 1 {
        assert(ids.drop_last() =~= ids.subrange(0, at));
    } else {
        assert(ids.drop_last().subrange(0, at) =~= ids.subrange(0, at));
        lemma_rejected_stays_rejected(s, user_id, ids.drop_last(), at);
    }
}

/// Lists the ids of the catalog items that can come out of a trade-up to a
/// tier, in catalog order.
pub fn tradeup_candidates(store: &Store, target: Tier) -> (r: Vec<i64>)
    ensures
        r@ == candidates(store@, target),
{
    let skins = list_skins(store);
    let mut out: Vec<i64> = Vec::new();
    let mut i: usize = 0;
    while i < skins.len()
        invariant
            i <= skins.len(),
            skins.len() == store@.skins.len(),
            forall|k: int| 0 <= k < skins.len() ==> skins@[k]@ == store@.skins[k],
            out@ == candidates_among(store@.skins, target, i as int),
        decreases skins.len() - i,
    {
        let skin = &skins[i];
        if rarity_tier(&skin.rarity) == target && !excluded_from_output(skin) {
            out.push(skin.id);
        }
        i += 1;
    }
    out
}

/// Validates a trade-up and lists the catalog items that it can yield.
pub fn plan_tradeup(store: &Store, user_id: i64, ids: &Vec<i64>) -> (r: Result<Vec<i64>, EngineError>)
    requires
        store.wf(),
    ensures
        ids_result_view(r) == plan(store@, user_id, ids@),
{
    let target = match tradeup_target(store, user_id, ids) {
        Ok(target) => target,
        Err(e) => {
            return Err(e);
        },
    };
    let found = tradeup_candidates(store, target);
    if found.len() == 0 {
        Err(EngineError::NoCandidates)
    } else {
        Ok(found)
    }
}

/// Trades ten records of an account, all of one tier, for one record of a
/// catalog item of the next tier. The item is drawn at random from the
/// candidates. A trade-up that is rejected, or that cannot consume one of
/// its records, leaves the store as it was.
pub fn compose_tradeup(store: &mut Store, user_id: i64, input_item_ids: Vec<i64>) -> (r: Result<i64, EngineError>)
    requires
        old(store).wf(),
    ensures
        final(store).wf(),
        match plan(old(store)@, user_id, input_item_ids@) {
            Err(e) => r == Err::<i64, EngineError>(e) && final(store)@ == old(store)@,
            Ok(found) => exists|k: int|
                0 <= k < found.len() && r == exchange_outcome(
                    old(store)@,
                    user_id,
                    input_item_ids@,
                    #[trigger] found[k],
                ) && final(store)@ == exchange_state(old(store)@, user_id, input_item_ids@, found[k]),
        },
{
    let found = match plan_tradeup(store, user_id, &input_item_ids) {
        Ok(found) => found,
        Err(e) => {
            return Err(e);
        },
    };
    let selected = match chance::pick_one(&found) {
        Some(selected) => selected,
        None => {
            return Err(EngineError::NoCandidates);
        },
    };
    let ghost k = choose|k: int| 0 <= k < found@.len() && found@[k] == selected;
    let r = exchange_records(store, user_id, &input_item_ids, selected);
    proof {
        let planned = plan(old(store)@, user_id, input_item_ids@);
        assert(planned == Ok::<Seq<i64>, EngineError>(found@));
        let listed = planned->Ok_0;
        assert(listed[k] == selected);
        assert(r == exchange_outcome(old(store)@, user_id, input_item_ids@, listed[k]));
        assert(final(store)@ == exchange_state(old(store)@, user_id, input_item_ids@, listed[k]));
    }
    r
}

/// The tiers of a list of records are those of its records one by one; a
/// list is refused for the reason of the first record that is refused.
pub proof fn lemma_input_tiers_elementwise(s: StoreView, user_id: i64, ids: Seq<i64>)
    ensures
        match input_tiers(s, user_id, ids) {
            Ok(tiers) => tiers.len() == ids.len() && forall|i: int|
                0 <= i < ids.len() ==> input_tier(s, user_id, #[trigger] ids[i]) == Ok::<Tier, EngineError>(tiers[i]),
            Err(e) => exists|i: int|
                0 <= i < ids.len() && input_tier(s, user_id, #[trigger] ids[i]) == Err::<Tier, EngineError>(e)
                    && forall|j: int| 0 <= j < i ==> input_tier(s, user_id, #[trigger] ids[j]) is Ok,
        },
    decreases ids.len(),
{
    if ids.len() > 0 {
        let front = ids.drop_last();
        lemma_input_tiers_elementwise(s, user_id, front);
        match input_tiers(s, user_id, front) {
            Ok(tiers) => {
                assert forall|i: int| 0 <= i < front.len() implies input_tier(s, user_id, #[trigger] ids[i])
                    == Ok::<Tier, EngineError>(tiers[i]) by {
                    assert(ids[i] == front[i]);
                }
                if input_tier(s, user_id, ids.last()) is Err {
                    let at = ids.len() - 1;
                    assert(input_tier(s, user_id, ids[at]) is Err);
                    assert forall|j: int| 0 <= j < at implies input_tier(s, user_id, #[trigger] ids[j]) is Ok by {
                        assert(ids[j] == front[j]);
                    }
                }
            },
            Err(e) => {
                let at = choose|i: int|
                    0 <= i < front.len() && input_tier(s, user_id, #[trigger] front[i]) == Err::<Tier, EngineError>(e)
                        && forall|j: int| 0 <= j < i ==> input_tier(s, user_id, #[trigger] front[j]) is Ok;
                assert(ids[at] == front[at]);
                assert forall|j: int| 0 <= j < at implies input_tier(s, user_id, #[trigger] ids[j]) is Ok by {
                    assert(ids[j] == front[j]);
                }
            },
        }
    }
}

/// A trade-up of a number of records other than ten is rejected for its
/// count, whatever the records are.
pub proof fn lemma_wrong_count_is_rejected(s: StoreView, user_id: i64, ids: Seq<i64>)
    requires
        ids.len() != TRADEUP_INPUTS,
    ensures
        plan(s, user_id, ids) == Err::<Seq<i64>, EngineError>(EngineError::InvalidInputCount),
{
}

/// A trade-up of ten records that can all be offered, two of which differ in
/// tier, is rejected for mixing tiers.
pub proof fn lemma_mixed_tiers_are_rejected(s: StoreView, user_id: i64, ids: Seq<i64>, a: int, b: int)
    requires
        ids.len() == TRADEUP_INPUTS,
        forall|i: int| 0 <= i < ids.len() ==> input_tier(s, user_id, #[trigger] ids[i]) is Ok,
        0 <= a < ids.len(),
        0 <= b < ids.len(),
        input_tier(s, user_id, ids[a]) != input_tier(s, user_id, ids[b]),
    ensures
        plan(s, user_id, ids) == Err::<Seq<i64>, EngineError>(EngineError::MixedTiers),
{
    lemma_input_tiers_elementwise(s, user_id, ids);
    match input_tiers(s, user_id, ids) {
        Ok(tiers) => {
            assert(input_tier(s, user_id, ids[a]) == Ok::<Tier, EngineError>(tiers[a]));
            assert(input_tier(s, user_id, ids[b]) == Ok::<Tier, EngineError>(tiers[b]));
            if tiers[a] != tiers.first() {
                assert(mixed(tiers));
            } else {
                assert(tiers[b] != tiers.first());
                assert(mixed(tiers));
            }
        },
        Err(e) => {
            let at = choose|i: int|
                0 <= i < ids.len() && input_tier(s, user_id, #[trigger] ids[i]) == Err::<Tier, EngineError>(e);
            assert(input_tier(s, user_id, ids[at]) is Ok);
        },
    }
}

/// A trade-up of ten records of one tier is rejected where that tier has no
/// successor: at the top tier because there is no higher one, at the unknown
/// tier because it is not in the progression. What the catalog holds makes no
/// difference.
pub proof fn lemma_tier_without_successor_is_rejected(s: StoreView, user_id: i64, ids: Seq<i64>, tier: Tier)
    requires
        ids.len() == TRADEUP_INPUTS,
        forall|i: int|
            0 <= i < ids.len() ==> input_tier(s, user_id, #[trigger] ids[i]) == Ok::<Tier, EngineError>(tier),
        tier.spec_successor() is Err,
    ensures
        tier == Tier::RareSpecial ==> plan(s, user_id, ids) == Err::<Seq<i64>, EngineError>(EngineError::NoHigherTier),
        tier == Tier::Unknown ==> plan(s, user_id, ids) == Err::<Seq<i64>, EngineError>(
            EngineError::UnsupportedTier,
        ),
{
    lemma_input_tiers_elementwise(s, user_id, ids);
    match input_tiers(s, user_id, ids) {
        Ok(tiers) => {
            assert forall|i: int| 0 <= i < tiers.len() implies #[trigger] tiers[i] == tier by {
                assert(input_tier(s, user_id, ids[i]) == Ok::<Tier, EngineError>(tiers[i]));
            }
            assert(tiers.first() == tier);
            assert(!mixed(tiers));
        },
        Err(e) => {
            let at = choose|i: int|
                0 <= i < ids.len() && input_tier(s, user_id, #[trigger] ids[i]) == Err::<Tier, EngineError>(e);
            assert(input_tier(s, user_id, ids[at]) is Ok);
        },
    }
}

/// A trade-up that passes validation offers ten records of the account. Their
/// catalog items are all of one tier, and the trade-up yields that tier's
/// successor.
pub proof fn lemma_validated_inputs_share_a_tier(s: StoreView, user_id: i64, ids: Seq<i64>)
    requires
        target_tier(s, user_id, ids) is Ok,
    ensures
        ids.len() == TRADEUP_INPUTS,
        forall|i: int| 0 <= i < ids.len() ==> s.owns(user_id, #[trigger] ids[i]),
        forall|i: int|
            0 <= i < ids.len() ==> input_tier(s, user_id, #[trigger] ids[i]) == input_tier(s, user_id, ids[0]),
        input_tier(s, user_id, ids[0]) is Ok,
        input_tier(s, user_id, ids[0])->Ok_0.spec_successor() == target_tier(s, user_id, ids),
{
    lemma_input_tiers_elementwise(s, user_id, ids);
    let tiers = input_tiers(s, user_id, ids)->Ok_0;
    assert(!mixed(tiers));
    assert forall|i: int| 0 <= i < ids.len() implies input_tier(s, user_id, #[trigger] ids[i]) == input_tier(
        s,
        user_id,
        ids[0],
    ) && s.owns(user_id, ids[i]) by {
        assert(tiers[i] == tiers.first());
        assert(input_tier(s, user_id, ids[i]) == Ok::<Tier, EngineError>(tiers[i]));
        assert(input_tier(s, user_id, ids[0]) == Ok::<Tier, EngineError>(tiers[0]));
    }
}

/// An exchange that fails, because the new record cannot be added or because
/// one of the records cannot be consumed, leaves nothing behind: neither the
/// new record nor the removal of any record.
pub proof fn lemma_failed_exchange_changes_nothing(s: StoreView, user_id: i64, ids: Seq<i64>, skin_id: i64)
    requires
        exchange_outcome(s, user_id, ids, skin_id) is Err,
    ensures
        exchange_state(s, user_id, ids, skin_id) == s,
{
}

/// `id` is the id of an eligible item among the first `upto` catalog items.
pub open spec fn is_eligible_id(skins: Seq<SkinView>, target: Tier, upto: int, id: i64) -> bool {
    exists|i: int| 0 <= i < upto && (#[trigger] skins[i]).id == id && eligible(skins[i], target)
}

/// Every candidate is the id of an eligible item among the catalog items
/// looked at.
pub proof fn lemma_candidates_are_eligible(skins: Seq<SkinView>, target: Tier, upto: int)
    requires
        0 <= upto <= skins.len(),
    ensures
        forall|k: int|
            0 <= k < candidates_among(skins, target, upto).len() ==> is_eligible_id(
                skins,
                target,
                upto,
                #[trigger] candidates_among(skins, target, upto)[k],
            ),
    decreases upto,
{
    if upto > 0 {
        lemma_candidates_are_eligible(skins, target, upto - 1);
        let before = candidates_among(skins, target, upto - 1);
        let now = candidates_among(skins, target, upto);
        assert forall|k: int| 0 <= k < now.len() implies is_eligible_id(skins, target, upto, #[trigger] now[k]) by {
            if k < before.len() {
                assert(is_eligible_id(skins, target, upto - 1, before[k]));
                let i = choose|i: int|
                    0 <= i < upto - 1 && (#[trigger] skins[i]).id == before[k] && eligible(skins[i], target);
                assert(0 <= i < upto && skins[i].id == now[k] && eligible(skins[i], target));
            } else {
                let i = upto - 1;
                assert(0 <= i < upto && skins[i].id == now[k] && eligible(skins[i], target));
            }
        }
    }
}

/// A trade-up that is planned, of ten different records, goes through
/// whichever candidate is selected, unless the account is not in the account
/// table or no id is left for the new record; then nothing changes. Where it
/// goes through, it leaves a well-formed store with the same accounts and
/// catalog. The account has one new record, of the selected item, which is an
/// eligible catalog item of the next tier; the ten records are gone; every
/// other record is as it was; the table has nine records fewer.
pub proof fn lemma_tradeup_effect(s: StoreView, user_id: i64, ids: Seq<i64>, k: int)
    requires
        s.wf(),
        ids.no_duplicates(),
        plan(s, user_id, ids) is Ok,
        0 <= k < plan(s, user_id, ids)->Ok_0.len(),
    ensures
        exchange_outcome(s, user_id, ids, plan(s, user_id, ids)->Ok_0[k]) == (if !s.has_user(user_id) {
            Err::<i64, EngineError>(EngineError::AccountNotFound)
        } else if s.next_record_id() > i64::MAX {
            Err::<i64, EngineError>(EngineError::IdSpaceExhausted)
        } else {
            Ok::<i64, EngineError>(s.next_record_id() as i64)
        }),
        exchange_outcome(s, user_id, ids, plan(s, user_id, ids)->Ok_0[k]) is Err ==> exchange_state(
            s,
            user_id,
            ids,
            plan(s, user_id, ids)->Ok_0[k],
        ) == s,
        s.has_skin(plan(s, user_id, ids)->Ok_0[k]),
        target_tier(s, user_id, ids) is Ok,
        eligible(s.skin(plan(s, user_id, ids)->Ok_0[k]), target_tier(s, user_id, ids)->Ok_0),
        forall|i: int| 0 <= i < ids.len() ==> s.owns(user_id, #[trigger] ids[i]),
        exchange_outcome(s, user_id, ids, plan(s, user_id, ids)->Ok_0[k]) is Ok ==> {
            let t = exchange_state(s, user_id, ids, plan(s, user_id, ids)->Ok_0[k]);
            let new_id = s.next_record_id() as i64;
            &&& t.wf()
            &&& t.users == s.users
            &&& t.skins == s.skins
            &&& t.inventory.len() == s.inventory.len() - 9
            &&& !s.has_record(new_id)
            &&& t.has_record(new_id)
            &&& t.record(new_id) == (InventoryItem { id: new_id, user_id, skin_id: plan(s, user_id, ids)->Ok_0[k] })
            &&& forall|i: int| 0 <= i < ids.len() ==> !t.has_record(#[trigger] ids[i])
            &&& forall|id: i64|
                s.has_record(id) && !ids.contains(id) ==> t.has_record(id) && #[trigger] t.record(id) == s.record(id)
        },
{
    let found = plan(s, user_id, ids)->Ok_0;
    let target = target_tier(s, user_id, ids)->Ok_0;
    let skin_id = found[k];
    lemma_candidates_are_eligible(s.skins, target, s.skins.len() as int);
    assert(is_eligible_id(s.skins, target, s.skins.len() as int, found[k]));
    let at = choose|i: int|
        0 <= i < s.skins.len() && (#[trigger] s.skins[i]).id == found[k] && eligible(s.skins[i], target);
    lemma_rows_are_found(s);
    assert(s.has_skin(skin_id) && s.skin(skin_id) == s.skins[at]);
    lemma_input_tiers_elementwise(s, user_id, ids);
    assert forall|i: int| 0 <= i < ids.len() implies s.owns(user_id, #[trigger] ids[i]) by {
        assert(input_tier(s, user_id, ids[i]) is Ok);
    }
    if s.has_user(user_id) && s.next_record_id() <= i64::MAX {
        let row = InventoryItem { id: s.next_record_id() as i64, user_id, skin_id };
        let started = s.with_record(row);
        lemma_with_record_effect(s, row);
        assert forall|i: int| 0 <= i < ids.len() implies started.owns(user_id, #[trigger] ids[i]) && ids[i]
            != row.id by {
            assert(s.owns(user_id, ids[i]));
            assert(started.has_record(ids[i]));
            assert(started.record(ids[i]) == s.record(ids[i]));
        }
        lemma_consume_effect(started, user_id, ids);
        let t = exchange_state(s, user_id, ids, skin_id);
        assert(t == consume(started, user_id, ids)->Ok_0);
        assert(!ids.contains(row.id)) by {
            if ids.contains(row.id) {
                let i = choose|i: int| 0 <= i < ids.len() && ids[i] == row.id;
                assert(ids[i] != row.id);
            }
        }
        assert(started.has_record(row.id));
        assert(t.has_record(row.id));
        assert(t.record(row.id) == started.record(row.id));
        assert forall|i: int| 0 <= i < ids.len() implies !t.has_record(#[trigger] ids[i]) by {
            assert(ids.contains(ids[i]));
        }
        assert forall|id: i64| s.has_record(id) && !ids.contains(id) implies t.has_record(id) && #[trigger] t.record(
            id,
        ) == s.record(id) by {
            assert(started.has_record(id));
            assert(started.record(id) == s.record(id));
            assert(t.has_record(id));
            assert(t.record(id) == started.record(id));
        }
    }
}

} // verus!
