//! The store: the account, catalog and ownership tables, with the operations
//! that read and change them one row at a time.
//!
//! Accounts and ownership records are kept in ascending order of their ids,
//! the catalog in ascending order of names. A new row gets the id that follows
//! the largest id of its table, or 1 in an empty table.

use vstd::prelude::*;
use crate::error::EngineError;
use crate::model::{
    accounts_view, add_record_outcome, add_record_state, add_skin_outcome, add_skin_state, authenticate_outcome,
    catalog_view, change_balance_outcome, change_balance_state, consume, create_user_outcome,
    create_user_state, definition_view, exchange_outcome, exchange_state, owned_view, rows_view, skin_result_view,
    skin_view, user_result_view, user_view,
};
use crate::model::{
    lemma_add_skin_effect, lemma_name_slot_is_unique, lemma_rows_are_found, lemma_without_record_wf, StoreView,
    STARTING_BALANCE,
};
use crate::models::{own_text, InventoryItem, OwnedSkin, OwnedSkinView, Skin, SkinView, User};
use crate::text::{lemma_precedes_connected, lemma_precedes_transitive, precedes};
use crate::text;

verus! {

/// The store. Its tables are private: a store is made empty, or from rows
/// that are checked, and changes only through the functions of this crate.
pub struct Store {
    users: Vec<User>,
    skins: Vec<Skin>,
    inventory: Vec<InventoryItem>,
}

impl View for Store {
    type V = StoreView;

    closed spec fn view(&self) -> StoreView {
        StoreView {
            users: self.users@.map_values(|u: User| u@),
            skins: self.skins@.map_values(|s: Skin| s@),
            inventory: self.inventory@,
        }
    }
}

impl Store {
    /// The store's invariant: that of its view.
    pub open spec fn wf(&self) -> bool {
        self@.wf()
    }

    /// A store without any row.
    pub fn new() -> (store: Store)
        ensures
            store.wf(),
            store@ == StoreView::empty(),
    {
        let store = Store { users: Vec::new(), skins: Vec::new(), inventory: Vec::new() };
        assert(store@.users =~= Seq::empty());
        assert(store@.skins =~= Seq::empty());
        store
    }

    /// Makes a store of the given rows, if they are in order and no id,
    /// handle or catalog name occurs twice: accounts and records in ascending
    /// order of their ids, catalog items in ascending order of their names.
    pub fn from_rows(users: Vec<User>, skins: Vec<Skin>, inventory: Vec<InventoryItem>) -> (r: Option<Store>)
        ensures
            match r {
                Some(store) => store.wf() && store@ == rows_view(users@, skins@, inventory@),
                None => !rows_view(users@, skins@, inventory@).wf(),
            },
    {
        let ghost rows = rows_view(users@, skins@, inventory@);
        if !accounts_ascend(&users) {
            proof {
                let (i, j) = choose|i: int, j: int| 0 <= i < j < users.len() && !(users[i].id < users[j].id);
                assert(rows.users[i].id == users[i].id && rows.users[j].id == users[j].id);
            }
            return None;
        }
        if !handles_differ(&users) {
            proof {
                let (i, j) = choose|i: int, j: int|
                    0 <= i < j < users.len() && !(users[i].username@ != users[j].username@);
                assert(rows.users[i].username == users[i].username@ && rows.users[j].username == users[j].username@);
            }
            return None;
        }
        if !names_ascend(&skins) {
            proof {
                let (i, j) = choose|i: int, j: int|
                    0 <= i < j < skins.len() && !precedes(skins[i].name@, skins[j].name@);
                assert(rows.skins[i].name == skins[i].name@ && rows.skins[j].name == skins[j].name@);
            }
            return None;
        }
        if !skin_ids_differ(&skins) {
            proof {
                let (i, j) = choose|i: int, j: int| 0 <= i < j < skins.len() && !(skins[i].id != skins[j].id);
                assert(rows.skins[i].id == skins[i].id && rows.skins[j].id == skins[j].id);
            }
            return None;
        }
        if !records_ascend(&inventory) {
            proof {
                let (i, j) = choose|i: int, j: int|
                    0 <= i < j < inventory.len() && !(inventory[i].id < inventory[j].id);
                assert(!(rows.inventory[i].id < rows.inventory[j].id));
            }
            return None;
        }
        proof {
            assert(forall|i: int| 0 <= i < users.len() ==> (#[trigger] rows.users[i]) == users[i]@);
            assert(forall|i: int| 0 <= i < skins.len() ==> (#[trigger] rows.skins[i]) == skins[i]@);
            assert(rows.wf());
        }
        Some(Store { users, skins, inventory })
    }

    /// Where the account with this id stands in its table.
    fn user_position(&self, id: i64) -> (r: Option<usize>)
        requires
            self.wf(),
        ensures
            match r {
                Some(i) => i < self.users.len() && self@.users[i as int].id == id && self@.has_user(id)
                    && self@.user(id) == self@.users[i as int],
                None => !self@.has_user(id),
            },
    {
        let mut i: usize = 0;
        while i < self.users.len()
            invariant
                self.wf(),
                i <= self.users.len(),
                forall|j: int| 0 <= j < i ==> self@.users[j].id != id,
            decreases self.users.len() - i,
        {
            if self.users[i].id == id {
                proof {
                    lemma_rows_are_found(self@);
                }
                return Some(i);
            }
            i += 1;
        }
        None
    }

    /// Where the account with this handle stands in its table.
    fn username_position(&self, name: &str) -> (r: Option<usize>)
        requires
            self.wf(),
        ensures
            match r {
                Some(i) => i < self.users.len() && self@.users[i as int].username == name@
                    && self@.has_username(name@) && self@.user_named(name@) == self@.users[i as int],
                None => !self@.has_username(name@),
            },
    {
        let mut i: usize = 0;
        while i < self.users.len()
            invariant
                self.wf(),
                i <= self.users.len(),
                forall|j: int| 0 <= j < i ==> self@.users[j].username != name@,
            decreases self.users.len() - i,
        {
            if text::same(self.users[i].username.as_str(), name) {
                proof {
                    lemma_rows_are_found(self@);
                    assert(self@.users[i as int].username == name@);
                }
                return Some(i);
            }
            i += 1;
        }
        None
    }

    /// Where the catalog item with this id stands in the catalog.
    fn skin_position(&self, id: i64) -> (r: Option<usize>)
        requires
            self.wf(),
        ensures
            match r {
                Some(i) => i < self.skins.len() && self@.skins[i as int].id == id && self@.has_skin(id)
                    && self@.skin(id) == self@.skins[i as int],
                None => !self@.has_skin(id),
            },
    {
        let mut i: usize = 0;
        while i < self.skins.len()
            invariant
                self.wf(),
                i <= self.skins.len(),
                forall|j: int| 0 <= j < i ==> self@.skins[j].id != id,
            decreases self.skins.len() - i,
        {
            if self.skins[i].id == id {
                proof {
                    lemma_rows_are_found(self@);
                }
                return Some(i);
            }
            i += 1;
        }
        None
    }

    /// Where the catalog item with this name stands in the catalog.
    fn skin_name_position(&self, name: &str) -> (r: Option<usize>)
        requires
            self.wf(),
        ensures
            match r {
                Some(i) => i < self.skins.len() && self@.skins[i as int].name == name@
                    && self@.has_skin_named(name@) && self@.skin_named(name@) == self@.skins[i as int],
                None => !self@.has_skin_named(name@),
            },
    {
        let mut i: usize = 0;
        while i < self.skins.len()
            invariant
                self.wf(),
                i <= self.skins.len(),
                forall|j: int| 0 <= j < i ==> self@.skins[j].name != name@,
            decreases self.skins.len() - i,
        {
            if text::same(self.skins[i].name.as_str(), name) {
                proof {
                    lemma_rows_are_found(self@);
                    assert(self@.skins[i as int].name == name@);
                }
                return Some(i);
            }
            i += 1;
        }
        None
    }

    /// The id for the next catalog item, if one is left.
    fn fresh_skin_id(&self) -> (r: Option<i64>)
        ensures
            match r {
                Some(id) => id == self@.next_skin_id(),
                None => self@.next_skin_id() > i64::MAX,
            },
            forall|j: int| 0 <= j < self.skins.len() ==> self@.skins[j].id < self@.next_skin_id(),
    {
        if self.skins.len() == 0 {
            return Some(1);
        }
        let mut largest = self.skins[0].id;
        let ghost mut held_at: int = 0;
        let mut i: usize = 1;
        while i < self.skins.len()
            invariant
                1 <= i <= self.skins.len(),
                0 <= held_at < i,
                self@.skins[held_at].id == largest,
                forall|k: int| 0 <= k < i ==> self@.skins[k].id <= largest,
            decreases self.skins.len() - i,
        {
            if self.skins[i].id > largest {
                largest = self.skins[i].id;
                proof {
                    held_at = i as int;
                }
            }
            i += 1;
        }
        proof {
            assert(self@.is_largest_skin_id(largest as int));
            let chosen = choose|m: int| self@.is_largest_skin_id(m);
            assert(self@.is_largest_skin_id(chosen));
            assert(chosen == largest);
        }
        if largest == i64::MAX {
            None
        } else {
            Some(largest + 1)
        }
    }

    /// Where a new catalog item of this name belongs.
    fn name_slot(&self, name: &str) -> (at: usize)
        requires
            self.wf(),
            !self@.has_skin_named(name@),
        ensures
            self@.is_name_slot(name@, at as int),
    {
        let mut i: usize = 0;
        while i < self.skins.len() && text::comes_before(self.skins[i].name.as_str(), name)
            invariant
                i <= self.skins.len(),
                forall|j: int| 0 <= j < i ==> precedes(self@.skins[j].name, name@),
            decreases self.skins.len() - i,
        {
            i += 1;
        }
        proof {
            let s = self@;
            if i < self.skins.len() {
                assert(!precedes(s.skins[i as int].name, name@));
                assert(s.skins[i as int].name != name@);
                lemma_precedes_connected(s.skins[i as int].name, name@);
                assert forall|j: int| i <= j < s.skins.len() implies precedes(name@, #[trigger] s.skins[j].name) by {
                    if i < j {
                        lemma_precedes_transitive(name@, s.skins[i as int].name, s.skins[j].name);
                    }
                }
            }
        }
        i
    }
}

/// Tells whether the accounts are in strictly ascending order of their ids.
fn accounts_ascend(users: &Vec<User>) -> (b: bool)
    ensures
        b == (forall|i: int, j: int| 0 <= i < j < users.len() ==> users[i].id < users[j].id),
{
    let mut i: usize = 1;
    while i < users.len()
        invariant
            1 <= i,
            forall|a: int, b: int| 0 <= a < b < i && b < users.len() ==> users[a].id < users[b].id,
        decreases users.len() - i,
    {
        if users[i - 1].id >= users[i].id {
            return false;
        }
        assert forall|a: int, b: int| 0 <= a < b < i + 1 && b < users.len() implies users[a].id < users[b].id by {
            if b == i && a < i - 1 {
                assert(users[a].id < users[i - 1].id);
            }
        }
        i += 1;
    }
    true
}

/// Tells whether no two accounts have the same handle.
fn handles_differ(users: &Vec<User>) -> (b: bool)
    ensures
        b == (forall|i: int, j: int| 0 <= i < j < users.len() ==> users[i].username@ != users[j].username@),
{
    let mut j: usize = 0;
    while j < users.len()
        invariant
            forall|a: int, b: int| 0 <= a < b < j && b < users.len() ==> users[a].username@ != users[b].username@,
        decreases users.len() - j,
    {
        let mut i: usize = 0;
        while i < j
            invariant
                i <= j < users.len(),
                forall|a: int| 0 <= a < i ==> users[a].username@ != users[j as int].username@,
            decreases j - i,
        {
            if text::same(users[i].username.as_str(), users[j].username.as_str()) {
                return false;
            }
            i += 1;
        }
        j += 1;
    }
    true
}

/// Tells whether the catalog items are in strictly ascending order of their
/// names.
fn names_ascend(skins: &Vec<Skin>) -> (b: bool)
    ensures
        b == (forall|i: int, j: int| 0 <= i < j < skins.len() ==> precedes(skins[i].name@, skins[j].name@)),
{
    let mut i: usize = 1;
    while i < skins.len()
        invariant
            1 <= i,
            forall|a: int, b: int| 0 <= a < b < i && b < skins.len() ==> precedes(skins[a].name@, skins[b].name@),
        decreases skins.len() - i,
    {
        if !text::comes_before(skins[i - 1].name.as_str(), skins[i].name.as_str()) {
            return false;
        }
        assert forall|a: int, b: int| 0 <= a < b < i + 1 && b < skins.len() implies precedes(
            skins[a].name@,
            skins[b].name@,
        ) by {
            if b == i && a < i - 1 {
                lemma_precedes_transitive(skins[a].name@, skins[i - 1].name@, skins[i as int].name@);
            }
        }
        i += 1;
    }
    true
}

/// Tells whether no two catalog items have the same id.
fn skin_ids_differ(skins: &Vec<Skin>) -> (b: bool)
    ensures
        b == (forall|i: int, j: int| 0 <= i < j < skins.len() ==> skins[i].id != skins[j].id),
{
    let mut j: usize = 0;
    while j < skins.len()
        invariant
            forall|a: int, b: int| 0 <= a < b < j && b < skins.len() ==> skins[a].id != skins[b].id,
        decreases skins.len() - j,
    {
        let mut i: usize = 0;
        while i < j
            invariant
                i <= j < skins.len(),
                forall|a: int| 0 <= a < i ==> skins[a].id != skins[j as int].id,
            decreases j - i,
        {
            if skins[i].id == skins[j].id {
                return false;
            }
            i += 1;
        }
        j += 1;
    }
    true
}

/// Tells whether the records are in strictly ascending order of their ids.
fn records_ascend(rows: &Vec<InventoryItem>) -> (b: bool)
    ensures
        b == (forall|i: int, j: int| 0 <= i < j < rows.len() ==> rows[i].id < rows[j].id),
{
    let mut i: usize = 1;
    while i < rows.len()
        invariant
            1 <= i,
            forall|a: int, b: int| 0 <= a < b < i && b < rows.len() ==> rows[a].id < rows[b].id,
        decreases rows.len() - i,
    {
        if rows[i - 1].id >= rows[i].id {
            return false;
        }
        assert forall|a: int, b: int| 0 <= a < b < i + 1 && b < rows.len() implies rows[a].id < rows[b].id by {
            if b == i && a < i - 1 {
                assert(rows[a].id < rows[i - 1].id);
            }
        }
        i += 1;
    }
    true
}

/// Registers an account under a handle that no account has yet.
pub fn create_user(store: &mut Store, username: &str, password: &str) -> (r: Result<User, EngineError>)
    requires
        old(store).wf(),
    ensures
        final(store).wf(),
        user_result_view(r) == create_user_outcome(old(store)@, username@, password@),
        final(store)@ == create_user_state(old(store)@, username@, password@),
{
    if store.username_position(username).is_some() {
        return Err(EngineError::HandleTaken);
    }
    let n = store.users.len();
    let id: i64 = if n == 0 {
        1
    } else {
        let last = store.users[n - 1].id;
        if last == i64::MAX {
            return Err(EngineError::IdSpaceExhausted);
        }
        last + 1
    };
    let user = User { id, username: username.to_owned(), password: password.to_owned(), balance: STARTING_BALANCE };
    let copy = user.clone();
    store.users.push(user);
    proof {
        let before = old(store)@;
        let after = final(store)@;
        assert(after.users =~= before.users.push(copy@));
        assert(after.skins =~= before.skins);
        assert(after.inventory == before.inventory);
        assert forall|a: int, b: int| 0 <= a < b < after.users.len() implies after.users[a].id
            < after.users[b].id && after.users[a].username != after.users[b].username by {
            if b == n {
                assert(before.users[a].username != username@);
                if a < n - 1 {
                    assert(before.users[a].id < before.users[n - 1].id);
                }
            }
        }
    }
    Ok(copy)
}

/// Looks up the account with a handle and checks its secret.
pub fn authenticate(store: &Store, username: &str, password: &str) -> (r: Option<User>)
    requires
        store.wf(),
    ensures
        user_view(r) == authenticate_outcome(store@, username@, password@),
{
    match store.username_position(username) {
        Some(i) => {
            if text::same(store.users[i].password.as_str(), password) {
                Some(store.users[i].clone())
            } else {
                None
            }
        },
        None => None,
    }
}

/// Looks up the account with an id.
pub fn get_user_by_id(store: &Store, user_id: i64) -> (r: Option<User>)
    requires
        store.wf(),
    ensures
        user_view(r) == store@.find_user(user_id),
{
    match store.user_position(user_id) {
        Some(i) => Some(store.users[i].clone()),
        None => None,
    }
}

/// Adds `delta` to an account's balance and returns the new balance. A change
/// that would leave the balance negative or too large is refused.
pub fn change_user_balance(store: &mut Store, user_id: i64, delta: i128) -> (r: Result<u64, EngineError>)
    requires
        old(store).wf(),
    ensures
        final(store).wf(),
        r == change_balance_outcome(old(store)@, user_id, delta as int),
        final(store)@ == change_balance_state(old(store)@, user_id, delta as int),
{
    let i = match store.user_position(user_id) {
        Some(i) => i,
        None => {
            return Err(EngineError::AccountNotFound);
        },
    };
    let balance = store.users[i].balance;
    if delta < -(balance as i128) {
        return Err(EngineError::InsufficientFunds);
    }
    if delta > (u64::MAX - balance) as i128 {
        return Err(EngineError::BalanceOverflow);
    }
    let updated_balance = (balance as i128 + delta) as u64;
    let mut user = store.users[i].clone();
    user.balance = updated_balance;
    store.users.set(i, user);
    proof {
        let before = old(store)@;
        let after = before.with_balance(user_id, updated_balance);
        assert(final(store)@.users.len() == after.users.len());
        assert forall|j: int| 0 <= j < after.users.len() implies final(store)@.users[j] == after.users[j] by {
            if j != i {
                assert(before.users[j].id != user_id) by {
                    if j < i {
                        assert(before.users[j].id < before.users[i as int].id);
                    } else {
                        assert(before.users[i as int].id < before.users[j].id);
                    }
                }
            }
        }
        assert(final(store)@.users =~= after.users);
        assert(final(store)@.skins =~= before.skins);
        assert(final(store)@.inventory == before.inventory);
    }
    Ok(updated_balance)
}

/// All accounts, in ascending order of their ids.
pub fn list_users(store: &Store) -> (r: Vec<User>)
    ensures
        accounts_view(r@) == store@.users,
{
    let mut out: Vec<User> = Vec::new();
    let mut i: usize = 0;
    while i < store.users.len()
        invariant
            i <= store.users.len(),
            out.len() == i,
            forall|j: int| 0 <= j < i ==> out@[j]@ == store@.users[j],
        decreases store.users.len() - i,
    {
        out.push(store.users[i].clone());
        i += 1;
    }
    assert(accounts_view(out@) =~= store@.users);
    out
}

/// Adds a catalog item, unless its name is in the catalog already: then the
/// item that is there is returned and nothing changes.
pub fn add_skin(
    store: &mut Store,
    name: &str,
    rarity: Option<&str>,
    price: u64,
    collection: Option<&str>,
    weapon_type: Option<&str>,
    image_base64: Option<&str>,
) -> (r: Result<Skin, EngineError>)
    requires
        old(store).wf(),
    ensures
        final(store).wf(),
        skin_result_view(r) == add_skin_outcome(
            old(store)@,
            definition_view(name, rarity, price, collection, weapon_type, image_base64),
        ),
        final(store)@ == add_skin_state(
            old(store)@,
            definition_view(name, rarity, price, collection, weapon_type, image_base64),
        ),
{
    if let Some(i) = store.skin_name_position(name) {
        return Ok(store.skins[i].clone());
    }
    let id = match store.fresh_skin_id() {
        Some(id) => id,
        None => {
            return Err(EngineError::IdSpaceExhausted);
        },
    };
    let at = store.name_slot(name);
    let skin = Skin {
        id,
        name: name.to_owned(),
        rarity: own_text(rarity),
        price,
        collection: own_text(collection),
        weapon_type: own_text(weapon_type),
        image_base64: own_text(image_base64),
    };
    let copy = skin.clone();
    store.skins.insert(at, skin);
    proof {
        let before = old(store)@;
        let after = final(store)@;
        let chosen = choose|p: int| before.is_name_slot(name@, p);
        lemma_name_slot_is_unique(before, name@, at as int, chosen);
        assert(after.skins =~= before.skins.insert(at as int, copy@));
        assert(after.users =~= before.users);
        assert(after.inventory == before.inventory);
        lemma_add_skin_effect(before, SkinView { id: 0, ..copy@ });
    }
    Ok(copy)
}

/// Looks up the catalog item with a name.
pub fn get_skin_by_name(store: &Store, name: &str) -> (r: Option<Skin>)
    requires
        store.wf(),
    ensures
        skin_view(r) == store@.find_skin_named(name@),
{
    match store.skin_name_position(name) {
        Some(i) => Some(store.skins[i].clone()),
        None => None,
    }
}

/// Looks up the catalog item with an id.
pub fn get_skin_by_id(store: &Store, skin_id: i64) -> (r: Option<Skin>)
    requires
        store.wf(),
    ensures
        skin_view(r) == store@.find_skin(skin_id),
{
    match store.skin_position(skin_id) {
        Some(i) => Some(store.skins[i].clone()),
        None => None,
    }
}

/// The whole catalog, in ascending order of names.
pub fn list_skins(store: &Store) -> (r: Vec<Skin>)
    ensures
        catalog_view(r@) == store@.skins,
        store.wf() ==> forall|i: int, j: int| 0 <= i < j < r.len() ==> precedes(r[i].name@, r[j].name@),
{
    let mut out: Vec<Skin> = Vec::new();
    let mut i: usize = 0;
    while i < store.skins.len()
        invariant
            i <= store.skins.len(),
            out.len() == i,
            forall|j: int| 0 <= j < i ==> out@[j]@ == store@.skins[j],
        decreases store.skins.len() - i,
    {
        out.push(store.skins[i].clone());
        i += 1;
    }
    assert(catalog_view(out@) =~= store@.skins);
    assert(forall|i: int| 0 <= i < out.len() ==> (#[trigger] out[i]).name@ == store@.skins[i].name);
    out
}

/// Where the record with this id stands among the rows.
fn position_of(rows: &Vec<InventoryItem>, id: i64) -> (r: Option<usize>)
    ensures
        match r {
            Some(i) => i < rows.len() && rows[i as int].id == id,
            None => forall|j: int| 0 <= j < rows.len() ==> rows[j].id != id,
        },
{
    let mut i: usize = 0;
    while i < rows.len()
        invariant
            i <= rows.len(),
            forall|j: int| 0 <= j < i ==> rows[j].id != id,
        decreases rows.len() - i,
    {
        if rows[i].id == id {
            return Some(i);
        }
        i += 1;
    }
    None
}

/// The id that the next ownership record gets, if one is left.
pub fn next_inventory_id(store: &Store) -> (r: Option<i64>)
    ensures
        match r {
            Some(id) => id == store@.next_record_id(),
            None => store@.next_record_id() > i64::MAX,
        },
{
    let n = store.inventory.len();
    if n == 0 {
        Some(1)
    } else if store.inventory[n - 1].id == i64::MAX {
        None
    } else {
        Some(store.inventory[n - 1].id + 1)
    }
}

/// Adds an ownership record of a catalog item for an account; both must be in
/// the store.
pub fn add_inventory_item(store: &mut Store, user_id: i64, skin_id: i64) -> (r: Result<InventoryItem, EngineError>)
    requires
        old(store).wf(),
    ensures
        final(store).wf(),
        r == add_record_outcome(old(store)@, user_id, skin_id),
        final(store)@ == add_record_state(old(store)@, user_id, skin_id),
{
    if store.user_position(user_id).is_none() {
        return Err(EngineError::AccountNotFound);
    }
    if store.skin_position(skin_id).is_none() {
        return Err(EngineError::ItemNotFound);
    }
    let n = store.inventory.len();
    let id: i64 = if n == 0 {
        1
    } else {
        let last = store.inventory[n - 1].id;
        if last == i64::MAX {
            return Err(EngineError::IdSpaceExhausted);
        }
        last + 1
    };
    let row = InventoryItem { id, user_id, skin_id };
    store.inventory.push(row);
    proof {
        let before = old(store)@;
        let after = final(store)@;
        assert(after.users =~= before.users);
        assert(after.skins =~= before.skins);
        assert(after.inventory =~= before.inventory.push(row));
        assert forall|a: int, b: int| 0 <= a < b < after.inventory.len() implies after.inventory[a].id
            < after.inventory[b].id by {
            if b == n && a < n - 1 {
                assert(before.inventory[a].id < before.inventory[n - 1].id);
            }
        }
    }
    Ok(row)
}

/// Looks up the ownership record with an id.
pub fn get_inventory_item(store: &Store, item_id: i64) -> (r: Option<InventoryItem>)
    requires
        store.wf(),
    ensures
        r == store@.find_record(item_id),
{
    match position_of(&store.inventory, item_id) {
        Some(i) => {
            proof {
                lemma_rows_are_found(store@);
            }
            Some(store.inventory[i])
        },
        None => None,
    }
}

/// Looks up the account's first record of a catalog item.
pub fn find_owned_record(store: &Store, user_id: i64, skin_id: i64) -> (r: Option<InventoryItem>)
    ensures
        r == store@.first_held(user_id, skin_id),
{
    let mut i: usize = 0;
    while i < store.inventory.len()
        invariant
            i <= store.inventory.len(),
            forall|j: int|
                0 <= j < i ==> !(#[trigger] store@.inventory[j].user_id == user_id && store@.inventory[j].skin_id
                    == skin_id),
        decreases store.inventory.len() - i,
    {
        let row = store.inventory[i];
        if row.user_id == user_id && row.skin_id == skin_id {
            proof {
                let s = store@;
                assert(s.is_first_held(user_id, skin_id, i as int));
                let chosen = choose|at: int| s.is_first_held(user_id, skin_id, at);
                assert(s.is_first_held(user_id, skin_id, chosen));
                assert(chosen == i);
            }
            return Some(row);
        }
        i += 1;
    }
    None
}

/// Removes the ownership record with an id and tells whether there was one.
pub fn remove_inventory_item(store: &mut Store, item_id: i64) -> (removed: bool)
    requires
        old(store).wf(),
    ensures
        final(store).wf(),
        removed == old(store)@.has_record(item_id),
        final(store)@ == old(store)@.without_record(item_id),
{
    match position_of(&store.inventory, item_id) {
        Some(i) => {
            store.inventory.remove(i);
            proof {
                let before = old(store)@;
                let after = final(store)@;
                lemma_rows_are_found(before);
                lemma_without_record_wf(before, item_id);
                assert(after.users =~= before.users);
                assert(after.skins =~= before.skins);
                assert(after.inventory =~= before.inventory.remove(i as int));
            }
            true
        },
        None => false,
    }
}

/// All ownership records of an account, in ascending order of their ids, each
/// with the catalog item that it refers to, or with none where the catalog
/// does not hold that item.
pub fn get_inventory_for_user(store: &Store, user_id: i64) -> (r: Vec<OwnedSkin>)
    requires
        store.wf(),
    ensures
        owned_view(r@) == store@.owned_by(user_id),
{
    let mut out: Vec<OwnedSkin> = Vec::new();
    let mut i: usize = 0;
    while i < store.inventory.len()
        invariant
            store.wf(),
            i <= store.inventory.len(),
            owned_view(out@) == store@.owned_among(user_id, i as int),
        decreases store.inventory.len() - i,
    {
        let row = store.inventory[i];
        if row.user_id == user_id {
            let skin = get_skin_by_id(store, row.skin_id);
            let owned = OwnedSkin { inventory: row, skin };
            proof {
                assert(owned@ == OwnedSkinView { inventory: row, skin: store@.find_skin(row.skin_id) });
                assert(owned_view(out@.push(owned)) =~= owned_view(out@).push(owned@));
            }
            out.push(owned);
        }
        i += 1;
    }
    out
}

/// All ownership records, in ascending order of their ids.
pub fn list_records(store: &Store) -> (r: Vec<InventoryItem>)
    ensures
        r@ == store@.inventory,
{
    let mut out: Vec<InventoryItem> = Vec::new();
    let mut i: usize = 0;
    while i < store.inventory.len()
        invariant
            i <= store.inventory.len(),
            out@ == store@.inventory.subrange(0, i as int),
        decreases store.inventory.len() - i,
    {
        out.push(store.inventory[i]);
        assert(out@ =~= store@.inventory.subrange(0, i + 1));
        i += 1;
    }
    assert(out@ =~= store@.inventory);
    out
}

/// Gives the account one record of a catalog item and takes the records `ids`
/// from it, as one unit. The new record is added first; then each id in turn
/// must be a record of the account and is removed. If one is not, nothing of
/// the exchange is kept.
pub fn exchange_records(store: &mut Store, user_id: i64, ids: &Vec<i64>, skin_id: i64) -> (r: Result<i64, EngineError>)
    requires
        old(store).wf(),
    ensures
        final(store).wf(),
        r == exchange_outcome(old(store)@, user_id, ids@, skin_id),
        final(store)@ == exchange_state(old(store)@, user_id, ids@, skin_id),
{
    if store.user_position(user_id).is_none() {
        return Err(EngineError::AccountNotFound);
    }
    if store.skin_position(skin_id).is_none() {
        return Err(EngineError::ItemNotFound);
    }
    let n = store.inventory.len();
    let new_id: i64 = if n == 0 {
        1
    } else {
        let last = store.inventory[n - 1].id;
        if last == i64::MAX {
            return Err(EngineError::IdSpaceExhausted);
        }
        last + 1
    };
    let row = InventoryItem { id: new_id, user_id, skin_id };
    let ghost before = store@;
    let ghost started = before.with_record(row);
    let mut work: Vec<InventoryItem> = Vec::new();
    let mut c: usize = 0;
    while c < n
        invariant
            n == store.inventory.len(),
            c <= n,
            work.len() == c,
            forall|j: int| 0 <= j < c ==> work@[j] == store.inventory@[j],
        decreases n - c,
    {
        work.push(store.inventory[c]);
        c += 1;
    }
    work.push(row);
    proof {
        assert(work@ =~= started.inventory);
        assert forall|a: int, b: int| 0 <= a < b < started.inventory.len() implies started.inventory[a].id
            < started.inventory[b].id by {
            if b == n && a < n - 1 {
                assert(before.inventory[a].id < before.inventory[n - 1].id);
            }
        }
        assert(ids@.subrange(0, ids.len() as int) =~= ids@);
        assert((StoreView { inventory: work@, ..before }) == started);
    }
    let mut i: usize = 0;
    while i < ids.len()
        invariant
            i <= ids.len(),
            before.wf(),
            store@ == before,
            add_record_outcome(before, user_id, skin_id) == Ok::<InventoryItem, EngineError>(row),
            started == before.with_record(row),
            (StoreView { inventory: work@, ..before }).wf(),
            consume(StoreView { inventory: work@, ..before }, user_id, ids@.subrange(i as int, ids.len() as int))
                == consume(started, user_id, ids@),
        decreases ids.len() - i,
    {
        let ghost current = StoreView { inventory: work@, ..before };
        let ghost rest = ids@.subrange(i as int, ids.len() as int);
        proof {
            assert(rest[0] == ids@[i as int]);
            assert(rest.drop_first() =~= ids@.subrange(i + 1, ids.len() as int));
            lemma_rows_are_found(current);
            lemma_without_record_wf(current, ids@[i as int]);
        }
        match position_of(&work, ids[i]) {
            Some(k) => {
                if work[k].user_id != user_id {
                    return Err(EngineError::ConsumptionFailed(ids[i]));
                }
                work.remove(k);
            },
            None => {
                return Err(EngineError::ConsumptionFailed(ids[i]));
            },
        }
        i += 1;
    }
    proof {
        assert(ids@.subrange(ids.len() as int, ids.len() as int) =~= Seq::empty());
    }
    store.inventory = work;
    proof {
        assert(final(store)@.users =~= before.users);
        assert(final(store)@.skins =~= before.skins);
    }
    Ok(new_id)
}

} // verus!
