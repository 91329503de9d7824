//! What a store holds and what its operations do, as mathematics: the view of
//! a store, the outcome and the resulting store of each operation, and what
//! follows from them.

use vstd::prelude::*;
use crate::error::EngineError;
use crate::models::{borrowed_text_view, InventoryItem, OwnedSkin, OwnedSkinView, Skin, SkinView, User, UserView};
use crate::text::{lemma_precedes_asymmetric, lemma_precedes_connected, lemma_precedes_transitive, precedes};

verus! {

/// The balance of a newly registered account: 100.00, in hundredths.
pub const STARTING_BALANCE: u64 = 10_000;

/// What a store holds, as plain values.
pub struct StoreView {
    pub users: Seq<UserView>,
    pub skins: Seq<SkinView>,
    pub inventory: Seq<InventoryItem>,
}

impl StoreView {
    /// The store without any row.
    pub open spec fn empty() -> StoreView {
        StoreView { users: Seq::empty(), skins: Seq::empty(), inventory: Seq::empty() }
    }

    /// The tables are in their order, and no account id, handle, catalog id,
    /// catalog name or record id occurs twice.
    pub open spec fn wf(self) -> bool {
        &&& forall|i: int, j: int|
            0 <= i < j < self.users.len() ==> self.users[i].id < self.users[j].id
        &&& forall|i: int, j: int|
            0 <= i < j < self.users.len() ==> self.users[i].username != self.users[j].username
        &&& forall|i: int, j: int|
            0 <= i < j < self.skins.len() ==> precedes(self.skins[i].name, self.skins[j].name)
        &&& forall|i: int, j: int|
            0 <= i < j < self.skins.len() ==> self.skins[i].id != self.skins[j].id
        &&& forall|i: int, j: int|
            0 <= i < j < self.inventory.len() ==> self.inventory[i].id < self.inventory[j].id
    }

    /// Some account has this id.
    pub open spec fn has_user(self, id: i64) -> bool {
        exists|i: int| 0 <= i < self.users.len() && self.users[i].id == id
    }

    /// The account with this id, where there is one.
    pub open spec fn user(self, id: i64) -> UserView {
        self.users[choose|i: int| 0 <= i < self.users.len() && self.users[i].id == id]
    }

    /// The account with this id, if any.
    pub open spec fn find_user(self, id: i64) -> Option<UserView> {
        if self.has_user(id) {
            Some(self.user(id))
        } else {
            None
        }
    }

    /// Some account has this handle.
    pub open spec fn has_username(self, name: Seq<char>) -> bool {
        exists|i: int| 0 <= i < self.users.len() && self.users[i].username == name
    }

    /// The account with this handle, where there is one.
    pub open spec fn user_named(self, name: Seq<char>) -> UserView {
        self.users[choose|i: int| 0 <= i < self.users.len() && self.users[i].username == name]
    }

    /// The id that the next account gets.
    pub open spec fn next_user_id(self) -> int {
        if self.users.len() == 0 {
            1
        } else {
            self.users.last().id + 1
        }
    }

    /// The store with one more account at the end of the account table.
    pub open spec fn with_user(self, u: UserView) -> StoreView {
        StoreView { users: self.users.push(u), ..self }
    }

    /// The store in which the account with this id has this balance and every
    /// other account is as before.
    pub open spec fn with_balance(self, id: i64, balance: u64) -> StoreView {
        StoreView {
            users: self.users.map_values(
                |u: UserView|
                    if u.id == id {
                        UserView { balance, ..u }
                    } else {
                        u
                    },
            ),
            ..self
        }
    }

    /// Some catalog item has this id.
    pub open spec fn has_skin(self, id: i64) -> bool {
        exists|i: int| 0 <= i < self.skins.len() && self.skins[i].id == id
    }

    /// The catalog item with this id, where there is one.
    pub open spec fn skin(self, id: i64) -> SkinView {
        self.skins[choose|i: int| 0 <= i < self.skins.len() && self.skins[i].id == id]
    }

    /// The catalog item with this id, if any.
    pub open spec fn find_skin(self, id: i64) -> Option<SkinView> {
        if self.has_skin(id) {
            Some(self.skin(id))
        } else {
            None
        }
    }

    /// Some catalog item has this name.
    pub open spec fn has_skin_named(self, name: Seq<char>) -> bool {
        exists|i: int| 0 <= i < self.skins.len() && self.skins[i].name == name
    }

    /// The catalog item with this name, where there is one.
    pub open spec fn skin_named(self, name: Seq<char>) -> SkinView {
        self.skins[choose|i: int| 0 <= i < self.skins.len() && self.skins[i].name == name]
    }

    /// The catalog item with this name, if any.
    pub open spec fn find_skin_named(self, name: Seq<char>) -> Option<SkinView> {
        if self.has_skin_named(name) {
            Some(self.skin_named(name))
        } else {
            None
        }
    }

    /// `m` is the largest id among the first `upto` catalog items.
    pub open spec fn is_largest_skin_id_among(self, upto: int, m: int) -> bool {
        &&& exists|i: int| 0 <= i < upto && self.skins[i].id == m
        &&& forall|i: int| 0 <= i < upto ==> self.skins[i].id <= m
    }

    /// `m` is the largest id in the catalog.
    pub open spec fn is_largest_skin_id(self, m: int) -> bool {
        self.is_largest_skin_id_among(self.skins.len() as int, m)
    }

    /// The id that the next catalog item gets.
    pub open spec fn next_skin_id(self) -> int {
        if self.skins.len() == 0 {
            1
        } else {
            (choose|m: int| self.is_largest_skin_id(m)) + 1
        }
    }

    /// Among the first `upto` catalog items, `at` is where an item of this
    /// name belongs: after every name that comes before it and before every
    /// name that comes after it.
    pub open spec fn is_name_slot_among(self, name: Seq<char>, upto: int, at: int) -> bool {
        &&& 0 <= at <= upto
        &&& forall|i: int| 0 <= i < at ==> precedes(#[trigger] self.skins[i].name, name)
        &&& forall|i: int| at <= i < upto ==> precedes(name, #[trigger] self.skins[i].name)
    }

    /// `at` is where a catalog item of this name belongs in the catalog.
    pub open spec fn is_name_slot(self, name: Seq<char>, at: int) -> bool {
        self.is_name_slot_among(name, self.skins.len() as int, at)
    }

    /// The store with one more catalog item, put where its name belongs.
    pub open spec fn with_skin(self, s: SkinView) -> StoreView {
        StoreView {
            skins: self.skins.insert(choose|at: int| self.is_name_slot(s.name, at), s),
            ..self
        }
    }

    /// Some ownership record has this id.
    pub open spec fn has_record(self, id: i64) -> bool {
        exists|i: int| 0 <= i < self.inventory.len() && self.inventory[i].id == id
    }

    /// The ownership record with this id, where there is one.
    pub open spec fn record(self, id: i64) -> InventoryItem {
        self.inventory[self.record_index(id)]
    }

    /// Where the ownership record with this id stands, where there is one.
    pub open spec fn record_index(self, id: i64) -> int {
        choose|i: int| 0 <= i < self.inventory.len() && self.inventory[i].id == id
    }

    /// The ownership record with this id, if any.
    pub open spec fn find_record(self, id: i64) -> Option<InventoryItem> {
        if self.has_record(id) {
            Some(self.record(id))
        } else {
            None
        }
    }

    /// The account owns the record with this id.
    pub open spec fn owns(self, user_id: i64, record_id: i64) -> bool {
        self.has_record(record_id) && self.record(record_id).user_id == user_id
    }

    /// The id that the next ownership record gets.
    pub open spec fn next_record_id(self) -> int {
        if self.inventory.len() == 0 {
            1
        } else {
            self.inventory.last().id + 1
        }
    }

    /// The store with one more ownership record at the end of its table.
    pub open spec fn with_record(self, r: InventoryItem) -> StoreView {
        StoreView { inventory: self.inventory.push(r), ..self }
    }

    /// The store without the ownership record of this id; the same store
    /// where no record has it.
    pub open spec fn without_record(self, id: i64) -> StoreView {
        if self.has_record(id) {
            StoreView { inventory: self.inventory.remove(self.record_index(id)), ..self }
        } else {
            self
        }
    }

    /// The record at this position is one of the account's records of the
    /// catalog item, and none before it is.
    pub open spec fn is_first_held(self, user_id: i64, skin_id: i64, at: int) -> bool {
        &&& 0 <= at < self.inventory.len()
        &&& self.inventory[at].user_id == user_id
        &&& self.inventory[at].skin_id == skin_id
        &&& forall|j: int|
            0 <= j < at ==> !(#[trigger] self.inventory[j].user_id == user_id && self.inventory[j].skin_id == skin_id)
    }

    /// The account's first record of the catalog item, if it has one.
    pub open spec fn first_held(self, user_id: i64, skin_id: i64) -> Option<InventoryItem> {
        if exists|at: int| self.is_first_held(user_id, skin_id, at) {
            Some(self.inventory[choose|at: int| self.is_first_held(user_id, skin_id, at)])
        } else {
            None
        }
    }

    /// Every ownership record refers to an account and to a catalog item
    /// that the store holds.
    pub open spec fn references_resolve(self) -> bool {
        forall|i: int|
            0 <= i < self.inventory.len() ==> self.has_user((#[trigger] self.inventory[i]).user_id)
                && self.has_skin(self.inventory[i].skin_id)
    }

    /// The account's ownership records among the first `upto` records, in
    /// table order, each with the catalog item it refers to.
    pub open spec fn owned_among(self, user_id: i64, upto: int) -> Seq<OwnedSkinView>
        decreases upto,
    {
        if upto <= 0 {
            Seq::empty()
        } else {
            let before = self.owned_among(user_id, upto - 1);
            let r = self.inventory[upto - 1];
            if r.user_id == user_id {
                before.push(OwnedSkinView { inventory: r, skin: self.find_skin(r.skin_id) })
            } else {
                before
            }
        }
    }

    /// All of the account's ownership records.
    pub open spec fn owned_by(self, user_id: i64) -> Seq<OwnedSkinView> {
        self.owned_among(user_id, self.inventory.len() as int)
    }
}

/// The view of what a function returns where it returns an account.
pub open spec fn user_view(u: Option<User>) -> Option<UserView> {
    match u {
        Some(u) => Some(u@),
        None => None,
    }
}

/// The view of what a function returns where it returns a catalog item.
pub open spec fn skin_view(s: Option<Skin>) -> Option<SkinView> {
    match s {
        Some(s) => Some(s@),
        None => None,
    }
}

/// The view of a result that holds an account.
pub open spec fn user_result_view(r: Result<User, EngineError>) -> Result<UserView, EngineError> {
    match r {
        Ok(u) => Ok(u@),
        Err(e) => Err(e),
    }
}

/// The view of a result that holds a catalog item.
pub open spec fn skin_result_view(r: Result<Skin, EngineError>) -> Result<SkinView, EngineError> {
    match r {
        Ok(s) => Ok(s@),
        Err(e) => Err(e),
    }
}

/// The views of a list of accounts.
pub open spec fn accounts_view(users: Seq<User>) -> Seq<UserView> {
    users.map_values(|u: User| u@)
}

/// The views of a list of catalog items.
pub open spec fn catalog_view(skins: Seq<Skin>) -> Seq<SkinView> {
    skins.map_values(|s: Skin| s@)
}

/// The views of a list of owned items.
pub open spec fn owned_view(items: Seq<OwnedSkin>) -> Seq<OwnedSkinView> {
    items.map_values(|o: OwnedSkin| o@)
}

/// What a store made of these rows holds.
pub open spec fn rows_view(users: Seq<User>, skins: Seq<Skin>, inventory: Seq<InventoryItem>) -> StoreView {
    StoreView { users: accounts_view(users), skins: catalog_view(skins), inventory }
}

/// The definition of a catalog item, as a catalog item that has no id yet.
pub open spec fn definition_view(
    name: &str,
    rarity: Option<&str>,
    price: u64,
    collection: Option<&str>,
    weapon_type: Option<&str>,
    image_base64: Option<&str>,
) -> SkinView {
    SkinView {
        id: 0,
        name: name@,
        rarity: borrowed_text_view(rarity),
        price,
        collection: borrowed_text_view(collection),
        weapon_type: borrowed_text_view(weapon_type),
        image_base64: borrowed_text_view(image_base64),
    }
}

/// What registering an account returns: the new account, with the next id and
/// the starting balance, unless the handle is taken or no id is left.
pub open spec fn create_user_outcome(s: StoreView, username: Seq<char>, password: Seq<char>) -> Result<
    UserView,
    EngineError,
> {
    if s.has_username(username) {
        Err(EngineError::HandleTaken)
    } else if s.next_user_id() > i64::MAX {
        Err(EngineError::IdSpaceExhausted)
    } else {
        Ok(UserView { id: s.next_user_id() as i64, username, password, balance: STARTING_BALANCE })
    }
}

/// The store after registering an account.
pub open spec fn create_user_state(s: StoreView, username: Seq<char>, password: Seq<char>) -> StoreView {
    match create_user_outcome(s, username, password) {
        Ok(u) => s.with_user(u),
        Err(_) => s,
    }
}

/// Who a handle and a secret authenticate: the account with that handle, if
/// its secret is the given one.
pub open spec fn authenticate_outcome(s: StoreView, username: Seq<char>, password: Seq<char>) -> Option<UserView> {
    if s.has_username(username) && s.user_named(username).password == password {
        Some(s.user_named(username))
    } else {
        None
    }
}

/// What changing a balance by `delta` returns: the new balance, unless the
/// account is missing or the new balance would be negative or too large.
pub open spec fn change_balance_outcome(s: StoreView, user_id: i64, delta: int) -> Result<u64, EngineError> {
    if !s.has_user(user_id) {
        Err(EngineError::AccountNotFound)
    } else if s.user(user_id).balance + delta < 0 {
        Err(EngineError::InsufficientFunds)
    } else if s.user(user_id).balance + delta > u64::MAX {
        Err(EngineError::BalanceOverflow)
    } else {
        Ok((s.user(user_id).balance + delta) as u64)
    }
}

/// The store after changing a balance by `delta`.
pub open spec fn change_balance_state(s: StoreView, user_id: i64, delta: int) -> StoreView {
    match change_balance_outcome(s, user_id, delta) {
        Ok(balance) => s.with_balance(user_id, balance),
        Err(_) => s,
    }
}

/// What adding a catalog item returns. Where the name is in the catalog, the
/// item that is there: the first definition of a name wins. Otherwise the
/// definition under the next id, unless no id is left. The definition's own
/// `id` is not looked at.
pub open spec fn add_skin_outcome(s: StoreView, definition: SkinView) -> Result<SkinView, EngineError> {
    if s.has_skin_named(definition.name) {
        Ok(s.skin_named(definition.name))
    } else if s.next_skin_id() > i64::MAX {
        Err(EngineError::IdSpaceExhausted)
    } else {
        Ok(SkinView { id: s.next_skin_id() as i64, ..definition })
    }
}

/// The store after adding a catalog item.
pub open spec fn add_skin_state(s: StoreView, definition: SkinView) -> StoreView {
    if s.has_skin_named(definition.name) {
        s
    } else {
        match add_skin_outcome(s, definition) {
            Ok(row) => s.with_skin(row),
            Err(_) => s,
        }
    }
}

/// What adding an ownership record returns: the new record under the next id,
/// unless the account or the catalog item is missing or no id is left.
pub open spec fn add_record_outcome(s: StoreView, user_id: i64, skin_id: i64) -> Result<InventoryItem, EngineError> {
    if !s.has_user(user_id) {
        Err(EngineError::AccountNotFound)
    } else if !s.has_skin(skin_id) {
        Err(EngineError::ItemNotFound)
    } else if s.next_record_id() > i64::MAX {
        Err(EngineError::IdSpaceExhausted)
    } else {
        Ok(InventoryItem { id: s.next_record_id() as i64, user_id, skin_id })
    }
}

/// The store after adding an ownership record.
pub open spec fn add_record_state(s: StoreView, user_id: i64, skin_id: i64) -> StoreView {
    match add_record_outcome(s, user_id, skin_id) {
        Ok(r) => s.with_record(r),
        Err(_) => s,
    }
}

/// The store after the account has given up the records `ids`, one after the
/// other, or the first of them that it does not hold at its turn.
pub open spec fn consume(s: StoreView, user_id: i64, ids: Seq<i64>) -> Result<StoreView, EngineError>
    decreases ids.len(),
{
    if ids.len() == 0 {
        Ok(s)
    } else if !s.owns(user_id, ids[0]) {
        Err(EngineError::ConsumptionFailed(ids[0]))
    } else {
        consume(s.without_record(ids[0]), user_id, ids.drop_first())
    }
}

/// What exchanging records returns: the id of the record that the account
/// gets for the catalog item, unless that record cannot be added or one of the
/// records to give up is not the account's at its turn.
pub open spec fn exchange_outcome(s: StoreView, user_id: i64, ids: Seq<i64>, skin_id: i64) -> Result<i64, EngineError> {
    match add_record_outcome(s, user_id, skin_id) {
        Err(e) => Err(e),
        Ok(r) => match consume(s.with_record(r), user_id, ids) {
            Err(e) => Err(e),
            Ok(_) => Ok(r.id),
        },
    }
}

/// The store after exchanging records: all of the exchange or nothing of it.
pub open spec fn exchange_state(s: StoreView, user_id: i64, ids: Seq<i64>, skin_id: i64) -> StoreView {
    match add_record_outcome(s, user_id, skin_id) {
        Err(_) => s,
        Ok(r) => match consume(s.with_record(r), user_id, ids) {
            Err(_) => s,
            Ok(done) => done,
        },
    }
}

/// In a well-formed store the row found at a position is the row that its id
/// and its name stand for.
pub proof fn lemma_rows_are_found(s: StoreView)
    requires
        s.wf(),
    ensures
        forall|i: int|
            0 <= i < s.users.len() ==> s.has_user(#[trigger] s.users[i].id) && s.user(s.users[i].id)
                == s.users[i],
        forall|i: int|
            0 <= i < s.users.len() ==> s.has_username(#[trigger] s.users[i].username) && s.user_named(
                s.users[i].username,
            ) == s.users[i],
        forall|i: int|
            0 <= i < s.skins.len() ==> s.has_skin(#[trigger] s.skins[i].id) && s.skin(s.skins[i].id)
                == s.skins[i],
        forall|i: int|
            0 <= i < s.skins.len() ==> s.has_skin_named(#[trigger] s.skins[i].name) && s.skin_named(
                s.skins[i].name,
            ) == s.skins[i],
        forall|i: int|
            0 <= i < s.inventory.len() ==> s.has_record(#[trigger] s.inventory[i].id) && s.record_index(
                s.inventory[i].id,
            ) == i,
{
    assert forall|i: int| 0 <= i < s.users.len() implies s.has_user(#[trigger] s.users[i].id) && s.user(
        s.users[i].id,
    ) == s.users[i] by {
        let k = choose|k: int| 0 <= k < s.users.len() && s.users[k].id == s.users[i].id;
        assert(k == i) by {
            if k < i {
                assert(s.users[k].id < s.users[i].id);
            } else if i < k {
                assert(s.users[i].id < s.users[k].id);
            }
        }
    }
    assert forall|i: int| 0 <= i < s.users.len() implies s.has_username(#[trigger] s.users[i].username)
        && s.user_named(s.users[i].username) == s.users[i] by {
        let k = choose|k: int| 0 <= k < s.users.len() && s.users[k].username == s.users[i].username;
        assert(k == i) by {
            if k < i {
                assert(s.users[k].username != s.users[i].username);
            } else if i < k {
                assert(s.users[i].username != s.users[k].username);
            }
        }
    }
    assert forall|i: int| 0 <= i < s.skins.len() implies s.has_skin(#[trigger] s.skins[i].id) && s.skin(
        s.skins[i].id,
    ) == s.skins[i] by {
        let k = choose|k: int| 0 <= k < s.skins.len() && s.skins[k].id == s.skins[i].id;
        assert(k == i) by {
            if k < i {
                assert(s.skins[k].id != s.skins[i].id);
            } else if i < k {
                assert(s.skins[i].id != s.skins[k].id);
            }
        }
    }
    assert forall|i: int| 0 <= i < s.skins.len() implies s.has_skin_named(#[trigger] s.skins[i].name)
        && s.skin_named(s.skins[i].name) == s.skins[i] by {
        let k = choose|k: int| 0 <= k < s.skins.len() && s.skins[k].name == s.skins[i].name;
        assert(k == i) by {
            if k < i {
                lemma_precedes_asymmetric(s.skins[k].name, s.skins[i].name);
            } else if i < k {
                lemma_precedes_asymmetric(s.skins[i].name, s.skins[k].name);
            }
        }
    }
    assert forall|i: int| 0 <= i < s.inventory.len() implies s.has_record(#[trigger] s.inventory[i].id)
        && s.record_index(s.inventory[i].id) == i by {
        let k = choose|k: int| 0 <= k < s.inventory.len() && s.inventory[k].id == s.inventory[i].id;
        assert(k == i) by {
            if k < i {
                assert(s.inventory[k].id < s.inventory[i].id);
            } else if i < k {
                assert(s.inventory[i].id < s.inventory[k].id);
            }
        }
    }
}

/// Setting one account's balance in a well-formed store leaves a well-formed
/// store with the same accounts, of which only that one has changed, and only
/// in its balance.
pub proof fn lemma_with_balance_effect(s: StoreView, user_id: i64, balance: u64)
    requires
        s.wf(),
    ensures
        s.with_balance(user_id, balance).wf(),
        s.with_balance(user_id, balance).skins == s.skins,
        s.with_balance(user_id, balance).inventory == s.inventory,
        s.with_balance(user_id, balance).users.len() == s.users.len(),
        forall|id: i64| #[trigger] s.with_balance(user_id, balance).has_user(id) <==> s.has_user(id),
        s.has_user(user_id) ==> s.with_balance(user_id, balance).user(user_id) == (UserView {
            balance,
            ..s.user(user_id)
        }),
        forall|id: i64|
            s.has_user(id) && id != user_id ==> #[trigger] s.with_balance(user_id, balance).user(id) == s.user(id),
{
    let t = s.with_balance(user_id, balance);
    assert(t.wf());
    lemma_rows_are_found(s);
    lemma_rows_are_found(t);
    assert forall|id: i64| #[trigger] t.has_user(id) <==> s.has_user(id) by {
        if s.has_user(id) {
            let k = choose|k: int| 0 <= k < s.users.len() && s.users[k].id == id;
            assert(t.users[k].id == id);
        }
        if t.has_user(id) {
            let k = choose|k: int| 0 <= k < t.users.len() && t.users[k].id == id;
            assert(s.users[k].id == id);
        }
    }
    assert forall|id: i64| s.has_user(id) implies (#[trigger] t.user(id)) == (if id == user_id {
        UserView { balance, ..s.user(id) }
    } else {
        s.user(id)
    }) by {
        let k = choose|k: int| 0 <= k < s.users.len() && s.users[k].id == id;
        assert(s.user(id) == s.users[k]);
        assert(t.users[k].id == id);
        assert(t.user(t.users[k].id) == t.users[k]);
    }
}

/// A name has at most one slot in a catalog that is in order.
pub proof fn lemma_name_slot_is_unique(s: StoreView, name: Seq<char>, p: int, q: int)
    requires
        s.is_name_slot(name, p),
        s.is_name_slot(name, q),
    ensures
        p == q,
{
    if p < q {
        assert(precedes(s.skins[p].name, name));
        lemma_precedes_asymmetric(s.skins[p].name, name);
    } else if q < p {
        assert(precedes(s.skins[q].name, name));
        lemma_precedes_asymmetric(s.skins[q].name, name);
    }
}

/// Among the first `upto` items of a well-formed catalog, a name that the
/// catalog does not hold has a slot.
pub proof fn lemma_name_slot_exists_among(s: StoreView, name: Seq<char>, upto: int)
    requires
        s.wf(),
        !s.has_skin_named(name),
        0 <= upto <= s.skins.len(),
    ensures
        exists|at: int| s.is_name_slot_among(name, upto, at),
    decreases upto,
{
    if upto == 0 {
        assert(s.is_name_slot_among(name, 0, 0));
    } else {
        let prior = upto - 1;
        lemma_name_slot_exists_among(s, name, prior);
        let at = choose|at: int| s.is_name_slot_among(name, prior, at);
        let last = s.skins[upto - 1].name;
        assert(last != name);
        lemma_precedes_connected(last, name);
        if precedes(name, last) {
            assert(s.is_name_slot_among(name, upto, at));
        } else {
            assert forall|i: int| 0 <= i < upto implies precedes(#[trigger] s.skins[i].name, name) by {
                if i < upto - 1 {
                    lemma_precedes_transitive(s.skins[i].name, last, name);
                }
            }
            assert(s.is_name_slot_among(name, upto, upto));
        }
    }
}

/// The first `upto` items of a catalog have a largest id, if there are any.
pub proof fn lemma_largest_skin_id_exists(s: StoreView, upto: int)
    requires
        1 <= upto <= s.skins.len(),
    ensures
        exists|m: int| s.is_largest_skin_id_among(upto, m),
    decreases upto,
{
    if upto == 1 {
        assert(s.is_largest_skin_id_among(1, s.skins[0].id as int));
    } else {
        let prior = upto - 1;
        lemma_largest_skin_id_exists(s, prior);
        let m = choose|m: int| s.is_largest_skin_id_among(prior, m);
        let last = s.skins[upto - 1].id as int;
        if last > m {
            assert(s.is_largest_skin_id_among(upto, last));
        } else {
            let held = choose|i: int| 0 <= i < prior && s.skins[i].id == m;
            assert(0 <= held < upto && s.skins[held].id == m);
            assert(s.is_largest_skin_id_among(upto, m));
        }
    }
}

/// The id that the next catalog item gets is larger than every id in the
/// catalog.
pub proof fn lemma_next_skin_id_is_fresh(s: StoreView)
    ensures
        forall|i: int| 0 <= i < s.skins.len() ==> (#[trigger] s.skins[i]).id < s.next_skin_id(),
{
    if s.skins.len() > 0 {
        let all = s.skins.len() as int;
        lemma_largest_skin_id_exists(s, all);
        let found = choose|m: int| s.is_largest_skin_id_among(all, m);
        assert(s.is_largest_skin_id(found));
        let m = choose|m: int| s.is_largest_skin_id(m);
        assert(s.is_largest_skin_id(m));
    }
}

/// Adding a catalog item to a well-formed store leaves a well-formed store,
/// which holds an item of the definition's name: the one that the addition
/// returned. The catalog has grown by one item if the name was new to it, and
/// not at all otherwise.
pub proof fn lemma_add_skin_effect(s: StoreView, definition: SkinView)
    requires
        s.wf(),
        add_skin_outcome(s, definition) is Ok,
    ensures
        add_skin_state(s, definition).wf(),
        add_skin_state(s, definition).has_skin_named(definition.name),
        add_skin_state(s, definition).skin_named(definition.name) == add_skin_outcome(s, definition)->Ok_0,
        add_skin_state(s, definition).has_skin(add_skin_outcome(s, definition)->Ok_0.id),
        add_skin_state(s, definition).skin(add_skin_outcome(s, definition)->Ok_0.id) == add_skin_outcome(
            s,
            definition,
        )->Ok_0,
        add_skin_state(s, definition).skins.len() == s.skins.len() + (if s.has_skin_named(definition.name) {
            0int
        } else {
            1int
        }),
        add_skin_state(s, definition).users == s.users,
        add_skin_state(s, definition).inventory == s.inventory,
{
    let row = add_skin_outcome(s, definition)->Ok_0;
    let after = add_skin_state(s, definition);
    if !s.has_skin_named(definition.name) {
        let all = s.skins.len() as int;
        lemma_name_slot_exists_among(s, definition.name, all);
        let found = choose|at: int| s.is_name_slot_among(definition.name, all, at);
        assert(s.is_name_slot(definition.name, found));
        let at = choose|at: int| s.is_name_slot(definition.name, at);
        lemma_next_skin_id_is_fresh(s);
        assert(after.skins[at] == row);
        assert forall|a: int, b: int| 0 <= a < b < after.skins.len() implies precedes(
            after.skins[a].name,
            after.skins[b].name,
        ) && after.skins[a].id != after.skins[b].id by {
            if a == at {
                assert(after.skins[b] == s.skins[b - 1]);
            } else if b == at {
                assert(after.skins[a] == s.skins[a]);
            } else {
                let a0 = if a < at { a } else { a - 1 };
                let b0 = if b < at { b } else { b - 1 };
                assert(after.skins[a] == s.skins[a0]);
                assert(after.skins[b] == s.skins[b0]);
            }
        }
        assert(after.wf());
        lemma_rows_are_found(after);
        assert(after.skins[at].name == definition.name);
        assert(after.skins[at].id == row.id);
    } else {
        lemma_rows_are_found(s);
        let at = choose|i: int| 0 <= i < s.skins.len() && s.skins[i].name == definition.name;
        assert(s.skins[at].id == row.id);
    }
}

/// Adding the same name a second time returns what the first addition
/// returned, whatever else the second definition says, and changes nothing.
/// The two additions together add exactly one item where the name was new and
/// an id was left for it, and none otherwise.
pub proof fn lemma_add_skin_is_idempotent(s: StoreView, first: SkinView, second: SkinView)
    requires
        s.wf(),
        first.name == second.name,
    ensures
        add_skin_outcome(add_skin_state(s, first), second) == add_skin_outcome(s, first),
        add_skin_state(add_skin_state(s, first), second) == add_skin_state(s, first),
        add_skin_state(add_skin_state(s, first), second).skins.len() == s.skins.len() + (if !s.has_skin_named(
            first.name,
        ) && s.next_skin_id() <= i64::MAX {
            1int
        } else {
            0int
        }),
        add_skin_outcome(s, first) is Err <==> !s.has_skin_named(first.name) && s.next_skin_id() > i64::MAX,
{
    if add_skin_outcome(s, first) is Ok {
        lemma_add_skin_effect(s, first);
    }
}

/// Adding a record to a well-formed store leaves a well-formed store with
/// one more record: the new one, under an id that no record had.
pub proof fn lemma_with_record_effect(s: StoreView, r: InventoryItem)
    requires
        s.wf(),
        r.id == s.next_record_id(),
    ensures
        s.with_record(r).wf(),
        !s.has_record(r.id),
        s.with_record(r).record(r.id) == r,
        forall|id: i64| #[trigger] s.with_record(r).has_record(id) <==> (s.has_record(id) || id == r.id),
        forall|id: i64| s.has_record(id) ==> #[trigger] s.with_record(r).record(id) == s.record(id),
{
    let t = s.with_record(r);
    let n = s.inventory.len() as int;
    assert forall|a: int, b: int| 0 <= a < b < t.inventory.len() implies t.inventory[a].id < t.inventory[b].id by {
        if b == n && a < n - 1 {
            assert(s.inventory[a].id < s.inventory[n - 1].id);
        }
    }
    assert(t.wf());
    lemma_rows_are_found(s);
    lemma_rows_are_found(t);
    assert(t.inventory[n] == r);
    assert forall|id: i64| #[trigger] t.has_record(id) <==> (s.has_record(id) || id == r.id) by {
        if s.has_record(id) {
            let k = s.record_index(id);
            assert(t.inventory[k].id == id);
        }
        if t.has_record(id) && id != r.id {
            let k = t.record_index(id);
            assert(s.inventory[k].id == id);
        }
    }
    assert forall|id: i64| s.has_record(id) implies #[trigger] t.record(id) == s.record(id) by {
        let k = s.record_index(id);
        assert(t.inventory[k] == s.inventory[k]);
        assert(t.inventory[k].id == id);
    }
    if s.has_record(r.id) {
        let k = s.record_index(r.id);
        assert(t.inventory[k].id < t.inventory[n].id);
    }
}

/// Taking a record out of a well-formed store leaves a well-formed store.
pub proof fn lemma_without_record_wf(s: StoreView, id: i64)
    requires
        s.wf(),
    ensures
        s.without_record(id).wf(),
{
    if s.has_record(id) {
        let at = s.record_index(id);
        let rest = s.inventory.remove(at);
        assert forall|i: int, j: int| 0 <= i < j < rest.len() implies rest[i].id < rest[j].id by {
            let i0 = if i < at { i } else { i + 1 };
            let j0 = if j < at { j } else { j + 1 };
            assert(rest[i] == s.inventory[i0]);
            assert(rest[j] == s.inventory[j0]);
        }
    }
}

/// Taking a record out of a well-formed store leaves every other record as
/// it was.
pub proof fn lemma_without_record_effect(s: StoreView, gone: i64)
    requires
        s.wf(),
    ensures
        s.without_record(gone).wf(),
        s.without_record(gone).users == s.users,
        s.without_record(gone).skins == s.skins,
        s.without_record(gone).inventory.len() == s.inventory.len() - (if s.has_record(gone) {
            1int
        } else {
            0int
        }),
        forall|id: i64| #[trigger] s.without_record(gone).has_record(id) <==> (s.has_record(id) && id != gone),
        forall|id: i64|
            s.has_record(id) && id != gone ==> #[trigger] s.without_record(gone).record(id) == s.record(id),
{
    let t = s.without_record(gone);
    lemma_without_record_wf(s, gone);
    lemma_rows_are_found(s);
    lemma_rows_are_found(t);
    if s.has_record(gone) {
        let at = s.record_index(gone);
        assert forall|id: i64| #[trigger] t.has_record(id) <==> (s.has_record(id) && id != gone) by {
            if s.has_record(id) && id != gone {
                let k = s.record_index(id);
                let k1 = if k < at { k } else { k - 1 };
                assert(t.inventory[k1] == s.inventory[k]);
            }
            if t.has_record(id) {
                let k1 = t.record_index(id);
                let k = if k1 < at { k1 } else { k1 + 1 };
                assert(t.inventory[k1] == s.inventory[k]);
                assert(s.inventory[k].id == id);
                assert(s.record_index(id) == k);
            }
        }
        assert forall|id: i64| s.has_record(id) && id != gone implies #[trigger] t.record(id) == s.record(id) by {
            let k = s.record_index(id);
            let k1 = if k < at { k } else { k - 1 };
            assert(t.inventory[k1] == s.inventory[k]);
            assert(t.inventory[k1].id == id);
        }
    }
}

/// Where the account holds all of the records `ids` and none is listed twice,
/// giving them up succeeds. It leaves a well-formed store in which exactly
/// those records are gone and every other record is as it was.
pub proof fn lemma_consume_effect(s: StoreView, user_id: i64, ids: Seq<i64>)
    requires
        s.wf(),
        ids.no_duplicates(),
        forall|i: int| 0 <= i < ids.len() ==> s.owns(user_id, #[trigger] ids[i]),
    ensures
        consume(s, user_id, ids) is Ok,
        consume(s, user_id, ids)->Ok_0.wf(),
        consume(s, user_id, ids)->Ok_0.users == s.users,
        consume(s, user_id, ids)->Ok_0.skins == s.skins,
        consume(s, user_id, ids)->Ok_0.inventory.len() == s.inventory.len() - ids.len(),
        forall|id: i64| #[trigger]
            consume(s, user_id, ids)->Ok_0.has_record(id) <==> (s.has_record(id) && !ids.contains(id)),
        forall|id: i64|
            s.has_record(id) && !ids.contains(id) ==> #[trigger] consume(s, user_id, ids)->Ok_0.record(id)
                == s.record(id),
    decreases ids.len(),
{
    if ids.len() > 0 {
        let first = ids[0];
        let rest = ids.drop_first();
        let s1 = s.without_record(first);
        lemma_without_record_effect(s, first);
        assert(s.owns(user_id, ids[0]));
        assert forall|i: int| 0 <= i < rest.len() implies s1.owns(user_id, #[trigger] rest[i]) by {
            assert(rest[i] == ids[i + 1]);
            assert(s.owns(user_id, ids[i + 1]));
            assert(ids[i + 1] != ids[0]);
            assert(s1.has_record(rest[i]));
            assert(s1.record(rest[i]) == s.record(rest[i]));
        }
        assert(rest.no_duplicates()) by {
            assert forall|i: int, j: int| 0 <= i < rest.len() && 0 <= j < rest.len() && i != j implies rest[i]
                != rest[j] by {
                assert(rest[i] == ids[i + 1] && rest[j] == ids[j + 1]);
            }
        }
        lemma_consume_effect(s1, user_id, rest);
        let t = consume(s, user_id, ids)->Ok_0;
        assert(t == consume(s1, user_id, rest)->Ok_0);
        assert forall|id: i64| #[trigger] t.has_record(id) <==> (s.has_record(id) && !ids.contains(id)) by {
            if ids.contains(id) && id != first {
                let k = choose|k: int| 0 <= k < ids.len() && ids[k] == id;
                assert(rest[k - 1] == id);
                assert(rest.contains(id));
            }
            if rest.contains(id) {
                let k = choose|k: int| 0 <= k < rest.len() && rest[k] == id;
                assert(ids[k + 1] == id);
            }
        }
        assert forall|id: i64| s.has_record(id) && !ids.contains(id) implies #[trigger] t.record(id) == s.record(
            id,
        ) by {
            assert(id != first);
            if rest.contains(id) {
                let k = choose|k: int| 0 <= k < rest.len() && rest[k] == id;
                assert(ids[k + 1] == id);
            }
            assert(s1.has_record(id));
            assert(s1.record(id) == s.record(id));
        }
    }
}

/// A record that resolves in one store resolves in every store that holds
/// the same accounts and the same catalog.
proof fn lemma_resolves_with_the_same_tables(s: StoreView, t: StoreView, r: InventoryItem)
    requires
        t.users == s.users,
        t.skins == s.skins,
        s.has_user(r.user_id),
        s.has_skin(r.skin_id),
    ensures
        t.has_user(r.user_id),
        t.has_skin(r.skin_id),
{
    let u = choose|k: int| 0 <= k < s.users.len() && s.users[k].id == r.user_id;
    assert(t.users[u].id == r.user_id);
    let k = choose|k: int| 0 <= k < s.skins.len() && s.skins[k].id == r.skin_id;
    assert(t.skins[k].id == r.skin_id);
}

/// A record is added only for an account and a catalog item that the store
/// holds, so in a store whose records all resolve, they still do afterwards.
pub proof fn lemma_add_record_resolves(s: StoreView, user_id: i64, skin_id: i64)
    requires
        s.references_resolve(),
    ensures
        add_record_outcome(s, user_id, skin_id) is Ok ==> s.has_user(user_id) && s.has_skin(skin_id),
        add_record_state(s, user_id, skin_id).references_resolve(),
{
    let t = add_record_state(s, user_id, skin_id);
    assert forall|i: int| 0 <= i < t.inventory.len() implies t.has_user((#[trigger] t.inventory[i]).user_id)
        && t.has_skin(t.inventory[i].skin_id) by {
        if i < s.inventory.len() {
            assert(t.inventory[i] == s.inventory[i]);
        }
        lemma_resolves_with_the_same_tables(s, t, t.inventory[i]);
    }
}

/// In a store whose records all resolve, they still do after a balance has
/// been set.
pub proof fn lemma_with_balance_resolves(s: StoreView, user_id: i64, balance: u64)
    requires
        s.references_resolve(),
    ensures
        s.with_balance(user_id, balance).references_resolve(),
{
    let t = s.with_balance(user_id, balance);
    assert forall|i: int| 0 <= i < t.inventory.len() implies t.has_user((#[trigger] t.inventory[i]).user_id)
        && t.has_skin(t.inventory[i].skin_id) by {
        let r = s.inventory[i];
        assert(s.has_user(r.user_id) && s.has_skin(r.skin_id));
        let u = choose|k: int| 0 <= k < s.users.len() && s.users[k].id == r.user_id;
        assert(t.users[u].id == r.user_id);
        let k = choose|k: int| 0 <= k < s.skins.len() && s.skins[k].id == r.skin_id;
        assert(t.skins[k].id == r.skin_id);
    }
}

/// In a store whose records all resolve, they still do after a record has
/// been taken out.
pub proof fn lemma_without_record_resolves(s: StoreView, gone: i64)
    requires
        s.references_resolve(),
    ensures
        s.without_record(gone).references_resolve(),
{
    let t = s.without_record(gone);
    if s.has_record(gone) {
        let at = s.record_index(gone);
        assert forall|i: int| 0 <= i < t.inventory.len() implies t.has_user((#[trigger] t.inventory[i]).user_id)
            && t.has_skin(t.inventory[i].skin_id) by {
            let i0 = if i < at { i } else { i + 1 };
            assert(t.inventory[i] == s.inventory[i0]);
            lemma_resolves_with_the_same_tables(s, t, s.inventory[i0]);
        }
    }
}

/// In a store whose records all resolve, they still do after records have
/// been given up.
pub proof fn lemma_consume_resolves(s: StoreView, user_id: i64, ids: Seq<i64>)
    requires
        s.references_resolve(),
    ensures
        consume(s, user_id, ids) is Ok ==> consume(s, user_id, ids)->Ok_0.references_resolve(),
    decreases ids.len(),
{
    if ids.len() > 0 && s.owns(user_id, ids[0]) {
        lemma_without_record_resolves(s, ids[0]);
        lemma_consume_resolves(s.without_record(ids[0]), user_id, ids.drop_first());
    }
}

/// In a store whose records all resolve, they still do after an exchange,
/// whether it went through or not.
pub proof fn lemma_exchange_resolves(s: StoreView, user_id: i64, ids: Seq<i64>, skin_id: i64)
    requires
        s.references_resolve(),
    ensures
        exchange_state(s, user_id, ids, skin_id).references_resolve(),
{
    if let Ok(r) = add_record_outcome(s, user_id, skin_id) {
        lemma_add_record_resolves(s, user_id, skin_id);
        lemma_consume_resolves(s.with_record(r), user_id, ids);
    }
}

/// In a well-formed store whose records all resolve, they still do after a
/// catalog item has been added.
pub proof fn lemma_add_skin_resolves(s: StoreView, definition: SkinView)
    requires
        s.wf(),
        s.references_resolve(),
    ensures
        add_skin_state(s, definition).references_resolve(),
{
    let t = add_skin_state(s, definition);
    if t != s {
        let all = s.skins.len() as int;
        lemma_name_slot_exists_among(s, definition.name, all);
        let found = choose|at: int| s.is_name_slot_among(definition.name, all, at);
        assert(s.is_name_slot(definition.name, found));
        let at = choose|at: int| s.is_name_slot(definition.name, at);
        assert forall|i: int| 0 <= i < t.inventory.len() implies t.has_user((#[trigger] t.inventory[i]).user_id)
            && t.has_skin(t.inventory[i].skin_id) by {
            let r = s.inventory[i];
            assert(s.has_user(r.user_id) && s.has_skin(r.skin_id));
            let u = choose|k: int| 0 <= k < s.users.len() && s.users[k].id == r.user_id;
            assert(t.users[u].id == r.user_id);
            let k = choose|k: int| 0 <= k < s.skins.len() && s.skins[k].id == r.skin_id;
            let k1 = if k < at { k } else { k + 1 };
            assert(t.skins[k1] == s.skins[k]);
        }
    }
}

/// In a store whose records all resolve, they still do after an account has
/// been registered.
pub proof fn lemma_create_user_resolves(s: StoreView, username: Seq<char>, password: Seq<char>)
    requires
        s.references_resolve(),
    ensures
        create_user_state(s, username, password).references_resolve(),
{
    let t = create_user_state(s, username, password);
    assert forall|i: int| 0 <= i < t.inventory.len() implies t.has_user((#[trigger] t.inventory[i]).user_id)
        && t.has_skin(t.inventory[i].skin_id) by {
        let r = s.inventory[i];
        assert(s.has_user(r.user_id) && s.has_skin(r.skin_id));
        let u = choose|k: int| 0 <= k < s.users.len() && s.users[k].id == r.user_id;
        assert(t.users[u] == s.users[u]);
        let k = choose|k: int| 0 <= k < s.skins.len() && s.skins[k].id == r.skin_id;
        assert(t.skins[k].id == r.skin_id);
    }
}

/// The listing holds a record of this id.
pub open spec fn is_listed(listing: Seq<OwnedSkinView>, record_id: i64) -> bool {
    exists|k: int| 0 <= k < listing.len() && (#[trigger] listing[k]).inventory.id == record_id
}

/// In a well-formed store, what is listed for an account among the first
/// `upto` records are records of the account, each with the catalog item that
/// the store finds for it, and every record of the account among them is
/// listed.
pub proof fn lemma_owned_listing(s: StoreView, user_id: i64, upto: int)
    requires
        s.wf(),
        0 <= upto <= s.inventory.len(),
    ensures
        forall|k: int|
            0 <= k < s.owned_among(user_id, upto).len() ==> {
                let o = #[trigger] s.owned_among(user_id, upto)[k];
                &&& s.owns(user_id, o.inventory.id)
                &&& s.record(o.inventory.id) == o.inventory
                &&& s.record_index(o.inventory.id) < upto
                &&& o.skin == s.find_skin(o.inventory.skin_id)
            },
        forall|i: int|
            0 <= i < upto && (#[trigger] s.inventory[i]).user_id == user_id ==> is_listed(
                s.owned_among(user_id, upto),
                s.inventory[i].id,
            ),
    decreases upto,
{
    if upto > 0 {
        lemma_owned_listing(s, user_id, upto - 1);
        lemma_rows_are_found(s);
        let before = s.owned_among(user_id, upto - 1);
        let now = s.owned_among(user_id, upto);
        let last = s.inventory[upto - 1];
        assert(s.record_index(last.id) == upto - 1);
        assert forall|k: int| 0 <= k < now.len() implies {
            let o = #[trigger] now[k];
            &&& s.owns(user_id, o.inventory.id)
            &&& s.record(o.inventory.id) == o.inventory
            &&& s.record_index(o.inventory.id) < upto
            &&& o.skin == s.find_skin(o.inventory.skin_id)
        } by {
            if k < before.len() {
                assert(now[k] == before[k]);
            }
        }
        assert forall|i: int| 0 <= i < upto && (#[trigger] s.inventory[i]).user_id == user_id implies is_listed(
            now,
            s.inventory[i].id,
        ) by {
            if i < upto - 1 {
                assert(is_listed(before, s.inventory[i].id));
                let k = choose|k: int|
                    0 <= k < before.len() && (#[trigger] before[k]).inventory.id == s.inventory[i].id;
                assert(now[k] == before[k]);
            } else {
                assert(now[now.len() - 1].inventory == last);
            }
        }
    }
}

} // verus!
