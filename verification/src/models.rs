//! The three kinds of rows that the store holds, and their mathematical views.

use vstd::prelude::*;
use crate::text::{first_occurs_at, has_prefix, has_substring};
use crate::text;

verus! {

/// The view of an optional text.
pub open spec fn text_view(t: Option<String>) -> Option<Seq<char>> {
    match t {
        Some(s) => Some(s@),
        None => None,
    }
}

/// The view of an optional borrowed text.
pub open spec fn borrowed_text_view(t: Option<&str>) -> Option<Seq<char>> {
    match t {
        Some(s) => Some(s@),
        None => None,
    }
}

/// Borrows an optional text.
pub fn borrow_text(t: &Option<String>) -> (r: Option<&str>)
    ensures
        borrowed_text_view(r) == text_view(*t),
{
    match t {
        Some(s) => Some(s.as_str()),
        None => None,
    }
}

/// Copies an optional borrowed text into an owned one.
pub fn own_text(t: Option<&str>) -> (r: Option<String>)
    ensures
        text_view(r) == borrowed_text_view(t),
{
    match t {
        Some(s) => Some(s.to_owned()),
        None => None,
    }
}

/// Copies an optional text.
pub fn clone_text(t: &Option<String>) -> (r: Option<String>)
    ensures
        r == *t,
{
    match t {
        Some(s) => Some(s.clone()),
        None => None,
    }
}

/// An account: its identity, unique handle, secret and cash balance in minor
/// units.
#[derive(Debug)]
pub struct User {
    pub id: i64,
    pub username: String,
    pub password: String,
    pub balance: u64,
}

/// What an account is, as plain values.
pub struct UserView {
    pub id: i64,
    pub username: Seq<char>,
    pub password: Seq<char>,
    pub balance: u64,
}

impl View for User {
    type V = UserView;

    open spec fn view(&self) -> UserView {
        UserView {
            id: self.id,
            username: self.username@,
            password: self.password@,
            balance: self.balance,
        }
    }
}

impl Clone for User {
    fn clone(&self) -> (r: Self)
        ensures
            r == *self,
    {
        User {
            id: self.id,
            username: self.username.clone(),
            password: self.password.clone(),
            balance: self.balance,
        }
    }
}

/// An ownership record: one owned unit of one catalog item.
#[derive(Clone, Copy, Debug, PartialEq, Eq, Structural)]
pub struct InventoryItem {
    pub id: i64,
    pub user_id: i64,
    pub skin_id: i64,
}

/// A catalog item. The price is in minor units.
#[derive(Debug)]
pub struct Skin {
    pub id: i64,
    pub name: String,
    pub rarity: Option<String>,
    pub price: u64,
    pub collection: Option<String>,
    pub weapon_type: Option<String>,
    pub image_base64: Option<String>,
}

/// What a catalog item is, as plain values.
pub struct SkinView {
    pub id: i64,
    pub name: Seq<char>,
    pub rarity: Option<Seq<char>>,
    pub price: u64,
    pub collection: Option<Seq<char>>,
    pub weapon_type: Option<Seq<char>>,
    pub image_base64: Option<Seq<char>>,
}

impl View for Skin {
    type V = SkinView;

    open spec fn view(&self) -> SkinView {
        SkinView {
            id: self.id,
            name: self.name@,
            rarity: text_view(self.rarity),
            price: self.price,
            collection: text_view(self.collection),
            weapon_type: text_view(self.weapon_type),
            image_base64: text_view(self.image_base64),
        }
    }
}

impl Clone for Skin {
    fn clone(&self) -> (r: Self)
        ensures
            r == *self,
    {
        Skin {
            id: self.id,
            name: self.name.clone(),
            rarity: clone_text(&self.rarity),
            price: self.price,
            collection: clone_text(&self.collection),
            weapon_type: clone_text(&self.weapon_type),
            image_base64: clone_text(&self.image_base64),
        }
    }
}

/// An ownership record together with the catalog item it refers to, if the
/// catalog still holds it.
#[derive(Debug)]
pub struct OwnedSkin {
    pub inventory: InventoryItem,
    pub skin: Option<Skin>,
}

/// What an `OwnedSkin` is, as plain values.
pub struct OwnedSkinView {
    pub inventory: InventoryItem,
    pub skin: Option<SkinView>,
}

impl View for OwnedSkin {
    type V = OwnedSkinView;

    open spec fn view(&self) -> OwnedSkinView {
        OwnedSkinView {
            inventory: self.inventory,
            skin: match self.skin {
                Some(s) => Some(s@),
                None => None,
            },
        }
    }
}

impl Clone for OwnedSkin {
    fn clone(&self) -> (r: Self)
        ensures
            r == *self,
    {
        OwnedSkin {
            inventory: self.inventory,
            skin: match &self.skin {
                Some(s) => Some(s.clone()),
                None => None,
            },
        }
    }
}

/// The encoded image in a catalog item's image text. A text that begins with
/// "data:" and holds a comma is a data URI, whose payload follows the first
/// comma; any other text is the payload itself.
pub open spec fn payload_of(image: Seq<char>) -> Seq<char> {
    if has_prefix(image, "data:"@) && has_substring(image, ","@) {
        image.subrange((choose|at: int| first_occurs_at(image, ","@, at)) + 1, image.len() as int)
    } else {
        image
    }
}

/// The encoded image in a catalog item's image text, without the header of a
/// data URI.
pub fn image_payload(image: &str) -> (payload: &str)
    ensures
        payload@ == payload_of(image@),
{
    if !text::starts_with(image, "data:") {
        return image;
    }
    match text::split_once(image, ",") {
        Some((head, tail)) => {
            proof {
                reveal_strlit(",");
                let at = head@.len() as int;
                let chosen = choose|at: int| first_occurs_at(image@, ","@, at);
                assert(first_occurs_at(image@, ","@, chosen));
                assert(chosen == at) by {
                    if chosen < at {
                        assert(!crate::text::occurs_at(image@, ","@, chosen));
                    } else if at < chosen {
                        assert(!crate::text::occurs_at(image@, ","@, at));
                    }
                }
            }
            tail
        },
        None => image,
    }
}

} // verus!
