//! Filling the catalog from a list of definitions.

use vstd::prelude::*;
use crate::db::{add_skin, Store};
use crate::model::{add_skin_outcome, add_skin_state, StoreView};
use crate::error::EngineError;
use crate::models::{borrow_text, text_view, SkinView};

verus! {

/// A catalog item as a seed list defines it. An absent price counts as 0.
#[derive(Debug)]
pub struct SeedSkin {
    pub name: String,
    pub rarity: Option<String>,
    pub price: Option<u64>,
    pub collection: Option<String>,
    pub weapon_type: Option<String>,
    pub image_base64: Option<String>,
}

impl View for SeedSkin {
    type V = SkinView;

    /// The definition as a catalog item that has no id yet.
    open spec fn view(&self) -> SkinView {
        SkinView {
            id: 0,
            name: self.name@,
            rarity: text_view(self.rarity),
            price: match self.price {
                Some(price) => price,
                None => 0,
            },
            collection: text_view(self.collection),
            weapon_type: text_view(self.weapon_type),
            image_base64: text_view(self.image_base64),
        }
    }
}

/// Whether a definition can be added: it can, unless its name is new to the
/// catalog and no catalog id is left.
pub open spec fn seed_outcome(s: StoreView, definition: SkinView) -> Result<(), EngineError> {
    match add_skin_outcome(s, definition) {
        Ok(_) => Ok(()),
        Err(e) => Err(e),
    }
}

/// The store after the first `upto` definitions have been added one after
/// the other, each as far as it can be.
pub open spec fn seeded(s: StoreView, definitions: Seq<SkinView>, upto: int) -> StoreView
    decreases upto,
{
    if upto <= 0 {
        s
    } else {
        add_skin_state(seeded(s, definitions, upto - 1), definitions[upto - 1])
    }
}

/// The views of a list of definitions.
pub open spec fn seeds_view(list: Seq<SeedSkin>) -> Seq<SkinView> {
    list.map_values(|d: SeedSkin| d@)
}

/// Adds one definition to the catalog, unless the catalog holds its name
/// already.
pub fn seed_one(store: &mut Store, s: &SeedSkin) -> (r: Result<(), EngineError>)
    requires
        old(store).wf(),
    ensures
        final(store).wf(),
        r == seed_outcome(old(store)@, s@),
        final(store)@ == add_skin_state(old(store)@, s@),
{
    let price = match s.price {
        Some(price) => price,
        None => 0,
    };
    match add_skin(
        store,
        s.name.as_str(),
        borrow_text(&s.rarity),
        price,
        borrow_text(&s.collection),
        borrow_text(&s.weapon_type),
        borrow_text(&s.image_base64),
    ) {
        Ok(_) => Ok(()),
        Err(e) => Err(e),
    }
}

/// Adds the definitions to the catalog one after the other. A definition
/// that cannot be added is passed over.
pub fn seed_all(store: &mut Store, list: &Vec<SeedSkin>)
    requires
        old(store).wf(),
    ensures
        final(store).wf(),
        final(store)@ == seeded(old(store)@, seeds_view(list@), list.len() as int),
{
    let mut i: usize = 0;
    while i < list.len()
        invariant
            i <= list.len(),
            store.wf(),
            store@ == seeded(old(store)@, seeds_view(list@), i as int),
        decreases list.len() - i,
    {
        let _ = seed_one(store, &list[i]);
        i += 1;
    }
}

} // verus!
