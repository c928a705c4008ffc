//! Player and game state model. Persistence is deferred: values live in
//! memory and are serialised by the application layer.
use vstd::prelude::*;

verus! {

#[derive(Debug, Clone, Default, PartialEq)]
pub struct Player {
    pub id: String,
    pub inventory: Vec<InventoryItem>,
    pub characters: Vec<Character>,
    pub progression: Progression,
}

#[derive(Debug, Clone, Default, PartialEq)]
pub struct InventoryItem {
    pub item_hash: String,
    pub quantity: u32,
    pub state: String,
}

#[derive(Debug, Clone, Default, PartialEq)]
pub struct Character {
    pub id: String,
    pub class: String,
    pub level: u32,
}

#[derive(Debug, Clone, Copy, Default, PartialEq, Eq, Structural)]
pub struct Progression {
    pub level: u32,
    pub score: u64,
}

} // verus!
