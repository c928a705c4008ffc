//! World state model. World transitions are intentionally absent until
//! observed behaviour is documented.
use vstd::prelude::*;
use std::collections::HashMap;

verus! {

#[derive(Clone, Debug)]
pub struct Zone {
    pub id: String,
    pub definition_hash: Option<String>,
}

#[derive(Clone, Debug)]
pub struct WorldObject {
    pub id: String,
    pub definition_hash: Option<String>,
}

#[derive(Clone, Debug, Default)]
pub struct WorldState {
    pub zones: Vec<Zone>,
    pub player_locations: HashMap<String, String>,
    pub objects: Vec<WorldObject>,
    pub events: Vec<String>,
    pub activity_state: HashMap<String, String>,
}

#[derive(Default)]
pub struct WorldService {
    pub state: WorldState,
}

} // verus!
