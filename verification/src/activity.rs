//! Activity instances and their lifecycle states.
use vstd::prelude::*;
use crate::text::lit;

verus! {

#[derive(Clone, Copy, Debug, PartialEq, Eq, Structural)]
pub enum ActivityState {
    Matchmaking,
    Active,
    Completed,
    Unknown,
}

#[derive(Clone, Debug)]
pub struct ActivityInstance {
    pub id: String,
    pub definition_hash: String,
    pub players: Vec<String>,
    pub state: ActivityState,
    pub rewards: Vec<String>,
}

/// A newly created instance: the given id and definition, no player, no
/// reward, its state not yet known.
pub open spec fn fresh_instance(a: ActivityInstance, id: Seq<char>, definition_hash: Seq<char>) -> bool {
    &&& a.id@ == id
    &&& a.definition_hash@ == definition_hash
    &&& a.players@.len() == 0
    &&& a.state == ActivityState::Unknown
    &&& a.rewards@.len() == 0
}

/// Creates the instance `id` of the activity `definition_hash` after the
/// existing ones.
pub fn create_instance(instances: &mut Vec<ActivityInstance>, id: String, definition_hash: String)
    ensures
        final(instances)@.len() == old(instances)@.len() + 1,
        forall|i: int| 0 <= i < old(instances)@.len() ==> #[trigger] final(instances)@[i] == old(instances)@[i],
        fresh_instance(final(instances)@.last(), id@, definition_hash@),
{
    instances.push(ActivityInstance {
        id,
        definition_hash,
        players: Vec::new(),
        state: ActivityState::Unknown,
        rewards: Vec::new(),
    });
}

/// What a client is shown of an activity instance: its id and the name of
/// its state.
#[derive(Debug, Clone)]
pub struct ActivityView {
    pub id: String,
    pub state: String,
}

/// The name of a state, as it is written in the code.
pub open spec fn spec_state_name(s: ActivityState) -> Seq<char> {
    match s {
        ActivityState::Matchmaking => "Matchmaking"@,
        ActivityState::Active => "Active"@,
        ActivityState::Completed => "Completed"@,
        ActivityState::Unknown => "Unknown"@,
    }
}

pub fn state_name(s: ActivityState) -> (r: String)
    ensures
        r@ == spec_state_name(s),
{
    match s {
        ActivityState::Matchmaking => lit("Matchmaking"),
        ActivityState::Active => lit("Active"),
        ActivityState::Completed => lit("Completed"),
        ActivityState::Unknown => lit("Unknown"),
    }
}

/// The view of every instance, in order: its id and its state's name.
pub fn activity_views(instances: &Vec<ActivityInstance>) -> (v: Vec<ActivityView>)
    ensures
        v@.len() == instances@.len(),
        forall|i: int| 0 <= i < instances@.len() ==> {
            &&& (#[trigger] v@[i]).id@ == instances@[i].id@
            &&& v@[i].state@ == spec_state_name(instances@[i].state)
        },
{
    let mut v: Vec<ActivityView> = Vec::new();
    let n = instances.len();
    for i in 0..n
        invariant
            n == instances@.len(),
            v@.len() == i,
            forall|j: int| 0 <= j < i ==> {
                &&& (#[trigger] v@[j]).id@ == instances@[j].id@
                &&& v@[j].state@ == spec_state_name(instances@[j].state)
            },
    {
        let a = &instances[i];
        v.push(ActivityView { id: a.id.clone(), state: state_name(a.state) });
    }
    v
}

} // verus!
