//! Buildings: the catalog of what can be placed, and the placement of a
//! cataloged building on the grid.

use crate::coords::GridVec;
use crate::grid::{footprint, marked, placeable, GridMap};
use bevy::math::Vec2;
use vstd::hash_map::StringHashMap;
use vstd::prelude::*;

verus! {

/// One kind of building that can be placed. `V` is the presentation layer's
/// handle to what the building looks like and `B` its construction callback;
/// the core stores both and reads neither.
pub struct BuildingEntry<V, B> {
    /// The cells that the building covers, as offsets from its anchor cell.
    pub occlusion_map: Vec<GridVec>,
    /// Where the placement cursor is drawn, relative to the anchor cell.
    pub build_cursor_offset: Vec2,
    /// The handle to the building's look.
    pub visual: V,
    /// A text for the player.
    pub description: Option<String>,
    /// Called by whoever placed the building, after the placement succeeded.
    pub builder: B,
}

/// The catalog of buildings, by building identifier. The last registration of
/// an identifier wins.
#[verifier::reject_recursive_types(V)]
#[verifier::reject_recursive_types(B)]
pub struct BuildingRegistry<V, B> {
    buildings: StringHashMap<BuildingEntry<V, B>>,
}

impl<V, B> View for BuildingRegistry<V, B> {
    type V = Map<Seq<char>, BuildingEntry<V, B>>;

    closed spec fn view(&self) -> Map<Seq<char>, BuildingEntry<V, B>> {
        self.buildings@
    }
}

impl<V, B> Default for BuildingRegistry<V, B> {
    fn default() -> (r: Self)
        ensures
            r@ == Map::<Seq<char>, BuildingEntry<V, B>>::empty(),
    {
        BuildingRegistry::new()
    }
}

impl<V, B> BuildingRegistry<V, B> {
    /// An empty catalog.
    pub fn new() -> (r: Self)
        ensures
            r@ == Map::<Seq<char>, BuildingEntry<V, B>>::empty(),
    {
        BuildingRegistry { buildings: StringHashMap::new() }
    }

    /// Registers `entry` under `id`. An entry registered earlier under that
    /// identifier is replaced, and the result says so.
    pub fn register(&mut self, id: &str, entry: BuildingEntry<V, B>) -> (replaced: bool)
        ensures
            final(self)@ == old(self)@.insert(id@, entry),
            replaced == old(self)@.contains_key(id@),
    {
        let replaced = self.buildings.contains_key(id);
        self.buildings.insert(id.to_owned(), entry);
        replaced
    }

    /// The entry registered under `id`, if there is one.
    pub fn lookup(&self, id: &str) -> (entry: Option<&BuildingEntry<V, B>>)
        ensures
            match entry {
                Some(e) => self@.contains_key(id@) && *e == self@[id@],
                None => !self@.contains_key(id@),
            },
    {
        self.buildings.get(id)
    }
}

/// How an attempt to place a cataloged building ended.
#[derive(Clone, Copy, Debug, PartialEq, Eq, Structural)]
pub enum PlacementOutcome {
    /// No building is registered under the identifier; the grid is untouched.
    UnknownBuilding,
    /// A covered cell is occupied or lies in a chunk that does not exist; the
    /// grid is untouched.
    Blocked,
    /// Every covered cell was free and is occupied now.
    Placed,
}

/// What placing the building `id` at `anchor` comes to on the grid `m`.
pub open spec fn placement_outcome<V, B>(
    catalog: Map<Seq<char>, BuildingEntry<V, B>>,
    m: crate::grid::Chunks,
    id: Seq<char>,
    anchor: GridVec,
) -> PlacementOutcome {
    if !catalog.contains_key(id) {
        PlacementOutcome::UnknownBuilding
    } else if placeable(m, footprint(anchor@, catalog[id].occlusion_map@)) {
        PlacementOutcome::Placed
    } else {
        PlacementOutcome::Blocked
    }
}

/// Places the building registered under `id` with its anchor at `anchor`. The
/// outcome depends on the catalog and on occupancy alone; calling the
/// building's construction callback is left to the caller.
pub fn place_building<V, B>(
    map: &mut GridMap,
    registry: &BuildingRegistry<V, B>,
    id: &str,
    anchor: GridVec,
) -> (outcome: PlacementOutcome)
    ensures
        outcome == placement_outcome(registry@, old(map)@, id@, anchor),
        outcome == PlacementOutcome::Placed ==> final(map)@ == marked(
            old(map)@,
            footprint(anchor@, registry@[id@].occlusion_map@),
        ),
        outcome != PlacementOutcome::Placed ==> final(map)@ == old(map)@,
{
    match registry.lookup(id) {
        None => PlacementOutcome::UnknownBuilding,
        Some(entry) => {
            if map.try_place(anchor, entry.occlusion_map.as_slice()) {
                PlacementOutcome::Placed
            } else {
                PlacementOutcome::Blocked
            }
        },
    }
}

/// Of two registrations under one identifier only the second can be looked
/// up afterwards: the catalog is as if the first had never been made.
pub proof fn lemma_last_registration_wins<V, B>(
    catalog: Map<Seq<char>, BuildingEntry<V, B>>,
    id: Seq<char>,
    first: BuildingEntry<V, B>,
    second: BuildingEntry<V, B>,
)
    ensures
        catalog.insert(id, first).insert(id, second).contains_key(id),
        catalog.insert(id, first).insert(id, second)[id] == second,
        catalog.insert(id, first).insert(id, second) == catalog.insert(id, second),
{
    assert(catalog.insert(id, first).insert(id, second) =~= catalog.insert(id, second));
}

/// A registration changes what is looked up under its own identifier and
/// under no other.
pub proof fn lemma_registration_is_local<V, B>(
    catalog: Map<Seq<char>, BuildingEntry<V, B>>,
    id: Seq<char>,
    entry: BuildingEntry<V, B>,
    other: Seq<char>,
)
    requires
        other != id,
    ensures
        catalog.insert(id, entry).contains_key(other) == catalog.contains_key(other),
        catalog.contains_key(other) ==> catalog.insert(id, entry)[other] == catalog[other],
{
}

} // verus!
