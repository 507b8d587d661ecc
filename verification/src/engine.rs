//! Types of the host engine that the core carries through without ever
//! reading them.

use bevy::ecs::entity::Entity;
use bevy::math::Vec2;
use vstd::prelude::*;

verus! {

/// `bevy::math::Vec2`, a point or offset in world space. Nothing is claimed of
/// its contents: a value is stored and handed on as it came.
#[verifier::external_type_specification]
#[verifier::external_body]
pub struct ExVec2(Vec2);

/// `bevy::ecs::entity::Entity`, the engine's handle to an entity. Nothing is
/// claimed of its contents: a value is stored and handed on as it came.
#[verifier::external_type_specification]
#[verifier::external_body]
pub struct ExEntity(Entity);

/// `Clone::clone` of `bevy::math::Vec2`. The type derives `Clone` and `Copy`,
/// so the clone is the value itself.
pub assume_specification[ <Vec2 as Clone>::clone ](v: &Vec2) -> (r: Vec2)
    ensures
        r == *v,
;

/// `Clone::clone` of `bevy::ecs::entity::Entity`. The type derives `Clone` and
/// `Copy`, so the clone is the value itself.
pub assume_specification[ <Entity as Clone>::clone ](e: &Entity) -> (r: Entity)
    ensures
        r == *e,
;

} // verus!
