use bevy::math::Vec2;
use rts_core::building::{place_building, BuildingEntry, BuildingRegistry, PlacementOutcome};
use rts_core::command::{CommandEntry, CommandInputMode, CommandRegistry};
use rts_core::coords::GridVec;
use rts_core::grid::GridMap;

fn v(x: i32, y: i32) -> GridVec {
    GridVec::new(x, y)
}

fn barracks(visual: u32, description: &str) -> BuildingEntry<u32, fn(GridVec) -> i32> {
    fn area(anchor: GridVec) -> i32 {
        anchor.x * anchor.y
    }
    BuildingEntry {
        occlusion_map: vec![v(0, 0), v(1, 0), v(0, 1), v(1, 1)],
        build_cursor_offset: Vec2::new(-2.0, -2.0),
        visual,
        description: Some(description.to_string()),
        builder: area,
    }
}

#[test]
fn registry_overwrite() {
    let mut registry = BuildingRegistry::new();
    assert!(registry.lookup("core:barracks").is_none());
    assert!(!registry.register("core:barracks", barracks(1, "first")));
    assert!(registry.register("core:barracks", barracks(2, "second")));
    let entry = registry.lookup("core:barracks").unwrap();
    assert_eq!(entry.visual, 2);
    assert_eq!(entry.description.as_deref(), Some("second"));
    assert_eq!(entry.build_cursor_offset, Vec2::new(-2.0, -2.0));
    assert_eq!(entry.occlusion_map.len(), 4);
    assert_eq!((entry.builder)(v(3, 4)), 12);
}

#[test]
fn building_lookup_miss_is_none() {
    let mut registry = BuildingRegistry::new();
    registry.register("core:barracks", barracks(1, "first"));
    assert!(registry.lookup("core:tower").is_none());
    assert!(registry.lookup("").is_none());
    assert!(registry.lookup("core:barrack").is_none());
}

#[test]
fn buildings_under_different_identifiers_do_not_interfere() {
    let mut registry = BuildingRegistry::new();
    assert!(!registry.register("core:barracks", barracks(1, "first")));
    assert!(!registry.register("core:tower", barracks(2, "second")));
    assert_eq!(registry.lookup("core:barracks").unwrap().visual, 1);
    assert_eq!(registry.lookup("core:tower").unwrap().visual, 2);
}

#[test]
fn place_building_places_the_registered_footprint() {
    let mut map = GridMap::new();
    map.create_chunk(v(0, 0));
    let mut registry = BuildingRegistry::new();
    registry.register("core:barracks", barracks(1, "first"));
    let outcome = place_building(&mut map, &registry, "core:barracks", v(3, 3));
    assert_eq!(outcome, PlacementOutcome::Placed);
    assert!(map.is_occupied(v(0, 0), v(3, 3)));
    assert!(map.is_occupied(v(0, 0), v(4, 3)));
    assert!(map.is_occupied(v(0, 0), v(3, 4)));
    assert!(map.is_occupied(v(0, 0), v(4, 4)));
    assert!(!map.is_occupied(v(0, 0), v(5, 5)));
}

#[test]
fn place_building_is_blocked_by_occupancy_and_by_missing_chunks() {
    let mut map = GridMap::new();
    map.create_chunk(v(0, 0));
    let mut registry = BuildingRegistry::new();
    registry.register("core:barracks", barracks(1, "first"));
    assert_eq!(
        place_building(&mut map, &registry, "core:barracks", v(3, 3)),
        PlacementOutcome::Placed
    );
    assert_eq!(
        place_building(&mut map, &registry, "core:barracks", v(4, 4)),
        PlacementOutcome::Blocked
    );
    assert!(!map.is_occupied(v(0, 0), v(5, 5)));
    assert_eq!(
        place_building(&mut map, &registry, "core:barracks", v(15, 15)),
        PlacementOutcome::Blocked
    );
    assert!(!map.is_occupied(v(0, 0), v(15, 15)));
}

#[test]
fn place_building_of_unknown_identifier_touches_nothing() {
    let mut map = GridMap::new();
    map.create_chunk(v(0, 0));
    let mut registry = BuildingRegistry::new();
    registry.register("core:barracks", barracks(1, "first"));
    assert_eq!(
        place_building(&mut map, &registry, "core:tower", v(3, 3)),
        PlacementOutcome::UnknownBuilding
    );
    assert!(!map.is_occupied(v(0, 0), v(3, 3)));
}

#[test]
fn command_registry_registers_under_the_entry_identifier() {
    let mut registry = CommandRegistry::new();
    assert!(registry.get("core:move").is_none());
    let replaced = registry.register(CommandEntry {
        command_type: "core:move".to_string(),
        input_mode: CommandInputMode::SelectTargetedPoint,
    });
    assert!(!replaced);
    let entry = registry.get("core:move").unwrap();
    assert_eq!(entry.command_type, "core:move");
    assert_eq!(entry.input_mode, CommandInputMode::SelectTargetedPoint);
    assert!(registry.get("core:stop").is_none());
}

#[test]
fn command_registry_overwrite_keeps_the_last_entry() {
    let mut registry = CommandRegistry::new();
    registry.register(CommandEntry {
        command_type: "core:attack".to_string(),
        input_mode: CommandInputMode::SelectTargetedEntity,
    });
    let replaced = registry.register(CommandEntry {
        command_type: "core:attack".to_string(),
        input_mode: CommandInputMode::SelectTargetedPointOrEntity,
    });
    assert!(replaced);
    assert_eq!(
        registry.get("core:attack").unwrap().input_mode,
        CommandInputMode::SelectTargetedPointOrEntity
    );
}

#[test]
fn command_registry_holds_every_input_mode() {
    let modes = [
        ("core:stop", CommandInputMode::Immediate),
        ("core:move_here", CommandInputMode::ImmediateSpatial),
        ("core:move", CommandInputMode::SelectTargetedPoint),
        ("core:use", CommandInputMode::SelectTargetedEntity),
        ("core:attack", CommandInputMode::SelectTargetedPointOrEntity),
    ];
    let mut registry = CommandRegistry::new();
    for (id, mode) in modes {
        assert!(!registry.register(CommandEntry { command_type: id.to_string(), input_mode: mode }));
    }
    for (id, mode) in modes {
        assert_eq!(registry.get(id).unwrap().input_mode, mode);
    }
}

#[test]
fn default_catalogs_are_empty() {
    let buildings: BuildingRegistry<u32, ()> = BuildingRegistry::default();
    assert!(buildings.lookup("core:barracks").is_none());
    let commands = CommandRegistry::default();
    assert!(commands.get("core:move").is_none());
}
