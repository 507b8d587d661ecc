//! Commands: the event that carries one, and the catalog that tells the input
//! layer how the payload of each command is collected.

use bevy::ecs::entity::Entity;
use bevy::math::Vec2;
use vstd::hash_map::StringHashMap;
use vstd::prelude::*;

verus! {

/// What a command is aimed at.
#[derive(Debug, Clone)]
pub enum CommandPayload {
    /// The command has no target.
    NoTarget,
    /// The command is aimed at a point of the world.
    TargetPoint(Vec2),
    /// The command is aimed at an entity.
    TargetEntity(Entity),
}

/// A command on its way to the dispatchers.
#[derive(Debug, Clone)]
pub struct CommandEvent {
    pub command_type: String,
    pub payload: CommandPayload,
}

impl CommandPayload {
    /// An independent copy of the payload.
    pub fn duplicate(&self) -> (copy: CommandPayload)
        ensures
            copy == *self,
    {
        match self {
            CommandPayload::NoTarget => CommandPayload::NoTarget,
            CommandPayload::TargetPoint(point) => CommandPayload::TargetPoint(*point),
            CommandPayload::TargetEntity(entity) => CommandPayload::TargetEntity(*entity),
        }
    }
}

impl CommandEvent {
    /// An independent copy of the event.
    pub fn duplicate(&self) -> (copy: CommandEvent)
        ensures
            copy == *self,
    {
        CommandEvent { command_type: self.command_type.clone(), payload: self.payload.duplicate() }
    }
}

/// How the input layer collects the payload of a command.
#[derive(Debug, Clone, Copy, PartialEq, Eq, Structural)]
pub enum CommandInputMode {
    /// Executed at once, without a target.
    Immediate,
    /// Executed at once, aimed at the point under the pointer.
    ImmediateSpatial,
    /// The user picks a point first.
    SelectTargetedPoint,
    /// The user picks an entity first.
    SelectTargetedEntity,
    /// The user picks a point or an entity first.
    SelectTargetedPointOrEntity,
}

/// The catalog entry of one command.
#[derive(Debug, Clone)]
pub struct CommandEntry {
    pub command_type: String,
    pub input_mode: CommandInputMode,
}

/// The catalog of commands, by command identifier. An entry is stored under
/// its own identifier, and the last registration of an identifier wins.
pub struct CommandRegistry {
    behaviors: StringHashMap<CommandEntry>,
}

impl View for CommandRegistry {
    type V = Map<Seq<char>, CommandEntry>;

    closed spec fn view(&self) -> Map<Seq<char>, CommandEntry> {
        self.behaviors@
    }
}

impl Default for CommandRegistry {
    fn default() -> (r: CommandRegistry)
        ensures
            r.wf(),
            r@ == Map::<Seq<char>, CommandEntry>::empty(),
    {
        CommandRegistry::new()
    }
}

impl CommandRegistry {
    /// Every entry is stored under its own identifier.
    pub open spec fn wf(&self) -> bool {
        forall|k: Seq<char>| #[trigger] self@.contains_key(k) ==> self@[k].command_type@ == k
    }

    /// An empty catalog.
    pub fn new() -> (r: CommandRegistry)
        ensures
            r.wf(),
            r@ == Map::<Seq<char>, CommandEntry>::empty(),
    {
        CommandRegistry { behaviors: StringHashMap::new() }
    }

    /// Registers `behavior` under its own identifier. An entry registered
    /// earlier under that identifier is replaced, and the result says so.
    pub fn register(&mut self, behavior: CommandEntry) -> (replaced: bool)
        requires
            old(self).wf(),
        ensures
            final(self).wf(),
            final(self)@ == old(self)@.insert(behavior.command_type@, behavior),
            replaced == old(self)@.contains_key(behavior.command_type@),
    {
        let replaced = self.behaviors.contains_key(behavior.command_type.as_str());
        let key = behavior.command_type.clone();
        self.behaviors.insert(key, behavior);
        replaced
    }

    /// The entry registered under `command_type`, if there is one.
    pub fn get(&self, command_type: &str) -> (entry: Option<&CommandEntry>)
        requires
            self.wf(),
        ensures
            match entry {
                Some(e) => self@.contains_key(command_type@) && *e == self@[command_type@]
                    && e.command_type@ == command_type@,
                None => !self@.contains_key(command_type@),
            },
    {
        self.behaviors.get(command_type)
    }
}

/// Of two registrations of one identifier only the second can be got
/// afterwards: the catalog is as if the first had never been made.
pub proof fn lemma_last_registration_wins(
    catalog: Map<Seq<char>, CommandEntry>,
    first: CommandEntry,
    second: CommandEntry,
)
    requires
        first.command_type@ == second.command_type@,
    ensures
        catalog.insert(first.command_type@, first).insert(second.command_type@, second)[second.command_type@]
            == second,
        catalog.insert(first.command_type@, first).insert(second.command_type@, second)
            == catalog.insert(second.command_type@, second),
{
    assert(catalog.insert(first.command_type@, first).insert(second.command_type@, second)
        =~= catalog.insert(second.command_type@, second));
}

} // verus!
