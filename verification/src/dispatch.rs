//! The dispatcher pipeline: every registered dispatcher that catches the
//! identifier of a command executes it, in registration order.

use crate::command::CommandEvent;
use vstd::prelude::*;

verus! {

/// A handler that claims commands by their identifier and executes the ones
/// it claims.
pub trait CommandDispatcher: Send + Sync + 'static {
    /// Whether this dispatcher handles commands with the identifier
    /// `command_type`.
    fn catches(&self, command_type: &str) -> bool;

    /// Executes the command of `command_event`.
    fn dispatch_command(&self, command_event: CommandEvent);
}

/// Appends `item` to `items`. The new length is stated for every element
/// type, boxed trait objects included.
fn push_back<T>(items: &mut Vec<T>, item: T)
    ensures
        final(items)@.len() == old(items)@.len() + 1,
{
    items.push(item);
}

/// The dispatchers in the order in which they were registered.
pub struct CommandDispatcherPipeline {
    dispatchers: Vec<Box<dyn CommandDispatcher>>,
}

impl Default for CommandDispatcherPipeline {
    fn default() -> (p: CommandDispatcherPipeline)
        ensures
            p.spec_len() == 0,
    {
        CommandDispatcherPipeline::new()
    }
}

impl CommandDispatcherPipeline {
    /// The number of registered dispatchers.
    pub closed spec fn spec_len(&self) -> nat {
        self.dispatchers@.len()
    }

    /// A pipeline without dispatchers.
    pub fn new() -> (p: CommandDispatcherPipeline)
        ensures
            p.spec_len() == 0,
    {
        CommandDispatcherPipeline { dispatchers: Vec::new() }
    }

    /// The number of registered dispatchers.
    pub fn len(&self) -> (n: usize)
        ensures
            n == self.spec_len(),
    {
        self.dispatchers.len()
    }

    /// Appends `dispatcher` behind the dispatchers registered so far.
    pub fn register_dispatcher(&mut self, dispatcher: Box<dyn CommandDispatcher>)
        ensures
            final(self).spec_len() == old(self).spec_len() + 1,
    {
        push_back(&mut self.dispatchers, dispatcher);
    }

    /// Hands a copy of `command_event` to every dispatcher that catches its
    /// identifier, in registration order, and returns the positions of the
    /// dispatchers that ran. No dispatcher keeps a later one from running; an
    /// event that nobody catches runs nothing and returns an empty list.
    ///
    /// What a dispatcher answers is its own affair: the result is
    /// [`caught_positions`] of the answers, whatever they were.
    pub fn dispatch(&self, command_event: CommandEvent) -> (ran: Vec<usize>)
        ensures
            exists|answers: Seq<bool>|
                answers.len() == self.spec_len() && #[trigger] caught_positions(answers) == ran@,
            ran@.len() <= self.spec_len(),
            forall|k: int| 0 <= k < ran@.len() ==> #[trigger] ran@[k] < self.spec_len(),
            forall|j: int, k: int| 0 <= j < k < ran@.len() ==> ran@[j] < ran@[k],
    {
        let mut answers: Vec<bool> = Vec::new();
        let n = self.dispatchers.len();
        let mut i: usize = 0;
        while i < n
            invariant
                i <= n,
                n == self.dispatchers@.len(),
                answers@.len() == i,
            decreases n - i,
        {
            let caught = self.dispatchers[i].catches(command_event.command_type.as_str());
            if caught {
                let copy = command_event.duplicate();
                assert(copy == command_event);
                self.dispatchers[i].dispatch_command(copy);
            }
            answers.push(caught);
            i = i + 1;
        }
        let ran = positions_of_caught(answers.as_slice());
        proof {
            lemma_caught_positions(answers@);
        }
        ran
    }
}

/// The positions at which `answers` holds `true`, in ascending order.
pub open spec fn caught_positions(answers: Seq<bool>) -> Seq<usize>
    decreases answers.len(),
{
    if answers.len() == 0 {
        Seq::empty()
    } else if answers.last() {
        caught_positions(answers.drop_last()).push((answers.len() - 1) as usize)
    } else {
        caught_positions(answers.drop_last())
    }
}

/// The positions in `caught_positions(answers)` lie inside `answers`, ascend
/// strictly, and are exactly the positions that hold `true`.
pub proof fn lemma_caught_positions(answers: Seq<bool>)
    requires
        answers.len() <= usize::MAX,
    ensures
        caught_positions(answers).len() <= answers.len(),
        forall|k: int|
            0 <= k < caught_positions(answers).len() ==> #[trigger] caught_positions(answers)[k]
                < answers.len(),
        forall|j: int, k: int|
            0 <= j < k < caught_positions(answers).len() ==> caught_positions(answers)[j]
                < caught_positions(answers)[k],
        forall|i: int|
            0 <= i < answers.len() ==> (#[trigger] answers[i] <==> caught_positions(
                answers,
            ).contains(i as usize)),
    decreases answers.len(),
{
    if answers.len() > 0 {
        let front = answers.drop_last();
        let last = (answers.len() - 1) as usize;
        lemma_caught_positions(front);
        let before = caught_positions(front);
        let all = caught_positions(answers);
        assert forall|i: int| 0 <= i < answers.len() implies (#[trigger] answers[i]
            <==> all.contains(i as usize)) by {
            if i < front.len() {
                assert(front[i] == answers[i]);
                if before.contains(i as usize) {
                    let k = choose|k: int| 0 <= k < before.len() && before[k] == i as usize;
                    assert(all[k] == i as usize);
                }
                if all.contains(i as usize) {
                    let k = choose|k: int| 0 <= k < all.len() && all[k] == i as usize;
                    if k < before.len() {
                        assert(before[k] == i as usize);
                    }
                }
            } else {
                if answers.last() {
                    assert(all[all.len() - 1] == last);
                } else if all.contains(i as usize) {
                    let k = choose|k: int| 0 <= k < all.len() && all[k] == i as usize;
                    assert(before[k] < front.len());
                }
            }
        }
    }
}

/// Picks the dispatchers that ran out of what each dispatcher answered:
/// `answers[i]` is what the dispatcher at position `i` said to the command.
pub fn positions_of_caught(answers: &[bool]) -> (ran: Vec<usize>)
    ensures
        ran@ == caught_positions(answers@),
{
    let mut ran: Vec<usize> = Vec::new();
    let n = answers.len();
    let mut i: usize = 0;
    while i < n
        invariant
            i <= n,
            n == answers@.len(),
            ran@ == caught_positions(answers@.take(i as int)),
        decreases n - i,
    {
        assert(answers@.take(i + 1).drop_last() =~= answers@.take(i as int));
        if answers[i] {
            ran.push(i);
        }
        i = i + 1;
    }
    assert(answers@.take(n as int) =~= answers@);
    ran
}

/// A dispatcher made of a list of command identifiers and a handler: it
/// catches exactly the listed identifiers and hands each caught event to the
/// handler.
pub struct ListDispatcher<F: Fn(CommandEvent) + Send + Sync + 'static> {
    commands: Vec<String>,
    handler: F,
}

impl<F: Fn(CommandEvent) + Send + Sync + 'static> ListDispatcher<F> {
    #[verifier::type_invariant]
    spec fn handler_takes_every_event(self) -> bool {
        forall|event: CommandEvent| call_requires(self.handler, (event,))
    }

    /// The identifiers that this dispatcher catches.
    pub closed spec fn caught(&self) -> Seq<Seq<char>> {
        Seq::new(self.commands@.len(), |i: int| self.commands@[i]@)
    }

    /// A dispatcher that catches the identifiers in `commands` and executes
    /// with `handler`. The handler must accept every event, as every function
    /// or closure without a precondition of its own does.
    pub fn new(commands: Vec<String>, handler: F) -> (d: Self)
        requires
            forall|event: CommandEvent| call_requires(handler, (event,)),
        ensures
            d.caught() == Seq::new(commands@.len(), |i: int| commands@[i]@),
    {
        ListDispatcher { commands, handler }
    }
}

impl<F: Fn(CommandEvent) + Send + Sync + 'static> CommandDispatcher for ListDispatcher<F> {
    fn catches(&self, command_type: &str) -> (caught: bool)
        ensures
            caught == self.caught().contains(command_type@),
    {
        let wanted = command_type.to_owned();
        let n = self.commands.len();
        let mut i: usize = 0;
        while i < n
            invariant
                i <= n,
                n == self.commands@.len(),
                wanted@ == command_type@,
                forall|j: int| 0 <= j < i ==> self.caught()[j] != command_type@,
            decreases n - i,
        {
            if self.commands[i] == wanted {
                assert(self.caught()[i as int] == command_type@);
                return true;
            }
            i = i + 1;
        }
        false
    }

    fn dispatch_command(&self, command_event: CommandEvent) {
        proof {
            use_type_invariant(self);
        }
        (self.handler)(command_event)
    }
}

} // verus!
