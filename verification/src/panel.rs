//! Control panels: per entity type a tree of named action grids, the catalog
//! of those trees, and the navigation between the panels of one tree.

use vstd::hash_map::StringHashMap;
use vstd::prelude::*;

verus! {

/// Number of action slots in one row of a panel.
pub const PANEL_COLUMNS: usize = 5;

/// Number of rows of a panel.
pub const PANEL_ROWS: usize = 3;

/// A move between the panels of one tree.
#[derive(Debug, Clone, PartialEq, Eq)]
pub enum PanelTransition {
    /// Open the named panel on top of the current one.
    Push(String),
    /// Go back to the panel that was open before.
    Pop,
}

/// What activating a slot of a panel does.
#[derive(Debug, Clone)]
pub enum ControlPanelAction {
    /// Execute the command with this identifier.
    ExecuteCommand(String),
    /// Move to another panel.
    TransitionPanel(PanelTransition),
    /// Execute the command, then move to another panel: both or neither.
    ExecuteAndTransition { command_id: String, transition: PanelTransition },
}

/// One panel: a grid of 3 rows by 5 columns of optional actions.
#[derive(Debug, Clone)]
pub struct ControlPanel {
    pub entries: [[Option<ControlPanelAction>; PANEL_COLUMNS]; PANEL_ROWS],
}

impl ControlPanel {
    /// A panel without actions.
    pub fn new() -> (p: ControlPanel)
        ensures
            forall|row: int, column: int|
                0 <= row < PANEL_ROWS && 0 <= column < PANEL_COLUMNS
                    ==> #[trigger] p.entries[row][column] is None,
    {
        ControlPanel {
            entries: [
                [None, None, None, None, None],
                [None, None, None, None, None],
                [None, None, None, None, None],
            ],
        }
    }

    /// The action in the slot at `row` and `column`, if the slot holds one.
    pub fn action_at(&self, row: usize, column: usize) -> (action: Option<&ControlPanelAction>)
        requires
            row < PANEL_ROWS,
            column < PANEL_COLUMNS,
        ensures
            match action {
                Some(a) => self.entries[row as int][column as int] == Some(*a),
                None => self.entries[row as int][column as int] is None,
            },
    {
        self.entries[row][column].as_ref()
    }

    /// Puts `action` into the slot at `row` and `column`, in place of what the
    /// slot held.
    pub fn set_action(&mut self, row: usize, column: usize, action: ControlPanelAction)
        requires
            row < PANEL_ROWS,
            column < PANEL_COLUMNS,
        ensures
            final(self).entries[row as int][column as int] == Some(action),
            forall|r: int, c: int|
                0 <= r < PANEL_ROWS && 0 <= c < PANEL_COLUMNS && (r != row || c != column)
                    ==> #[trigger] final(self).entries[r][c] == old(self).entries[r][c],
    {
        self.entries[row][column] = Some(action);
    }
}

impl Default for ControlPanel {
    fn default() -> (p: ControlPanel)
        ensures
            forall|row: int, column: int|
                0 <= row < PANEL_ROWS && 0 <= column < PANEL_COLUMNS
                    ==> #[trigger] p.entries[row][column] is None,
    {
        ControlPanel::new()
    }
}

/// A tree of panels as a value: the name of the root panel and the panels by
/// name.
pub struct TreeView {
    pub root: Seq<char>,
    pub panels: Map<Seq<char>, ControlPanel>,
}

/// The panels of one entity type: a root panel name and the named panels that
/// the transitions of the tree can open.
pub struct ControlPanelTree {
    root: String,
    panels: StringHashMap<ControlPanel>,
}

impl View for ControlPanelTree {
    type V = TreeView;

    closed spec fn view(&self) -> TreeView {
        TreeView { root: self.root@, panels: self.panels@ }
    }
}

impl ControlPanelTree {
    /// A tree with the given root panel name and no panels yet.
    pub fn new(root: &str) -> (t: ControlPanelTree)
        ensures
            t@.root == root@,
            t@.panels == Map::<Seq<char>, ControlPanel>::empty(),
    {
        ControlPanelTree { root: root.to_owned(), panels: StringHashMap::new() }
    }

    /// The name of the root panel.
    pub fn root(&self) -> (name: &str)
        ensures
            name@ == self@.root,
    {
        self.root.as_str()
    }

    /// Adds `panel` under `name`. A panel added earlier under that name is
    /// replaced, and the result says so.
    pub fn insert_panel(&mut self, name: &str, panel: ControlPanel) -> (replaced: bool)
        ensures
            final(self)@.root == old(self)@.root,
            final(self)@.panels == old(self)@.panels.insert(name@, panel),
            replaced == old(self)@.panels.contains_key(name@),
    {
        let replaced = self.panels.contains_key(name);
        self.panels.insert(name.to_owned(), panel);
        replaced
    }

    /// Whether the tree has a panel named `name`.
    pub fn has_panel(&self, name: &str) -> (b: bool)
        ensures
            b == self@.panels.contains_key(name@),
    {
        self.panels.contains_key(name)
    }

    /// The panel named `name`, if the tree has one.
    pub fn panel(&self, name: &str) -> (p: Option<&ControlPanel>)
        ensures
            match p {
                Some(panel) => self@.panels.contains_key(name@) && *panel == self@.panels[name@],
                None => !self@.panels.contains_key(name@),
            },
    {
        self.panels.get(name)
    }
}

/// The catalog of panel trees, by entity type. The last registration of an
/// entity type wins.
pub struct ControlPanelRegistry {
    panels: StringHashMap<ControlPanelTree>,
}

impl View for ControlPanelRegistry {
    type V = Map<Seq<char>, ControlPanelTree>;

    closed spec fn view(&self) -> Map<Seq<char>, ControlPanelTree> {
        self.panels@
    }
}

impl Default for ControlPanelRegistry {
    fn default() -> (r: ControlPanelRegistry)
        ensures
            r@ == Map::<Seq<char>, ControlPanelTree>::empty(),
    {
        ControlPanelRegistry::new()
    }
}

impl ControlPanelRegistry {
    /// An empty catalog.
    pub fn new() -> (r: ControlPanelRegistry)
        ensures
            r@ == Map::<Seq<char>, ControlPanelTree>::empty(),
    {
        ControlPanelRegistry { panels: StringHashMap::new() }
    }

    /// Registers `panel_tree` for `entity_type`. A tree registered earlier for
    /// that entity type is replaced, and the result says so.
    pub fn register(&mut self, entity_type: String, panel_tree: ControlPanelTree) -> (replaced:
        bool)
        ensures
            final(self)@ == old(self)@.insert(entity_type@, panel_tree),
            replaced == old(self)@.contains_key(entity_type@),
    {
        let replaced = self.panels.contains_key(entity_type.as_str());
        self.panels.insert(entity_type, panel_tree);
        replaced
    }

    /// The tree registered for `entity_type`, if there is one.
    pub fn get(&self, entity_type: &str) -> (tree: Option<&ControlPanelTree>)
        ensures
            match tree {
                Some(t) => self@.contains_key(entity_type@) && *t == self@[entity_type@],
                None => !self@.contains_key(entity_type@),
            },
    {
        self.panels.get(entity_type)
    }
}

/// Why a move between panels was refused.
#[derive(Debug, Clone, PartialEq, Eq)]
pub enum NavigationError {
    /// The tree has no panel of this name.
    UnknownPanel(String),
}

/// The panel that is open when `stack` holds the panels pushed so far: the
/// one pushed last, or the root of the tree when nothing is pushed.
pub open spec fn current_panel(tree: TreeView, stack: Seq<Seq<char>>) -> Seq<char> {
    if stack.len() == 0 {
        tree.root
    } else {
        stack.last()
    }
}

/// The stack after the transition `t`, or `None` where `t` pushes a panel
/// that the tree does not have. A pop with nothing pushed changes nothing.
pub open spec fn after_transition(tree: TreeView, stack: Seq<Seq<char>>, t: PanelTransition)
    -> Option<Seq<Seq<char>>> {
    match t {
        PanelTransition::Push(name) => if tree.panels.contains_key(name@) {
            Some(stack.push(name@))
        } else {
            None
        },
        PanelTransition::Pop => if stack.len() == 0 {
            Some(stack)
        } else {
            Some(stack.drop_last())
        },
    }
}

/// The identifier of the command that `action` executes, if it executes one.
pub open spec fn command_of(action: ControlPanelAction) -> Option<Seq<char>> {
    match action {
        ControlPanelAction::ExecuteCommand(id) => Some(id@),
        ControlPanelAction::TransitionPanel(_) => None,
        ControlPanelAction::ExecuteAndTransition { command_id, .. } => Some(command_id@),
    }
}

/// The transition that `action` makes, if it makes one.
pub open spec fn transition_of(action: ControlPanelAction) -> Option<PanelTransition> {
    match action {
        ControlPanelAction::ExecuteCommand(_) => None,
        ControlPanelAction::TransitionPanel(t) => Some(t),
        ControlPanelAction::ExecuteAndTransition { transition, .. } => Some(transition),
    }
}

/// The stack after `action`, or `None` where the action pushes a panel that
/// the tree does not have.
pub open spec fn after_action(tree: TreeView, stack: Seq<Seq<char>>, action: ControlPanelAction)
    -> Option<Seq<Seq<char>>> {
    match transition_of(action) {
        Some(t) => after_transition(tree, stack, t),
        None => Some(stack),
    }
}

/// Where one selection stands in the panels of a tree: the panels pushed on
/// top of the root, oldest first. The tree itself is not part of it, so one
/// tree serves any number of selections.
pub struct PanelNavigation {
    stack: Vec<String>,
}

impl View for PanelNavigation {
    type V = Seq<Seq<char>>;

    closed spec fn view(&self) -> Seq<Seq<char>> {
        Seq::new(self.stack@.len(), |i: int| self.stack@[i]@)
    }
}

impl Default for PanelNavigation {
    fn default() -> (n: PanelNavigation)
        ensures
            n@ == Seq::<Seq<char>>::empty(),
    {
        PanelNavigation::new()
    }
}

impl PanelNavigation {
    /// A navigation that stands at the root panel.
    pub fn new() -> (n: PanelNavigation)
        ensures
            n@ == Seq::<Seq<char>>::empty(),
    {
        PanelNavigation { stack: Vec::new() }
    }

    /// The number of panels pushed on top of the root.
    pub fn depth(&self) -> (d: usize)
        ensures
            d == self@.len(),
    {
        self.stack.len()
    }

    /// The name of the panel that is open.
    pub fn current<'a>(&'a self, tree: &'a ControlPanelTree) -> (name: &'a str)
        ensures
            name@ == current_panel(tree@, self@),
    {
        let n = self.stack.len();
        if n == 0 {
            tree.root()
        } else {
            self.stack[n - 1].as_str()
        }
    }

    /// Makes the transition `transition` in `tree`. A push of a panel that
    /// the tree does not have is an error and changes nothing; a pop at the
    /// root changes nothing and is no error.
    pub fn apply(&mut self, tree: &ControlPanelTree, transition: &PanelTransition) -> (r: Result<
        (),
        NavigationError,
    >)
        ensures
            match after_transition(tree@, old(self)@, *transition) {
                Some(stack) => r is Ok && final(self)@ == stack,
                None => {
                    &&& final(self)@ == old(self)@
                    &&& transition matches PanelTransition::Push(name)
                    &&& r matches Err(NavigationError::UnknownPanel(unknown))
                    &&& unknown@ == name@
                },
            },
    {
        match transition {
            PanelTransition::Push(name) => {
                if tree.has_panel(name.as_str()) {
                    self.stack.push(name.clone());
                    assert(self@ =~= old(self)@.push(name@));
                    Ok(())
                } else {
                    Err(NavigationError::UnknownPanel(name.clone()))
                }
            },
            PanelTransition::Pop => {
                let popped = self.stack.pop();
                assert(old(self)@.len() > 0 ==> self@ =~= old(self)@.drop_last());
                assert(old(self)@.len() == 0 ==> self@ =~= old(self)@);
                Ok(())
            },
        }
    }

    /// Activates a slot of a panel: makes the transition of `action`, if it
    /// has one, and returns the identifier of the command to execute, if it
    /// has one. Where the transition is refused nothing changes and no
    /// command is returned.
    pub fn activate(&mut self, tree: &ControlPanelTree, action: &ControlPanelAction) -> (r: Result<
        Option<String>,
        NavigationError,
    >)
        ensures
            match after_action(tree@, old(self)@, *action) {
                Some(stack) => {
                    &&& final(self)@ == stack
                    &&& r matches Ok(command)
                    &&& match command {
                        Some(id) => command_of(*action) == Some(id@),
                        None => command_of(*action) is None,
                    }
                },
                None => {
                    &&& final(self)@ == old(self)@
                    &&& transition_of(*action) matches Some(PanelTransition::Push(name))
                    &&& r matches Err(NavigationError::UnknownPanel(unknown))
                    &&& unknown@ == name@
                },
            },
    {
        match action {
            ControlPanelAction::ExecuteCommand(id) => Ok(Some(id.clone())),
            ControlPanelAction::TransitionPanel(transition) => {
                match self.apply(tree, transition) {
                    Ok(()) => Ok(None),
                    Err(e) => Err(e),
                }
            },
            ControlPanelAction::ExecuteAndTransition { command_id, transition } => {
                match self.apply(tree, transition) {
                    Ok(()) => Ok(Some(command_id.clone())),
                    Err(e) => Err(e),
                }
            },
        }
    }
}

/// After a push of a panel that the tree has, that panel is the open one.
pub proof fn lemma_push_opens(tree: TreeView, stack: Seq<Seq<char>>, name: String)
    requires
        tree.panels.contains_key(name@),
    ensures
        after_transition(tree, stack, PanelTransition::Push(name)) is Some,
        current_panel(tree, after_transition(tree, stack, PanelTransition::Push(name))->0)
            == name@,
{
}

/// A pop after a push brings back the stack, and so the open panel, from
/// before the push.
pub proof fn lemma_pop_undoes_push(tree: TreeView, stack: Seq<Seq<char>>, name: String)
    requires
        tree.panels.contains_key(name@),
    ensures
        after_transition(
            tree,
            after_transition(tree, stack, PanelTransition::Push(name))->0,
            PanelTransition::Pop,
        ) == Some(stack),
{
    assert(stack.push(name@).drop_last() =~= stack);
}

/// A pop at the root changes nothing: the root stays open.
pub proof fn lemma_pop_at_root(tree: TreeView)
    ensures
        after_transition(tree, Seq::empty(), PanelTransition::Pop) == Some(
            Seq::<Seq<char>>::empty(),
        ),
        current_panel(tree, Seq::empty()) == tree.root,
{
}

/// A push of a panel that the tree does not have is refused.
pub proof fn lemma_push_unknown_refused(tree: TreeView, stack: Seq<Seq<char>>, name: String)
    requires
        !tree.panels.contains_key(name@),
    ensures
        after_transition(tree, stack, PanelTransition::Push(name)) is None,
{
}

} // verus!
