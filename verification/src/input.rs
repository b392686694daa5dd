//! Input action engine: per-user banks of named action slots that fold raw
//! per-frame device signals into edge-aware states, so that a level-reporting
//! backend still yields exactly one frame of `Pressed`/`Released` per
//! transition.

use vstd::prelude::*;
use vstd::hash_map::StringHashMap;

verus! {

/// State of a digital (on/off) action slot. `Pressed` and `Released` are
/// derived edge states, valid only for the frame in which the transition
/// occurred; `Down` and `Up` are the level states.
#[derive(Clone, Copy, PartialEq, Eq, Structural, Debug)]
pub enum ActionState {
    Down,
    Pressed,
    Released,
    Up,
}

impl ActionState {
    /// The slot is held: either just pressed this frame or already down.
    pub open spec fn spec_is_down(self) -> bool {
        self == ActionState::Down || self == ActionState::Pressed
    }

    /// The slot is in an edge state, reporting a transition this frame.
    pub open spec fn spec_is_delta(self) -> bool {
        self == ActionState::Pressed || self == ActionState::Released
    }

    pub fn is_down(&self) -> (b: bool)
        ensures
            b == self.spec_is_down(),
    {
        *self == ActionState::Down || *self == ActionState::Pressed
    }

    pub fn is_delta(&self) -> (b: bool)
        ensures
            b == self.spec_is_delta(),
    {
        *self == ActionState::Pressed || *self == ActionState::Released
    }
}

/// Value held by one action slot. The analog payload type `A` is chosen by
/// the application (its scalar kind carries no press/release semantics and is
/// never inspected here).
#[derive(Clone, Copy, Debug)]
pub enum ActionType<A> {
    Digital(ActionState),
    Axis(A),
    Analog { x: A, y: A },
}

impl<A> ActionType<A> {
    pub open spec fn spec_is_down(self) -> bool {
        match self {
            ActionType::Digital(state) => state.spec_is_down(),
            _ => false,
        }
    }

    /// The pure transition that folds an incoming raw signal into the slot.
    ///
    /// - Both sides digital: derive the edge from (was down, is down);
    ///   `marked` false retains an unconsumed edge state, so that several
    ///   bindings feeding one slot within a single frame cannot erase it.
    /// - Digital signal over a continuous value: `Digital(Up)` is the neutral
    ///   sentinel every binding reports by default, and must not reset an
    ///   unrelated continuous value; any other digital signal replaces it.
    /// - Continuous signal: last writer wins.
    pub open spec fn spec_transition(
        previous: ActionType<A>,
        incoming: ActionType<A>,
        marked: bool,
    ) -> ActionType<A> {
        match incoming {
            ActionType::Digital(new_state) => match previous {
                ActionType::Digital(old_state) => {
                    if !marked && old_state.spec_is_delta() {
                        previous
                    } else if old_state.spec_is_down() {
                        if new_state.spec_is_down() {
                            ActionType::Digital(ActionState::Down)
                        } else {
                            ActionType::Digital(ActionState::Released)
                        }
                    } else {
                        if new_state.spec_is_down() {
                            ActionType::Digital(ActionState::Pressed)
                        } else {
                            ActionType::Digital(ActionState::Up)
                        }
                    }
                },
                _ => {
                    if new_state == ActionState::Up {
                        previous
                    } else {
                        incoming
                    }
                },
            },
            _ => incoming,
        }
    }

    pub fn is_down(&self) -> (b: bool)
        ensures
            b == self.spec_is_down(),
    {
        match self {
            ActionType::Digital(state) => state.is_down(),
            _ => false,
        }
    }

    /// Folds `incoming` into `previous`, never overwriting a digital slot
    /// directly, so that edges are derived rather than reported.
    pub fn update(previous: ActionType<A>, incoming: ActionType<A>, updated: bool) -> (r:
        ActionType<A>)
        ensures
            r == Self::spec_transition(previous, incoming, updated),
    {
        match incoming {
            ActionType::Digital(new_state) => match previous {
                ActionType::Digital(old_state) => {
                    if !updated && old_state.is_delta() {
                        return previous;
                    }
                    match (old_state.is_down(), new_state.is_down()) {
                        (true, true) => ActionType::Digital(ActionState::Down),
                        (true, false) => ActionType::Digital(ActionState::Released),
                        (false, true) => ActionType::Digital(ActionState::Pressed),
                        (false, false) => ActionType::Digital(ActionState::Up),
                    }
                },
                _ => match new_state {
                    ActionState::Up => previous,
                    _ => incoming,
                },
            },
            _ => incoming,
        }
    }
}

/// Once an edge has been produced, repeating the very same raw digital signal
/// can only yield a level state: a transition never fires `Pressed` (or
/// `Released`) on two consecutive identical signals.
pub proof fn lemma_no_repeated_edge<A>(previous: ActionType<A>, signal: ActionState)
    ensures
        ({
            let first = ActionType::spec_transition(
                previous,
                ActionType::Digital(signal),
                true,
            );
            let second = ActionType::spec_transition(
                first,
                ActionType::Digital(signal),
                true,
            );
            second != ActionType::<A>::Digital(ActionState::Pressed)
                && second != ActionType::<A>::Digital(ActionState::Released)
        }),
{
}

/// Ghost image of an [`InputActions`] bank: the ordered slots, the name
/// lookup, and whether the bank has been marked updated for this frame.
pub struct InputActionsView<A> {
    pub actions: Seq<ActionType<A>>,
    pub names: Map<Seq<char>, usize>,
    pub marked: bool,
}

impl<A> InputActionsView<A> {
    /// Every name resolves to a live slot.
    pub open spec fn wf(self) -> bool {
        forall|k: Seq<char>| #[trigger] self.names.contains_key(k) ==> self.names[k]
            < self.actions.len()
    }

    pub open spec fn with_marked(self, marked: bool) -> InputActionsView<A> {
        InputActionsView { marked, ..self }
    }
}

/// One user's bank of action slots: an append-only list of values plus a
/// name-to-index map. Slots are addressed by index on the hot path and by
/// name during setup.
pub struct InputActions<A> {
    actions: Vec<ActionType<A>>,
    action_map: StringHashMap<usize>,
    updated: bool,
}

impl<A> View for InputActions<A> {
    type V = InputActionsView<A>;

    closed spec fn view(&self) -> InputActionsView<A> {
        InputActionsView {
            actions: self.actions@,
            names: self.action_map@,
            marked: self.updated,
        }
    }
}

impl<A: Copy> InputActions<A> {
    pub fn new() -> (r: InputActions<A>)
        ensures
            r@.wf(),
            r@.actions == Seq::<ActionType<A>>::empty(),
            r@.names == Map::<Seq<char>, usize>::empty(),
            !r@.marked,
    {
        InputActions {
            actions: Vec::new(),
            action_map: StringHashMap::new(),
            updated: false,
        }
    }

    /// Appends a slot holding `action` and binds `key` to it; rebinding an
    /// existing name points it at the new slot and leaves the old slot in
    /// place (indices, once handed out, never move).
    pub fn add_action(&mut self, key: String, action: ActionType<A>) -> (index: usize)
        requires
            old(self)@.wf(),
        ensures
            final(self)@.wf(),
            index == old(self)@.actions.len(),
            final(self)@.actions == old(self)@.actions.push(action),
            final(self)@.names == old(self)@.names.insert(key@, index),
            final(self)@.marked == old(self)@.marked,
    {
        self.actions.push(action);
        let index = self.actions.len() - 1;
        self.action_map.insert(key, index);
        proof {
            assert forall|k: Seq<char>| #[trigger] self@.names.contains_key(k)
                implies self@.names[k] < self@.actions.len() by {
                if k != key@ {
                    assert(old(self)@.names.contains_key(k));
                }
            }
        }
        index
    }

    /// Folds a raw signal into the slot at `index` via the pure transition,
    /// using the bank's frame mark to decide whether an unconsumed edge may
    /// be replaced.
    pub fn update_action(&mut self, index: usize, incoming: ActionType<A>) -> (r: Result<
        (),
        InputError,
    >)
        requires
            old(self)@.wf(),
        ensures
            final(self)@.wf(),
            index >= old(self)@.actions.len() ==> (r matches Err(e)
                && e == InputError::ActionIndexOutOfBounds && final(self)@ == old(self)@),
            index < old(self)@.actions.len() ==> (r matches Ok(())
                && final(self)@.actions == old(self)@.actions.update(
                index as int,
                ActionType::spec_transition(
                    old(self)@.actions[index as int],
                    incoming,
                    old(self)@.marked,
                ),
            ) && final(self)@.names == old(self)@.names && final(self)@.marked == old(self)@.marked),
    {
        if index >= self.actions.len() {
            return Err(InputError::ActionIndexOutOfBounds);
        }
        let previous = self.actions[index];
        self.actions[index] = ActionType::update(previous, incoming, self.updated);
        proof {
            assert forall|k: Seq<char>| #[trigger] self@.names.contains_key(k)
                implies self@.names[k] < self@.actions.len() by {
                assert(old(self)@.names.contains_key(k));
            }
        }
        Ok(())
    }

    /// Marks the bank as updated: a new frame has begun, so edge states held
    /// from the previous frame may now be consumed by transitions.
    pub fn updated(&mut self)
        ensures
            final(self)@ == old(self)@.with_marked(true),
    {
        self.updated = true;
    }

    /// Clears the frame mark: edge states produced from here on are retained
    /// until the bank is marked updated again.
    pub fn set(&mut self)
        ensures
            final(self)@ == old(self)@.with_marked(false),
    {
        self.updated = false;
    }

    pub fn get_index_by_key(&self, key: &str) -> (r: Result<usize, InputError>)
        ensures
            match r {
                Ok(index) => self@.names.contains_key(key@) && index == self@.names[key@],
                Err(e) => !self@.names.contains_key(key@)
                    && e == InputError::UnrecognizedAction,
            },
    {
        match self.action_map.get(key) {
            Some(i) => Ok(*i),
            None => Err(InputError::UnrecognizedAction),
        }
    }

    pub fn get_action_by_index(&self, index: usize) -> (r: Result<ActionType<A>, InputError>)
        ensures
            index < self@.actions.len() ==> (r matches Ok(a) && a == self@.actions[index as int]),
            index >= self@.actions.len() ==> (r matches Err(e)
                && e == InputError::ActionIndexOutOfBounds),
    {
        if index >= self.actions.len() {
            return Err(InputError::ActionIndexOutOfBounds);
        }
        Ok(self.actions[index])
    }

    pub fn get_action_by_key(&self, key: &str) -> (r: Result<ActionType<A>, InputError>)
        requires
            self@.wf(),
        ensures
            match r {
                Ok(a) => self@.names.contains_key(key@) && a == self@.actions[self@.names[key@] as int],
                Err(e) => !self@.names.contains_key(key@)
                    && e == InputError::UnrecognizedAction,
            },
    {
        match self.get_index_by_key(key) {
            Ok(index) => Ok(self.actions[index]),
            Err(e) => Err(e),
        }
    }
}

/// Binds (user, action slot) to the opaque raw-command descriptors the input
/// backend polls to feed that slot.
pub struct InputCommand<C> {
    pub user_index: usize,
    pub action_index: usize,
    pub commands: Vec<C>,
}

/// All users' action banks plus the raw-command bindings that drive them.
pub struct InputMap<C, A> {
    pub users: Vec<InputActions<A>>,
    pub commands: Vec<InputCommand<C>>,
}

impl<C, A: Copy> InputMap<C, A> {
    pub fn new() -> (r: InputMap<C, A>)
        ensures
            r.users@.len() == 0,
            r.commands@.len() == 0,
    {
        InputMap {
            users: Vec::new(),
            commands: Vec::new(),
        }
    }

    /// Adds a fresh, empty action bank and returns its user index.
    pub fn add_user(&mut self) -> (index: usize)
        ensures
            index == old(self).users@.len(),
            final(self).users@.len() == old(self).users@.len() + 1,
            forall|i: int| 0 <= i < old(self).users@.len() ==> final(self).users@[i] == old(self).users@[i],
            final(self).users@[index as int]@.actions == Seq::<ActionType<A>>::empty(),
            final(self).users@[index as int]@.names == Map::<Seq<char>, usize>::empty(),
            !final(self).users@[index as int]@.marked,
            final(self).commands@ == old(self).commands@,
    {
        self.users.push(InputActions::new());
        self.users.len() - 1
    }

    /// Marks every user's bank updated for the new frame.
    pub fn updated(&mut self)
        ensures
            final(self).users@.len() == old(self).users@.len(),
            forall|i: int| 0 <= i < old(self).users@.len() ==> #[trigger] final(self).users@[i]@
                == old(self).users@[i]@.with_marked(true),
            final(self).commands@ == old(self).commands@,
    {
        let n = self.users.len();
        let mut i: usize = 0;
        while i < n
            invariant
                n == self.users@.len(),
                i <= n,
                self.commands@ == old(self).commands@,
                forall|j: int| 0 <= j < i ==> #[trigger] self.users@[j]@ == old(self).users@[j]@.with_marked(true),
                forall|j: int| i <= j < n ==> #[trigger] self.users@[j] == old(self).users@[j],
            decreases n - i,
        {
            self.users[i].updated();
            i = i + 1;
        }
    }

    /// Clears every user's frame mark.
    pub fn set(&mut self)
        ensures
            final(self).users@.len() == old(self).users@.len(),
            forall|i: int| 0 <= i < old(self).users@.len() ==> #[trigger] final(self).users@[i]@
                == old(self).users@[i]@.with_marked(false),
            final(self).commands@ == old(self).commands@,
    {
        let n = self.users.len();
        let mut i: usize = 0;
        while i < n
            invariant
                n == self.users@.len(),
                i <= n,
                self.commands@ == old(self).commands@,
                forall|j: int| 0 <= j < i ==> #[trigger] self.users@[j]@ == old(self).users@[j]@.with_marked(false),
                forall|j: int| i <= j < n ==> #[trigger] self.users@[j] == old(self).users@[j],
            decreases n - i,
        {
            self.users[i].set();
            i = i + 1;
        }
    }

    /// Registers a named action slot for `user` together with the raw
    /// bindings that will drive it; fails if the user index is unknown.
    pub fn add_action(
        &mut self,
        user: usize,
        key: String,
        commands: Vec<C>,
        action: ActionType<A>,
    ) -> (r: Result<(), InputError>)
        requires
            forall|i: int| 0 <= i < old(self).users@.len() ==> (#[trigger] old(self).users@[i])@.wf(),
        ensures
            forall|i: int| 0 <= i < final(self).users@.len() ==> (#[trigger] final(self).users@[i])@.wf(),
            user >= old(self).users@.len() ==> (r matches Err(e)
                && e == InputError::UserIndexOutOfBounds && final(self).users@ == old(self).users@ && final(self).commands@ == old(self).commands@),
            user < old(self).users@.len() ==> (r matches Ok(()) && {
                let index = old(self).users@[user as int]@.actions.len();
                &&& final(self).users@.len() == old(self).users@.len()
                &&& forall|i: int| 0 <= i < old(self).users@.len() && i != user
                    ==> final(self).users@[i] == old(self).users@[i]
                &&& final(self).users@[user as int]@.actions == old(self).users@[user as int]@.actions.push(action)
                &&& final(self).users@[user as int]@.names == old(self).users@[user as int]@.names.insert(key@, index as usize)
                &&& final(self).commands@.len() == old(self).commands@.len() + 1
                &&& forall|i: int| 0 <= i < old(self).commands@.len() ==> final(self).commands@[i] == old(self).commands@[i]
                &&& final(self).commands@.last().user_index == user
                &&& final(self).commands@.last().action_index == index
                &&& final(self).commands@.last().commands@ == commands@
                &&& final(self).users@[user as int]@.marked == old(
                    self,
                ).users@[user as int]@.marked
            }),
    {
        if user < self.users.len() {
            let index = self.users[user].add_action(key, action);
            let command = InputCommand {
                user_index: user,
                action_index: index,
                commands,
            };
            self.commands.push(command);
            Ok(())
        } else {
            Err(InputError::UserIndexOutOfBounds)
        }
    }
}

/// Failures of slot and user lookups; no lookup ever defaults silently.
#[derive(Clone, Copy, PartialEq, Eq, Structural, Debug)]
pub enum InputError {
    ActionIndexOutOfBounds,
    UnrecognizedAction,
    UserIndexOutOfBounds,
}

} // verus!
