//! Directions, buttons and the tracker that turns key events into actions.

use std::collections::VecDeque;
use vstd::prelude::*;

verus! {

/// One of the four ways to step on the grid.
#[derive(Copy, Clone, Debug, Hash, PartialEq, Eq, Structural)]
pub enum Direction {
    Up,
    Down,
    Left,
    Right,
}

impl Direction {
    /// The direction that undoes a step in `self`.
    pub open spec fn spec_opposite(self) -> Direction {
        match self {
            Direction::Up => Direction::Down,
            Direction::Down => Direction::Up,
            Direction::Left => Direction::Right,
            Direction::Right => Direction::Left,
        }
    }

    /// The direction that undoes a step in `self`.
    #[verifier::when_used_as_spec(spec_opposite)]
    pub fn opposite(self) -> (r: Direction)
        ensures
            r == self.spec_opposite(),
    {
        match self {
            Direction::Up => Direction::Down,
            Direction::Down => Direction::Up,
            Direction::Left => Direction::Right,
            Direction::Right => Direction::Left,
        }
    }
}

/// One pending move of the player, with the state of the fire button at the
/// time the move was recorded.
#[derive(Debug, Copy, Clone)]
pub struct Action {
    pub fire: bool,
    pub direction: Direction,
}

/// A button of the game.
#[derive(Copy, Clone, Debug, Hash, PartialEq, Eq, Structural)]
pub enum Button {
    Move(Direction),
    Fire,
}

/// A key of the keyboard, as far as the game tells keys apart.
#[derive(Copy, Clone, Debug, Hash, PartialEq, Eq, Structural)]
pub enum Key {
    Left,
    Right,
    Up,
    Down,
    LControl,
    RControl,
    /// Any other key.
    Other,
}

/// Whether a key went down or came up.
#[derive(Copy, Clone, Debug, Hash, PartialEq, Eq, Structural)]
pub enum KeyState {
    Pressed,
    Released,
}

impl Button {
    /// Every button, the fire button first.
    pub fn all() -> (buttons: [Button; 5])
        ensures
            buttons@ == seq![
                Button::Fire,
                Button::Move(Direction::Up),
                Button::Move(Direction::Down),
                Button::Move(Direction::Left),
                Button::Move(Direction::Right),
            ],
    {
        // fire comes first, so that it is dealt with first
        [
            Button::Fire,
            Button::Move(Direction::Up),
            Button::Move(Direction::Down),
            Button::Move(Direction::Left),
            Button::Move(Direction::Right),
        ]
    }

    /// The button that `key` works, if it works one.
    pub open spec fn spec_from_key(key: Key) -> Option<Button> {
        match key {
            Key::Left => Some(Button::Move(Direction::Left)),
            Key::Right => Some(Button::Move(Direction::Right)),
            Key::Up => Some(Button::Move(Direction::Up)),
            Key::Down => Some(Button::Move(Direction::Down)),
            Key::RControl => Some(Button::Fire),
            _ => None,
        }
    }

    /// The button that `key` works, if it works one.
    #[verifier::when_used_as_spec(spec_from_key)]
    pub fn from_key(key: Key) -> (r: Option<Button>)
        ensures
            r == Button::spec_from_key(key),
    {
        match key {
            Key::Left => Some(Button::Move(Direction::Left)),
            Key::Right => Some(Button::Move(Direction::Right)),
            Key::Up => Some(Button::Move(Direction::Up)),
            Key::Down => Some(Button::Move(Direction::Down)),
            Key::RControl => Some(Button::Fire),
            _ => None,
        }
    }

    /// The key that is polled for this button.
    pub open spec fn spec_to_key(self) -> Key {
        match self {
            Button::Move(Direction::Up) => Key::Up,
            Button::Move(Direction::Down) => Key::Down,
            Button::Move(Direction::Left) => Key::Left,
            Button::Move(Direction::Right) => Key::Right,
            Button::Fire => Key::LControl,
        }
    }

    /// The key that is polled for this button.
    #[verifier::when_used_as_spec(spec_to_key)]
    pub fn to_key(self) -> (key: Key)
        ensures
            key == self.spec_to_key(),
    {
        match self {
            Button::Move(Direction::Up) => Key::Up,
            Button::Move(Direction::Down) => Key::Down,
            Button::Move(Direction::Left) => Key::Left,
            Button::Move(Direction::Right) => Key::Right,
            Button::Fire => Key::LControl,
        }
    }
}

/// `s` without every element equal to `x`; the others keep their order.
pub open spec fn without<T>(s: Seq<T>, x: T) -> Seq<T>
    decreases s.len(),
{
    if s.len() == 0 {
        s
    } else if s.last() == x {
        without(s.drop_last(), x)
    } else {
        without(s.drop_last(), x).push(s.last())
    }
}

/// `without(s, x)` holds what `s` holds, but for `x`.
pub proof fn lemma_without_contains<T>(s: Seq<T>, x: T, y: T)
    ensures
        without(s, x).contains(y) <==> s.contains(y) && y != x,
    decreases s.len(),
{
    if s.len() > 0 {
        let rest = s.drop_last();
        lemma_without_contains(rest, x, y);
        if s.contains(y) && y != x {
            let i = choose|i: int| 0 <= i < s.len() && s[i] == y;
            if i < s.len() - 1 {
                assert(rest[i] == y);
                let j = choose|j: int| 0 <= j < without(rest, x).len() && without(rest, x)[j] == y;
                assert(without(s, x)[j] == y);
            } else {
                assert(without(s, x).last() == y);
            }
        }
        if without(s, x).contains(y) {
            let j = choose|j: int| 0 <= j < without(s, x).len() && without(s, x)[j] == y;
            if s.last() != x && j == without(s, x).len() - 1 {
                assert(s[s.len() - 1] == y);
            } else {
                assert(without(rest, x)[j] == y);
                let i = choose|i: int| 0 <= i < rest.len() && rest[i] == y;
                assert(s[i] == y);
            }
        }
    }
}

/// `without` keeps a sequence free of duplicates.
pub proof fn lemma_without_no_duplicates<T>(s: Seq<T>, x: T)
    requires
        s.no_duplicates(),
    ensures
        without(s, x).no_duplicates(),
    decreases s.len(),
{
    if s.len() > 0 {
        let rest = s.drop_last();
        lemma_without_no_duplicates(rest, x);
        if s.last() != x {
            lemma_without_contains(rest, x, s.last());
            if rest.contains(s.last()) {
                let i = choose|i: int| 0 <= i < rest.len() && rest[i] == s.last();
                assert(s[i] == s[s.len() - 1]);
            }
            lemma_push_no_duplicates(without(rest, x), s.last());
        }
    }
}

/// A sequence free of duplicates stays so when something new is added at its
/// end, and then holds that too.
pub proof fn lemma_push_no_duplicates<T>(s: Seq<T>, x: T)
    requires
        s.no_duplicates(),
        !s.contains(x),
    ensures
        s.push(x).no_duplicates(),
        forall|y: T| #[trigger] s.push(x).contains(y) <==> s.contains(y) || y == x,
{
    let t = s.push(x);
    assert forall|i: int, j: int| 0 <= i < t.len() && 0 <= j < t.len() && i != j implies t[i]
        != t[j] by {
        if i < s.len() && j < s.len() {
            assert(s[i] != s[j]);
        } else if i < s.len() {
            assert(s.contains(s[i]));
        } else {
            assert(s.contains(s[j]));
        }
    }
    assert forall|y: T| #[trigger] t.contains(y) <==> s.contains(y) || y == x by {
        if s.contains(y) {
            let i = choose|i: int| 0 <= i < s.len() && s[i] == y;
            assert(t[i] == y);
        }
        if y == x {
            assert(t[s.len() as int] == y);
        }
        if t.contains(y) {
            let i = choose|i: int| 0 <= i < t.len() && t[i] == y;
            if i < s.len() {
                assert(s[i] == y);
            }
        }
    }
}

/// A sequence free of duplicates stays so when something new is put before
/// it, and then holds that too.
pub proof fn lemma_prepend_no_duplicates<T>(s: Seq<T>, x: T)
    requires
        s.no_duplicates(),
        !s.contains(x),
    ensures
        (seq![x] + s).no_duplicates(),
        forall|y: T| #[trigger] (seq![x] + s).contains(y) <==> s.contains(y) || y == x,
{
    let t = seq![x] + s;
    assert forall|i: int, j: int| 0 <= i < t.len() && 0 <= j < t.len() && i != j implies t[i]
        != t[j] by {
        if i > 0 && j > 0 {
            assert(s[i - 1] != s[j - 1]);
        } else if i > 0 {
            assert(s.contains(s[i - 1]));
        } else {
            assert(s.contains(s[j - 1]));
        }
    }
    assert forall|y: T| #[trigger] t.contains(y) <==> s.contains(y) || y == x by {
        if s.contains(y) {
            let i = choose|i: int| 0 <= i < s.len() && s[i] == y;
            assert(t[i + 1] == y);
        }
        if y == x {
            assert(t[0] == y);
        }
        if t.contains(y) {
            let i = choose|i: int| 0 <= i < t.len() && t[i] == y;
            if i > 0 {
                assert(s[i - 1] == y);
            }
        }
    }
}

/// The tracker as a mathematical value.
pub struct TrackerModel {
    /// The moves recorded and not yet handed out, oldest first.
    pub actions_pending: Seq<Action>,
    /// The buttons that are held down.
    pub keys_down: Set<Button>,
    /// The directions that are held down, the one pressed last first.
    pub movements_down: Seq<Direction>,
}

impl TrackerModel {
    /// The moves for the directions held down: at most two of them, the one
    /// pressed last first.
    pub open spec fn held_moves(self) -> Seq<Action> {
        let count = if self.movements_down.len() < 2 {
            self.movements_down.len() as int
        } else {
            2
        };
        let fire = self.keys_down.contains(Button::Fire);
        Seq::new(count as nat, |i: int| Action { fire, direction: self.movements_down[i] })
    }

    /// What one call hands to the engine: the oldest pending move, if there
    /// is one, and then the moves for the directions held down.
    pub open spec fn popped(self) -> Seq<Action> {
        if self.actions_pending.len() > 0 {
            seq![self.actions_pending[0]] + self.held_moves()
        } else {
            self.held_moves()
        }
    }

    /// The tracker after the oldest pending move, if any, has been handed out.
    pub open spec fn after_pop(self) -> TrackerModel {
        if self.actions_pending.len() > 0 {
            TrackerModel {
                actions_pending: self.actions_pending.subrange(
                    1,
                    self.actions_pending.len() as int,
                ),
                ..self
            }
        } else {
            self
        }
    }

    /// The tracker after `button` has gone down.
    pub open spec fn after_press(self, button: Button) -> TrackerModel {
        let keys_down = self.keys_down.insert(button);
        match button {
            Button::Move(dir) => TrackerModel {
                actions_pending: self.actions_pending.push(
                    Action { fire: keys_down.contains(Button::Fire), direction: dir },
                ),
                keys_down,
                movements_down: seq![dir] + self.movements_down,
            },
            Button::Fire => TrackerModel { keys_down, ..self },
        }
    }

    /// The tracker after `button` has come up.
    pub open spec fn after_release(self, button: Button) -> TrackerModel {
        let keys_down = self.keys_down.remove(button);
        match button {
            Button::Move(dir) => TrackerModel {
                keys_down,
                movements_down: without(self.movements_down, dir),
                ..self
            },
            Button::Fire => TrackerModel { keys_down, ..self },
        }
    }

    /// The tracker after word has come that `button` is down, or is up. Only
    /// a change counts: a button that is down already, or up already, leaves
    /// the tracker as it is.
    pub open spec fn after_button(self, button: Button, pressed: bool) -> TrackerModel {
        let down = self.keys_down.contains(button);
        if down && !pressed {
            self.after_release(button)
        } else if !down && pressed {
            self.after_press(button)
        } else {
            self
        }
    }

    /// The tracker after a key event. A key that works no button leaves the
    /// tracker as it is.
    pub open spec fn after_key(self, key: Key, key_state: KeyState) -> TrackerModel {
        match Button::from_key(key) {
            None => self,
            Some(button) => self.after_button(button, key_state == KeyState::Pressed),
        }
    }
}

/// Keeps track of which buttons are held down, and records each new press of
/// a direction as a pending move.
///
/// The buttons held down are a set, kept as a list without duplicates; see
/// [`InputTracker::wf`]. A new tracker is well formed, and every method keeps
/// it so.
#[derive(Debug)]
pub struct InputTracker {
    pub actions_pending: VecDeque<Action>,
    /// The buttons held down, each once, in no particular order.
    pub keys_down: Vec<Button>,
    pub movements_down: VecDeque<Direction>,
}

/// The tracker under the name it has where the game polls its buttons.
pub type InputState = InputTracker;

impl View for InputTracker {
    type V = TrackerModel;

    open spec fn view(&self) -> TrackerModel {
        TrackerModel {
            actions_pending: self.actions_pending@,
            keys_down: Set::new(|button: Button| self.keys_down@.contains(button)),
            movements_down: self.movements_down@,
        }
    }
}

impl Default for InputTracker {
    fn default() -> (r: Self)
        ensures
            r.wf(),
            r@.actions_pending == Seq::<Action>::empty(),
            r@.keys_down == Set::<Button>::empty(),
            r@.movements_down == Seq::<Direction>::empty(),
    {
        let r = InputTracker {
            actions_pending: VecDeque::new(),
            keys_down: Vec::new(),
            movements_down: VecDeque::new(),
        };
        assert(r@.keys_down =~= Set::<Button>::empty());
        r
    }
}

impl InputTracker {
    /// The tracker's invariant: no button is listed twice as held down, no
    /// direction is listed twice, and the directions listed are those whose
    /// buttons are held down.
    pub open spec fn wf(&self) -> bool {
        &&& self.keys_down@.no_duplicates()
        &&& self.movements_down@.no_duplicates()
        &&& forall|d: Direction|
            self.movements_down@.contains(d) <==> #[trigger] self.keys_down@.contains(
                Button::Move(d),
            )
    }

    /// Whether `button` is held down.
    pub fn is_down(&self, button: Button) -> (down: bool)
        ensures
            down == self@.keys_down.contains(button),
    {
        let mut i: usize = 0;
        while i < self.keys_down.len()
            invariant
                i <= self.keys_down.len(),
                forall|j: int| 0 <= j < i ==> self.keys_down@[j] != button,
            decreases self.keys_down.len() - i,
        {
            if self.keys_down[i] == button {
                return true;
            }
            i += 1;
        }
        false
    }

    /// The moves for the engine's next tick: the oldest pending move, if
    /// there is one, which is taken off the list, and then a move for each of
    /// the two directions pressed last that are still held down.
    pub fn pop_action(&mut self) -> (actions: Vec<Action>)
        ensures
            actions@ == old(self)@.popped(),
            actions@.len() <= 3,
            final(self)@ == old(self)@.after_pop(),
            old(self).wf() ==> final(self).wf(),
    {
        let mut actions: Vec<Action> = Vec::new();
        if let Some(action) = self.actions_pending.pop_front() {
            actions.push(action);
        }
        let fire = self.is_down(Button::Fire);
        let ghost first = actions@;
        let mut i: usize = 0;
        while i < 2 && i < self.movements_down.len()
            invariant
                i <= 2,
                i <= self.movements_down.len(),
                actions@.len() == first.len() + i,
                forall|j: int| 0 <= j < first.len() ==> actions@[j] == first[j],
                forall|j: int|
                    0 <= j < i ==> actions@[first.len() + j] == (Action {
                        fire,
                        direction: self.movements_down@[j],
                    }),
            decreases 2 - i,
        {
            actions.push(Action { direction: self.movements_down[i], fire });
            i += 1;
        }
        assert(actions@ == old(self)@.popped());
        assert(self@.keys_down == old(self)@.keys_down);
        assert(self.keys_down@ == old(self).keys_down@);
        actions
    }

    /// Takes note of a key event.
    pub fn handle_key(&mut self, event: (Key, KeyState))
        ensures
            final(self)@ == old(self)@.after_key(event.0, event.1),
            old(self).wf() ==> final(self).wf(),
    {
        let (key, key_state) = event;
        let button = if let Some(button) = Button::from_key(key) {
            button
        } else {
            return ;
        };
        self.handle_button(button, key_state == KeyState::Pressed);
    }

    /// Takes note that `button` is down, or is up: for a game that asks each
    /// button in turn, the fire button first, instead of waiting for events.
    pub fn handle_button(&mut self, button: Button, pressed: bool)
        ensures
            final(self)@ == old(self)@.after_button(button, pressed),
            old(self).wf() ==> final(self).wf(),
    {
        match (self.is_down(button), pressed) {
            (true, true) => {},
            (false, false) => {},
            (true, false) => {
                self.release(button);
            },
            (false, true) => {
                self.press(button);
            },
        }
    }

    /// Takes note that `button`, which was down, has come up.
    fn release(&mut self, button: Button)
        ensures
            final(self)@ == old(self)@.after_release(button),
            old(self).wf() ==> final(self).wf(),
    {
        let mut kept: Vec<Button> = Vec::new();
        let mut i: usize = 0;
        assert(self.keys_down@.take(0) == Seq::<Button>::empty());
        while i < self.keys_down.len()
            invariant
                i <= self.keys_down.len(),
                self.keys_down == old(self).keys_down,
                self.movements_down == old(self).movements_down,
                self.actions_pending == old(self).actions_pending,
                kept@ == without(self.keys_down@.take(i as int), button),
            decreases self.keys_down.len() - i,
        {
            assert(self.keys_down@.take(i + 1).drop_last() == self.keys_down@.take(i as int));
            if self.keys_down[i] != button {
                kept.push(self.keys_down[i]);
            }
            i += 1;
        }
        assert(self.keys_down@.take(i as int) == self.keys_down@);
        self.keys_down = kept;
        proof {
            if old(self).wf() {
                lemma_without_no_duplicates(old(self).keys_down@, button);
                assert forall|d: Direction|
                    old(self).movements_down@.contains(d) && Button::Move(d) != button
                        <==> #[trigger] self.keys_down@.contains(Button::Move(d)) by {
                    lemma_without_contains(old(self).keys_down@, button, Button::Move(d));
                }
            }
            assert forall|other: Button| #[trigger]
                self@.keys_down.contains(other) == old(self)@.keys_down.remove(button).contains(
                    other,
                ) by {
                lemma_without_contains(old(self).keys_down@, button, other);
            }
            assert(self@.keys_down =~= old(self)@.keys_down.remove(button));
        }
        if let Button::Move(dir) = button {
            let mut held: VecDeque<Direction> = VecDeque::new();
            let mut k: usize = 0;
            assert(self.movements_down@.take(0) == Seq::<Direction>::empty());
            while k < self.movements_down.len()
                invariant
                    k <= self.movements_down.len(),
                    self.movements_down == old(self).movements_down,
                    self.actions_pending == old(self).actions_pending,
                    self@.keys_down == old(self)@.keys_down.remove(button),
                    held@ == without(self.movements_down@.take(k as int), dir),
                decreases self.movements_down.len() - k,
            {
                assert(self.movements_down@.take(k + 1).drop_last() == self.movements_down@.take(
                    k as int,
                ));
                if self.movements_down[k] != dir {
                    held.push_back(self.movements_down[k]);
                }
                k += 1;
            }
            assert(self.movements_down@.take(k as int) == self.movements_down@);
            self.movements_down = held;
            proof {
                if old(self).wf() {
                    lemma_without_no_duplicates(old(self).movements_down@, dir);
                    assert forall|d: Direction|
                        self.movements_down@.contains(d) <==> #[trigger] self.keys_down@.contains(
                            Button::Move(d),
                        ) by {
                        lemma_without_contains(old(self).movements_down@, dir, d);
                    }
                }
            }
        }
    }

    /// Takes note that `button`, which was up, has gone down.
    fn press(&mut self, button: Button)
        ensures
            final(self)@ == old(self)@.after_press(button),
            old(self).wf() && !old(self)@.keys_down.contains(button) ==> final(self).wf(),
    {
        self.keys_down.push(button);
        proof {
            let before = old(self).keys_down@;
            assert forall|other: Button| #[trigger]
                self@.keys_down.contains(other) == old(self)@.keys_down.insert(button).contains(
                    other,
                ) by {
                if before.contains(other) {
                    let i = choose|i: int| 0 <= i < before.len() && before[i] == other;
                    assert(self.keys_down@[i] == other);
                }
                if other == button {
                    assert(self.keys_down@[before.len() as int] == other);
                }
            }
            assert(self@.keys_down =~= old(self)@.keys_down.insert(button));
            if old(self).wf() && !before.contains(button) {
                lemma_push_no_duplicates(before, button);
                if let Button::Move(dir) = button {
                    lemma_prepend_no_duplicates(old(self).movements_down@, dir);
                }
            }
        }
        if let Button::Move(dir) = button {
            self.movements_down.push_front(dir);
            let fire = self.is_down(Button::Fire);
            self.actions_pending.push_back(Action { fire, direction: dir });
        }
    }
}

} // verus!
