//! Keyboard and mouse state, as the event source reports it and the
//! per-frame systems read it.
use vstd::prelude::*;

verus! {

/// A key on the keyboard. The movement keys and Escape have names of their
/// own; every other key carries the number that the event source gives it.
#[derive(Clone, Copy, Debug, PartialEq, Eq, Structural)]
pub enum KeyCode {
    Escape,
    W,
    A,
    S,
    D,
    Other(u32),
}

/// Whether a key went down or came up.
#[derive(Clone, Copy, Debug, PartialEq, Eq, Structural)]
pub enum ElementState {
    Pressed,
    Released,
}

/// One keyboard event. An event without a key code is not accepted.
#[derive(Clone, Copy, Debug, PartialEq, Eq, Structural)]
pub struct KeyboardInput {
    pub virtual_keycode: Option<KeyCode>,
    pub state: ElementState,
}

/// What is known of one key.
#[derive(Clone, Copy, Debug, PartialEq, Eq, Structural)]
pub struct KeyboardKey {
    pressed: bool,
    held: bool,
    released: bool,
}

impl KeyboardKey {
    /// A key that is up.
    pub fn new() -> (r: Self)
        ensures
            !r.is_held(),
    {
        KeyboardKey { pressed: false, held: false, released: false }
    }

    /// Whether the key is down.
    pub closed spec fn is_held(&self) -> bool {
        self.held
    }
}

/// The set of held keys after an event on key `k`: it goes in where the key
/// went down and leaves where it came up.
pub open spec fn after_key_event(held: Set<KeyCode>, k: KeyCode, pressed: bool) -> Set<KeyCode> {
    if pressed {
        held.insert(k)
    } else {
        held.remove(k)
    }
}

/// The set of held keys after each event of `events` in turn, an event being
/// a key and whether it went down.
pub open spec fn after_key_events(held: Set<KeyCode>, events: Seq<(KeyCode, bool)>) -> Set<
    KeyCode,
>
    decreases events.len(),
{
    if events.len() == 0 {
        held
    } else {
        after_key_events(
            after_key_event(held, events[0].0, events[0].1),
            events.drop_first(),
        )
    }
}

/// The state of every key seen so far, one entry to a key.
pub struct Keyboard {
    keys: Vec<(KeyCode, KeyboardKey)>,
}

impl View for Keyboard {
    type V = Set<KeyCode>;

    /// The keys that are down.
    closed spec fn view(&self) -> Set<KeyCode> {
        Set::new(
            |k: KeyCode|
                exists|i: int|
                    0 <= i < self.keys@.len() && #[trigger] self.keys@[i].0 == k
                        && self.keys@[i].1.held,
        )
    }
}

impl Keyboard {
    /// No key has two entries.
    pub closed spec fn wf(&self) -> bool {
        forall|i: int, j: int|
            0 <= i < j < self.keys@.len() ==> #[trigger] self.keys@[i].0 != #[trigger] self.keys@[j].0
    }

    /// A keyboard on which no key has been seen.
    pub fn new() -> (r: Self)
        ensures
            r.wf(),
            r@ == Set::<KeyCode>::empty(),
    {
        let r = Keyboard { keys: Vec::new() };
        assert(r@ =~= Set::<KeyCode>::empty());
        r
    }

    /// Where `key` has an entry, its index.
    fn find(&self, key: KeyCode) -> (r: Option<usize>)
        ensures
            match r {
                Some(i) => i < self.keys@.len() && self.keys@[i as int].0 == key,
                None => forall|j: int| 0 <= j < self.keys@.len() ==> self.keys@[j].0 != key,
            },
    {
        let mut i: usize = 0;
        while i < self.keys.len()
            invariant
                i <= self.keys@.len(),
                forall|j: int| 0 <= j < i ==> self.keys@[j].0 != key,
            decreases self.keys@.len() - i,
        {
            if self.keys[i].0 == key {
                return Some(i);
            }
            i = i + 1;
        }
        None
    }

    /// Whether `key` is down. A key never seen is up.
    pub fn key_held(&self, key: KeyCode) -> (r: bool)
        requires
            self.wf(),
        ensures
            r == self@.contains(key),
    {
        match self.find(key) {
            Some(i) => {
                let r = self.keys[i].1.held;
                proof {
                    if !r {
                        assert forall|j: int|
                            0 <= j < self.keys@.len() && #[trigger] self.keys@[j].0 == key implies !self.keys@[j].1.held by {
                            if j != i {
                                if j < i {
                                    assert(self.keys@[j].0 != self.keys@[i as int].0);
                                } else {
                                    assert(self.keys@[i as int].0 != self.keys@[j].0);
                                }
                            }
                        }
                    }
                }
                r
            },
            None => false,
        }
    }

    /// Records that `key` went down (`held`) or came up. A key not seen
    /// before gets an entry, up, before the event is applied.
    pub fn set_key(&mut self, key: KeyCode, held: bool)
        requires
            old(self).wf(),
        ensures
            final(self).wf(),
            final(self)@ == after_key_event(old(self)@, key, held),
    {
        let ghost before = self.keys@;
        let i = match self.find(key) {
            Some(i) => i,
            None => {
                self.keys.push((key, KeyboardKey::new()));
                assert forall|a: int, b: int|
                    0 <= a < b < self.keys@.len() implies #[trigger] self.keys@[a].0
                    != #[trigger] self.keys@[b].0 by {
                    if b < before.len() {
                        assert(before[a].0 != before[b].0);
                    }
                }
                self.keys.len() - 1
            },
        };
        let ghost mid = self.keys@;
        let mut entry = self.keys[i].1;
        entry.held = held;
        self.keys.set(i, (key, entry));
        proof {
            assert forall|a: int, b: int|
                0 <= a < b < self.keys@.len() implies #[trigger] self.keys@[a].0
                != #[trigger] self.keys@[b].0 by {
                assert(mid[a].0 != mid[b].0);
            }
            assert(self@ =~= after_key_event(old(self)@, key, held)) by {
                assert forall|k: KeyCode| #[trigger] self@.contains(k) == after_key_event(old(self)@, key, held).contains(k) by {
                    if k != key {
                        if self@.contains(k) {
                            let j = choose|j: int|
                                0 <= j < self.keys@.len() && #[trigger] self.keys@[j].0 == k
                                    && self.keys@[j].1.held;
                            assert(j != i);
                            assert(j < before.len() ) by {
                                if j >= before.len() {
                                    assert(mid[j].0 == key);
                                }
                            }
                            assert(before[j] == self.keys@[j]);
                        }
                        if old(self)@.contains(k) {
                            let j = choose|j: int|
                                0 <= j < before.len() && #[trigger] before[j].0 == k
                                    && before[j].1.held;
                            assert(mid[j] == before[j]);
                            assert(self.keys@[j] == before[j]);
                        }
                    } else if held {
                        assert(self.keys@[i as int].0 == key);
                    } else {
                        if self@.contains(k) {
                            let j = choose|j: int|
                                0 <= j < self.keys@.len() && #[trigger] self.keys@[j].0 == k
                                    && self.keys@[j].1.held;
                            if j < i {
                                assert(mid[j].0 != mid[i as int].0);
                            } else if j > i {
                                assert(mid[i as int].0 != mid[j].0);
                            }
                        }
                    }
                }
            }
        }
    }
}

/// A cursor position, in whole pixels.
#[derive(Clone, Copy, Debug, PartialEq, Eq, Structural)]
pub struct CursorPosition {
    pub x: i32,
    pub y: i32,
}

/// The distance between two cursor positions, in whole pixels.
#[derive(Clone, Copy, Debug, PartialEq, Eq, Structural)]
pub struct CursorDelta {
    pub x: i64,
    pub y: i64,
}

/// The cursor: where it is, where it was when the acceleration was last
/// refreshed, and how far it moved in between.
#[derive(Clone, Copy, Debug, PartialEq, Eq, Structural)]
pub struct Mouse {
    pub acceleration: CursorDelta,
    pub position: CursorPosition,
    pub old_position: CursorPosition,
}

impl Mouse {
    /// The cursor that `new` makes.
    pub open spec fn new_spec() -> Self {
        Mouse {
            acceleration: CursorDelta { x: 0, y: 0 },
            position: CursorPosition { x: 0, y: 0 },
            old_position: CursorPosition { x: 0, y: 0 },
        }
    }

    /// A cursor at the origin that has not moved.
    pub fn new() -> (r: Self)
        ensures
            r == Mouse::new_spec(),
    {
        Mouse {
            acceleration: CursorDelta { x: 0, y: 0 },
            position: CursorPosition { x: 0, y: 0 },
            old_position: CursorPosition { x: 0, y: 0 },
        }
    }
}

/// Which way the movement keys drive: `x` is -1 to the left (A), 1 to the
/// right (D); `y` is -1 forward (W), 1 back (S); 0 where neither or both of
/// a pair are held.
#[derive(Clone, Copy, Debug, PartialEq, Eq, Structural)]
pub struct MovementAxes {
    pub x: i8,
    pub y: i8,
}

/// One axis of movement: -1 for the negative key alone, 1 for the positive
/// key alone, else 0.
pub open spec fn axis(negative: bool, positive: bool) -> int {
    (if positive { 1int } else { 0int }) - (if negative { 1int } else { 0int })
}

/// Everything the event source has said of the keyboard and the mouse.
pub struct Input {
    pub keyboard: Keyboard,
    pub mouse: Mouse,
}

impl Input {
    /// No key seen, the cursor at the origin.
    pub fn new() -> (r: Self)
        ensures
            r.wf(),
            r.keyboard@ == Set::<KeyCode>::empty(),
            r.mouse == Mouse::new_spec(),
    {
        Input { keyboard: Keyboard::new(), mouse: Mouse::new() }
    }

    pub open spec fn wf(&self) -> bool {
        self.keyboard.wf()
    }

    /// Applies a keyboard event: its key is held from now on where it went
    /// down, and no longer where it came up.
    pub fn process_keyboard(&mut self, keyboard_input: &KeyboardInput)
        requires
            old(self).wf(),
            keyboard_input.virtual_keycode.is_some(),
        ensures
            final(self).wf(),
            final(self).keyboard@ == after_key_event(
                old(self).keyboard@,
                keyboard_input.virtual_keycode.unwrap(),
                keyboard_input.state == ElementState::Pressed,
            ),
            final(self).mouse == old(self).mouse,
    {
        let virtual_keycode = keyboard_input.virtual_keycode.unwrap();
        let held = match keyboard_input.state {
            ElementState::Pressed => true,
            ElementState::Released => false,
        };
        self.keyboard.set_key(virtual_keycode, held);
    }

    /// Whether `key_code` went down in this frame. Edges are not tracked:
    /// always false.
    pub fn key_pressed(&self, key_code: KeyCode) -> (r: bool)
        ensures
            !r,
    {
        false
    }

    /// Whether `key_code` is down.
    pub fn key_held(&self, key_code: KeyCode) -> (r: bool)
        requires
            self.wf(),
        ensures
            r == self.keyboard@.contains(key_code),
    {
        self.keyboard.key_held(key_code)
    }

    /// Whether `key_code` came up in this frame. Edges are not tracked:
    /// always false.
    pub fn key_released(&self, key_code: KeyCode) -> (r: bool)
        ensures
            !r,
    {
        false
    }

    /// Which way the held movement keys drive.
    pub fn movement_axes(&self) -> (r: MovementAxes)
        requires
            self.wf(),
        ensures
            r.x == axis(self.keyboard@.contains(KeyCode::A), self.keyboard@.contains(KeyCode::D)),
            r.y == axis(self.keyboard@.contains(KeyCode::W), self.keyboard@.contains(KeyCode::S)),
    {
        let mut movement = MovementAxes { x: 0, y: 0 };
        if self.key_held(KeyCode::W) {
            movement.y = movement.y - 1;
        }
        if self.key_held(KeyCode::S) {
            movement.y = movement.y + 1;
        }
        if self.key_held(KeyCode::A) {
            movement.x = movement.x - 1;
        }
        if self.key_held(KeyCode::D) {
            movement.x = movement.x + 1;
        }
        movement
    }
}

impl Default for Input {
    fn default() -> (r: Self)
        ensures
            r.wf(),
            r.keyboard@ == Set::<KeyCode>::empty(),
            r.mouse == Mouse::new_spec(),
    {
        Input::new()
    }
}

/// Refreshes the cursor's acceleration: how far it moved since the last
/// refresh. The current position becomes the old one.
pub fn update_mouse(input: &mut Input)
    ensures
        final(input).mouse.acceleration.x == old(input).mouse.position.x - old(input).mouse.old_position.x,
        final(input).mouse.acceleration.y == old(input).mouse.position.y - old(input).mouse.old_position.y,
        final(input).mouse.old_position == old(input).mouse.position,
        final(input).mouse.position == old(input).mouse.position,
        final(input).keyboard == old(input).keyboard,
{
    input.mouse.acceleration.x = input.mouse.position.x as i64 - input.mouse.old_position.x as i64;
    input.mouse.acceleration.y = input.mouse.position.y as i64 - input.mouse.old_position.y as i64;
    input.mouse.old_position = input.mouse.position;
}

/// A key is held from the event that puts it down until the event that lets
/// it up, whatever happens to other keys in between.
pub proof fn lemma_held_from_press_to_release(
    held: Set<KeyCode>,
    key: KeyCode,
    between: Seq<(KeyCode, bool)>,
)
    requires
        forall|i: int| 0 <= i < between.len() ==> #[trigger] between[i].0 != key,
    ensures
        after_key_event(held, key, true).contains(key),
        after_key_events(after_key_event(held, key, true), between).contains(key),
        !after_key_event(
            after_key_events(after_key_event(held, key, true), between),
            key,
            false,
        ).contains(key),
{
    lemma_other_keys_keep_state(after_key_event(held, key, true), key, between);
}

/// Events on other keys leave a key's state as it was.
pub proof fn lemma_other_keys_keep_state(
    held: Set<KeyCode>,
    key: KeyCode,
    events: Seq<(KeyCode, bool)>,
)
    requires
        forall|i: int| 0 <= i < events.len() ==> #[trigger] events[i].0 != key,
    ensures
        after_key_events(held, events).contains(key) == held.contains(key),
    decreases events.len(),
{
    if events.len() > 0 {
        let rest = events.drop_first();
        assert(events[0].0 != key);
        assert forall|i: int| 0 <= i < rest.len() implies #[trigger] rest[i].0 != key by {
            assert(rest[i] == events[i + 1]);
        }
        lemma_other_keys_keep_state(after_key_event(held, events[0].0, events[0].1), key, rest);
    }
}

} // verus!
