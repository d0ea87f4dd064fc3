//! Input devices as plain data: gamepads, their buttons and axes, and the
//! per-tick snapshot of what is pressed and how far each stick is pushed.

use vstd::prelude::*;

verus! {

/// An input device, known by its id.
#[derive(Clone, Copy, Debug, PartialEq, Eq, Hash, Structural)]
pub struct Gamepad {
    pub id: usize,
}

/// The buttons of a gamepad.
#[derive(Clone, Copy, Debug, PartialEq, Eq, Hash, Structural)]
pub enum GamepadButtonType {
    South,
    East,
    North,
    West,
    C,
    Z,
    LeftTrigger,
    LeftTrigger2,
    RightTrigger,
    RightTrigger2,
    Select,
    Start,
    Mode,
    LeftThumb,
    RightThumb,
    DPadUp,
    DPadDown,
    DPadLeft,
    DPadRight,
}

/// The axes of a gamepad.
#[derive(Clone, Copy, Debug, PartialEq, Eq, Hash, Structural)]
pub enum GamepadAxisType {
    LeftStickX,
    LeftStickY,
    LeftZ,
    RightStickX,
    RightStickY,
    RightZ,
    DPadX,
    DPadY,
}

/// What happened to a gamepad. Values are thousandths of full deflection.
#[derive(Clone, Copy, Debug, PartialEq, Eq, Structural)]
pub enum GamepadEventType {
    Connected,
    Disconnected,
    ButtonChanged(GamepadButtonType, i32),
    AxisChanged(GamepadAxisType, i32),
}

/// An event of one gamepad, as delivered to the game.
#[derive(Clone, Copy, Debug, PartialEq, Eq, Structural)]
pub struct GamepadEvent {
    pub gamepad: Gamepad,
    pub event_type: GamepadEventType,
}

/// An event of one gamepad, as it comes from the device layer.
#[derive(Clone, Copy, Debug, PartialEq, Eq, Structural)]
pub struct GamepadEventRaw {
    pub gamepad: Gamepad,
    pub event_type: GamepadEventType,
}

/// One button of one gamepad.
#[derive(Clone, Copy, Debug, PartialEq, Eq, Hash, Structural)]
pub struct GamepadButton {
    pub gamepad: Gamepad,
    pub button_type: GamepadButtonType,
}

/// One axis of one gamepad.
#[derive(Clone, Copy, Debug, PartialEq, Eq, Hash, Structural)]
pub struct GamepadAxis {
    pub gamepad: Gamepad,
    pub axis_type: GamepadAxisType,
}

/// The reading of one axis, in thousandths of full deflection.
#[derive(Clone, Copy, Debug, PartialEq, Eq, Structural)]
pub struct AxisReading {
    pub axis: GamepadAxis,
    pub value: i32,
}

/// The reading of `axis` among `readings`: that of the first entry for it.
pub open spec fn reading_of(readings: Seq<AxisReading>, axis: GamepadAxis) -> Option<i32>
    decreases readings.len(),
{
    if readings.len() == 0 {
        None
    } else if readings[0].axis == axis {
        Some(readings[0].value)
    } else {
        reading_of(readings.drop_first(), axis)
    }
}

/// The buttons that went down during the current tick.
pub struct Input {
    pressed: Vec<GamepadButton>,
}

impl Input {
    /// The buttons that went down during the current tick.
    pub closed spec fn view(&self) -> Set<GamepadButton> {
        self.pressed@.to_set()
    }

    /// Nothing pressed.
    pub fn new() -> (r: Input)
        ensures
            r@ == Set::<GamepadButton>::empty(),
    {
        let r = Input { pressed: Vec::new() };
        assert(r.pressed@.to_set() =~= Set::<GamepadButton>::empty());
        r
    }

    /// Records that `button` went down during the current tick.
    pub fn press(&mut self, button: GamepadButton)
        ensures
            final(self)@ == old(self)@.insert(button),
    {
        self.pressed.push(button);
        assert(self.pressed@.to_set() =~= old(self).pressed@.to_set().insert(button)) by {
            assert forall|b: GamepadButton|
                self.pressed@.to_set().contains(b) <==> old(self).pressed@.to_set().insert(
                    button,
                ).contains(b) by {
                if self.pressed@.contains(b) {
                    let i = choose|i: int| 0 <= i < self.pressed@.len() && self.pressed@[i] == b;
                    if i < old(self).pressed@.len() {
                        assert(old(self).pressed@[i] == b);
                    }
                }
                if old(self).pressed@.contains(b) {
                    let i = choose|i: int|
                        0 <= i < old(self).pressed@.len() && old(self).pressed@[i] == b;
                    assert(self.pressed@[i] == b);
                }
                if b == button {
                    assert(self.pressed@[self.pressed@.len() - 1] == b);
                }
            }
        }
    }

    /// Forgets every press, as at the start of a tick.
    pub fn clear(&mut self)
        ensures
            final(self)@ == Set::<GamepadButton>::empty(),
    {
        self.pressed.clear();
        assert(self.pressed@.to_set() =~= Set::<GamepadButton>::empty());
    }

    /// Whether `button` went down during the current tick.
    pub fn just_pressed(&self, button: GamepadButton) -> (r: bool)
        ensures
            r == self@.contains(button),
    {
        let mut i: usize = 0;
        while i < self.pressed.len()
            invariant
                i <= self.pressed@.len(),
                forall|j: int| 0 <= j < i ==> self.pressed@[j] != button,
            decreases self.pressed@.len() - i,
        {
            if self.pressed[i] == button {
                assert(self.pressed@.contains(button));
                return true;
            }
            i = i + 1;
        }
        false
    }
}

/// The current readings of the axes.
pub struct Axis {
    readings: Vec<AxisReading>,
}

impl Axis {
    /// The readings in the order in which they were set, latest first.
    pub closed spec fn view(&self) -> Seq<AxisReading> {
        self.readings@.reverse()
    }

    /// The reading of `axis`, where it has one.
    pub open spec fn value(&self, axis: GamepadAxis) -> Option<i32> {
        reading_of(self@, axis)
    }

    /// No readings.
    pub fn new() -> (r: Axis)
        ensures
            r@ == Seq::<AxisReading>::empty(),
    {
        let r = Axis { readings: Vec::new() };
        assert(r.readings@.reverse() =~= Seq::<AxisReading>::empty());
        r
    }

    /// Sets the reading of `axis` to `value`.
    pub fn set(&mut self, axis: GamepadAxis, value: i32)
        ensures
            final(self)@ == seq![(AxisReading { axis, value })] + old(self)@,
            final(self).value(axis) == Some(value),
            forall|other: GamepadAxis|
                other != axis ==> final(self).value(other) == old(self).value(other),
    {
        self.readings.push(AxisReading { axis, value });
        let ghost head = seq![(AxisReading { axis, value })];
        assert(self.readings@.reverse() =~= head + old(self).readings@.reverse());
        assert((head + old(self)@).drop_first() =~= old(self)@);
    }

    /// The reading of `axis`, where it has one.
    pub fn get(&self, axis: GamepadAxis) -> (r: Option<i32>)
        ensures
            r == self.value(axis),
    {
        let mut i: usize = self.readings.len();
        assert(self@.subrange(0, self.readings@.len() as int) =~= self@);
        while i > 0
            invariant
                i <= self.readings@.len(),
                reading_of(self@, axis) == reading_of(
                    self@.subrange(self.readings@.len() - i, self.readings@.len() as int),
                    axis,
                ),
            decreases i,
        {
            let ghost rest = self@.subrange(self.readings@.len() - i, self.readings@.len() as int);
            assert(rest[0] == self.readings@[i - 1]);
            assert(rest.drop_first() =~= self@.subrange(
                self.readings@.len() - (i - 1),
                self.readings@.len() as int,
            ));
            i = i - 1;
            if self.readings[i].axis == axis {
                return Some(self.readings[i].value);
            }
        }
        None
    }
}

} // verus!
