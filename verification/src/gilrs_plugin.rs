//! The device layer: what a gamepad driver reports, and its translation
//! into the raw gamepad events of the game.

use crate::input::{Gamepad, GamepadAxisType, GamepadButtonType, GamepadEventRaw, GamepadEventType};
use vstd::prelude::*;

verus! {

/// A button as the driver names it.
#[derive(Clone, Copy, Debug, PartialEq, Eq, Structural)]
pub enum Button {
    South,
    East,
    North,
    West,
    C,
    Z,
    LeftTrigger,
    LeftTrigger2,
    RightTrigger,
    RightTrigger2,
    Select,
    Start,
    Mode,
    LeftThumb,
    RightThumb,
    DPadUp,
    DPadDown,
    DPadLeft,
    DPadRight,
    Unknown,
}

/// An axis as the driver names it.
#[derive(Clone, Copy, Debug, PartialEq, Eq, Structural)]
pub enum Axis {
    LeftStickX,
    LeftStickY,
    LeftZ,
    RightStickX,
    RightStickY,
    RightZ,
    DPadX,
    DPadY,
    Unknown,
}

/// What the driver reports of a device. Values are thousandths of full
/// deflection.
#[derive(Clone, Copy, Debug, PartialEq, Eq, Structural)]
pub enum EventType {
    ButtonPressed(Button),
    ButtonRepeated(Button),
    ButtonReleased(Button),
    ButtonChanged(Button, i32),
    AxisChanged(Axis, i32),
    Connected,
    Disconnected,
    Dropped,
}

/// One report of the driver: the device and what happened to it.
#[derive(Clone, Copy, Debug, PartialEq, Eq, Structural)]
pub struct Event {
    pub id: usize,
    pub event: EventType,
}

/// The button of the game that a driver button stands for; unknown buttons
/// stand for none.
pub open spec fn button_type(button: Button) -> Option<GamepadButtonType> {
    match button {
        Button::South => Some(GamepadButtonType::South),
        Button::East => Some(GamepadButtonType::East),
        Button::North => Some(GamepadButtonType::North),
        Button::West => Some(GamepadButtonType::West),
        Button::C => Some(GamepadButtonType::C),
        Button::Z => Some(GamepadButtonType::Z),
        Button::LeftTrigger => Some(GamepadButtonType::LeftTrigger),
        Button::LeftTrigger2 => Some(GamepadButtonType::LeftTrigger2),
        Button::RightTrigger => Some(GamepadButtonType::RightTrigger),
        Button::RightTrigger2 => Some(GamepadButtonType::RightTrigger2),
        Button::Select => Some(GamepadButtonType::Select),
        Button::Start => Some(GamepadButtonType::Start),
        Button::Mode => Some(GamepadButtonType::Mode),
        Button::LeftThumb => Some(GamepadButtonType::LeftThumb),
        Button::RightThumb => Some(GamepadButtonType::RightThumb),
        Button::DPadUp => Some(GamepadButtonType::DPadUp),
        Button::DPadDown => Some(GamepadButtonType::DPadDown),
        Button::DPadLeft => Some(GamepadButtonType::DPadLeft),
        Button::DPadRight => Some(GamepadButtonType::DPadRight),
        Button::Unknown => None,
    }
}

/// The axis of the game that a driver axis stands for; unknown axes stand
/// for none.
pub open spec fn axis_type(axis: Axis) -> Option<GamepadAxisType> {
    match axis {
        Axis::LeftStickX => Some(GamepadAxisType::LeftStickX),
        Axis::LeftStickY => Some(GamepadAxisType::LeftStickY),
        Axis::LeftZ => Some(GamepadAxisType::LeftZ),
        Axis::RightStickX => Some(GamepadAxisType::RightStickX),
        Axis::RightStickY => Some(GamepadAxisType::RightStickY),
        Axis::RightZ => Some(GamepadAxisType::RightZ),
        Axis::DPadX => Some(GamepadAxisType::DPadX),
        Axis::DPadY => Some(GamepadAxisType::DPadY),
        Axis::Unknown => None,
    }
}

/// The raw gamepad event that a report of the driver becomes: connections,
/// disconnections, and changes of known buttons and axes are passed on;
/// everything else is dropped.
pub open spec fn raw_event(e: Event) -> Option<GamepadEventRaw> {
    let gamepad = Gamepad { id: e.id };
    match e.event {
        EventType::Connected => Some(
            GamepadEventRaw { gamepad, event_type: GamepadEventType::Connected },
        ),
        EventType::Disconnected => Some(
            GamepadEventRaw { gamepad, event_type: GamepadEventType::Disconnected },
        ),
        EventType::ButtonChanged(button, value) => match button_type(button) {
            Some(kind) => Some(
                GamepadEventRaw { gamepad, event_type: GamepadEventType::ButtonChanged(kind, value) },
            ),
            None => None,
        },
        EventType::AxisChanged(axis, value) => match axis_type(axis) {
            Some(kind) => Some(
                GamepadEventRaw { gamepad, event_type: GamepadEventType::AxisChanged(kind, value) },
            ),
            None => None,
        },
        _ => None,
    }
}

/// The connection event of the device `id`.
pub open spec fn connected(id: usize) -> GamepadEventRaw {
    GamepadEventRaw { gamepad: Gamepad { id }, event_type: GamepadEventType::Connected }
}

/// No two driver buttons stand for the same button of the game, and only
/// the unknown button stands for none.
pub proof fn lemma_buttons_distinct(a: Button, b: Button)
    ensures
        button_type(a) is None <==> a == Button::Unknown,
        button_type(a) is Some && button_type(a) == button_type(b) ==> a == b,
{
}

/// No two driver axes stand for the same axis of the game, and only the
/// unknown axis stands for none.
pub proof fn lemma_axes_distinct(a: Axis, b: Axis)
    ensures
        axis_type(a) is None <==> a == Axis::Unknown,
        axis_type(a) is Some && axis_type(a) == axis_type(b) ==> a == b,
{
}

/// The gamepad of the game for a device id of the driver.
pub fn convert_gamepad_id(gamepad_id: usize) -> (gamepad: Gamepad)
    ensures
        gamepad == (Gamepad { id: gamepad_id }),
{
    Gamepad { id: gamepad_id }
}

/// The button of the game for a button of the driver, or nothing for an
/// unknown button.
pub fn convert_button(button: Button) -> (r: Option<GamepadButtonType>)
    ensures
        r == button_type(button),
{
    match button {
        Button::South => Some(GamepadButtonType::South),
        Button::East => Some(GamepadButtonType::East),
        Button::North => Some(GamepadButtonType::North),
        Button::West => Some(GamepadButtonType::West),
        Button::C => Some(GamepadButtonType::C),
        Button::Z => Some(GamepadButtonType::Z),
        Button::LeftTrigger => Some(GamepadButtonType::LeftTrigger),
        Button::LeftTrigger2 => Some(GamepadButtonType::LeftTrigger2),
        Button::RightTrigger => Some(GamepadButtonType::RightTrigger),
        Button::RightTrigger2 => Some(GamepadButtonType::RightTrigger2),
        Button::Select => Some(GamepadButtonType::Select),
        Button::Start => Some(GamepadButtonType::Start),
        Button::Mode => Some(GamepadButtonType::Mode),
        Button::LeftThumb => Some(GamepadButtonType::LeftThumb),
        Button::RightThumb => Some(GamepadButtonType::RightThumb),
        Button::DPadUp => Some(GamepadButtonType::DPadUp),
        Button::DPadDown => Some(GamepadButtonType::DPadDown),
        Button::DPadLeft => Some(GamepadButtonType::DPadLeft),
        Button::DPadRight => Some(GamepadButtonType::DPadRight),
        Button::Unknown => None,
    }
}

/// The axis of the game for an axis of the driver, or nothing for an
/// unknown axis.
pub fn convert_axis(axis: Axis) -> (r: Option<GamepadAxisType>)
    ensures
        r == axis_type(axis),
{
    match axis {
        Axis::LeftStickX => Some(GamepadAxisType::LeftStickX),
        Axis::LeftStickY => Some(GamepadAxisType::LeftStickY),
        Axis::LeftZ => Some(GamepadAxisType::LeftZ),
        Axis::RightStickX => Some(GamepadAxisType::RightStickX),
        Axis::RightStickY => Some(GamepadAxisType::RightStickY),
        Axis::RightZ => Some(GamepadAxisType::RightZ),
        Axis::DPadX => Some(GamepadAxisType::DPadX),
        Axis::DPadY => Some(GamepadAxisType::DPadY),
        Axis::Unknown => None,
    }
}

/// The events with which the game starts: one connection for each device
/// that is already plugged in, in the order given.
pub fn gilrs_event_startup_system(gamepads: &Vec<usize>) -> (events: Vec<GamepadEventRaw>)
    ensures
        events@ == gamepads@.map_values(|id: usize| connected(id)),
{
    let mut events: Vec<GamepadEventRaw> = Vec::new();
    let mut i: usize = 0;
    while i < gamepads.len()
        invariant
            i <= gamepads@.len(),
            events@ == gamepads@.take(i as int).map_values(|id: usize| connected(id)),
        decreases gamepads@.len() - i,
    {
        events.push(
            GamepadEventRaw {
                gamepad: convert_gamepad_id(gamepads[i]),
                event_type: GamepadEventType::Connected,
            },
        );
        assert(events@ =~= gamepads@.take(i + 1).map_values(|id: usize| connected(id)));
        i = i + 1;
    }
    assert(gamepads@.take(gamepads@.len() as int) =~= gamepads@);
    events
}

/// Translates one report of the driver.
pub fn convert_event(e: Event) -> (r: Option<GamepadEventRaw>)
    ensures
        r == raw_event(e),
{
    let gamepad = convert_gamepad_id(e.id);
    match e.event {
        EventType::Connected => Some(
            GamepadEventRaw { gamepad, event_type: GamepadEventType::Connected },
        ),
        EventType::Disconnected => Some(
            GamepadEventRaw { gamepad, event_type: GamepadEventType::Disconnected },
        ),
        EventType::ButtonChanged(button, value) => match convert_button(button) {
            Some(kind) => Some(
                GamepadEventRaw { gamepad, event_type: GamepadEventType::ButtonChanged(kind, value) },
            ),
            None => None,
        },
        EventType::AxisChanged(axis, value) => match convert_axis(axis) {
            Some(kind) => Some(
                GamepadEventRaw { gamepad, event_type: GamepadEventType::AxisChanged(kind, value) },
            ),
            None => None,
        },
        _ => None,
    }
}

/// Translates the reports that the driver delivered during one tick, in
/// order, dropping those that have no translation.
pub fn gilrs_event_system(reports: &Vec<Event>) -> (events: Vec<GamepadEventRaw>)
    ensures
        events@ == reports@.filter_map(|e: Event| raw_event(e)),
{
    let mut events: Vec<GamepadEventRaw> = Vec::new();
    let mut i: usize = 0;
    let ghost f = |e: Event| raw_event(e);
    assert(reports@.take(0).filter_map(f) =~= Seq::<GamepadEventRaw>::empty());
    while i < reports.len()
        invariant
            i <= reports@.len(),
            f == |e: Event| raw_event(e),
            events@ == reports@.take(i as int).filter_map(f),
        decreases reports@.len() - i,
    {
        proof {
            reports@.lemma_filter_map_take_succ(f, i as int);
        }
        match convert_event(reports[i]) {
            Some(e) => {
                events.push(e);
            },
            None => {},
        }
        i = i + 1;
    }
    assert(reports@.take(reports@.len() as int) =~= reports@);
    events
}

} // verus!
