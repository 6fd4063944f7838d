//! The event model, and what one raw event does to the capture state.

use crate::keys::{contains_marker, without};
use crate::model::{has_marker, names_of, CalibrationModel, CaptureModel};
use crate::state::AppState;
use vstd::prelude::*;

verus! {

/// A mouse button as the input hook reports it.
#[derive(Debug, Clone, Copy, PartialEq, Eq, Structural)]
pub enum RawButton {
    Left,
    Right,
    Middle,
    Unknown(u8),
}

/// A mouse button as the presentation layer knows it.
#[derive(Debug, Clone, Copy, PartialEq, Eq, Structural)]
pub enum MouseButton {
    Left,
    Right,
    Middle,
    Other,
}

/// One occurrence of input as the hook delivers it. A key is given by its
/// normalized identifier; a pointer position by the binary64 encodings of
/// its physical coordinates, which are carried and never inspected.
#[derive(Debug, PartialEq, Eq)]
pub enum RawEvent {
    KeyPress(String),
    KeyRelease(String),
    ButtonPress(RawButton),
    ButtonRelease(RawButton),
    MouseMove { x: u64, y: u64 },
    Wheel { delta_x: i64, delta_y: i64 },
}

/// One occurrence of input as it is published. A pointer position is
/// given by the binary64 encodings of its logical coordinates.
#[derive(Debug, PartialEq, Eq)]
pub enum InputEvent {
    KeyEvent { pressed: bool, name: String },
    MouseButtonEvent { pressed: bool, button: MouseButton },
    MouseMoveEvent { x: u64, y: u64 },
    MouseWheelEvent { delta_x: i64, delta_y: i64 },
}

/// What the caller has to carry out after the state has changed.
#[derive(Debug, PartialEq, Eq)]
pub enum Effect {
    /// Show the capture mode in the indicator's label and icon.
    UpdateAffordance { listening: bool },
    /// Tell the primary surface that the capture mode has changed.
    NotifyToggled { listening: bool },
    /// Publish an event to the primary surface.
    PublishToPrimary(InputEvent),
    /// Publish an event to every surface.
    Broadcast(InputEvent),
    /// Publish the pointer position to every surface, once it is mapped
    /// from these physical coordinates into the logical space of the monitor
    /// with this origin and this scale. All three numbers are binary64
    /// encodings; the scale is positive.
    BroadcastPointer { x: u64, y: u64, origin: (i32, i32), scale: u64 },
}

/// [`RawEvent`] as plain mathematics.
pub enum RawEventModel {
    KeyPress(Seq<char>),
    KeyRelease(Seq<char>),
    ButtonPress(RawButton),
    ButtonRelease(RawButton),
    MouseMove { x: u64, y: u64 },
    Wheel { delta_x: i64, delta_y: i64 },
}

/// [`InputEvent`] as plain mathematics.
pub enum InputEventModel {
    KeyEvent { pressed: bool, name: Seq<char> },
    MouseButtonEvent { pressed: bool, button: MouseButton },
    MouseMoveEvent { x: u64, y: u64 },
    MouseWheelEvent { delta_x: i64, delta_y: i64 },
}

/// [`Effect`] as plain mathematics.
pub enum EffectModel {
    UpdateAffordance { listening: bool },
    NotifyToggled { listening: bool },
    PublishToPrimary(InputEventModel),
    Broadcast(InputEventModel),
    BroadcastPointer { x: u64, y: u64, origin: (i32, i32), scale: u64 },
}

impl View for RawEvent {
    type V = RawEventModel;

    open spec fn view(&self) -> RawEventModel {
        match *self {
            RawEvent::KeyPress(name) => RawEventModel::KeyPress(name@),
            RawEvent::KeyRelease(name) => RawEventModel::KeyRelease(name@),
            RawEvent::ButtonPress(button) => RawEventModel::ButtonPress(button),
            RawEvent::ButtonRelease(button) => RawEventModel::ButtonRelease(button),
            RawEvent::MouseMove { x, y } => RawEventModel::MouseMove { x, y },
            RawEvent::Wheel { delta_x, delta_y } => RawEventModel::Wheel { delta_x, delta_y },
        }
    }
}

impl View for InputEvent {
    type V = InputEventModel;

    open spec fn view(&self) -> InputEventModel {
        match *self {
            InputEvent::KeyEvent { pressed, name } => InputEventModel::KeyEvent {
                pressed,
                name: name@,
            },
            InputEvent::MouseButtonEvent { pressed, button } => InputEventModel::MouseButtonEvent {
                pressed,
                button,
            },
            InputEvent::MouseMoveEvent { x, y } => InputEventModel::MouseMoveEvent { x, y },
            InputEvent::MouseWheelEvent { delta_x, delta_y } => InputEventModel::MouseWheelEvent {
                delta_x,
                delta_y,
            },
        }
    }
}

impl View for Effect {
    type V = EffectModel;

    open spec fn view(&self) -> EffectModel {
        match *self {
            Effect::UpdateAffordance { listening } => EffectModel::UpdateAffordance { listening },
            Effect::NotifyToggled { listening } => EffectModel::NotifyToggled { listening },
            Effect::PublishToPrimary(event) => EffectModel::PublishToPrimary(event@),
            Effect::Broadcast(event) => EffectModel::Broadcast(event@),
            Effect::BroadcastPointer { x, y, origin, scale } => EffectModel::BroadcastPointer {
                x,
                y,
                origin,
                scale,
            },
        }
    }
}

impl Clone for RawEvent {
    fn clone(&self) -> (copy: Self)
        ensures
            copy@ == self@,
    {
        match self {
            RawEvent::KeyPress(name) => RawEvent::KeyPress(name.clone()),
            RawEvent::KeyRelease(name) => RawEvent::KeyRelease(name.clone()),
            RawEvent::ButtonPress(button) => RawEvent::ButtonPress(*button),
            RawEvent::ButtonRelease(button) => RawEvent::ButtonRelease(*button),
            RawEvent::MouseMove { x, y } => RawEvent::MouseMove { x: *x, y: *y },
            RawEvent::Wheel { delta_x, delta_y } => RawEvent::Wheel {
                delta_x: *delta_x,
                delta_y: *delta_y,
            },
        }
    }
}

impl Clone for InputEvent {
    fn clone(&self) -> (copy: Self)
        ensures
            copy@ == self@,
    {
        match self {
            InputEvent::KeyEvent { pressed, name } => InputEvent::KeyEvent {
                pressed: *pressed,
                name: name.clone(),
            },
            InputEvent::MouseButtonEvent { pressed, button } => InputEvent::MouseButtonEvent {
                pressed: *pressed,
                button: *button,
            },
            InputEvent::MouseMoveEvent { x, y } => InputEvent::MouseMoveEvent { x: *x, y: *y },
            InputEvent::MouseWheelEvent { delta_x, delta_y } => InputEvent::MouseWheelEvent {
                delta_x: *delta_x,
                delta_y: *delta_y,
            },
        }
    }
}

impl Clone for Effect {
    fn clone(&self) -> (copy: Self)
        ensures
            copy@ == self@,
    {
        match self {
            Effect::UpdateAffordance { listening } => Effect::UpdateAffordance {
                listening: *listening,
            },
            Effect::NotifyToggled { listening } => Effect::NotifyToggled { listening: *listening },
            Effect::PublishToPrimary(event) => Effect::PublishToPrimary(event.clone()),
            Effect::Broadcast(event) => Effect::Broadcast(event.clone()),
            Effect::BroadcastPointer { x, y, origin, scale } => Effect::BroadcastPointer {
                x: *x,
                y: *y,
                origin: (origin.0, origin.1),
                scale: *scale,
            },
        }
    }
}

/// What a list of effects holds.
pub open spec fn effects_of(effects: Seq<Effect>) -> Seq<EffectModel> {
    effects.map_values(|effect: Effect| effect@)
}

/// The presentation-layer button that a reported button stands for.
pub open spec fn button_of(button: RawButton) -> MouseButton {
    match button {
        RawButton::Left => MouseButton::Left,
        RawButton::Right => MouseButton::Right,
        RawButton::Middle => MouseButton::Middle,
        RawButton::Unknown(_) => MouseButton::Other,
    }
}

/// The held keys after `event`: a key that goes down joins at the end
/// unless it is held already; a key that goes up leaves, the others keep
/// their order; an unrecognized identifier changes nothing.
pub open spec fn next_keys(pressed: Seq<Seq<char>>, event: RawEventModel) -> Seq<Seq<char>> {
    match event {
        RawEventModel::KeyPress(name) => if has_marker(name) || pressed.contains(name) {
            pressed
        } else {
            pressed.push(name)
        },
        RawEventModel::KeyRelease(name) => if has_marker(name) {
            pressed
        } else {
            without(pressed, name)
        },
        _ => pressed,
    }
}

/// Whether `event` leaves no trace: a key with an unrecognized identifier,
/// or a key that goes down while it is held (a repeat).
pub open spec fn is_dropped(pressed: Seq<Seq<char>>, event: RawEventModel) -> bool {
    match event {
        RawEventModel::KeyPress(name) => has_marker(name) || pressed.contains(name),
        RawEventModel::KeyRelease(name) => has_marker(name),
        _ => false,
    }
}

/// Whether `event` flips the capture mode: it is a key that newly goes
/// down, and with it the held keys are the chord.
pub open spec fn fires(state: CaptureModel, event: RawEventModel) -> bool {
    &&& event is KeyPress
    &&& !is_dropped(state.pressed, event)
    &&& next_keys(state.pressed, event) == state.shortcut
}

/// The state after `event`.
pub open spec fn step(state: CaptureModel, event: RawEventModel) -> CaptureModel {
    CaptureModel {
        listening: if fires(state, event) {
            !state.listening
        } else {
            state.listening
        },
        pressed: next_keys(state.pressed, event),
        ..state
    }
}

/// The state after the capture mode was flipped.
pub open spec fn toggled(state: CaptureModel) -> CaptureModel {
    CaptureModel { listening: !state.listening, ..state }
}

/// The release of each key in `pressed`, in order, for the primary surface.
pub open spec fn release_flush(pressed: Seq<Seq<char>>) -> Seq<EffectModel> {
    pressed.map_values(
        |name: Seq<char>|
            EffectModel::PublishToPrimary(InputEventModel::KeyEvent { pressed: false, name }),
    )
}

/// What flipping the capture mode of `state` asks for: the affordance, the
/// notification, and, when capture goes off, the release of every held key.
pub open spec fn toggle_effects(state: CaptureModel) -> Seq<EffectModel> {
    let now = !state.listening;
    let announced = seq![
        EffectModel::UpdateAffordance { listening: now },
        EffectModel::NotifyToggled { listening: now },
    ];
    if now {
        announced
    } else {
        announced + release_flush(state.pressed)
    }
}

/// What publishing `event` to every surface asks for. A pointer position
/// goes out with the calibration that maps it into logical space.
pub open spec fn broadcast_of(calibration: CalibrationModel, event: RawEventModel) -> EffectModel {
    match event {
        RawEventModel::KeyPress(name) => EffectModel::Broadcast(
            InputEventModel::KeyEvent { pressed: true, name },
        ),
        RawEventModel::KeyRelease(name) => EffectModel::Broadcast(
            InputEventModel::KeyEvent { pressed: false, name },
        ),
        RawEventModel::ButtonPress(button) => EffectModel::Broadcast(
            InputEventModel::MouseButtonEvent { pressed: true, button: button_of(button) },
        ),
        RawEventModel::ButtonRelease(button) => EffectModel::Broadcast(
            InputEventModel::MouseButtonEvent { pressed: false, button: button_of(button) },
        ),
        RawEventModel::MouseMove { x, y } => EffectModel::BroadcastPointer {
            x,
            y,
            origin: calibration.origin,
            scale: calibration.scale,
        },
        RawEventModel::Wheel { delta_x, delta_y } => EffectModel::Broadcast(
            InputEventModel::MouseWheelEvent { delta_x, delta_y },
        ),
    }
}

/// What handling `event` in `state` asks for, in order: nothing for an
/// event that is dropped; else what the flip asks for, if the chord fires,
/// and then the event itself for every surface, if capture is on afterwards.
pub open spec fn effects(state: CaptureModel, event: RawEventModel) -> Seq<EffectModel> {
    if is_dropped(state.pressed, event) {
        Seq::empty()
    } else {
        let flip = if fires(state, event) {
            toggle_effects(CaptureModel { pressed: next_keys(state.pressed, event), ..state })
        } else {
            Seq::empty()
        };
        if step(state, event).listening {
            flip.push(broadcast_of(state.calibration, event))
        } else {
            flip
        }
    }
}

/// Classifies a reported mouse button; every button beyond the three
/// standard ones is `Other`.
pub fn map_mouse_button(button: RawButton) -> (mapped: MouseButton)
    ensures
        mapped == button_of(button),
{
    match button {
        RawButton::Left => MouseButton::Left,
        RawButton::Right => MouseButton::Right,
        RawButton::Middle => MouseButton::Middle,
        _ => MouseButton::Other,
    }
}

/// Flips the capture mode and says what has to follow: the affordance, the
/// notification and, when capture goes off, the release of every held key
/// in the order in which the keys went down.
pub fn toggle(state: &mut AppState) -> (effects: Vec<Effect>)
    ensures
        final(state)@ == toggled(old(state)@),
        effects_of(effects@) == toggle_effects(old(state)@),
        final(state)@.wf(),
{
    let now = !state.listening();
    state.set_listening(now);
    let mut effects: Vec<Effect> = Vec::new();
    effects.push(Effect::UpdateAffordance { listening: now });
    effects.push(Effect::NotifyToggled { listening: now });
    let ghost announced = effects_of(effects@);
    assert(announced =~= seq![
        EffectModel::UpdateAffordance { listening: now },
        EffectModel::NotifyToggled { listening: now },
    ]);
    if !now {
        let keys = state.pressed_keys();
        let mut i: usize = 0;
        assert(effects_of(effects@) =~= announced + release_flush(names_of(keys@).take(0)));
        while i < keys.len()
            invariant
                i <= keys.len(),
                effects_of(effects@) == announced + release_flush(names_of(keys@).take(i as int)),
            decreases keys.len() - i,
        {
            let ghost before = effects_of(effects@);
            let release = Effect::PublishToPrimary(
                InputEvent::KeyEvent { pressed: false, name: keys[i].clone() },
            );
            assert(effects_of(effects@.push(release)) =~= before.push(release@));
            assert(announced + release_flush(names_of(keys@).take(i + 1)) =~= before.push(
                release@,
            ));
            effects.push(release);
            i += 1;
        }
        assert(names_of(keys@).take(keys.len() as int) =~= names_of(keys@));
    }
    proof {
        use_type_invariant(&*state);
    }
    effects
}

/// Handles one raw event: keeps the held keys, flips the capture mode when
/// the chord is completed, and says what has to be published.
pub fn handle_event(state: &mut AppState, event: RawEvent) -> (effects: Vec<Effect>)
    ensures
        final(state)@ == step(old(state)@, event@),
        effects_of(effects@) == self::effects(old(state)@, event@),
        final(state)@.wf(),
{
    proof {
        use_type_invariant(&*state);
    }
    let mut effects: Vec<Effect> = Vec::new();
    assert(effects_of(effects@) =~= Seq::empty());
    let broadcast = match event {
        RawEvent::KeyPress(name) => {
            if contains_marker(&name) || state.is_pressed(&name) {
                return effects;
            }
            state.press(name.clone());
            if state.chord_matches() {
                effects = toggle(state);
            }
            Effect::Broadcast(InputEvent::KeyEvent { pressed: true, name })
        },
        RawEvent::KeyRelease(name) => {
            if contains_marker(&name) {
                return effects;
            }
            state.release(&name);
            Effect::Broadcast(InputEvent::KeyEvent { pressed: false, name })
        },
        RawEvent::ButtonPress(button) => Effect::Broadcast(
            InputEvent::MouseButtonEvent { pressed: true, button: map_mouse_button(button) },
        ),
        RawEvent::ButtonRelease(button) => Effect::Broadcast(
            InputEvent::MouseButtonEvent { pressed: false, button: map_mouse_button(button) },
        ),
        RawEvent::MouseMove { x, y } => {
            let calibration = state.calibration();
            Effect::BroadcastPointer { x, y, origin: calibration.origin, scale: calibration.scale }
        },
        RawEvent::Wheel { delta_x, delta_y } => Effect::Broadcast(
            InputEvent::MouseWheelEvent { delta_x, delta_y },
        ),
    };
    if state.listening() {
        assert(effects_of(effects@.push(broadcast)) =~= effects_of(effects@).push(broadcast@));
        effects.push(broadcast);
    }
    proof {
        use_type_invariant(&*state);
    }
    effects
}

} // verus!
