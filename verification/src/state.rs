//! The shared capture state: the single source of truth for the capture
//! mode, the held keys, the toggle chord and the monitor calibration.

use crate::keys::{contains_name, lemma_without_keeps_wf, remove_name, same_names, without};
use crate::model::{
    default_shortcut, has_marker, initial_calibration, initial_model, is_positive_scale, names_of,
    CalibrationModel, CaptureModel, UNIT_SCALE,
};
use vstd::prelude::*;

verus! {

/// Calibration of the monitor that the primary surface is placed on. The
/// scale is carried as the binary64 encoding of the display scale.
#[derive(Debug, PartialEq, Eq)]
pub struct MonitorCalibration {
    pub name: Option<String>,
    pub scale: u64,
    pub origin: (i32, i32),
}

impl View for MonitorCalibration {
    type V = CalibrationModel;

    open spec fn view(&self) -> CalibrationModel {
        CalibrationModel {
            name: match self.name {
                Some(name) => Some(name@),
                None => None,
            },
            scale: self.scale,
            origin: self.origin,
        }
    }
}

impl Clone for MonitorCalibration {
    fn clone(&self) -> (copy: Self)
        ensures
            copy@ == self@,
    {
        let name = match &self.name {
            Some(name) => Some(name.clone()),
            None => None,
        };
        MonitorCalibration { name, scale: self.scale, origin: (self.origin.0, self.origin.1) }
    }
}

/// The persisted settings document, as far as the capture state reads it.
#[derive(Debug, PartialEq, Eq)]
pub struct KeyEventStore {
    pub state: KeyEventState,
}

/// The settings that the persisted document holds under `state`.
#[derive(Debug, PartialEq, Eq)]
pub struct KeyEventState {
    pub toggle_shortcut: Vec<String>,
}

/// The chord that the persisted settings ask for: theirs where they could
/// be read, the default one where they could not.
pub open spec fn stored_shortcut(settings: Option<KeyEventStore>) -> Seq<Seq<char>> {
    match settings {
        Some(store) => names_of(store.state.toggle_shortcut@),
        None => default_shortcut(),
    }
}

/// The capture state. Its fields change only through the operations below,
/// which keep [`CaptureModel::wf`].
pub struct AppState {
    listening: bool,
    pressed_keys: Vec<String>,
    toggle_shortcut: Vec<String>,
    calibration: MonitorCalibration,
}

impl View for AppState {
    type V = CaptureModel;

    closed spec fn view(&self) -> CaptureModel {
        CaptureModel {
            listening: self.listening,
            pressed: names_of(self.pressed_keys@),
            shortcut: names_of(self.toggle_shortcut@),
            calibration: self.calibration@,
        }
    }
}

impl AppState {
    /// What holds of every capture state at every moment.
    #[verifier::type_invariant]
    pub open spec fn inv(self) -> bool {
        self@.wf()
    }

    /// The state at process start: capturing, no key held, the default
    /// chord, no monitor selected.
    pub fn new() -> (state: Self)
        ensures
            state@ == initial_model(),
            state@.wf(),
    {
        let mut toggle_shortcut: Vec<String> = Vec::new();
        toggle_shortcut.push("Shift".to_string());
        toggle_shortcut.push("F10".to_string());
        let state = AppState {
            listening: true,
            pressed_keys: Vec::new(),
            toggle_shortcut,
            calibration: MonitorCalibration { name: None, scale: UNIT_SCALE, origin: (0, 0) },
        };
        proof {
            assert(names_of(state.pressed_keys@) =~= Seq::empty());
            assert(names_of(state.toggle_shortcut@) =~= seq!["Shift"@, "F10"@]);
        }
        state
    }

    /// The state at process start under the persisted settings; `None`
    /// stands for settings that are missing or could not be read.
    pub fn with_settings(settings: Option<KeyEventStore>) -> (state: Self)
        ensures
            state@ == (CaptureModel { shortcut: stored_shortcut(settings), ..initial_model() }),
            state@.wf(),
    {
        let mut state = AppState::new();
        match settings {
            Some(store) => {
                state.replace_shortcut(store.state.toggle_shortcut);
            },
            None => {},
        }
        state
    }

    /// Whether capture is on.
    pub fn listening(&self) -> (on: bool)
        ensures
            on == self@.listening,
    {
        self.listening
    }

    /// The keys that are held, in the order in which they went down.
    pub fn pressed_keys(&self) -> (keys: &Vec<String>)
        ensures
            names_of(keys@) == self@.pressed,
            self@.wf(),
    {
        proof {
            use_type_invariant(self);
        }
        &self.pressed_keys
    }

    /// The chord that toggles capture.
    pub fn toggle_shortcut(&self) -> (keys: &Vec<String>)
        ensures
            names_of(keys@) == self@.shortcut,
    {
        &self.toggle_shortcut
    }

    /// The calibration of the monitor that was selected last.
    pub fn calibration(&self) -> (calibration: &MonitorCalibration)
        ensures
            calibration@ == self@.calibration,
            is_positive_scale(calibration.scale),
    {
        proof {
            use_type_invariant(self);
        }
        &self.calibration
    }

    /// Whether the calibrated monitor goes by `name`.
    pub fn is_calibrated_to(&self, name: &String) -> (active: bool)
        ensures
            active == (self@.calibration.name == Some(name@)),
    {
        match &self.calibration.name {
            Some(own) => *own == *name,
            None => false,
        }
    }

    /// Whether `name` is among the held keys.
    pub fn is_pressed(&self, name: &String) -> (held: bool)
        ensures
            held == self@.pressed.contains(name@),
    {
        contains_name(&self.pressed_keys, name)
    }

    /// Whether the held keys are the chord: the same identifiers, as many,
    /// in the same order.
    pub fn chord_matches(&self) -> (matches: bool)
        ensures
            matches == (self@.pressed == self@.shortcut),
    {
        same_names(&self.pressed_keys, &self.toggle_shortcut)
    }

    /// Sets the capture mode and leaves the rest as it is.
    pub(crate) fn set_listening(&mut self, on: bool)
        ensures
            final(self)@ == (CaptureModel { listening: on, ..old(self)@ }),
    {
        proof {
            use_type_invariant(&*self);
        }
        self.listening = on;
    }

    /// Records `name` as the key that went down last.
    pub(crate) fn press(&mut self, name: String)
        requires
            !has_marker(name@),
            !old(self)@.pressed.contains(name@),
        ensures
            final(self)@ == (CaptureModel {
                pressed: old(self)@.pressed.push(name@),
                ..old(self)@
            }),
    {
        proof {
            use_type_invariant(&*self);
        }
        let mut keys: Vec<String> = Vec::new();
        assert(names_of(keys@) =~= Seq::empty());
        core::mem::swap(&mut keys, &mut self.pressed_keys);
        assert(names_of(keys@.push(name)) =~= names_of(keys@).push(name@));
        keys.push(name);
        self.pressed_keys = keys;
    }

    /// Records that `name` went up; the other keys keep their order.
    pub(crate) fn release(&mut self, name: &String)
        ensures
            final(self)@ == (CaptureModel {
                pressed: without(old(self)@.pressed, name@),
                ..old(self)@
            }),
    {
        proof {
            use_type_invariant(&*self);
        }
        let rest = remove_name(&self.pressed_keys, name);
        proof {
            lemma_without_keeps_wf(names_of(self.pressed_keys@), name@);
        }
        self.pressed_keys = rest;
    }

    /// Puts `shortcut` in the place of the chord.
    pub(crate) fn replace_shortcut(&mut self, shortcut: Vec<String>)
        ensures
            final(self)@ == (CaptureModel { shortcut: names_of(shortcut@), ..old(self)@ }),
    {
        proof {
            use_type_invariant(&*self);
        }
        self.toggle_shortcut = shortcut;
    }

    /// Puts `calibration` in the place of the active one.
    pub(crate) fn replace_calibration(&mut self, calibration: MonitorCalibration)
        requires
            is_positive_scale(calibration.scale),
        ensures
            final(self)@ == (CaptureModel { calibration: calibration@, ..old(self)@ }),
    {
        proof {
            use_type_invariant(&*self);
        }
        self.calibration = calibration;
    }
}

impl Default for AppState {
    /// The idle state: capture off, no key held, no chord, no monitor
    /// selected.
    fn default() -> (state: Self)
        ensures
            state@ == (CaptureModel {
                listening: false,
                pressed: Seq::empty(),
                shortcut: Seq::empty(),
                calibration: initial_calibration(),
            }),
            state@.wf(),
    {
        let state = AppState {
            listening: false,
            pressed_keys: Vec::new(),
            toggle_shortcut: Vec::new(),
            calibration: MonitorCalibration { name: None, scale: UNIT_SCALE, origin: (0, 0) },
        };
        proof {
            assert(names_of(state.pressed_keys@) =~= Seq::empty());
            assert(names_of(state.toggle_shortcut@) =~= Seq::empty());
        }
        state
    }
}

} // verus!
