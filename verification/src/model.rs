//! The mathematical model of the capture state.

use vstd::prelude::*;

verus! {

/// The character that marks a key identifier as unrecognized.
pub const GROUPING_MARKER: char = '(';

/// Encoding of the scale one.
pub const UNIT_SCALE: u64 = 0x3FF0_0000_0000_0000;

/// Largest encoding that still denotes a positive number.
pub const MAX_POSITIVE: u64 = 0x7FF0_0000_0000_0000;

/// Whether a key identifier is of the unrecognized form.
pub open spec fn has_marker(name: Seq<char>) -> bool {
    name.contains(GROUPING_MARKER)
}

/// Whether `bits`, read as a binary64 number, is greater than zero: the
/// sign is clear, and it is neither zero nor a NaN.
pub open spec fn is_positive_scale(bits: u64) -> bool {
    0 < bits <= MAX_POSITIVE
}

/// Calibration of the monitor that the primary surface is placed on.
pub struct CalibrationModel {
    pub name: Option<Seq<char>>,
    pub scale: u64,
    pub origin: (i32, i32),
}

/// The capture state as plain mathematics.
pub struct CaptureModel {
    pub listening: bool,
    pub pressed: Seq<Seq<char>>,
    pub shortcut: Seq<Seq<char>>,
    pub calibration: CalibrationModel,
}

impl CaptureModel {
    /// No key is held twice, no held key is of the unrecognized form, and
    /// the calibrated scale is positive.
    pub open spec fn wf(self) -> bool {
        &&& self.pressed.no_duplicates()
        &&& forall|i: int| 0 <= i < self.pressed.len() ==> !has_marker(#[trigger] self.pressed[i])
        &&& is_positive_scale(self.calibration.scale)
    }
}

/// The calibration before any monitor was selected.
pub open spec fn initial_calibration() -> CalibrationModel {
    CalibrationModel { name: None, scale: UNIT_SCALE, origin: (0i32, 0i32) }
}

/// The chord that toggles capture unless another one is configured.
pub open spec fn default_shortcut() -> Seq<Seq<char>> {
    seq!["Shift"@, "F10"@]
}

/// The state at process start.
pub open spec fn initial_model() -> CaptureModel {
    CaptureModel {
        listening: true,
        pressed: Seq::empty(),
        shortcut: default_shortcut(),
        calibration: initial_calibration(),
    }
}

/// The identifiers that a sequence of strings holds.
pub open spec fn names_of(keys: Seq<String>) -> Seq<Seq<char>> {
    keys.map_values(|key: String| key@)
}

} // verus!
