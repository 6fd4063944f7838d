//! The configuration commands: replacing the toggle chord and selecting the
//! monitor that the primary surface is placed on.

use crate::model::{is_positive_scale, names_of, CalibrationModel, CaptureModel, MAX_POSITIVE};
use crate::state::{AppState, MonitorCalibration};
use vstd::prelude::*;

verus! {

/// One of the monitors that are available, with its bounds in physical
/// pixels and the binary64 encoding of its display scale, which is positive.
#[derive(Debug)]
pub struct Monitor {
    name: Option<String>,
    position: (i32, i32),
    size: (u32, u32),
    scale: u64,
}

/// [`Monitor`] as plain mathematics.
pub struct MonitorModel {
    pub name: Option<Seq<char>>,
    pub position: (i32, i32),
    pub size: (u32, u32),
    pub scale: u64,
}

/// Where the primary surface has to go.
#[derive(Debug, Clone, Copy, PartialEq, Eq, Structural)]
pub struct Placement {
    pub x: i32,
    pub y: i32,
    pub width: u32,
    pub height: u32,
}

/// How a monitor selection ended.
#[derive(Debug, Clone, Copy, PartialEq, Eq, Structural)]
pub enum MonitorOutcome {
    /// The monitor is the calibrated one already: nothing was written and
    /// nothing has to move.
    AlreadyActive,
    /// No available monitor has the name: nothing was written and nothing
    /// has to move.
    NotFound,
    /// The calibration was replaced; the primary surface has to be moved
    /// and resized to these bounds.
    Moved(Placement),
}

impl View for Monitor {
    type V = MonitorModel;

    closed spec fn view(&self) -> MonitorModel {
        MonitorModel {
            name: match self.name {
                Some(name) => Some(name@),
                None => None,
            },
            position: self.position,
            size: self.size,
            scale: self.scale,
        }
    }
}

impl Monitor {
    /// What holds of every monitor at every moment.
    #[verifier::type_invariant]
    pub open spec fn inv(self) -> bool {
        is_positive_scale(self@.scale)
    }

    /// Describes a monitor; there is none with a scale that is not positive.
    pub fn new(name: Option<String>, position: (i32, i32), size: (u32, u32), scale: u64) -> (monitor:
        Option<Self>)
        ensures
            monitor is Some <==> is_positive_scale(scale),
            monitor matches Some(m) ==> m@ == (MonitorModel {
                name: match name {
                    Some(n) => Some(n@),
                    None => None,
                },
                position,
                size,
                scale,
            }),
    {
        if 0 < scale && scale <= MAX_POSITIVE {
            Some(Monitor { name, position, size, scale })
        } else {
            None
        }
    }

    /// Whether the monitor goes by `name`.
    pub fn is_named(&self, name: &String) -> (named: bool)
        ensures
            named == (self@.name == Some(name@)),
    {
        match &self.name {
            Some(own) => *own == *name,
            None => false,
        }
    }

    /// The bounds of the monitor.
    pub fn placement(&self) -> (placement: Placement)
        ensures
            placement == placement_of(self@),
    {
        Placement {
            x: self.position.0,
            y: self.position.1,
            width: self.size.0,
            height: self.size.1,
        }
    }

    /// The calibration that stands for the monitor under `name`.
    fn calibration(&self, name: String) -> (calibration: MonitorCalibration)
        ensures
            calibration@ == calibration_of(self@, name@),
            is_positive_scale(calibration.scale),
    {
        proof {
            use_type_invariant(self);
        }
        MonitorCalibration { name: Some(name), scale: self.scale, origin: self.position }
    }
}

/// What a list of monitors holds.
pub open spec fn monitors_of(monitors: Seq<Monitor>) -> Seq<MonitorModel> {
    monitors.map_values(|monitor: Monitor| monitor@)
}

/// The bounds of a monitor.
pub open spec fn placement_of(monitor: MonitorModel) -> Placement {
    Placement {
        x: monitor.position.0,
        y: monitor.position.1,
        width: monitor.size.0,
        height: monitor.size.1,
    }
}

/// The calibration that stands for a monitor that was selected as `name`.
pub open spec fn calibration_of(monitor: MonitorModel, name: Seq<char>) -> CalibrationModel {
    CalibrationModel { name: Some(name), scale: monitor.scale, origin: monitor.position }
}

/// Whether the monitor at `index` is the first that goes by `name`.
pub open spec fn is_first_named(monitors: Seq<MonitorModel>, name: Seq<char>, index: int) -> bool {
    &&& 0 <= index < monitors.len()
    &&& monitors[index].name == Some(name)
    &&& forall|j: int| 0 <= j < index ==> (#[trigger] monitors[j]).name != Some(name)
}

/// The first monitor that goes by `name`, if there is one.
pub open spec fn first_named(monitors: Seq<MonitorModel>, name: Seq<char>) -> Option<
    MonitorModel,
> {
    if exists|index: int| is_first_named(monitors, name, index) {
        Some(monitors[choose|index: int| is_first_named(monitors, name, index)])
    } else {
        None
    }
}

/// How selecting `name` among `monitors` ends in `state`.
pub open spec fn selection_outcome(
    state: CaptureModel,
    name: Seq<char>,
    monitors: Seq<MonitorModel>,
) -> MonitorOutcome {
    if state.calibration.name == Some(name) {
        MonitorOutcome::AlreadyActive
    } else {
        match first_named(monitors, name) {
            Some(monitor) => MonitorOutcome::Moved(placement_of(monitor)),
            None => MonitorOutcome::NotFound,
        }
    }
}

/// The state after `name` was selected among `monitors`.
pub open spec fn after_selection(
    state: CaptureModel,
    name: Seq<char>,
    monitors: Seq<MonitorModel>,
) -> CaptureModel {
    if state.calibration.name == Some(name) {
        state
    } else {
        match first_named(monitors, name) {
            Some(monitor) => CaptureModel { calibration: calibration_of(monitor, name), ..state },
            None => state,
        }
    }
}

/// Puts `shortcut` in the place of the toggle chord, whatever it holds.
pub fn set_toggle_shortcut(state: &mut AppState, shortcut: Vec<String>)
    ensures
        final(state)@ == (CaptureModel { shortcut: names_of(shortcut@), ..old(state)@ }),
        final(state)@.wf(),
{
    state.replace_shortcut(shortcut);
    proof {
        use_type_invariant(&*state);
    }
}

/// Selects the monitor that goes by `monitor_name`. Nothing changes where
/// it is the calibrated monitor already, or where none of `monitors` goes
/// by the name. Else the calibration becomes that of the first such
/// monitor, whose bounds are handed back for the primary surface.
pub fn set_main_window_monitor(
    state: &mut AppState,
    monitor_name: String,
    monitors: &Vec<Monitor>,
) -> (outcome: MonitorOutcome)
    ensures
        final(state)@ == after_selection(old(state)@, monitor_name@, monitors_of(monitors@)),
        outcome == selection_outcome(old(state)@, monitor_name@, monitors_of(monitors@)),
        final(state)@.wf(),
{
    proof {
        use_type_invariant(&*state);
    }
    if state.is_calibrated_to(&monitor_name) {
        return MonitorOutcome::AlreadyActive;
    }
    let ghost models = monitors_of(monitors@);
    let ghost start = state@;
    let mut i: usize = 0;
    while i < monitors.len()
        invariant
            i <= monitors.len(),
            models == monitors_of(monitors@),
            state@ == start,
            start == old(state)@,
            start.wf(),
            start.calibration.name != Some(monitor_name@),
            forall|j: int| 0 <= j < i ==> (#[trigger] models[j]).name != Some(monitor_name@),
        decreases monitors.len() - i,
    {
        if monitors[i].is_named(&monitor_name) {
            assert(is_first_named(models, monitor_name@, i as int));
            proof {
                lemma_first_named_is_unique(models, monitor_name@, i as int);
            }
            let placement = monitors[i].placement();
            let calibration = monitors[i].calibration(monitor_name);
            state.replace_calibration(calibration);
            proof {
                use_type_invariant(&*state);
            }
            return MonitorOutcome::Moved(placement);
        }
        i += 1;
    }
    assert(first_named(models, monitor_name@) is None);
    MonitorOutcome::NotFound
}

/// At most one monitor is the first that goes by a name.
pub proof fn lemma_first_named_is_unique(monitors: Seq<MonitorModel>, name: Seq<char>, index: int)
    requires
        is_first_named(monitors, name, index),
    ensures
        first_named(monitors, name) == Some(monitors[index]),
{
    let chosen = choose|i: int| is_first_named(monitors, name, i);
    if chosen < index {
        assert(monitors[chosen].name != Some(name));
    } else if index < chosen {
        assert(monitors[index].name != Some(name));
    }
}

} // verus!
