//! What holds of the capture state whatever input arrives.

use crate::commands::{
    after_selection, calibration_of, is_first_named, lemma_first_named_is_unique, placement_of,
    selection_outcome, MonitorModel, MonitorOutcome,
};
use crate::event::{
    broadcast_of, effects, fires, is_dropped, next_keys, step, toggle_effects, toggled,
    EffectModel, InputEventModel, RawEventModel,
};
use crate::keys::{lemma_without_absent, lemma_without_keeps_wf, lemma_without_present};
use crate::model::{has_marker, is_positive_scale, CaptureModel};
use vstd::prelude::*;

verus! {

/// The state after `events` were handled in order, starting in `state`.
pub open spec fn run(state: CaptureModel, events: Seq<RawEventModel>) -> CaptureModel
    decreases events.len(),
{
    if events.len() == 0 {
        state
    } else {
        step(run(state, events.drop_last()), events.last())
    }
}

/// Whether `key` went down at `index` and has not gone up since.
pub open spec fn down_since(events: Seq<RawEventModel>, key: Seq<char>, index: int) -> bool {
    &&& 0 <= index < events.len()
    &&& events[index] == RawEventModel::KeyPress(key)
    &&& forall|j: int| index < j < events.len() ==> events[j] != RawEventModel::KeyRelease(key)
}

/// Whether `key` is down after `events`: it went down and has not gone up
/// since.
pub open spec fn is_down(events: Seq<RawEventModel>, key: Seq<char>) -> bool {
    exists|index: int| down_since(events, key, index)
}

/// Whether `index` is where `key` went down to stay: it has not gone up
/// since, and whenever it went down earlier it went up again before.
pub open spec fn went_down_at(events: Seq<RawEventModel>, key: Seq<char>, index: int) -> bool {
    &&& down_since(events, key, index)
    &&& forall|j: int|
        0 <= j < index && events[j] == RawEventModel::KeyPress(key) ==> exists|r: int|
            j < r < index && events[r] == RawEventModel::KeyRelease(key)
}

/// Whether `earlier` went down to stay before `later` did.
pub open spec fn went_down_before(
    events: Seq<RawEventModel>,
    earlier: Seq<char>,
    later: Seq<char>,
) -> bool {
    exists|i: int, j: int|
        i < j && went_down_at(events, earlier, i) && went_down_at(events, later, j)
}

/// Every step keeps the state well formed.
pub proof fn law_step_keeps_wf(state: CaptureModel, event: RawEventModel)
    requires
        state.wf(),
    ensures
        step(state, event).wf(),
{
    match event {
        RawEventModel::KeyRelease(name) => {
            lemma_without_keeps_wf(state.pressed, name);
        },
        _ => {},
    }
}

/// The capture mode flips on an event if and only if the event is a key
/// that newly goes down and with it the held keys are the chord: the same
/// identifiers, as many, in the same order.
pub proof fn law_toggle_iff_chord(state: CaptureModel, event: RawEventModel)
    ensures
        step(state, event).listening != state.listening <==> (event is KeyPress && !is_dropped(
            state.pressed,
            event,
        ) && step(state, event).pressed == state.shortcut),
        step(state, event).shortcut == state.shortcut,
        step(state, event).calibration == state.calibration,
{
}

/// An empty chord never fires.
pub proof fn law_empty_chord_never_fires(state: CaptureModel, event: RawEventModel)
    requires
        state.shortcut.len() == 0,
    ensures
        step(state, event).listening == state.listening,
{
}

/// When the chord turns capture off, what follows is the affordance, the
/// notification, and then one release for each held key, the key that
/// completed the chord among them, in the order in which the keys went
/// down; nothing is published besides. The releases are part of what the
/// same event asks for, so they precede whatever a later event asks for.
pub proof fn law_flush_on_toggle_off(state: CaptureModel, event: RawEventModel)
    requires
        state.listening,
        fires(state, event),
    ensures
        !step(state, event).listening,
        effects(state, event).len() == step(state, event).pressed.len() + 2,
        effects(state, event)[0] == (EffectModel::UpdateAffordance { listening: false }),
        effects(state, event)[1] == (EffectModel::NotifyToggled { listening: false }),
        forall|i: int|
            0 <= i < step(state, event).pressed.len() ==> #[trigger] effects(state, event)[i + 2]
                == EffectModel::PublishToPrimary(
                InputEventModel::KeyEvent { pressed: false, name: step(state, event).pressed[i] },
            ),
{
}

/// When the chord turns capture on, no release is made up: what follows is
/// the affordance, the notification and the key that completed the chord.
pub proof fn law_no_flush_on_toggle_on(state: CaptureModel, event: RawEventModel)
    requires
        !state.listening,
        fires(state, event),
    ensures
        step(state, event).listening,
        effects(state, event) == seq![
            EffectModel::UpdateAffordance { listening: true },
            EffectModel::NotifyToggled { listening: true },
            broadcast_of(state.calibration, event),
        ],
{
    assert(effects(state, event) =~= seq![
        EffectModel::UpdateAffordance { listening: true },
        EffectModel::NotifyToggled { listening: true },
        broadcast_of(state.calibration, event),
    ]);
}

/// Flipping the mode by command asks for the same as flipping it by chord:
/// going off, the release of every held key in order; going on, none.
pub proof fn law_toggle_flush(state: CaptureModel)
    ensures
        toggled(state).pressed == state.pressed,
        toggled(state).listening == !state.listening,
        toggle_effects(state).len() == if state.listening {
            state.pressed.len() + 2
        } else {
            2
        },
        toggle_effects(state)[0] == (EffectModel::UpdateAffordance { listening: !state.listening }),
        toggle_effects(state)[1] == (EffectModel::NotifyToggled { listening: !state.listening }),
        state.listening ==> forall|i: int|
            0 <= i < state.pressed.len() ==> #[trigger] toggle_effects(state)[i + 2]
                == EffectModel::PublishToPrimary(
                InputEventModel::KeyEvent { pressed: false, name: state.pressed[i] },
            ),
{
}

/// A key whose identifier is of the unrecognized form leaves no trace: the
/// state stays as it is and nothing is published, whether the key goes
/// down or up.
pub proof fn law_marked_key_leaves_no_trace(state: CaptureModel, name: Seq<char>)
    requires
        has_marker(name),
    ensures
        step(state, RawEventModel::KeyPress(name)) == state,
        step(state, RawEventModel::KeyRelease(name)) == state,
        effects(state, RawEventModel::KeyPress(name)).len() == 0,
        effects(state, RawEventModel::KeyRelease(name)).len() == 0,
{
}

/// A key that goes down while it is held leaves no trace.
pub proof fn law_repeat_leaves_no_trace(state: CaptureModel, name: Seq<char>)
    requires
        state.pressed.contains(name),
    ensures
        step(state, RawEventModel::KeyPress(name)) == state,
        effects(state, RawEventModel::KeyPress(name)).len() == 0,
{
}

/// Whether an effect publishes to every surface.
pub open spec fn is_broadcast(effect: EffectModel) -> bool {
    effect is Broadcast || effect is BroadcastPointer
}

/// While capture is off nothing is published but the releases that
/// turning it off asks for: an event goes to every surface only if capture
/// is on once the event is handled, and then it is the event at hand and
/// comes last; one goes to the primary surface only as the release of a
/// held key when the chord turns capture off.
pub proof fn law_silent_while_off(state: CaptureModel, event: RawEventModel, i: int)
    requires
        0 <= i < effects(state, event).len(),
    ensures
        is_broadcast(effects(state, event)[i]) ==> step(state, event).listening && i == effects(
            state,
            event,
        ).len() - 1 && effects(state, event)[i] == broadcast_of(state.calibration, event),
        effects(state, event)[i] is PublishToPrimary ==> state.listening && fires(state, event)
            && !step(state, event).listening && 2 <= i && effects(state, event)[i]
            == EffectModel::PublishToPrimary(
            InputEventModel::KeyEvent {
                pressed: false,
                name: step(state, event).pressed[i - 2],
            },
        ),
{
}

/// An event that is handled while capture is on, and leaves it on, is
/// published to every surface and nothing else is asked for, unless the
/// event is dropped.
pub proof fn law_published_while_on(state: CaptureModel, event: RawEventModel)
    requires
        state.listening,
        step(state, event).listening,
        !is_dropped(state.pressed, event),
    ensures
        effects(state, event) == seq![broadcast_of(state.calibration, event)],
{
    assert(effects(state, event) =~= seq![broadcast_of(state.calibration, event)]);
}

/// A pointer position is published with the calibration that is active,
/// whose scale is positive.
pub proof fn law_pointer_goes_with_calibration(state: CaptureModel, x: u64, y: u64)
    requires
        state.wf(),
        state.listening,
    ensures
        effects(state, RawEventModel::MouseMove { x, y }) == seq![
            EffectModel::BroadcastPointer {
                x,
                y,
                origin: state.calibration.origin,
                scale: state.calibration.scale,
            },
        ],
        is_positive_scale(state.calibration.scale),
        step(state, RawEventModel::MouseMove { x, y }) == state,
{
    assert(effects(state, RawEventModel::MouseMove { x, y }) =~= seq![
        EffectModel::BroadcastPointer {
            x,
            y,
            origin: state.calibration.origin,
            scale: state.calibration.scale,
        },
    ]);
}

/// An event that finds capture off and leaves it off asks for nothing.
pub proof fn law_nothing_while_off(state: CaptureModel, event: RawEventModel)
    requires
        !state.listening,
        !step(state, event).listening,
    ensures
        effects(state, event).len() == 0,
{
}

/// Whether `held` and `times` account for `events`: `held` holds no key
/// twice and none of the unrecognized form, it holds just the keys that
/// are down, and `times` gives for each of them where it went down to
/// stay, a later place for a later key.
spec fn accounts_for(
    events: Seq<RawEventModel>,
    held: Seq<Seq<char>>,
    times: Seq<int>,
) -> bool {
    &&& held.no_duplicates()
    &&& forall|p: int| 0 <= p < held.len() ==> !has_marker(#[trigger] held[p])
    &&& forall|key: Seq<char>|
        #[trigger] held.contains(key) <==> !has_marker(key) && is_down(events, key)
    &&& times.len() == held.len()
    &&& forall|p: int| 0 <= p < held.len() ==> went_down_at(events, #[trigger] held[p], times[p])
    &&& forall|p: int, q: int| 0 <= p < q < held.len() ==> #[trigger] times[p] < #[trigger] times[q]
}

/// A key that has been down since `index` is so still after an event that
/// is not its release.
proof fn lemma_down_since_extends(
    events: Seq<RawEventModel>,
    event: RawEventModel,
    key: Seq<char>,
    index: int,
)
    requires
        down_since(events, key, index),
        event != RawEventModel::KeyRelease(key),
    ensures
        down_since(events.push(event), key, index),
{
}

/// What went down to stay at `index` did so still after an event that is
/// not its release.
proof fn lemma_went_down_extends(
    events: Seq<RawEventModel>,
    event: RawEventModel,
    key: Seq<char>,
    index: int,
)
    requires
        went_down_at(events, key, index),
        event != RawEventModel::KeyRelease(key),
    ensures
        went_down_at(events.push(event), key, index),
{
    let after = events.push(event);
    assert forall|j: int| 0 <= j < index && after[j] == RawEventModel::KeyPress(key) implies exists|
        r: int,
    |
        j < r < index && after[r] == RawEventModel::KeyRelease(key) by {
        assert(events[j] == RawEventModel::KeyPress(key));
        let r = choose|r: int| j < r < index && events[r] == RawEventModel::KeyRelease(key);
        assert(after[r] == RawEventModel::KeyRelease(key));
    }
}

/// A key that is down after an event other than its own is down before it.
proof fn lemma_is_down_restricts(events: Seq<RawEventModel>, event: RawEventModel, key: Seq<char>)
    requires
        is_down(events.push(event), key),
        event != RawEventModel::KeyPress(key),
    ensures
        is_down(events, key),
{
    let after = events.push(event);
    let index = choose|index: int| down_since(after, key, index);
    assert(index < events.len());
    assert forall|j: int| index < j < events.len() implies events[j] != RawEventModel::KeyRelease(
        key,
    ) by {
        assert(after[j] == events[j]);
    }
    assert(down_since(events, key, index));
}

/// One more event keeps the account: the held keys after it, with the
/// places that are handed back, account for the events with it.
proof fn lemma_account_step(
    events: Seq<RawEventModel>,
    held: Seq<Seq<char>>,
    times: Seq<int>,
    event: RawEventModel,
) -> (next_times: Seq<int>)
    requires
        accounts_for(events, held, times),
    ensures
        accounts_for(events.push(event), next_keys(held, event), next_times),
{
    let after = events.push(event);
    let next = next_keys(held, event);
    let n = events.len() as int;
    match event {
        RawEventModel::KeyPress(name) => {
            if has_marker(name) || held.contains(name) {
                assert forall|key: Seq<char>| #[trigger]
                    next.contains(key) <==> !has_marker(key) && is_down(after, key) by {
                    if !has_marker(key) && is_down(events, key) {
                        let i = choose|i: int| down_since(events, key, i);
                        lemma_down_since_extends(events, event, key, i);
                    }
                    if !has_marker(key) && is_down(after, key) {
                        if key == name {
                        } else {
                            lemma_is_down_restricts(events, event, key);
                        }
                    }
                }
                assert forall|p: int| 0 <= p < next.len() implies went_down_at(
                    after,
                    #[trigger] next[p],
                    times[p],
                ) by {
                    lemma_went_down_extends(events, event, held[p], times[p]);
                }
                times
            } else {
                let next_times = times.push(n);
                assert(!is_down(events, name));
                assert(down_since(after, name, n));
                assert forall|j: int|
                    0 <= j < n && after[j] == RawEventModel::KeyPress(name) implies exists|r: int|
                    j < r < n && after[r] == RawEventModel::KeyRelease(name) by {
                    assert(events[j] == RawEventModel::KeyPress(name));
                    assert(!down_since(events, name, j));
                    let r = choose|r: int|
                        j < r < events.len() && events[r] == RawEventModel::KeyRelease(name);
                    assert(after[r] == RawEventModel::KeyRelease(name));
                }
                assert(went_down_at(after, name, n));
                assert forall|key: Seq<char>| #[trigger]
                    next.contains(key) <==> !has_marker(key) && is_down(after, key) by {
                    if next.contains(key) {
                        let p = choose|p: int| 0 <= p < next.len() && next[p] == key;
                        if p < held.len() {
                            assert(held[p] == key);
                            assert(held.contains(key));
                            let i = choose|i: int| down_since(events, key, i);
                            lemma_down_since_extends(events, event, key, i);
                        }
                    }
                    if !has_marker(key) && is_down(after, key) {
                        if key == name {
                            assert(next[held.len() as int] == key);
                        } else {
                            lemma_is_down_restricts(events, event, key);
                            assert(held.contains(key));
                            let p = choose|p: int| 0 <= p < held.len() && held[p] == key;
                            assert(next[p] == key);
                        }
                    }
                }
                assert forall|p: int| 0 <= p < next.len() implies went_down_at(
                    after,
                    #[trigger] next[p],
                    next_times[p],
                ) by {
                    if p < held.len() {
                        lemma_went_down_extends(events, event, held[p], times[p]);
                    }
                }
                assert forall|p: int, q: int| 0 <= p < q < next.len() implies #[trigger] next_times[p]
                    < #[trigger] next_times[q] by {
                    assert(went_down_at(events, held[p], times[p]));
                    if q < held.len() {
                        assert(times[p] < times[q]);
                    }
                }
                next_times
            }
        },
        RawEventModel::KeyRelease(name) => {
            if has_marker(name) {
                assert forall|key: Seq<char>| #[trigger]
                    next.contains(key) <==> !has_marker(key) && is_down(after, key) by {
                    if !has_marker(key) && is_down(events, key) {
                        let i = choose|i: int| down_since(events, key, i);
                        lemma_down_since_extends(events, event, key, i);
                    }
                    if !has_marker(key) && is_down(after, key) {
                        lemma_is_down_restricts(events, event, key);
                    }
                }
                assert forall|p: int| 0 <= p < next.len() implies went_down_at(
                    after,
                    #[trigger] next[p],
                    times[p],
                ) by {
                    lemma_went_down_extends(events, event, held[p], times[p]);
                }
                times
            } else {
                lemma_without_keeps_wf(held, name);
                assert(!is_down(after, name)) by {
                    if is_down(after, name) {
                        let i = choose|i: int| down_since(after, name, i);
                        assert(after[n] == RawEventModel::KeyRelease(name));
                    }
                }
                assert forall|key: Seq<char>| #[trigger]
                    next.contains(key) <==> !has_marker(key) && is_down(after, key) by {
                    if key != name {
                        if held.contains(key) {
                            let i = choose|i: int| down_since(events, key, i);
                            lemma_down_since_extends(events, event, key, i);
                        }
                        if !has_marker(key) && is_down(after, key) {
                            lemma_is_down_restricts(events, event, key);
                        }
                    }
                }
                if held.contains(name) {
                    let at = choose|at: int| 0 <= at < held.len() && held[at] == name;
                    lemma_without_present(held, name, at);
                    let next_times = times.remove(at);
                    assert forall|p: int| 0 <= p < next.len() implies went_down_at(
                        after,
                        #[trigger] next[p],
                        next_times[p],
                    ) by {
                        if p < at {
                            assert(next[p] == held[p]);
                            lemma_went_down_extends(events, event, held[p], times[p]);
                        } else {
                            assert(next[p] == held[p + 1]);
                            lemma_went_down_extends(events, event, held[p + 1], times[p + 1]);
                        }
                    }
                    assert forall|p: int, q: int| 0 <= p < q < next.len() implies #[trigger] next_times[p]
                        < #[trigger] next_times[q] by {
                        let before_p = if p < at { p } else { p + 1 };
                        let before_q = if q < at { q } else { q + 1 };
                        assert(times[before_p] < times[before_q]);
                    }
                    next_times
                } else {
                    lemma_without_absent(held, name);
                    assert forall|p: int| 0 <= p < next.len() implies went_down_at(
                        after,
                        #[trigger] next[p],
                        times[p],
                    ) by {
                        assert(held.contains(held[p]));
                        lemma_went_down_extends(events, event, held[p], times[p]);
                    }
                    times
                }
            }
        },
        _ => {
            assert forall|key: Seq<char>| #[trigger]
                next.contains(key) <==> !has_marker(key) && is_down(after, key) by {
                if !has_marker(key) && is_down(events, key) {
                    let i = choose|i: int| down_since(events, key, i);
                    lemma_down_since_extends(events, event, key, i);
                }
                if !has_marker(key) && is_down(after, key) {
                    lemma_is_down_restricts(events, event, key);
                }
            }
            assert forall|p: int| 0 <= p < next.len() implies went_down_at(
                after,
                #[trigger] next[p],
                times[p],
            ) by {
                lemma_went_down_extends(events, event, held[p], times[p]);
            }
            times
        },
    }
}

/// The places where the keys that are held after `events` went down to
/// stay, for a start in which no key is held.
proof fn lemma_account(start: CaptureModel, events: Seq<RawEventModel>) -> (times: Seq<int>)
    requires
        start.pressed.len() == 0,
    ensures
        accounts_for(events, run(start, events).pressed, times),
    decreases events.len(),
{
    if events.len() == 0 {
        let held = run(start, events).pressed;
        assert forall|key: Seq<char>| #[trigger]
            held.contains(key) <==> !has_marker(key) && is_down(events, key) by {
            if is_down(events, key) {
                let i = choose|i: int| down_since(events, key, i);
            }
        }
        Seq::empty()
    } else {
        let front = events.drop_last();
        let before = lemma_account(start, front);
        let times = lemma_account_step(front, run(start, front).pressed, before, events.last());
        assert(front.push(events.last()) =~= events);
        times
    }
}

/// Whatever press and release events arrive, in whatever order and with
/// whatever else between them: starting with no key held, the held keys
/// never hold a key twice; they are just the keys with a recognized
/// identifier that are down; and they stand in the order in which they
/// went down.
pub proof fn law_held_keys(start: CaptureModel, events: Seq<RawEventModel>)
    requires
        start.pressed.len() == 0,
    ensures
        run(start, events).pressed.no_duplicates(),
        forall|key: Seq<char>| #[trigger]
            run(start, events).pressed.contains(key) <==> !has_marker(key) && is_down(events, key),
        forall|p: int, q: int|
            0 <= p < q < run(start, events).pressed.len() ==> went_down_before(
                events,
                #[trigger] run(start, events).pressed[p],
                #[trigger] run(start, events).pressed[q],
            ),
{
    let held = run(start, events).pressed;
    let times = lemma_account(start, events);
    assert forall|p: int, q: int| 0 <= p < q < held.len() implies went_down_before(
        events,
        #[trigger] held[p],
        #[trigger] held[q],
    ) by {
        assert(times[p] < times[q]);
        assert(went_down_at(events, held[p], times[p]));
        assert(went_down_at(events, held[q], times[q]));
    }
}

/// A run of events changes neither the chord nor the calibration, and
/// keeps a well-formed state well formed.
pub proof fn law_run_keeps_configuration(start: CaptureModel, events: Seq<RawEventModel>)
    ensures
        run(start, events).shortcut == start.shortcut,
        run(start, events).calibration == start.calibration,
        start.wf() ==> run(start, events).wf(),
    decreases events.len(),
{
    if events.len() > 0 {
        law_run_keeps_configuration(start, events.drop_last());
        if start.wf() {
            law_step_keeps_wf(run(start, events.drop_last()), events.last());
        }
    }
}

/// Selecting a monitor twice in a row moves the primary surface and
/// writes the calibration at most once. Where the first selection moved
/// it, the second finds the monitor active and changes nothing, whatever
/// monitors are available by then.
pub proof fn law_selection_is_idempotent(
    state: CaptureModel,
    name: Seq<char>,
    first: Seq<MonitorModel>,
    second: Seq<MonitorModel>,
)
    ensures
        ({
            let between = after_selection(state, name, first);
            &&& selection_outcome(state, name, first) is Moved ==> selection_outcome(
                between,
                name,
                second,
            ) == MonitorOutcome::AlreadyActive && after_selection(between, name, second)
                == between
            &&& !(selection_outcome(state, name, first) is Moved) ==> between == state
            &&& state.calibration.name == Some(name) ==> selection_outcome(state, name, first)
                == MonitorOutcome::AlreadyActive && selection_outcome(between, name, second)
                == MonitorOutcome::AlreadyActive && after_selection(between, name, second)
                == state
        }),
{
}

/// A monitor is selected exactly when the name is not the calibrated one
/// and some available monitor goes by it; the first such monitor is taken.
pub proof fn law_selection_takes_first(
    state: CaptureModel,
    name: Seq<char>,
    monitors: Seq<MonitorModel>,
    index: int,
)
    requires
        state.calibration.name != Some(name),
        is_first_named(monitors, name, index),
    ensures
        selection_outcome(state, name, monitors) == MonitorOutcome::Moved(
            placement_of(monitors[index]),
        ),
        after_selection(state, name, monitors) == (CaptureModel {
            calibration: calibration_of(monitors[index], name),
            ..state
        }),
{
    lemma_first_named_is_unique(monitors, name, index);
}

} // verus!
