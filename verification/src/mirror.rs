//! What is written to the virtual device: a model of its controls by the events
//! it was given, and the laws that forwarding keeps it in step with the wheel.
//!
//! The model is of the events as they are written. The input layer of the
//! kernel may still smooth axis values by the declared fuzz before a program
//! that reads the device sees them; the model stands before that filter.

use vstd::prelude::*;
use crate::forward;
use crate::forward::{Axis, Output, OutputView};
use crate::parser;
use crate::parser::WheelState;
use crate::text;
use crate::uinput;
use crate::uinput::{
    SetupStepView, ABS_RZ, ABS_X, ABS_Z, BTN_TRIGGER, EV_ABS, EV_KEY, EV_SYN, SYN_REPORT,
};

verus! {

/// The positions of the controls of a device, by their codes.
#[verifier::ext_equal]
pub struct Panel {
    pub axes: Map<u16, int>,
    pub keys: Map<u16, bool>,
}

/// A virtual device by the events written to it: the controls as of the last
/// `SYN_REPORT`, and those with the events since.
#[verifier::ext_equal]
pub struct DeviceModel {
    pub committed: Panel,
    pub pending: Panel,
}

/// The controls of a virtual wheel in the state `w`.
pub open spec fn panel_of(w: WheelState) -> Panel {
    Panel {
        axes: map![
            ABS_X => w.steering as int,
            ABS_Z => w.throttle as int,
            ABS_RZ => w.brake as int,
        ],
        keys: Map::new(
            |c: u16| BTN_TRIGGER <= c < BTN_TRIGGER + 8,
            |c: u16| w.pressed(c - BTN_TRIGGER),
        ),
    }
}

/// A virtual wheel to which the state `w` has been written, with nothing
/// pending. Such a device is said to show `w`.
pub open spec fn showing(w: WheelState) -> DeviceModel {
    DeviceModel { committed: panel_of(w), pending: panel_of(w) }
}

/// The device after one output.
pub open spec fn after(d: DeviceModel, output: OutputView) -> DeviceModel {
    match output {
        OutputView::Event { type_, code, value } => {
            if type_ == EV_ABS {
                DeviceModel {
                    pending: Panel { axes: d.pending.axes.insert(code, value as int), ..d.pending },
                    ..d
                }
            } else if type_ == EV_KEY {
                DeviceModel {
                    pending: Panel { keys: d.pending.keys.insert(code, value != 0), ..d.pending },
                    ..d
                }
            } else if type_ == EV_SYN && code == SYN_REPORT {
                DeviceModel { committed: d.pending, ..d }
            } else {
                d
            }
        },
        OutputView::Line(_) => d,
    }
}

/// The device after a sequence of outputs.
pub open spec fn after_all(d: DeviceModel, outputs: Seq<OutputView>) -> DeviceModel
    decreases outputs.len(),
{
    if outputs.len() == 0 {
        d
    } else {
        after(after_all(d, outputs.drop_last()), outputs.last())
    }
}

/// Outputs one after the other act as their concatenation.
pub proof fn lemma_after_all_concat(d: DeviceModel, a: Seq<OutputView>, b: Seq<OutputView>)
    ensures
        after_all(d, a + b) == after_all(after_all(d, a), b),
    decreases b.len(),
{
    if b.len() == 0 {
        assert(a + b =~= a);
    } else {
        assert((a + b).drop_last() =~= a + b.drop_last());
        lemma_after_all_concat(d, a, b.drop_last());
    }
}

/// A shown event acts as the event alone: the line changes nothing.
proof fn lemma_after_shown_event(
    d: DeviceModel,
    type_: u16,
    code: u16,
    value: i32,
    line: Seq<char>,
    debug: bool,
)
    ensures
        after_all(d, forward::shown_event(type_, code, value, line, debug)) == after(
            d,
            OutputView::Event { type_, code, value },
        ),
{
    let event = OutputView::Event { type_, code, value };
    reveal_with_fuel(after_all, 3);
    assert(seq![event].drop_last() =~= Seq::empty());
    assert(seq![event].push(OutputView::Line(line)).drop_last() =~= seq![event]);
}

/// The outputs for an axis bring that axis to its new position.
proof fn lemma_after_axis(
    d: DeviceModel,
    axis: Axis,
    prev: WheelState,
    next: WheelState,
    debug: bool,
)
    requires
        d.pending.axes.contains_key(axis.code()),
        d.pending.axes[axis.code()] == axis.position(prev),
    ensures
        after_all(d, forward::axis_outputs(axis, prev, next, debug)) == (DeviceModel {
            pending: Panel {
                axes: d.pending.axes.insert(axis.code(), axis.position(next) as int),
                ..d.pending
            },
            ..d
        }),
{
    let value = axis.position(next);
    if value != axis.position(prev) {
        lemma_after_shown_event(
            d,
            EV_ABS,
            axis.code(),
            value,
            axis.label() + text::signed_decimal(value as int),
            debug,
        );
    } else {
        assert(d.pending.axes.insert(axis.code(), value as int) =~= d.pending.axes);
    }
}

/// The keys of a wheel that goes from `prev` to `next`, when the first `n` are
/// already those of `next`.
spec fn mixed_keys(prev: WheelState, next: WheelState, n: int) -> Map<u16, bool> {
    Map::new(
        |c: u16| BTN_TRIGGER <= c < BTN_TRIGGER + 8,
        |c: u16|
            if c - BTN_TRIGGER < n {
                next.pressed(c - BTN_TRIGGER)
            } else {
                prev.pressed(c - BTN_TRIGGER)
            },
    )
}

/// The outputs for the first `n` buttons bring those buttons to their new
/// positions.
proof fn lemma_after_buttons(
    d: DeviceModel,
    prev: WheelState,
    next: WheelState,
    n: nat,
    debug: bool,
)
    requires
        n <= 8,
        d.pending.keys == panel_of(prev).keys,
    ensures
        after_all(d, forward::button_outputs(prev, next, n, debug)) == (DeviceModel {
            pending: Panel { keys: mixed_keys(prev, next, n as int), ..d.pending },
            ..d
        }),
    decreases n,
{
    if n == 0 {
        assert(mixed_keys(prev, next, 0) =~= d.pending.keys);
    } else {
        let i = n - 1;
        let before = forward::button_outputs(prev, next, i as nat, debug);
        lemma_after_buttons(d, prev, next, i as nat, debug);
        let code = uinput::button_code_seq()[i];
        assert(code == BTN_TRIGGER + i);
        if prev.pressed(i) != next.pressed(i) {
            let value: i32 = if next.pressed(i) {
                1
            } else {
                0
            };
            let line = forward::button_line(i, next.pressed(i));
            lemma_after_all_concat(d, before, forward::shown_event(EV_KEY, code, value, line, debug));
            lemma_after_shown_event(after_all(d, before), EV_KEY, code, value, line, debug);
            assert(mixed_keys(prev, next, i).insert(code, value != 0) =~= mixed_keys(
                prev,
                next,
                n as int,
            ));
        } else {
            assert(mixed_keys(prev, next, i) =~= mixed_keys(prev, next, n as int));
        }
    }
}

/// A virtual device that shows `prev` shows `next` after the outputs of
/// `forward_state`, with nothing pending.
pub proof fn law_forward_mirrors(prev: WheelState, next: WheelState, debug: bool)
    ensures
        after_all(showing(prev), forward::forward_outputs(prev, next, debug)) == showing(next),
{
    let steering = forward::axis_outputs(Axis::Steering, prev, next, debug);
    let throttle = forward::axis_outputs(Axis::Throttle, prev, next, debug);
    let brake = forward::axis_outputs(Axis::Brake, prev, next, debug);
    let buttons = forward::button_outputs(prev, next, 8, debug);
    let d0 = showing(prev);
    let d1 = after_all(d0, steering);
    let d2 = after_all(d1, throttle);
    let d3 = after_all(d2, brake);
    let d4 = after_all(d3, buttons);
    lemma_after_axis(d0, Axis::Steering, prev, next, debug);
    lemma_after_axis(d1, Axis::Throttle, prev, next, debug);
    lemma_after_axis(d2, Axis::Brake, prev, next, debug);
    lemma_after_buttons(d3, prev, next, 8, debug);
    lemma_after_all_concat(d0, steering, throttle);
    lemma_after_all_concat(d0, steering + throttle, brake);
    lemma_after_all_concat(d0, steering + throttle + brake, buttons);
    let changes = forward::change_outputs(prev, next, debug);
    assert(d4 == after_all(d0, changes));
    assert(d4.pending.axes =~= panel_of(next).axes);
    assert(d4.pending.keys =~= panel_of(next).keys);
    assert(d4.committed == panel_of(prev));
    if changes.len() > 0 {
        assert(changes.push(forward::syn_report()).drop_last() =~= changes);
    }
}

/// Whether `type_`, `code` and `value` tell of a control that differs between
/// `prev` and `next`, and of its new position.
pub open spec fn tells_of_change(
    prev: WheelState,
    next: WheelState,
    type_: u16,
    code: u16,
    value: i32,
) -> bool {
    if type_ == EV_ABS {
        ||| code == ABS_X && value == next.steering && next.steering != prev.steering
        ||| code == ABS_Z && value == next.throttle && next.throttle != prev.throttle
        ||| code == ABS_RZ && value == next.brake && next.brake != prev.brake
    } else {
        &&& type_ == EV_KEY
        &&& BTN_TRIGGER <= code < BTN_TRIGGER + 8
        &&& next.pressed(code - BTN_TRIGGER) != prev.pressed(code - BTN_TRIGGER)
        &&& value == if next.pressed(code - BTN_TRIGGER) {
            1int
        } else {
            0int
        }
    }
}

/// A sequence of shown events holds exactly the one event.
proof fn lemma_shown_event_contains(
    type_: u16,
    code: u16,
    value: i32,
    line: Seq<char>,
    debug: bool,
    other: OutputView,
)
    requires
        other is Event,
    ensures
        forward::shown_event(type_, code, value, line, debug).contains(other) <==> other == (
        OutputView::Event { type_, code, value }),
{
    let s = forward::shown_event(type_, code, value, line, debug);
    assert(s[0] == OutputView::Event { type_, code, value });
}

/// The events for the first `n` buttons tell of exactly the changes among them.
proof fn lemma_button_events(
    prev: WheelState,
    next: WheelState,
    n: nat,
    debug: bool,
    type_: u16,
    code: u16,
    value: i32,
)
    requires
        n <= 8,
    ensures
        forward::button_outputs(prev, next, n, debug).contains(
            OutputView::Event { type_, code, value },
        ) <==> type_ == EV_KEY && tells_of_change(prev, next, type_, code, value) && code
            - BTN_TRIGGER < n,
    decreases n,
{
    let event = OutputView::Event { type_, code, value };
    if n > 0 {
        let i = n - 1;
        lemma_button_events(prev, next, i as nat, debug, type_, code, value);
        let own = uinput::button_code_seq()[i];
        assert(own == BTN_TRIGGER + i);
        if prev.pressed(i) != next.pressed(i) {
            let v: i32 = if next.pressed(i) {
                1
            } else {
                0
            };
            let line = forward::button_line(i, next.pressed(i));
            let before = forward::button_outputs(prev, next, i as nat, debug);
            let last = forward::shown_event(EV_KEY, own, v, line, debug);
            lemma_shown_event_contains(EV_KEY, own, v, line, debug, event);
            lemma_contains_concat(before, last, event);
        }
    }
}

/// What a concatenation holds.
pub proof fn lemma_contains_concat(a: Seq<OutputView>, b: Seq<OutputView>, o: OutputView)
    ensures
        (a + b).contains(o) <==> a.contains(o) || b.contains(o),
{
    if a.contains(o) {
        let k = choose|k: int| 0 <= k < a.len() && a[k] == o;
        assert((a + b)[k] == o);
    }
    if b.contains(o) {
        let k = choose|k: int| 0 <= k < b.len() && b[k] == o;
        assert((a + b)[a.len() + k] == o);
    }
}

/// The event for an axis tells of its change.
proof fn lemma_axis_event(
    axis: Axis,
    prev: WheelState,
    next: WheelState,
    debug: bool,
    type_: u16,
    code: u16,
    value: i32,
)
    ensures
        forward::axis_outputs(axis, prev, next, debug).contains(
            OutputView::Event { type_, code, value },
        ) <==> axis.position(next) != axis.position(prev) && type_ == EV_ABS && code == axis.code()
            && value == axis.position(next),
{
    let position = axis.position(next);
    if position != axis.position(prev) {
        lemma_shown_event_contains(
            EV_ABS,
            axis.code(),
            position,
            axis.label() + text::signed_decimal(position as int),
            debug,
            OutputView::Event { type_, code, value },
        );
    }
}

/// Before the final `SYN_REPORT`, the events tell of every control that
/// changed, and of no other.
proof fn lemma_change_events(
    prev: WheelState,
    next: WheelState,
    debug: bool,
    type_: u16,
    code: u16,
    value: i32,
)
    ensures
        forward::change_outputs(prev, next, debug).contains(
            OutputView::Event { type_, code, value },
        ) <==> tells_of_change(prev, next, type_, code, value),
{
    let event = OutputView::Event { type_, code, value };
    let steering = forward::axis_outputs(Axis::Steering, prev, next, debug);
    let throttle = forward::axis_outputs(Axis::Throttle, prev, next, debug);
    let brake = forward::axis_outputs(Axis::Brake, prev, next, debug);
    let buttons = forward::button_outputs(prev, next, 8, debug);
    lemma_contains_concat(steering, throttle, event);
    lemma_contains_concat(steering + throttle, brake, event);
    lemma_contains_concat(steering + throttle + brake, buttons, event);
    lemma_axis_event(Axis::Steering, prev, next, debug, type_, code, value);
    lemma_axis_event(Axis::Throttle, prev, next, debug, type_, code, value);
    lemma_axis_event(Axis::Brake, prev, next, debug, type_, code, value);
    lemma_button_events(prev, next, 8, debug, type_, code, value);
}

/// Only changed values are forwarded, and all of them: apart from
/// `SYN_REPORT`, an event is among the outputs exactly if it tells of a control
/// that changed.
pub proof fn law_only_changes(
    prev: WheelState,
    next: WheelState,
    debug: bool,
    type_: u16,
    code: u16,
    value: i32,
)
    requires
        type_ != EV_SYN,
    ensures
        forward::forward_outputs(prev, next, debug).contains(
            OutputView::Event { type_, code, value },
        ) <==> tells_of_change(prev, next, type_, code, value),
{
    let changes = forward::change_outputs(prev, next, debug);
    lemma_change_events(prev, next, debug, type_, code, value);
    lemma_contains_concat(
        changes,
        seq![forward::syn_report()],
        OutputView::Event { type_, code, value },
    );
    assert(changes + seq![forward::syn_report()] =~= changes.push(forward::syn_report()));
}

/// A batch that is not empty ends in a `SYN_REPORT`, which is its only event of
/// type `EV_SYN`.
pub proof fn law_single_syn(prev: WheelState, next: WheelState, debug: bool)
    ensures
        ({
            let outputs = forward::forward_outputs(prev, next, debug);
            &&& outputs.len() > 0 ==> outputs.last() == forward::syn_report()
            &&& forall|i: int|
                0 <= i < outputs.len() - 1 ==> !(#[trigger] outputs[i] matches OutputView::Event {
                    type_,
                    ..
                } && type_ == EV_SYN)
        }),
{
    let outputs = forward::forward_outputs(prev, next, debug);
    let changes = forward::change_outputs(prev, next, debug);
    assert forall|i: int| 0 <= i < outputs.len() - 1 implies !(
    #[trigger] outputs[i] matches OutputView::Event { type_, .. } && type_ == EV_SYN) by {
        assert(changes[i] == outputs[i]);
        if let OutputView::Event { type_, code, value } = outputs[i] {
            lemma_change_events(prev, next, debug, type_, code, value);
            assert(changes.contains(outputs[i]));
        }
    }
}

/// Two bytes with the same bits are the same.
proof fn lemma_bits_determine(a: u8, b: u8)
    requires
        forall|i: int| 0 <= i < 8 ==> #[trigger] parser::bit(a, i) == parser::bit(b, i),
    ensures
        a == b,
{
    assert(parser::bit(a, 0) == parser::bit(b, 0));
    assert(parser::bit(a, 1) == parser::bit(b, 1));
    assert(parser::bit(a, 2) == parser::bit(b, 2));
    assert(parser::bit(a, 3) == parser::bit(b, 3));
    assert(parser::bit(a, 4) == parser::bit(b, 4));
    assert(parser::bit(a, 5) == parser::bit(b, 5));
    assert(parser::bit(a, 6) == parser::bit(b, 6));
    assert(parser::bit(a, 7) == parser::bit(b, 7));
    assert(a == b) by (bit_vector)
        requires
            ((a >> 0u8) & 1 == 1) == ((b >> 0u8) & 1 == 1),
            ((a >> 1u8) & 1 == 1) == ((b >> 1u8) & 1 == 1),
            ((a >> 2u8) & 1 == 1) == ((b >> 2u8) & 1 == 1),
            ((a >> 3u8) & 1 == 1) == ((b >> 3u8) & 1 == 1),
            ((a >> 4u8) & 1 == 1) == ((b >> 4u8) & 1 == 1),
            ((a >> 5u8) & 1 == 1) == ((b >> 5u8) & 1 == 1),
            ((a >> 6u8) & 1 == 1) == ((b >> 6u8) & 1 == 1),
            ((a >> 7u8) & 1 == 1) == ((b >> 7u8) & 1 == 1),
    ;
}

/// No button event at all means that no button of the first byte changed.
proof fn lemma_no_button_outputs(prev: WheelState, next: WheelState, n: nat, debug: bool)
    requires
        n <= 8,
    ensures
        forward::button_outputs(prev, next, n, debug).len() == 0 <==> forall|i: int|
            0 <= i < n ==> #[trigger] prev.pressed(i) == next.pressed(i),
    decreases n,
{
    if n > 0 {
        lemma_no_button_outputs(prev, next, (n - 1) as nat, debug);
        assert(prev.pressed(n - 1) == next.pressed(n - 1) || prev.pressed(n - 1) != next.pressed(
            n - 1,
        ));
    }
}

/// Nothing is sent, and nothing shown, exactly if the states agree on the axes
/// and on the first button byte.
pub proof fn law_quiet(prev: WheelState, next: WheelState, debug: bool)
    ensures
        forward::forward_outputs(prev, next, debug).len() == 0 <==> prev.steering == next.steering
            && prev.throttle == next.throttle && prev.brake == next.brake && prev.buttons
            == next.buttons,
{
    lemma_no_button_outputs(prev, next, 8, debug);
    if forward::button_outputs(prev, next, 8, debug).len() == 0 {
        assert forall|i: int| 0 <= i < 8 implies #[trigger] parser::bit(prev.buttons, i)
            == parser::bit(next.buttons, i) by {
            assert(prev.pressed(i) == next.pressed(i));
        }
        lemma_bits_determine(prev.buttons, next.buttons);
    }
}

/// Whether the setup declares the event type, the code and, for an axis, a
/// range that holds the value.
pub open spec fn declared(plan: Seq<SetupStepView>, type_: u16, code: u16, value: i32) -> bool {
    &&& plan.contains(SetupStepView::SetEvbit(type_ as int))
    &&& type_ == EV_KEY ==> plan.contains(SetupStepView::SetKeybit(code as int))
    &&& type_ == EV_ABS ==> {
        &&& plan.contains(SetupStepView::SetAbsbit(code as int))
        &&& exists|i: int|
            0 <= i < plan.len() && (#[trigger] plan[i] matches SetupStepView::AbsSetup(a)
                && a.code == code && a.info.minimum <= value <= a.info.maximum)
    }
}

/// Every event that is forwarded was declared when the device was set up, and
/// every axis value lies in the declared range.
pub proof fn law_events_declared(
    prev: WheelState,
    next: WheelState,
    debug: bool,
    type_: u16,
    code: u16,
    value: i32,
)
    requires
        forward::forward_outputs(prev, next, debug).contains(
            OutputView::Event { type_, code, value },
        ),
    ensures
        declared(uinput::setup_plan(), type_, code, value),
{
    let plan = uinput::setup_plan();
    assert(plan[0] == SetupStepView::SetEvbit(EV_SYN as int));
    assert(plan[1] == SetupStepView::SetEvbit(EV_KEY as int));
    assert(plan[2] == SetupStepView::SetEvbit(EV_ABS as int));
    if type_ == EV_SYN {
    } else {
        law_only_changes(prev, next, debug, type_, code, value);
        if type_ == EV_KEY {
            let i = code - BTN_TRIGGER;
            assert(plan[3 + i] == SetupStepView::SetKeybit(code as int));
        } else {
            assert(plan[11] == SetupStepView::SetAbsbit(ABS_X as int));
            assert(plan[12] == SetupStepView::SetAbsbit(ABS_Z as int));
            assert(plan[13] == SetupStepView::SetAbsbit(ABS_RZ as int));
            assert(plan[14] is AbsSetup && plan[15] is AbsSetup && plan[16] is AbsSetup);
        }
    }
}

/// Whether two outputs are events for the same control.
pub open spec fn same_control(a: OutputView, b: OutputView) -> bool {
    a matches OutputView::Event { type_: t, code: c, .. } && b matches OutputView::Event {
        type_,
        code,
        ..
    } && t == type_ && c == code
}

/// Whether no control has two events.
pub open spec fn one_event_each(outputs: Seq<OutputView>) -> bool {
    forall|i: int, j: int|
        0 <= i < j < outputs.len() ==> !same_control(#[trigger] outputs[i], #[trigger] outputs[j])
}

/// The outputs for the first `n` buttons hold one event for each.
proof fn lemma_one_button_event(prev: WheelState, next: WheelState, n: nat, debug: bool)
    requires
        n <= 8,
    ensures
        one_event_each(forward::button_outputs(prev, next, n, debug)),
    decreases n,
{
    if n > 0 {
        let i = n - 1;
        lemma_one_button_event(prev, next, i as nat, debug);
        let before = forward::button_outputs(prev, next, i as nat, debug);
        let own = uinput::button_code_seq()[i];
        assert(own == BTN_TRIGGER + i);
        assert forall|k: int| 0 <= k < before.len() implies !(
        #[trigger] before[k] matches OutputView::Event { code, .. } && code == own) by {
            if let OutputView::Event { type_, code, value } = before[k] {
                lemma_button_events(prev, next, i as nat, debug, type_, code, value);
                assert(before.contains(before[k]));
            }
        }
    }
}

/// A batch holds at most one event for each control.
pub proof fn law_one_event_each(prev: WheelState, next: WheelState, debug: bool)
    ensures
        one_event_each(forward::forward_outputs(prev, next, debug)),
{
    let buttons = forward::button_outputs(prev, next, 8, debug);
    let changes = forward::change_outputs(prev, next, debug);
    let outputs = forward::forward_outputs(prev, next, debug);
    lemma_one_button_event(prev, next, 8, debug);
    assert forall|k: int| 0 <= k < buttons.len() implies (
    #[trigger] buttons[k] matches OutputView::Event { type_, .. } ==> type_ == EV_KEY) by {
        if let OutputView::Event { type_, code, value } = buttons[k] {
            lemma_button_events(prev, next, 8, debug, type_, code, value);
            assert(buttons.contains(buttons[k]));
        }
    }
    law_single_syn(prev, next, debug);
    let axes = changes.len() - buttons.len();
    assert forall|i: int, j: int| 0 <= i < j < outputs.len() implies !same_control(
        #[trigger] outputs[i],
        #[trigger] outputs[j],
    ) by {
        if j < changes.len() && axes <= j {
            assert(changes[j] == buttons[j - axes]);
            if axes <= i {
                assert(changes[i] == buttons[i - axes]);
            }
        }
    }
}

/// The position at which the setup leaves the axis `code`: the value of its
/// last range, or 0 without one.
pub open spec fn axis_start(plan: Seq<SetupStepView>, code: u16) -> int
    decreases plan.len(),
{
    if plan.len() == 0 {
        0
    } else {
        match plan.last() {
            SetupStepView::AbsSetup(a) => if a.code == code {
                a.info.value as int
            } else {
                axis_start(plan.drop_last(), code)
            },
            _ => axis_start(plan.drop_last(), code),
        }
    }
}

/// A device as it comes out of the setup `plan`: every declared axis at its
/// start, every declared button released, nothing pending.
pub open spec fn fresh_device(plan: Seq<SetupStepView>) -> DeviceModel {
    let panel = Panel {
        axes: Map::new(
            |c: u16| plan.contains(SetupStepView::SetAbsbit(c as int)),
            |c: u16| axis_start(plan, c),
        ),
        keys: Map::new(
            |c: u16| plan.contains(SetupStepView::SetKeybit(c as int)),
            |c: u16| false,
        ),
    };
    DeviceModel { committed: panel, pending: panel }
}

/// Every axis of a plan whose ranges all have the value 0 starts at 0.
proof fn lemma_axis_start_zero(plan: Seq<SetupStepView>, code: u16)
    requires
        forall|i: int|
            0 <= i < plan.len() ==> (#[trigger] plan[i] matches SetupStepView::AbsSetup(a)
                ==> a.info.value == 0),
    ensures
        axis_start(plan, code) == 0,
    decreases plan.len(),
{
    if plan.len() > 0 {
        assert(plan.last() == plan[plan.len() - 1]);
        assert forall|i: int| 0 <= i < plan.drop_last().len() implies (
        #[trigger] plan.drop_last()[i] matches SetupStepView::AbsSetup(a) ==> a.info.value == 0) by {
            assert(plan.drop_last()[i] == plan[i]);
        }
        lemma_axis_start_zero(plan.drop_last(), code);
    }
}

/// The virtual wheel comes out of its setup at rest: it has exactly the three
/// axes and eight buttons of a wheel, centred and released.
pub proof fn law_fresh_device_at_rest()
    ensures
        fresh_device(uinput::setup_plan()) == showing(parser::at_rest()),
{
    let rest = parser::at_rest();
    let plan = uinput::setup_plan();
    let fresh = fresh_device(plan).pending;
    assert forall|c: u16| plan.contains(SetupStepView::SetKeybit(c as int)) == (BTN_TRIGGER <= c
        < BTN_TRIGGER + 8) by {
        if BTN_TRIGGER <= c < BTN_TRIGGER + 8 {
            assert(plan[3 + (c - BTN_TRIGGER)] == SetupStepView::SetKeybit(c as int));
        }
    }
    assert forall|c: u16| plan.contains(SetupStepView::SetAbsbit(c as int)) == (c == ABS_X || c
        == ABS_Z || c == ABS_RZ) by {
        assert(plan[11] == SetupStepView::SetAbsbit(ABS_X as int));
        assert(plan[12] == SetupStepView::SetAbsbit(ABS_Z as int));
        assert(plan[13] == SetupStepView::SetAbsbit(ABS_RZ as int));
    }
    assert forall|c: u16| #[trigger] axis_start(plan, c) == 0 by {
        lemma_axis_start_zero(plan, c);
    }
    assert forall|i: int| 0 <= i < 8 implies !#[trigger] rest.pressed(i) by {
        let s = i as u8;
        assert((0u8 >> s) & 1 == 0) by (bit_vector);
    }
    assert(fresh.axes =~= panel_of(rest).axes);
    assert(fresh.keys =~= panel_of(rest).keys);
}

/// Without a `SYN_REPORT`, nothing is committed.
proof fn lemma_uncommitted(d: DeviceModel, outputs: Seq<OutputView>)
    requires
        forall|i: int|
            0 <= i < outputs.len() ==> !(#[trigger] outputs[i] matches OutputView::Event {
                type_,
                ..
            } && type_ == EV_SYN),
    ensures
        after_all(d, outputs).committed == d.committed,
    decreases outputs.len(),
{
    if outputs.len() > 0 {
        assert forall|i: int| 0 <= i < outputs.drop_last().len() implies !(
        #[trigger] outputs.drop_last()[i] matches OutputView::Event { type_, .. } && type_
            == EV_SYN) by {
            assert(outputs.drop_last()[i] == outputs[i]);
        }
        lemma_uncommitted(d, outputs.drop_last());
        assert(outputs.last() == outputs[outputs.len() - 1]);
    }
}

/// A batch of changes that is cut short, by a write that fails, commits none of
/// them: its `SYN_REPORT` comes after everything else.
pub proof fn law_cut_batch_uncommitted(
    d: DeviceModel,
    prev: WheelState,
    next: WheelState,
    debug: bool,
    n: int,
)
    requires
        0 <= n < forward::forward_outputs(prev, next, debug).len(),
    ensures
        after_all(d, forward::forward_outputs(prev, next, debug).take(n)).committed == d.committed,
{
    let outputs = forward::forward_outputs(prev, next, debug);
    law_single_syn(prev, next, debug);
    assert forall|i: int| 0 <= i < outputs.take(n).len() implies !(
    #[trigger] outputs.take(n)[i] matches OutputView::Event { type_, .. } && type_ == EV_SYN) by {
        assert(outputs.take(n)[i] == outputs[i]);
    }
    lemma_uncommitted(d, outputs.take(n));
}

/// A single event that is cut short commits nothing, unless it is itself of
/// type `EV_SYN`.
pub proof fn law_cut_emit_uncommitted(d: DeviceModel, type_: u16, code: u16, value: i32, n: int)
    requires
        type_ != EV_SYN,
        0 <= n < forward::emit_outputs(type_, code, value).len(),
    ensures
        after_all(d, forward::emit_outputs(type_, code, value).take(n)).committed == d.committed,
{
    lemma_uncommitted(d, forward::emit_outputs(type_, code, value).take(n));
}

// ── The order of a batch ────────────────────────────────────────────────────

/// The place of an event in a batch: the steering, the throttle, the brake, the
/// buttons by their codes, and a `SYN_REPORT` after everything else.
pub open spec fn rank(o: OutputView) -> int {
    match o {
        OutputView::Event { type_, code, .. } => {
            if type_ == EV_ABS {
                if code == ABS_X {
                    0
                } else if code == ABS_Z {
                    1
                } else {
                    2
                }
            } else if type_ == EV_KEY {
                3 + (code - BTN_TRIGGER)
            } else {
                0x1_0000
            }
        },
        OutputView::Line(_) => -1,
    }
}

/// Whether the events stand in the order of their ranks, no two at one place.
pub open spec fn in_order(s: Seq<OutputView>) -> bool {
    forall|i: int, j: int|
        0 <= i < j < s.len() && #[trigger] s[i] is Event && #[trigger] s[j] is Event ==> rank(s[i])
            < rank(s[j])
}

/// Whether the ranks of all events lie in `lo..hi`.
pub open spec fn ranks_within(s: Seq<OutputView>, lo: int, hi: int) -> bool {
    forall|i: int| 0 <= i < s.len() && #[trigger] s[i] is Event ==> lo <= rank(s[i]) < hi
}

/// Outputs in order, before outputs of higher ranks in order, are in order.
pub proof fn lemma_order_concat(
    a: Seq<OutputView>,
    b: Seq<OutputView>,
    lo: int,
    mid: int,
    hi: int,
)
    requires
        lo <= mid <= hi,
        in_order(a),
        in_order(b),
        ranks_within(a, lo, mid),
        ranks_within(b, mid, hi),
    ensures
        in_order(a + b),
        ranks_within(a + b, lo, hi),
{
    let s = a + b;
    assert forall|i: int| 0 <= i < s.len() && #[trigger] s[i] is Event implies lo <= rank(s[i])
        < hi by {
        if i < a.len() {
            assert(s[i] == a[i]);
        } else {
            assert(s[i] == b[i - a.len()]);
        }
    }
    assert forall|i: int, j: int|
        0 <= i < j < s.len() && #[trigger] s[i] is Event && #[trigger] s[j] is Event implies rank(
        s[i],
    ) < rank(s[j]) by {
        if j < a.len() {
            assert(s[i] == a[i] && s[j] == a[j]);
        } else if i < a.len() {
            assert(s[i] == a[i] && s[j] == b[j - a.len()]);
        } else {
            assert(s[i] == b[i - a.len()] && s[j] == b[j - a.len()]);
        }
    }
}

/// The outputs for the first `n` buttons are in order.
proof fn lemma_buttons_in_order(prev: WheelState, next: WheelState, n: nat, debug: bool)
    requires
        n <= 8,
    ensures
        in_order(forward::button_outputs(prev, next, n, debug)),
        ranks_within(forward::button_outputs(prev, next, n, debug), 3, 3 + n as int),
    decreases n,
{
    if n > 0 {
        let i = n - 1;
        lemma_buttons_in_order(prev, next, i as nat, debug);
        let own = uinput::button_code_seq()[i];
        assert(own == BTN_TRIGGER + i);
        if prev.pressed(i) != next.pressed(i) {
            let v: i32 = if next.pressed(i) {
                1
            } else {
                0
            };
            let last = forward::shown_event(
                EV_KEY,
                own,
                v,
                forward::button_line(i, next.pressed(i)),
                debug,
            );
            lemma_order_concat(
                forward::button_outputs(prev, next, i as nat, debug),
                last,
                3,
                3 + i,
                3 + n as int,
            );
        }
    }
}

/// The events of a batch stand in a fixed order: steering, throttle, brake, the
/// buttons from the first to the eighth, and `SYN_REPORT`; none comes twice.
pub proof fn law_batch_in_order(prev: WheelState, next: WheelState, debug: bool)
    ensures
        in_order(forward::forward_outputs(prev, next, debug)),
        ranks_within(forward::forward_outputs(prev, next, debug), 0, 0x1_0001),
{
    let steering = forward::axis_outputs(Axis::Steering, prev, next, debug);
    let throttle = forward::axis_outputs(Axis::Throttle, prev, next, debug);
    let brake = forward::axis_outputs(Axis::Brake, prev, next, debug);
    let buttons = forward::button_outputs(prev, next, 8, debug);
    let changes = forward::change_outputs(prev, next, debug);
    lemma_buttons_in_order(prev, next, 8, debug);
    lemma_order_concat(steering, throttle, 0, 1, 2);
    lemma_order_concat(steering + throttle, brake, 0, 2, 3);
    lemma_order_concat(steering + throttle + brake, buttons, 0, 3, 11);
    let syn = seq![forward::syn_report()];
    lemma_order_concat(changes, syn, 0, 11, 0x1_0001);
    assert(changes + syn =~= changes.push(forward::syn_report()));
}

/// A batch commits either the state before it or the state after it, and the
/// latter only once it is complete: cut off anywhere, it commits nothing new.
pub proof fn law_no_state_between(prev: WheelState, next: WheelState, debug: bool, n: int)
    requires
        0 <= n <= forward::forward_outputs(prev, next, debug).len(),
    ensures
        ({
            let outputs = forward::forward_outputs(prev, next, debug);
            let committed = after_all(showing(prev), outputs.take(n)).committed;
            if n < outputs.len() {
                committed == panel_of(prev)
            } else {
                committed == panel_of(next)
            }
        }),
{
    let outputs = forward::forward_outputs(prev, next, debug);
    if n < outputs.len() {
        law_cut_batch_uncommitted(showing(prev), prev, next, debug, n);
    } else {
        assert(outputs.take(n) =~= outputs);
        law_forward_mirrors(prev, next, debug);
    }
}

// ── Debug lines ─────────────────────────────────────────────────────────────

/// The events among outputs, in their order.
pub open spec fn events_of(s: Seq<OutputView>) -> Seq<OutputView>
    decreases s.len(),
{
    if s.len() == 0 {
        Seq::empty()
    } else if s.last() is Event {
        events_of(s.drop_last()).push(s.last())
    } else {
        events_of(s.drop_last())
    }
}

/// The events of a concatenation are those of its parts.
pub proof fn lemma_events_concat(a: Seq<OutputView>, b: Seq<OutputView>)
    ensures
        events_of(a + b) == events_of(a) + events_of(b),
    decreases b.len(),
{
    if b.len() == 0 {
        assert(a + b =~= a);
        assert(events_of(a) + events_of(b) =~= events_of(a));
    } else {
        assert((a + b).drop_last() =~= a + b.drop_last());
        lemma_events_concat(a, b.drop_last());
        assert(events_of(a + b) =~= events_of(a) + events_of(b));
    }
}

/// A shown event holds the one event, with or without its line.
proof fn lemma_events_of_shown(type_: u16, code: u16, value: i32, line: Seq<char>)
    ensures
        events_of(forward::shown_event(type_, code, value, line, true)) == forward::shown_event(
            type_,
            code,
            value,
            line,
            false,
        ),
{
    let event = OutputView::Event { type_, code, value };
    let s = forward::shown_event(type_, code, value, line, true);
    reveal_with_fuel(events_of, 3);
    assert(s.drop_last() =~= seq![event]);
    assert(seq![event].drop_last() =~= Seq::empty());
    assert(events_of(s) =~= seq![event]);
}

/// Debugging adds nothing but lines to an axis.
proof fn lemma_events_of_axis(axis: Axis, prev: WheelState, next: WheelState)
    ensures
        events_of(forward::axis_outputs(axis, prev, next, true)) == forward::axis_outputs(
            axis,
            prev,
            next,
            false,
        ),
{
    let value = axis.position(next);
    lemma_events_of_shown(
        EV_ABS,
        axis.code(),
        value,
        axis.label() + text::signed_decimal(value as int),
    );
}

/// Debugging adds nothing but lines to the buttons.
proof fn lemma_events_of_buttons(prev: WheelState, next: WheelState, n: nat)
    requires
        n <= 8,
    ensures
        events_of(forward::button_outputs(prev, next, n, true)) == forward::button_outputs(
            prev,
            next,
            n,
            false,
        ),
    decreases n,
{
    if n > 0 {
        let i = n - 1;
        lemma_events_of_buttons(prev, next, i as nat);
        if prev.pressed(i) != next.pressed(i) {
            let own = uinput::button_code_seq()[i];
            let v: i32 = if next.pressed(i) {
                1
            } else {
                0
            };
            let line = forward::button_line(i, next.pressed(i));
            lemma_events_of_shown(EV_KEY, own, v, line);
            lemma_events_concat(
                forward::button_outputs(prev, next, i as nat, true),
                forward::shown_event(EV_KEY, own, v, line, true),
            );
        }
    }
}

/// Debugging adds nothing but lines: the events are those that are sent without
/// it, and without it there are no lines.
pub proof fn law_debug_adds_only_lines(prev: WheelState, next: WheelState)
    ensures
        events_of(forward::forward_outputs(prev, next, true)) == forward::forward_outputs(
            prev,
            next,
            false,
        ),
        forall|i: int|
            0 <= i < forward::forward_outputs(prev, next, false).len()
                ==> #[trigger] forward::forward_outputs(prev, next, false)[i] is Event,
{
    let steering = forward::axis_outputs(Axis::Steering, prev, next, true);
    let throttle = forward::axis_outputs(Axis::Throttle, prev, next, true);
    let brake = forward::axis_outputs(Axis::Brake, prev, next, true);
    let buttons = forward::button_outputs(prev, next, 8, true);
    let changes = forward::change_outputs(prev, next, true);
    lemma_events_of_axis(Axis::Steering, prev, next);
    lemma_events_of_axis(Axis::Throttle, prev, next);
    lemma_events_of_axis(Axis::Brake, prev, next);
    lemma_events_of_buttons(prev, next, 8);
    lemma_events_concat(steering, throttle);
    lemma_events_concat(steering + throttle, brake);
    lemma_events_concat(steering + throttle + brake, buttons);
    assert(events_of(changes) == forward::change_outputs(prev, next, false));
    law_quiet(prev, next, true);
    law_quiet(prev, next, false);
    if changes.len() > 0 {
        assert(changes.push(forward::syn_report()).drop_last() =~= changes);
    }
    lemma_only_events(forward::forward_outputs(prev, next, true));
}

/// The events of outputs are events.
proof fn lemma_only_events(s: Seq<OutputView>)
    ensures
        forall|i: int| 0 <= i < events_of(s).len() ==> #[trigger] events_of(s)[i] is Event,
    decreases s.len(),
{
    if s.len() > 0 {
        lemma_only_events(s.drop_last());
    }
}

/// Whether `line` tells of the event before it: an axis by its name and its
/// value, a button by its number, twice, and by whether it is pressed.
pub open spec fn line_tells(event: OutputView, line: Seq<char>) -> bool {
    match event {
        OutputView::Event { type_, code, value } => {
            if type_ == EV_ABS {
                &&& line.len() >= 22
                &&& text::shows(line.skip(22), value as int)
                &&& code == ABS_X ==> line.take(22) == "  ABS_X (steering)  = "@
                &&& code == ABS_Z ==> line.take(22) == "  ABS_Z (throttle)  = "@
                &&& code == ABS_RZ ==> line.take(22) == "  ABS_RZ (brake)    = "@
            } else {
                &&& type_ == EV_KEY
                &&& line.len() >= 18
                &&& line.subrange(0, 6) == "  BTN "@
                &&& text::shows_digits(line.subrange(6, 7), 10, code - BTN_TRIGGER)
                &&& line.subrange(7, 13) == " (bit "@
                &&& text::shows_digits(line.subrange(13, 14), 10, code - BTN_TRIGGER)
                &&& line.subrange(14, 18) == ") = "@
                &&& line.skip(18) == if value == 1 {
                    "PRESSED"@
                } else {
                    "released"@
                }
            }
        },
        OutputView::Line(_) => false,
    }
}

/// Whether every second output is a line that tells of the event before it.
pub open spec fn told(s: Seq<OutputView>) -> bool {
    &&& s.len() % 2 == 0
    &&& forall|i: int|
        0 <= i < s.len() ==> if i % 2 == 0 {
            #[trigger] s[i] is Event
        } else {
            s[i] matches OutputView::Line(line) && line_tells(s[i - 1], line)
        }
}

/// Told outputs after told outputs are told.
proof fn lemma_told_concat(a: Seq<OutputView>, b: Seq<OutputView>)
    requires
        told(a),
        told(b),
    ensures
        told(a + b),
{
    let s = a + b;
    assert forall|i: int| 0 <= i < s.len() implies if i % 2 == 0 {
        #[trigger] s[i] is Event
    } else {
        s[i] matches OutputView::Line(line) && line_tells(s[i - 1], line)
    } by {
        if i < a.len() {
            assert(s[i] == a[i]);
            if i > 0 {
                assert(s[i - 1] == a[i - 1]);
            }
        } else {
            let k = i - a.len();
            assert(s[i] == b[k]);
            if k > 0 {
                assert(s[i - 1] == b[k - 1]);
            }
        }
    }
}

/// The line of an axis tells of it.
proof fn lemma_axis_told(axis: Axis, prev: WheelState, next: WheelState)
    ensures
        told(forward::axis_outputs(axis, prev, next, true)),
{
    reveal_strlit("  ABS_X (steering)  = ");
    reveal_strlit("  ABS_Z (throttle)  = ");
    reveal_strlit("  ABS_RZ (brake)    = ");
    let value = axis.position(next);
    let number = text::signed_decimal(value as int);
    let line = axis.label() + number;
    text::law_number_shows(value as int, 0);
    assert(axis.label().len() == 22);
    assert(line.take(22) =~= axis.label());
    assert(line.skip(22) =~= number);
    assert(line_tells(OutputView::Event { type_: EV_ABS, code: axis.code(), value }, line));
}

/// The line of a button tells of it.
proof fn lemma_button_told(i: int, pressed: bool)
    requires
        0 <= i < 8,
    ensures
        line_tells(
            OutputView::Event {
                type_: EV_KEY,
                code: (BTN_TRIGGER + i) as u16,
                value: if pressed {
                    1
                } else {
                    0
                },
            },
            forward::button_line(i, pressed),
        ),
{
    reveal_strlit("  BTN ");
    reveal_strlit(" (bit ");
    reveal_strlit(") = ");
    let line = forward::button_line(i, pressed);
    let number = text::decimal(i as nat);
    text::law_decimal_reads_back(i as nat);
    assert(line.subrange(0, 6) =~= "  BTN "@);
    assert(line.subrange(6, 7) =~= number);
    assert(line.subrange(7, 13) =~= " (bit "@);
    assert(line.subrange(13, 14) =~= number);
    assert(line.subrange(14, 18) =~= ") = "@);
    assert(line.skip(18) =~= if pressed {
        "PRESSED"@
    } else {
        "released"@
    });
}

/// The lines of the buttons tell of them.
proof fn lemma_buttons_told(prev: WheelState, next: WheelState, n: nat)
    requires
        n <= 8,
    ensures
        told(forward::button_outputs(prev, next, n, true)),
    decreases n,
{
    if n > 0 {
        let i = n - 1;
        lemma_buttons_told(prev, next, i as nat);
        let own = uinput::button_code_seq()[i];
        assert(own == BTN_TRIGGER + i);
        if prev.pressed(i) != next.pressed(i) {
            let v: i32 = if next.pressed(i) {
                1
            } else {
                0
            };
            let line = forward::button_line(i, next.pressed(i));
            lemma_button_told(i, next.pressed(i));
            let last = forward::shown_event(EV_KEY, own, v, line, true);
            assert(told(last));
            lemma_told_concat(forward::button_outputs(prev, next, i as nat, true), last);
        }
    }
}

/// When debugging, each change is followed by a line that tells of it, and the
/// `SYN_REPORT` at the end by none.
pub proof fn law_lines_tell(prev: WheelState, next: WheelState)
    ensures
        ({
            let outputs = forward::forward_outputs(prev, next, true);
            outputs.len() == 0 || told(outputs.drop_last())
        }),
{
    let steering = forward::axis_outputs(Axis::Steering, prev, next, true);
    let throttle = forward::axis_outputs(Axis::Throttle, prev, next, true);
    let brake = forward::axis_outputs(Axis::Brake, prev, next, true);
    let changes = forward::change_outputs(prev, next, true);
    lemma_axis_told(Axis::Steering, prev, next);
    lemma_axis_told(Axis::Throttle, prev, next);
    lemma_axis_told(Axis::Brake, prev, next);
    lemma_buttons_told(prev, next, 8);
    lemma_told_concat(steering, throttle);
    lemma_told_concat(steering + throttle, brake);
    lemma_told_concat(
        steering + throttle + brake,
        forward::button_outputs(prev, next, 8, true),
    );
    assert(changes.push(forward::syn_report()).drop_last() =~= changes);
}

/// What `forward_state` gives: a batch that brings a device from `prev` to
/// `next` without committing anything on the way, in which an event other than
/// `SYN_REPORT` stands exactly if it tells of a control that changed, in the
/// order of the controls; with a line after each change when debugging, and
/// else without lines.
pub proof fn law_forward_state(
    prev: WheelState,
    next: WheelState,
    debug: bool,
    r: Vec<Output>,
    n: int,
)
    requires
        call_ensures(forward::forward_state, (&prev, &next, debug), r),
        0 <= n <= r@.len(),
    ensures
        ({
            let outputs = forward::output_views(r@);
            let committed = after_all(showing(prev), outputs.take(n)).committed;
            &&& outputs.len() == r@.len()
            &&& after_all(showing(prev), outputs) == showing(next)
            &&& n < r@.len() ==> committed == panel_of(prev)
            &&& forall|type_: u16, code: u16, value: i32|
                type_ != EV_SYN ==> (outputs.contains(OutputView::Event { type_, code, value })
                    <==> #[trigger] tells_of_change(prev, next, type_, code, value))
            &&& in_order(outputs)
            &&& outputs.len() > 0 ==> outputs.last() == forward::syn_report()
            &&& debug && outputs.len() > 0 ==> told(outputs.drop_last())
            &&& !debug ==> events_of(outputs) == outputs
        }),
{
    let outputs = forward::output_views(r@);
    assert(outputs.len() == r@.len());
    law_forward_mirrors(prev, next, debug);
    law_no_state_between(prev, next, debug, n);
    assert forall|type_: u16, code: u16, value: i32| type_ != EV_SYN implies (outputs.contains(
        OutputView::Event { type_, code, value },
    ) <==> #[trigger] tells_of_change(prev, next, type_, code, value)) by {
        law_only_changes(prev, next, debug, type_, code, value);
    }
    law_batch_in_order(prev, next, debug);
    law_single_syn(prev, next, debug);
    law_lines_tell(prev, next);
    law_debug_adds_only_lines(prev, next);
    if !debug {
        lemma_all_events(outputs);
    }
}

/// Where there are only events, they are all there is.
proof fn lemma_all_events(s: Seq<OutputView>)
    requires
        forall|i: int| 0 <= i < s.len() ==> #[trigger] s[i] is Event,
    ensures
        events_of(s) == s,
    decreases s.len(),
{
    if s.len() > 0 {
        assert forall|i: int| 0 <= i < s.drop_last().len() implies #[trigger] s.drop_last()[i] is Event by {
            assert(s.drop_last()[i] == s[i]);
        }
        lemma_all_events(s.drop_last());
        assert(s.last() == s[s.len() - 1]);
        assert(s.drop_last().push(s.last()) =~= s);
    }
}

} // verus!
