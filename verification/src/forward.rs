//! From changes of the wheel state to events of the virtual device.

use vstd::prelude::*;
use crate::parser::WheelState;
use crate::text;
use crate::uinput::{
    button_codes, ABS_RZ, ABS_X, ABS_Z, EV_ABS, EV_KEY, EV_SYN, SYN_REPORT,
};

verus! {

/// Something to be done in order: an event for the virtual device, or a line
/// for the terminal.
#[derive(Debug, PartialEq, Eq)]
pub enum Output {
    Event { type_: u16, code: u16, value: i32 },
    Line(String),
}

/// The content of an `Output`.
pub enum OutputView {
    Event { type_: u16, code: u16, value: i32 },
    Line(Seq<char>),
}

impl View for Output {
    type V = OutputView;

    open spec fn view(&self) -> OutputView {
        match *self {
            Output::Event { type_, code, value } => OutputView::Event { type_, code, value },
            Output::Line(s) => OutputView::Line(s@),
        }
    }
}

/// The contents of a list of outputs.
pub open spec fn output_views(outputs: Seq<Output>) -> Seq<OutputView> {
    outputs.map_values(|o: Output| o@)
}

/// An event, followed by a line that shows it when debugging.
pub open spec fn shown_event(
    type_: u16,
    code: u16,
    value: i32,
    line: Seq<char>,
    debug: bool,
) -> Seq<OutputView> {
    let event = seq![OutputView::Event { type_, code, value }];
    if debug {
        event.push(OutputView::Line(line))
    } else {
        event
    }
}

/// An axis of the wheel.
#[derive(Clone, Copy, Debug, PartialEq, Eq, Structural)]
pub enum Axis {
    Steering,
    Throttle,
    Brake,
}

impl Axis {
    /// The code under which the axis is reported.
    pub open spec fn code(self) -> u16 {
        match self {
            Axis::Steering => ABS_X,
            Axis::Throttle => ABS_Z,
            Axis::Brake => ABS_RZ,
        }
    }

    /// What a debug line about the axis starts with.
    pub open spec fn label(self) -> Seq<char> {
        match self {
            Axis::Steering => "  ABS_X (steering)  = "@,
            Axis::Throttle => "  ABS_Z (throttle)  = "@,
            Axis::Brake => "  ABS_RZ (brake)    = "@,
        }
    }

    /// The position of the axis in the wheel state `w`.
    pub open spec fn position(self, w: WheelState) -> i32 {
        match self {
            Axis::Steering => w.steering as i32,
            Axis::Throttle => w.throttle as i32,
            Axis::Brake => w.brake as i32,
        }
    }
}

/// The outputs for an axis: none if it has the same position in both states.
pub open spec fn axis_outputs(axis: Axis, prev: WheelState, next: WheelState, debug: bool) -> Seq<
    OutputView,
> {
    let value = axis.position(next);
    if value != axis.position(prev) {
        shown_event(
            EV_ABS,
            axis.code(),
            value,
            axis.label() + text::signed_decimal(value as int),
            debug,
        )
    } else {
        Seq::empty()
    }
}

/// The line that shows the new position of button `i`.
pub open spec fn button_line(i: int, pressed: bool) -> Seq<char> {
    "  BTN "@ + text::decimal(i as nat) + " (bit "@ + text::decimal(i as nat) + ") = "@ + if pressed {
        "PRESSED"@
    } else {
        "released"@
    }
}

/// The outputs for the first `n` buttons: an event for each one that was
/// pressed or released, in the order of the buttons.
pub open spec fn button_outputs(prev: WheelState, next: WheelState, n: nat, debug: bool) -> Seq<
    OutputView,
>
    decreases n,
{
    if n == 0 {
        Seq::empty()
    } else {
        let i = n - 1;
        let before = button_outputs(prev, next, i as nat, debug);
        if prev.pressed(i) != next.pressed(i) {
            before + shown_event(
                EV_KEY,
                crate::uinput::button_code_seq()[i],
                if next.pressed(i) {
                    1
                } else {
                    0
                },
                button_line(i, next.pressed(i)),
                debug,
            )
        } else {
            before
        }
    }
}

/// The outputs for every axis and button that changed.
pub open spec fn change_outputs(prev: WheelState, next: WheelState, debug: bool) -> Seq<
    OutputView,
> {
    axis_outputs(Axis::Steering, prev, next, debug) + axis_outputs(
        Axis::Throttle,
        prev,
        next,
        debug,
    ) + axis_outputs(Axis::Brake, prev, next, debug) + button_outputs(prev, next, 8, debug)
}

/// The event that commits a batch.
pub open spec fn syn_report() -> OutputView {
    OutputView::Event { type_: EV_SYN, code: SYN_REPORT, value: 0 }
}

/// The outputs for a change from `prev` to `next`: what changed, then a single
/// `SYN_REPORT` if anything did.
pub open spec fn forward_outputs(prev: WheelState, next: WheelState, debug: bool) -> Seq<
    OutputView,
> {
    let changes = change_outputs(prev, next, debug);
    if changes.len() > 0 {
        changes.push(syn_report())
    } else {
        changes
    }
}

/// Appends an event, and its line when debugging.
fn push_event(outputs: &mut Vec<Output>, type_: u16, code: u16, value: i32, line: String, debug: bool)
    ensures
        output_views(final(outputs)@) == output_views(old(outputs)@) + shown_event(
            type_,
            code,
            value,
            line@,
            debug,
        ),
{
    let ghost before = output_views(outputs@);
    outputs.push(Output::Event { type_, code, value });
    if debug {
        outputs.push(Output::Line(line));
    }
    assert(output_views(outputs@) =~= before + shown_event(type_, code, value, line@, debug));
}

/// Appends the outputs for an axis.
fn push_axis(
    outputs: &mut Vec<Output>,
    axis: Axis,
    prev: &WheelState,
    next: &WheelState,
    debug: bool,
)
    ensures
        output_views(final(outputs)@) == output_views(old(outputs)@) + axis_outputs(
            axis,
            *prev,
            *next,
            debug,
        ),
{
    let (code, label, was, now): (u16, &str, i32, i32) = match axis {
        Axis::Steering => (
            ABS_X,
            "  ABS_X (steering)  = ",
            prev.steering as i32,
            next.steering as i32,
        ),
        Axis::Throttle => (
            ABS_Z,
            "  ABS_Z (throttle)  = ",
            prev.throttle as i32,
            next.throttle as i32,
        ),
        Axis::Brake => (ABS_RZ, "  ABS_RZ (brake)    = ", prev.brake as i32, next.brake as i32),
    };
    if now != was {
        let mut line = String::from_str(label);
        text::push_signed_decimal(&mut line, now);
        push_event(outputs, EV_ABS, code, now, line, debug);
    } else {
        assert(output_views(outputs@) =~= output_views(outputs@) + axis_outputs(
            axis,
            *prev,
            *next,
            debug,
        ));
    }
}

/// The line that shows the new position of button `i`.
fn format_button(i: u8, pressed: bool) -> (r: String)
    ensures
        r@ == button_line(i as int, pressed),
{
    let mut line = String::from_str("  BTN ");
    text::push_decimal(&mut line, i as u64);
    line.append(" (bit ");
    text::push_decimal(&mut line, i as u64);
    line.append(") = ");
    line.append(
        if pressed {
            "PRESSED"
        } else {
            "released"
        },
    );
    line
}

/// Compares two wheel states and gives the events for the changed values: all
/// changed axes and buttons in one batch, then a single `SYN_REPORT`; nothing
/// if nothing changed. When debugging, a line follows each change.
///
/// The eight buttons of the first button byte are forwarded.
pub fn forward_state(prev: &WheelState, next: &WheelState, debug: bool) -> (r: Vec<Output>)
    ensures
        output_views(r@) == forward_outputs(*prev, *next, debug),
{
    let mut outputs: Vec<Output> = Vec::new();
    assert(output_views(outputs@) =~= Seq::empty());
    push_axis(&mut outputs, Axis::Steering, prev, next, debug);
    push_axis(&mut outputs, Axis::Throttle, prev, next, debug);
    push_axis(&mut outputs, Axis::Brake, prev, next, debug);
    let ghost axes = output_views(outputs@);
    assert(axes + button_outputs(*prev, *next, 0, debug) =~= axes);
    let codes: [u16; 8] = button_codes();
    let mut i: u8 = 0;
    while i < 8
        invariant
            i <= 8,
            codes@ == crate::uinput::button_code_seq(),
            output_views(outputs@) == axes + button_outputs(*prev, *next, i as nat, debug),
        decreases 8 - i,
    {
        let was: bool = prev.button(i);
        let now: bool = next.button(i);
        if was != now {
            let value: i32 = if now {
                1
            } else {
                0
            };
            push_event(
                &mut outputs,
                EV_KEY,
                codes[i as usize],
                value,
                format_button(i, now),
                debug,
            );
        }
        i = i + 1;
        assert(output_views(outputs@) =~= axes + button_outputs(*prev, *next, i as nat, debug));
    }
    let ghost changes = output_views(outputs@);
    assert(changes =~= change_outputs(*prev, *next, debug));
    if outputs.len() > 0 {
        outputs.push(Output::Event { type_: EV_SYN, code: SYN_REPORT, value: 0 });
        assert(output_views(outputs@) =~= changes.push(syn_report()));
    }
    outputs
}

/// The outputs for a single event: the event, then a `SYN_REPORT`.
pub open spec fn emit_outputs(type_: u16, code: u16, value: i32) -> Seq<OutputView> {
    seq![OutputView::Event { type_, code, value }, syn_report()]
}

/// A single event followed by a `SYN_REPORT`.
pub fn emit(type_: u16, code: u16, value: i32) -> (r: Vec<Output>)
    ensures
        output_views(r@) == emit_outputs(type_, code, value),
{
    let mut outputs: Vec<Output> = Vec::new();
    outputs.push(Output::Event { type_, code, value });
    outputs.push(Output::Event { type_: EV_SYN, code: SYN_REPORT, value: 0 });
    assert(output_views(outputs@) =~= emit_outputs(type_, code, value));
    outputs
}

/// What an output shows of itself is what it holds, with nothing changed.
pub proof fn law_output_view(output: Output)
    ensures
        output matches Output::Event { type_, code, value } ==> (output@ matches OutputView::Event {
            type_: t,
            code: c,
            value: v,
        } && t == type_ && c == code && v == value),
        output matches Output::Line(line) ==> output@ == OutputView::Line(line@),
{
}

/// The contents of a list of outputs are those of its outputs, one by one.
pub proof fn law_output_views(outputs: Seq<Output>, i: int)
    requires
        0 <= i < outputs.len(),
    ensures
        output_views(outputs).len() == outputs.len(),
        output_views(outputs)[i] == outputs[i]@,
{
}

/// Emitting sends the event as it is given, and one `SYN_REPORT` after it.
pub proof fn law_emit(type_: u16, code: u16, value: i32)
    ensures
        ({
            let s = emit_outputs(type_, code, value);
            &&& s.len() == 2
            &&& s[0] matches OutputView::Event { type_: t, code: c, value: v } && t == type_ && c
                == code && v == value
            &&& s[1] matches OutputView::Event { type_: t, code: c, value: v } && t == 0 && c == 0
                && v == 0
        }),
{
}

/// What `emit` gives: the event as it is, then a `SYN_REPORT`.
pub proof fn law_emit_outputs(type_: u16, code: u16, value: i32, r: Vec<Output>)
    requires
        call_ensures(emit, (type_, code, value), r),
    ensures
        r@.len() == 2,
        r@[0] == (Output::Event { type_, code, value }),
        r@[1] == (Output::Event { type_: 0, code: 0, value: 0 }),
{
    law_emit(type_, code, value);
    assert(output_views(r@).len() == r@.len());
    assert(output_views(r@)[0] == r@[0]@);
    assert(output_views(r@)[1] == r@[1]@);
}

} // verus!
