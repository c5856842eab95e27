//! The driver loop as a state machine: what to do with each outcome of reading
//! the wheel, and when to give up.

use vstd::prelude::*;
use crate::forward::{forward_state, Output, OutputView};
use crate::forward;
use crate::mirror;
use crate::parser::{dump_report, WheelState};
use crate::parser;
use crate::text;

verus! {

/// HID read timeout in milliseconds, short enough to keep the loop responsive.
pub const READ_TIMEOUT_MS: i32 = 50;

/// Size of the report buffer; reports are shorter.
pub const REPORT_BUF_SIZE: usize = 64;

/// Number of consecutive read errors at which the driver gives up.
pub const MAX_READ_ERRORS: u32 = 5;

/// Pause after a read error, in milliseconds.
pub const RETRY_PAUSE_MS: u64 = 200;

/// State of the driver between two reads.
#[derive(Clone, Copy, Debug, PartialEq, Eq, Structural)]
pub struct Driver {
    /// The wheel state that the virtual device shows.
    pub prev_state: WheelState,
    /// Read errors since the last report.
    pub consecutive_errors: u32,
}

/// What to do after a read.
#[derive(Debug, PartialEq, Eq)]
pub enum Action {
    /// Nothing came: read again.
    Continue,
    /// Send and show these, in order, then read again.
    Forward(Vec<Output>),
    /// Pause, then read again, after the given number of errors in a row.
    Retry { errors: u32, pause_ms: u64 },
    /// Give up with this message.
    Stop { errors: u32, message: String },
}

/// The content of an `Action`.
pub enum ActionView {
    Continue,
    Forward(Seq<OutputView>),
    Retry { errors: nat, pause_ms: nat },
    Stop { errors: nat, message: Seq<char> },
}

impl View for Action {
    type V = ActionView;

    open spec fn view(&self) -> ActionView {
        match *self {
            Action::Continue => ActionView::Continue,
            Action::Forward(outputs) => ActionView::Forward(forward::output_views(outputs@)),
            Action::Retry { errors, pause_ms } => ActionView::Retry {
                errors: errors as nat,
                pause_ms: pause_ms as nat,
            },
            Action::Stop { errors, message } => ActionView::Stop {
                errors: errors as nat,
                message: message@,
            },
        }
    }
}

/// What came of a read: the bytes of a report (none if the read timed out), or
/// an error.
pub enum ReadEvent {
    Data(Seq<u8>),
    Error,
}

/// The content of a `Driver`.
pub struct DriverView {
    pub prev_state: WheelState,
    pub consecutive_errors: nat,
}

impl View for Driver {
    type V = DriverView;

    open spec fn view(&self) -> DriverView {
        DriverView {
            prev_state: self.prev_state,
            consecutive_errors: self.consecutive_errors as nat,
        }
    }
}

/// The outcome of a read as an event: `Ok(n)` for the first `n` bytes of `buf`.
pub open spec fn read_event(read: Result<usize, ()>, buf: Seq<u8>) -> ReadEvent {
    match read {
        Ok(n) => ReadEvent::Data(buf.take(n as int)),
        Err(_) => ReadEvent::Error,
    }
}

/// The state before the first read: everything released and centred.
pub open spec fn initial() -> DriverView {
    DriverView {
        prev_state: parser::at_rest(),
        consecutive_errors: 0,
    }
}

/// Lines for the terminal.
pub open spec fn line_outputs(lines: Seq<Seq<char>>) -> Seq<OutputView> {
    lines.map_values(|l: Seq<char>| OutputView::Line(l))
}

/// The outputs for a report: its dump when debugging, then what changed.
pub open spec fn report_outputs(prev: WheelState, report: Seq<u8>, debug: bool) -> Seq<OutputView> {
    let dump = if debug {
        line_outputs(parser::dump_lines(report))
    } else {
        Seq::empty()
    };
    match parser::state_of(report) {
        Some(state) => dump + forward::forward_outputs(prev, state, debug),
        None => dump,
    }
}

/// The message when the driver gives up after `errors` errors in a row.
pub open spec fn stop_message(errors: nat) -> Seq<char> {
    "Too many consecutive HID read errors ("@ + text::decimal(errors)
        + "). Device disconnected? Exiting."@
}

impl DriverView {
    /// Whether the driver has not given up.
    pub open spec fn running(self) -> bool {
        self.consecutive_errors < MAX_READ_ERRORS
    }

    /// The state after an event: a report sets the wheel state if it carries
    /// one and clears the errors, an error counts, a timeout changes nothing.
    pub open spec fn next(self, event: ReadEvent) -> DriverView {
        match event {
            ReadEvent::Data(report) => {
                if report.len() == 0 {
                    self
                } else {
                    DriverView {
                        prev_state: match parser::state_of(report) {
                            Some(state) => state,
                            None => self.prev_state,
                        },
                        consecutive_errors: 0,
                    }
                }
            },
            ReadEvent::Error => DriverView {
                consecutive_errors: self.consecutive_errors + 1,
                ..self
            },
        }
    }

    /// What to do after an event.
    pub open spec fn action(self, event: ReadEvent, debug: bool) -> ActionView {
        match event {
            ReadEvent::Data(report) => {
                if report.len() == 0 {
                    ActionView::Continue
                } else {
                    ActionView::Forward(report_outputs(self.prev_state, report, debug))
                }
            },
            ReadEvent::Error => {
                let errors = self.consecutive_errors + 1;
                if errors >= MAX_READ_ERRORS {
                    ActionView::Stop { errors, message: stop_message(errors) }
                } else {
                    ActionView::Retry { errors, pause_ms: RETRY_PAUSE_MS as nat }
                }
            },
        }
    }
}

/// The outputs of an action.
pub open spec fn action_outputs(action: ActionView) -> Seq<OutputView> {
    match action {
        ActionView::Forward(outputs) => outputs,
        _ => Seq::empty(),
    }
}

/// Turns lines into outputs.
fn lines_to_outputs(lines: Vec<String>) -> (r: Vec<Output>)
    ensures
        forward::output_views(r@) == line_outputs(text::contents(lines@)),
{
    let mut outputs: Vec<Output> = Vec::new();
    let mut i: usize = 0;
    while i < lines.len()
        invariant
            i <= lines@.len(),
            outputs@.len() == i,
            forall|j: int| 0 <= j < i ==> (#[trigger] outputs@[j])@ == OutputView::Line(lines@[j]@),
        decreases lines@.len() - i,
    {
        outputs.push(Output::Line(lines[i].clone()));
        i = i + 1;
    }
    assert(forward::output_views(outputs@) =~= line_outputs(text::contents(lines@)));
    outputs
}

impl Driver {
    /// The driver before the first read.
    pub fn new() -> (r: Self)
        ensures
            r@ == initial(),
    {
        Driver { prev_state: WheelState::default(), consecutive_errors: 0 }
    }

    /// Takes in the outcome of a read: `Ok(n)` if `n` bytes were read to the
    /// front of `buf` (0 on a timeout), `Err` if the read failed.
    ///
    /// A report is dumped when debugging, its changes are forwarded, and the
    /// error count starts anew. A failure is retried after a pause, up to the
    /// fifth in a row, at which the driver stops.
    pub fn step(&mut self, read: Result<usize, ()>, buf: &[u8], debug: bool) -> (r: Action)
        requires
            old(self)@.running(),
            read matches Ok(n) ==> n <= buf@.len(),
        ensures
            final(self)@ == old(self)@.next(read_event(read, buf@)),
            r@ == old(self)@.action(read_event(read, buf@), debug),
            r is Stop <==> !final(self)@.running(),
    {
        match read {
            Ok(n) => {
                if n == 0 {
                    return Action::Continue;
                }
                self.consecutive_errors = 0;
                let report: &[u8] = vstd::slice::slice_subrange(buf, 0, n);
                assert(report@ =~= buf@.take(n as int));
                let mut outputs: Vec<Output> = Vec::new();
                assert(forward::output_views(outputs@) =~= Seq::empty());
                if debug {
                    outputs = lines_to_outputs(dump_report(report));
                }
                let ghost dump = forward::output_views(outputs@);
                if let Some(state) = WheelState::parse(report) {
                    let mut changes: Vec<Output> = forward_state(&self.prev_state, &state, debug);
                    let ghost changed = forward::output_views(changes@);
                    outputs.append(&mut changes);
                    assert(forward::output_views(outputs@) =~= dump + changed);
                    self.prev_state = state;
                }
                Action::Forward(outputs)
            },
            Err(_) => {
                self.consecutive_errors = self.consecutive_errors + 1;
                let errors: u32 = self.consecutive_errors;
                if errors >= MAX_READ_ERRORS {
                    let mut message = String::from_str("Too many consecutive HID read errors (");
                    text::push_decimal(&mut message, errors as u64);
                    message.append("). Device disconnected? Exiting.");
                    Action::Stop { errors, message }
                } else {
                    Action::Retry { errors, pause_ms: RETRY_PAUSE_MS }
                }
            },
        }
    }
}

// ── Laws over whole runs ────────────────────────────────────────────────────

/// The driver after a sequence of events.
pub open spec fn after_events(d: DriverView, events: Seq<ReadEvent>) -> DriverView
    decreases events.len(),
{
    if events.len() == 0 {
        d
    } else {
        after_events(d, events.drop_last()).next(events.last())
    }
}

/// Everything that is sent and shown during a sequence of events.
pub open spec fn run_outputs(d: DriverView, events: Seq<ReadEvent>, debug: bool) -> Seq<OutputView>
    decreases events.len(),
{
    if events.len() == 0 {
        Seq::empty()
    } else {
        run_outputs(d, events.drop_last(), debug) + action_outputs(
            after_events(d, events.drop_last()).action(events.last(), debug),
        )
    }
}

/// Lines leave the virtual device as it is.
proof fn lemma_lines_change_nothing(d: mirror::DeviceModel, lines: Seq<Seq<char>>)
    ensures
        mirror::after_all(d, line_outputs(lines)) == d,
    decreases lines.len(),
{
    if lines.len() > 0 {
        assert(line_outputs(lines).drop_last() =~= line_outputs(lines.drop_last()));
        lemma_lines_change_nothing(d, lines.drop_last());
    }
}

/// One event keeps the virtual device in step with the wheel.
proof fn lemma_step_mirrors(d: DriverView, event: ReadEvent, debug: bool)
    ensures
        mirror::after_all(
            mirror::showing(d.prev_state),
            action_outputs(d.action(event, debug)),
        ) == mirror::showing(d.next(event).prev_state),
{
    if let ReadEvent::Data(report) = event {
        if report.len() > 0 {
            let lines = parser::dump_lines(report);
            let shown = mirror::showing(d.prev_state);
            let dump = if debug {
                line_outputs(lines)
            } else {
                Seq::empty()
            };
            lemma_lines_change_nothing(shown, lines);
            assert(mirror::after_all(shown, dump) == shown);
            if let Some(state) = parser::state_of(report) {
                mirror::law_forward_mirrors(d.prev_state, state, debug);
                mirror::lemma_after_all_concat(
                    shown,
                    dump,
                    forward::forward_outputs(d.prev_state, state, debug),
                );
            }
        }
    }
}

/// Whatever is read, in whatever order, the virtual device follows the driver:
/// if it shows the driver's wheel state at the start, it shows it at the end,
/// with nothing pending.
pub proof fn law_device_follows_wheel(d: DriverView, events: Seq<ReadEvent>, debug: bool)
    ensures
        mirror::after_all(mirror::showing(d.prev_state), run_outputs(d, events, debug))
            == mirror::showing(after_events(d, events).prev_state),
    decreases events.len(),
{
    if events.len() > 0 {
        let before = events.drop_last();
        law_device_follows_wheel(d, before, debug);
        lemma_step_mirrors(after_events(d, before), events.last(), debug);
        mirror::lemma_after_all_concat(
            mirror::showing(d.prev_state),
            run_outputs(d, before, debug),
            action_outputs(after_events(d, before).action(events.last(), debug)),
        );
    }
}

/// The state of the last report that carried one, or `start` if none did.
pub open spec fn last_state(start: WheelState, events: Seq<ReadEvent>) -> WheelState
    decreases events.len(),
{
    if events.len() == 0 {
        start
    } else {
        match events.last() {
            ReadEvent::Data(report) => match parser::state_of(report) {
                Some(state) => state,
                None => last_state(start, events.drop_last()),
            },
            ReadEvent::Error => last_state(start, events.drop_last()),
        }
    }
}

/// The number of errors since the last report; timeouts do not interrupt a run
/// of errors.
pub open spec fn errors_since_report(events: Seq<ReadEvent>) -> nat
    decreases events.len(),
{
    if events.len() == 0 {
        0
    } else {
        match events.last() {
            ReadEvent::Data(report) => if report.len() > 0 {
                0
            } else {
                errors_since_report(events.drop_last())
            },
            ReadEvent::Error => errors_since_report(events.drop_last()) + 1,
        }
    }
}

/// The driver's state is what the history of its reads says: the last wheel
/// state that was read, and the number of errors since the last report.
pub proof fn law_state_is_history(events: Seq<ReadEvent>)
    ensures
        after_events(initial(), events) == (DriverView {
            prev_state: last_state(parser::at_rest(), events),
            consecutive_errors: errors_since_report(events),
        }),
    decreases events.len(),
{
    if events.len() > 0 {
        law_state_is_history(events.drop_last());
    }
}

/// From the setup of the virtual device on, whatever is read in whatever order,
/// the events written to it make it show the state of the last report that
/// carried one; before such a report, a wheel at rest. (This is of the events
/// as written, before the kernel smooths axes by their fuzz.)
pub proof fn law_device_shows_last_report(events: Seq<ReadEvent>, debug: bool)
    ensures
        mirror::after_all(
            mirror::fresh_device(crate::uinput::setup_plan()),
            run_outputs(initial(), events, debug),
        ) == mirror::showing(last_state(parser::at_rest(), events)),
{
    mirror::law_fresh_device_at_rest();
    law_device_follows_wheel(initial(), events, debug);
    law_state_is_history(events);
}

/// The driver gives up on the fifth read error without a report in between,
/// and on nothing else.
pub proof fn law_stops_on_fifth_error(events: Seq<ReadEvent>, event: ReadEvent, debug: bool)
    requires
        after_events(initial(), events).running(),
    ensures
        after_events(initial(), events).action(event, debug) is Stop <==> event is Error
            && errors_since_report(events) == 4,
{
    law_state_is_history(events);
}

// ── Laws of a single step ───────────────────────────────────────────────────

/// What the driver and an action show of themselves is what they hold.
pub proof fn law_views(d: Driver, action: Action)
    ensures
        d@.prev_state == d.prev_state,
        d@.consecutive_errors == d.consecutive_errors,
        action is Continue <==> action@ is Continue,
        action matches Action::Forward(outputs) ==> action@ == ActionView::Forward(
            forward::output_views(outputs@),
        ),
        action matches Action::Retry { errors, pause_ms } ==> (action@ matches ActionView::Retry {
            errors: e,
            pause_ms: p,
        } && e == errors && p == pause_ms),
        action matches Action::Stop { errors, message } ==> (action@ matches ActionView::Stop {
            errors: e,
            message: m,
        } && e == errors && m == message@),
{
}

/// A read of `n` bytes is the report of the first `n` bytes of the buffer, each
/// as it is; a failed read is an error.
pub proof fn law_read_event(n: usize, buf: Seq<u8>)
    requires
        n <= buf.len(),
    ensures
        read_event(Ok(n), buf) matches ReadEvent::Data(report) && report.len() == n && forall|i: int|
            0 <= i < n ==> #[trigger] report[i] == buf[i],
        read_event(Err(()), buf) is Error,
{
}

/// The first read finds a wheel at rest and no errors.
pub proof fn law_initial()
    ensures
        initial().consecutive_errors == 0,
        initial().prev_state.steering == 0,
        initial().prev_state.throttle == 0,
        initial().prev_state.brake == 0,
        forall|n: int| !#[trigger] initial().prev_state.pressed(n),
{
    assert forall|n: int| !#[trigger] initial().prev_state.pressed(n) by {
        let k = (if n < 8 {
            n
        } else {
            n - 8
        }) as u8;
        assert(k < 8 ==> (0u8 >> k) & 1 == 0) by (bit_vector);
    }
}

/// What each outcome of a read does to the driver: a timeout nothing; an error
/// adds one to the errors and leaves the wheel state; a report clears the
/// errors, and sets the wheel state to the one it carries, if it carries one.
pub proof fn law_next(d: DriverView, report: Seq<u8>)
    ensures
        report.len() == 0 ==> d.next(ReadEvent::Data(report)) == d,
        d.next(ReadEvent::Error).consecutive_errors == d.consecutive_errors + 1,
        d.next(ReadEvent::Error).prev_state == d.prev_state,
        report.len() > 0 ==> d.next(ReadEvent::Data(report)).consecutive_errors == 0,
        report.len() >= 6 && report[0] == 1 ==> Some(d.next(ReadEvent::Data(report)).prev_state)
            == parser::state_of(report),
        report.len() < 6 || report[0] != 1 ==> d.next(ReadEvent::Data(report)).prev_state
            == d.prev_state,
{
}

/// What is done after each outcome: nothing after a timeout; after an error a
/// pause of 200 ms, or a stop if it is the fifth or a later one; after a report
/// its outputs.
pub proof fn law_action(d: DriverView, report: Seq<u8>, debug: bool)
    ensures
        report.len() == 0 <==> d.action(ReadEvent::Data(report), debug) is Continue,
        report.len() > 0 <==> d.action(ReadEvent::Data(report), debug) is Forward,
        report.len() > 0 ==> d.action(ReadEvent::Data(report), debug) == ActionView::Forward(
            step_outputs(d, report, debug),
        ),
        d.consecutive_errors < 4 ==> d.action(ReadEvent::Error, debug) == (ActionView::Retry {
            errors: d.consecutive_errors + 1,
            pause_ms: 200,
        }),
        d.consecutive_errors >= 4 ==> (d.action(ReadEvent::Error, debug) matches ActionView::Stop {
            errors,
            ..
        } && errors == d.consecutive_errors + 1),
{
}

/// The message at the end shows the number of errors.
pub proof fn law_stop_message(d: DriverView, debug: bool)
    requires
        d.consecutive_errors >= 4,
    ensures
        ({
            let tail = "). Device disconnected? Exiting."@;
            &&& d.action(ReadEvent::Error, debug) matches ActionView::Stop { errors, message }
            &&& message.len() > 38 + tail.len()
            &&& message.take(38) == "Too many consecutive HID read errors ("@
            &&& text::shows(message.subrange(38, message.len() - tail.len()), errors as int)
            &&& message.skip(message.len() - tail.len()) == tail
        }),
{
    reveal_strlit("Too many consecutive HID read errors (");
    let errors = d.consecutive_errors + 1;
    let tail = "). Device disconnected? Exiting."@;
    let message = stop_message(errors);
    text::law_number_shows(errors as int, 0);
    text::law_decimal_reads_back(errors);
    assert(message.take(38) =~= "Too many consecutive HID read errors ("@);
    assert(message.subrange(38, message.len() - tail.len()) =~= text::decimal(errors));
    assert(message.skip(message.len() - tail.len()) =~= tail);
}

/// The outputs of the step for `report`.
pub open spec fn step_outputs(d: DriverView, report: Seq<u8>, debug: bool) -> Seq<OutputView> {
    action_outputs(d.action(ReadEvent::Data(report), debug))
}

/// The lines of a dump are lines, and hold no event.
proof fn lemma_dump_lines(report: Seq<u8>, debug: bool) -> (dump: Seq<OutputView>)
    ensures
        dump == if debug {
            line_outputs(parser::dump_lines(report))
        } else {
            Seq::empty()
        },
        dump.len() == if debug {
            2int
        } else {
            0int
        },
        forall|i: int| 0 <= i < dump.len() ==> #[trigger] dump[i] is Line,
{
    if debug {
        line_outputs(parser::dump_lines(report))
    } else {
        Seq::empty()
    }
}

/// A step sends only what changed since the last report, and all of it: apart
/// from `SYN_REPORT`, an event is among its outputs exactly if it tells of a
/// control that differs between the wheel state before and the report's. A
/// report without a state sends nothing.
pub proof fn law_step_only_changes(
    d: DriverView,
    report: Seq<u8>,
    debug: bool,
    type_: u16,
    code: u16,
    value: i32,
)
    requires
        report.len() > 0,
        type_ != crate::uinput::EV_SYN,
    ensures
        step_outputs(d, report, debug).contains(OutputView::Event { type_, code, value }) <==> (
        parser::state_of(report) matches Some(state) && mirror::tells_of_change(
            d.prev_state,
            state,
            type_,
            code,
            value,
        )),
{
    let event = OutputView::Event { type_, code, value };
    let dump = lemma_dump_lines(report, debug);
    assert(!dump.contains(event));
    if let Some(state) = parser::state_of(report) {
        mirror::law_only_changes(d.prev_state, state, debug, type_, code, value);
        mirror::lemma_contains_concat(
            dump,
            forward::forward_outputs(d.prev_state, state, debug),
            event,
        );
    }
}

/// The events of a step stand in the order of a batch, one for each control and
/// at most one `SYN_REPORT`, which is the last output. It is there exactly if
/// an axis or a button of the first byte changed.
pub proof fn law_step_is_one_batch(d: DriverView, report: Seq<u8>, debug: bool)
    requires
        report.len() > 0,
    ensures
        ({
            let outputs = step_outputs(d, report, debug);
            &&& mirror::in_order(outputs)
            &&& mirror::one_event_each(outputs)
            &&& forall|i: int|
                0 <= i < outputs.len() - 1 ==> !(#[trigger] outputs[i] matches OutputView::Event {
                    type_,
                    ..
                } && type_ == crate::uinput::EV_SYN)
            &&& outputs.len() > 0 && outputs.last() is Event <==> (parser::state_of(
                report,
            ) matches Some(state) && (state.steering != d.prev_state.steering || state.throttle
                != d.prev_state.throttle || state.brake != d.prev_state.brake || state.buttons
                != d.prev_state.buttons))
            &&& outputs.len() > 0 && outputs.last() is Event ==> outputs.last()
                == forward::syn_report()
        }),
{
    let outputs = step_outputs(d, report, debug);
    let dump = lemma_dump_lines(report, debug);
    if let Some(state) = parser::state_of(report) {
        let batch = forward::forward_outputs(d.prev_state, state, debug);
        mirror::law_batch_in_order(d.prev_state, state, debug);
        mirror::law_single_syn(d.prev_state, state, debug);
        mirror::law_one_event_each(d.prev_state, state, debug);
        mirror::law_quiet(d.prev_state, state, debug);
        mirror::lemma_order_concat(dump, batch, 0, 0, 0x1_0001);
        assert(outputs == dump + batch);
        assert forall|i: int, j: int| 0 <= i < j < outputs.len() implies !mirror::same_control(
            #[trigger] outputs[i],
            #[trigger] outputs[j],
        ) by {
            if i < dump.len() {
                assert(outputs[i] == dump[i]);
            } else {
                assert(outputs[i] == batch[i - dump.len()]);
                assert(outputs[j] == batch[j - dump.len()]);
            }
        }
        assert forall|i: int| 0 <= i < outputs.len() - 1 implies !(
        #[trigger] outputs[i] matches OutputView::Event { type_, .. } && type_
            == crate::uinput::EV_SYN) by {
            if i < dump.len() {
                assert(outputs[i] == dump[i]);
            } else {
                assert(outputs[i] == batch[i - dump.len()]);
            }
        }
        if batch.len() > 0 {
            assert(outputs.last() == batch.last());
        } else {
            assert(outputs =~= dump);
        }
    }
}

/// No state in between is ever committed: cut off anywhere, the outputs of a
/// step leave a device that showed the wheel state before it with that state
/// committed, and complete they leave it with the new one.
pub proof fn law_step_commits_once(d: DriverView, report: Seq<u8>, debug: bool, n: int)
    requires
        report.len() > 0,
        0 <= n <= step_outputs(d, report, debug).len(),
    ensures
        ({
            let outputs = step_outputs(d, report, debug);
            let committed = mirror::after_all(
                mirror::showing(d.prev_state),
                outputs.take(n),
            ).committed;
            &&& n < outputs.len() ==> committed == mirror::panel_of(d.prev_state)
            &&& n == outputs.len() ==> (parser::state_of(report) matches Some(state)
                ==> committed == mirror::panel_of(state))
            &&& parser::state_of(report) is None ==> committed == mirror::panel_of(d.prev_state)
        }),
{
    let outputs = step_outputs(d, report, debug);
    let dump = lemma_dump_lines(report, debug);
    let shown = mirror::showing(d.prev_state);
    if n <= dump.len() {
        let lines = parser::dump_lines(report).take(n);
        assert(outputs.take(n) =~= if debug {
            line_outputs(lines)
        } else {
            Seq::empty()
        });
        lemma_lines_change_nothing(shown, lines);
    }
    if let Some(state) = parser::state_of(report) {
        let batch = forward::forward_outputs(d.prev_state, state, debug);
        if n >= dump.len() {
            let k = n - dump.len();
            assert(outputs.take(n) =~= dump + batch.take(k));
            lemma_lines_change_nothing(shown, parser::dump_lines(report));
            mirror::lemma_after_all_concat(shown, dump, batch.take(k));
            mirror::law_no_state_between(d.prev_state, state, debug, k);
        }
    }
}

/// When debugging, a step first shows the two lines of the report's dump; then
/// come the changes, each with a line that tells of it, and the `SYN_REPORT`.
/// Without debugging there are the same events and no lines.
pub proof fn law_step_debug(d: DriverView, report: Seq<u8>)
    requires
        report.len() > 0,
    ensures
        ({
            let outputs = step_outputs(d, report, true);
            let quiet = step_outputs(d, report, false);
            let changes = outputs.skip(2);
            &&& outputs.len() >= 2
            &&& outputs[0] == OutputView::Line(parser::dump_lines(report)[0])
            &&& outputs[1] == OutputView::Line(parser::dump_lines(report)[1])
            &&& changes.len() == 0 || (changes.len() > 1 && changes.last() is Event && mirror::told(
                changes.drop_last(),
            ))
            &&& mirror::events_of(outputs) == quiet
            &&& forall|i: int| 0 <= i < quiet.len() ==> #[trigger] quiet[i] is Event
        }),
{
    let outputs = step_outputs(d, report, true);
    let dump = lemma_dump_lines(report, true);
    reveal_with_fuel(mirror::events_of, 3);
    assert(mirror::events_of(dump) =~= Seq::empty());
    if let Some(state) = parser::state_of(report) {
        let batch = forward::forward_outputs(d.prev_state, state, true);
        mirror::law_lines_tell(d.prev_state, state);
        mirror::law_single_syn(d.prev_state, state, true);
        mirror::law_debug_adds_only_lines(d.prev_state, state);
        mirror::lemma_events_concat(dump, batch);
        assert(outputs.skip(2) =~= batch);
        assert(step_outputs(d, report, false) =~= forward::forward_outputs(
            d.prev_state,
            state,
            false,
        ));
        assert(mirror::events_of(outputs) =~= step_outputs(d, report, false));
    }
}

/// The same report again sends nothing.
pub proof fn law_repeated_report(d: DriverView, report: Seq<u8>)
    requires
        report.len() > 0,
    ensures
        step_outputs(d.next(ReadEvent::Data(report)), report, false).len() == 0,
{
    let next = d.next(ReadEvent::Data(report));
    if let Some(state) = parser::state_of(report) {
        mirror::law_quiet(next.prev_state, state, false);
    }
}

// ── Laws of the operations ──────────────────────────────────────────────────

/// What `Driver::new` gives: a driver of a wheel at rest, with no errors.
pub proof fn law_new(r: Driver)
    requires
        call_ensures(Driver::new, (), r),
    ensures
        r.consecutive_errors == 0,
        r.prev_state.steering == 0,
        r.prev_state.throttle == 0,
        r.prev_state.brake == 0,
        r.prev_state.buttons == 0,
        r.prev_state.buttons2 == 0,
{
}

/// What `Driver::step` does without a report: after a timeout nothing; after a
/// failed read it counts one more error, and asks for a pause of 200 ms or, at
/// the fifth, for a stop.
pub proof fn law_step_without_report(
    d: &mut Driver,
    read: Result<usize, ()>,
    buf: &[u8],
    debug: bool,
    r: Action,
)
    requires
        call_ensures(Driver::step, (d, read, buf, debug), r),
        old(d).consecutive_errors < 5,
    ensures
        read == Ok::<usize, ()>(0) ==> r is Continue && *final(d) == *old(d),
        read is Err ==> {
            let errors = old(d).consecutive_errors + 1;
            &&& final(d).prev_state == old(d).prev_state
            &&& final(d).consecutive_errors == errors
            &&& errors < 5 ==> (r matches Action::Retry { errors: e, pause_ms } && e == errors
                && pause_ms == 200)
            &&& errors == 5 ==> {
                let tail = "). Device disconnected? Exiting."@;
                &&& r matches Action::Stop { errors: e, message }
                &&& e == errors
                &&& message@.len() > 38 + tail.len()
                &&& message@.take(38) == "Too many consecutive HID read errors ("@
                &&& text::shows(message@.subrange(38, message@.len() - tail.len()), 5)
                &&& message@.skip(message@.len() - tail.len()) == tail
            }
        },
{
    let before = *old(d);
    if read is Err && before.consecutive_errors == 4 {
        law_stop_message(before@, debug);
    }
}

/// What `Driver::step` does with a report of `n` bytes. It clears the errors and
/// keeps the state that the report carries, or the one before if it carries
/// none. Its outputs bring a device from the one state to the other in a single
/// batch: in order, only what changed and all of it, and with nothing committed
/// before the last of them.
pub proof fn law_step_with_report(
    d: &mut Driver,
    n: usize,
    buf: &[u8],
    debug: bool,
    r: Action,
    state: Option<WheelState>,
    k: int,
)
    requires
        call_ensures(Driver::step, (d, Ok::<usize, ()>(n), buf, debug), r),
        0 < n <= buf@.len(),
        state == parser::state_of(buf@.take(n as int)),
    ensures
        final(d).consecutive_errors == 0,
        state matches Some(w) ==> final(d).prev_state == w,
        state is None ==> final(d).prev_state == old(d).prev_state,
        state is Some <==> n >= 6 && buf@[0] == 1,
        r matches Action::Forward(items) && {
            let outputs = forward::output_views(items@);
            let prev = old(d).prev_state;
            let next = final(d).prev_state;
            let shown = mirror::showing(prev);
            &&& outputs.len() == items@.len()
            &&& outputs == step_outputs(old(d)@, buf@.take(n as int), debug)
            &&& mirror::after_all(shown, outputs) == mirror::showing(next)
            &&& 0 <= k < outputs.len() ==> mirror::after_all(shown, outputs.take(k)).committed
                == mirror::panel_of(prev)
            &&& mirror::in_order(outputs)
            &&& forall|type_: u16, code: u16, value: i32|
                type_ != crate::uinput::EV_SYN ==> (outputs.contains(
                    OutputView::Event { type_, code, value },
                ) <==> #[trigger] mirror::tells_of_change(prev, next, type_, code, value))
        },
{
    let before = old(d)@;
    let report = buf@.take(n as int);
    let outputs = step_outputs(before, report, debug);
    let prev = before.prev_state;
    let next = before.next(ReadEvent::Data(report)).prev_state;
    lemma_step_mirrors(before, ReadEvent::Data(report), debug);
    law_step_is_one_batch(before, report, debug);
    if 0 <= k < outputs.len() {
        law_step_commits_once(before, report, debug, k);
    }
    assert forall|type_: u16, code: u16, value: i32| type_ != crate::uinput::EV_SYN implies (
    outputs.contains(OutputView::Event { type_, code, value })
        <==> #[trigger] mirror::tells_of_change(prev, next, type_, code, value)) by {
        law_step_only_changes(before, report, debug, type_, code, value);
    }
}

} // verus!
