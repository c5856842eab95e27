use sidewinder_wheel::batch::Batch;
use sidewinder_wheel::forward::{emit, forward_state, Output};
use sidewinder_wheel::parser::WheelState;

fn event(type_: u16, code: u16, value: i32) -> Output {
    Output::Event { type_, code, value }
}

/// Works a batch off; the write of the event number `fail`, if any, fails.
/// Gives the outputs that went through, and the final error.
fn work_off(outputs: Vec<Output>, fail: Option<usize>) -> (Vec<Output>, Option<String>) {
    let mut batch = Batch::new(outputs);
    let mut done: Vec<Output> = Vec::new();
    let mut events = 0usize;
    while let Some(output) = batch.next() {
        match output {
            Output::Event { type_, code, value } => {
                let copy = event(*type_, *code, *value);
                let written = if fail == Some(events) { -1 } else { 24 };
                events += 1;
                if let Err(e) = batch.finish_write(written, "gone") {
                    assert_eq!(batch.next(), None);
                    return (done, Some(e));
                }
                done.push(copy);
            }
            Output::Line(line) => {
                done.push(Output::Line(line.clone()));
                batch.finish_line();
            }
        }
    }
    (done, None)
}

fn changes(debug: bool) -> Vec<Output> {
    let next = WheelState { steering: 64, throttle: 9, brake: 0, buttons: 2, buttons2: 0 };
    forward_state(&WheelState::default(), &next, debug)
}

#[test]
fn emitting_adds_a_syn_report() {
    assert_eq!(emit(1, 0x120, 1), vec![event(1, 0x120, 1), event(0, 0, 0)]);
}

#[test]
fn an_empty_batch_has_nothing_due() {
    assert_eq!(Batch::new(vec![]).next(), None);
}

#[test]
fn a_batch_is_worked_off_in_order() {
    assert_eq!(work_off(changes(false), None), (changes(false), None));
    assert_eq!(work_off(changes(true), None), (changes(true), None));
}

#[test]
fn a_failed_write_ends_the_batch() {
    for k in 0..4usize {
        let (done, error) = work_off(changes(false), Some(k));
        assert_eq!(done, changes(false)[..k].iter().map(copied).collect::<Vec<Output>>());
        assert_eq!(error, Some("write() to uinput failed: gone".to_string()));
        assert!(!done.contains(&event(0, 0, 0)));
    }
}

#[test]
fn a_failed_write_leaves_its_line_unshown() {
    let (done, error) = work_off(changes(true), Some(1));
    assert_eq!(
        done,
        vec![event(3, 0, 64), Output::Line("  ABS_X (steering)  = 64".to_string())]
    );
    assert!(error.is_some());
}

#[test]
fn a_failed_emit_sends_no_syn_report() {
    assert_eq!(work_off(emit(3, 0, 5), Some(0)).0, vec![]);
    assert_eq!(work_off(emit(3, 0, 5), Some(1)).0, vec![event(3, 0, 5)]);
}

fn copied(o: &Output) -> Output {
    match o {
        Output::Event { type_, code, value } => event(*type_, *code, *value),
        Output::Line(line) => Output::Line(line.clone()),
    }
}
