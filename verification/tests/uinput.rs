use sidewinder_wheel::uinput::{
    abs_setup, button_codes, check_open, check_write, device_setup, io, iow, set_absbit,
    set_evbit, set_keybit, stamped_event, ui_abs_setup, ui_dev_create, ui_dev_destroy,
    ui_dev_setup, ui_set_absbit, ui_set_evbit, ui_set_keybit, InputAbsinfo, InputEvent, InputId,
    DeviceSetup, SetupStep, UinputAbsSetup, DEVICE_NAME, EV_FF,
};

#[test]
fn request_numbers_of_the_kernel_headers() {
    assert_eq!(ui_set_evbit(), 0x4004_5564);
    assert_eq!(ui_set_keybit(), 0x4004_5565);
    assert_eq!(ui_set_absbit(), 0x4004_5567);
    assert_eq!(ui_dev_create(), 0x5501);
    assert_eq!(ui_dev_destroy(), 0x5502);
    assert_eq!(ui_dev_setup(), 0x405c_5503);
    assert_eq!(ui_abs_setup(), 0x401c_5504);
}

#[test]
fn request_numbers_in_general() {
    assert_eq!(io(0xff), 0x55ff);
    assert_eq!(iow(0, 0), 0x4000_5500);
    assert_eq!(iow(0xff, 0x3fff), 0x7fff_55ff);
    assert_eq!(iow(1, 0x4000), 0x4000_5501);
    assert_eq!(iow(1, 0x8000), 0xc000_5501);
}

#[test]
fn request_fields_read_back() {
    for nr in [0u8, 1, 100, 255] {
        for size in [0usize, 4, 28, 92, 0x3fff] {
            let r = iow(nr, size);
            assert_eq!(r >> 30, 1);
            assert_eq!((r >> 16) & 0x3fff, size as u64);
            assert_eq!((r >> 8) & 0xff, 'U' as u64);
            assert_eq!(r & 0xff, nr as u64);
        }
    }
}

#[test]
fn codes_of_the_buttons() {
    assert_eq!(
        button_codes(),
        [0x120, 0x121, 0x122, 0x123, 0x124, 0x125, 0x126, 0x127]
    );
    assert_eq!(EV_FF, 0x15);
}

fn axis(code: u16, minimum: i32, maximum: i32, fuzz: i32) -> SetupStep {
    SetupStep::AbsSetup(UinputAbsSetup {
        code,
        info: InputAbsinfo { value: 0, minimum, maximum, fuzz, flat: 0, resolution: 0 },
    })
}

#[test]
fn steps_of_the_setup() {
    let steps = device_setup();
    let mut expected: Vec<SetupStep> = vec![
        SetupStep::SetEvbit(0),
        SetupStep::SetEvbit(1),
        SetupStep::SetEvbit(3),
    ];
    for code in 0x120..0x128 {
        expected.push(SetupStep::SetKeybit(code));
    }
    expected.push(SetupStep::SetAbsbit(0));
    expected.push(SetupStep::SetAbsbit(2));
    expected.push(SetupStep::SetAbsbit(5));
    expected.push(axis(0, -32768, 32767, 128));
    expected.push(axis(2, 0, 255, 4));
    expected.push(axis(5, 0, 255, 4));
    assert_eq!(steps.len(), 19);
    assert_eq!(steps[..17].to_vec(), expected);
    assert_eq!(steps[18], SetupStep::DevCreate);
}

#[test]
fn identification_of_the_device() {
    let steps = device_setup();
    match steps[17] {
        SetupStep::DevSetup(d) => {
            assert_eq!(
                d.id,
                InputId { bustype: 3, vendor: 0x045e, product: 0x001b, version: 1 }
            );
            assert_eq!(d.ff_effects_max, 0);
            assert_eq!(DEVICE_NAME, "SideWinder Force Feedback Wheel");
            assert_eq!(&d.name[..31], DEVICE_NAME.as_bytes());
            assert!(d.name[31..].iter().all(|b| *b == 0));
        }
        _ => panic!("no identification"),
    }
}

#[test]
fn requests_of_the_steps() {
    let requests: Vec<u64> = device_setup().iter().map(|s| s.request()).collect();
    let mut expected: Vec<u64> = vec![0x4004_5564; 3];
    expected.extend(vec![0x4004_5565u64; 8]);
    expected.extend(vec![0x4004_5567u64; 3]);
    expected.extend(vec![0x401c_5504u64; 3]);
    expected.push(0x405c_5503);
    expected.push(0x5501);
    assert_eq!(requests, expected);
}

#[test]
fn failures_of_the_steps() {
    let e = "Operation not permitted (os error 1)";
    let cases = vec![
        (set_evbit(3), "UI_SET_EVBIT(3) failed: "),
        (set_keybit(0x120), "UI_SET_KEYBIT(288) failed: "),
        (set_absbit(-5), "UI_SET_ABSBIT(-5) failed: "),
        (set_absbit(i32::MIN), "UI_SET_ABSBIT(-2147483648) failed: "),
        (abs_setup(5, 0, 255, 4, 0), "UI_ABS_SETUP(code=5) failed: "),
        (device_setup()[17], "UI_DEV_SETUP ioctl failed: "),
        (SetupStep::DevCreate, "UI_DEV_CREATE ioctl failed: "),
    ];
    for (step, text) in cases {
        assert_eq!(step.check(-1, e), Err(format!("{}{}", text, e)));
        assert_eq!(step.check(0, e), Ok(()));
        assert_eq!(step.check(7, e), Ok(()));
    }
}

#[test]
fn opening_the_device_node() {
    assert_eq!(check_open(3, ""), Ok(()));
    assert_eq!(check_open(0, ""), Ok(()));
    assert_eq!(
        check_open(-1, "Permission denied (os error 13)"),
        Err("Cannot open /dev/uinput (errno Permission denied (os error 13)). \
             Make sure your user is in the 'input' group or run with sudo. \
             See the udev rules section in README."
            .to_string())
    );
}

#[test]
fn events_carry_their_time() {
    assert_eq!(
        stamped_event(1_700_000_000, 999_999, 3, 2, -7),
        InputEvent { sec: 1_700_000_000, usec: 999_999, type_: 3, code: 2, value: -7 }
    );
    assert_eq!(stamped_event(u64::MAX, 0, 0, 0, 0).sec, -1);
    assert_eq!(stamped_event(1 << 63, 0, 0, 0, 0).sec, i64::MIN);
    assert_eq!(stamped_event((1 << 63) - 1, 0, 0, 0, 0).sec, i64::MAX);
}

#[test]
fn writing_an_event() {
    assert_eq!(check_write(24, ""), Ok(()));
    assert_eq!(check_write(0, ""), Ok(()));
    assert_eq!(
        check_write(-1, "No such device (os error 19)"),
        Err("write() to uinput failed: No such device (os error 19)".to_string())
    );
}

#[test]
fn registration_takes_every_step() {
    let mut setup = DeviceSetup::begin(3, "").unwrap();
    let mut taken: Vec<SetupStep> = Vec::new();
    while let Some(step) = setup.step() {
        taken.push(step);
        assert_eq!(setup.finish_step(0, ""), Ok(()));
    }
    assert_eq!(taken, device_setup());
    assert_eq!(setup.step(), None);
}

#[test]
fn registration_ends_at_the_first_failure() {
    let steps = device_setup();
    for k in 0..steps.len() {
        let mut setup = DeviceSetup::begin(3, "").unwrap();
        for _ in 0..k {
            assert!(setup.step().is_some());
            assert_eq!(setup.finish_step(0, ""), Ok(()));
        }
        assert_eq!(setup.finish_step(-1, "bad"), steps[k].check(-1, "bad"));
        assert!(steps[k].check(-1, "bad").is_err());
        assert_eq!(setup.step(), None);
    }
}

#[test]
fn no_registration_without_the_device_node() {
    assert_eq!(
        DeviceSetup::begin(-1, "bad").err(),
        check_open(-1, "bad").err()
    );
    assert!(DeviceSetup::begin(-1, "bad").is_err());
    assert!(DeviceSetup::begin(0, "").is_ok());
}
