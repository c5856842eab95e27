//! The uinput side: event codes, ioctl request numbers, the steps that
//! register the virtual wheel with the kernel, and the events written to it.
//!
//! The numbers are those of `<linux/input.h>` and `<linux/uinput.h>`.

use vstd::prelude::*;
use crate::text;

verus! {

pub const EV_SYN: u16 = 0x00;

pub const EV_KEY: u16 = 0x01;

pub const EV_ABS: u16 = 0x03;

/// Force feedback; reserved, no event of this type is declared or written.
pub const EV_FF: u16 = 0x15;

pub const SYN_REPORT: u16 = 0;

/// Axis of the steering wheel.
pub const ABS_X: u16 = 0x00;

/// Axis of the throttle.
pub const ABS_Z: u16 = 0x02;

/// Axis of the brake.
pub const ABS_RZ: u16 = 0x05;

pub const BTN_TRIGGER: u16 = 0x120;

pub const BTN_THUMB: u16 = 0x121;

pub const BTN_THUMB2: u16 = 0x122;

pub const BTN_TOP: u16 = 0x123;

pub const BTN_TOP2: u16 = 0x124;

pub const BTN_PINKIE: u16 = 0x125;

pub const BTN_BASE: u16 = 0x126;

pub const BTN_BASE2: u16 = 0x127;

pub const BUS_USB: u16 = 0x03;

/// Type byte of the uinput ioctls, the letter `U`.
pub const UINPUT_IOCTL_BASE: u8 = 0x55;

/// Size in bytes of a C `int`.
pub const C_INT_SIZE: usize = 4;

/// Size in bytes of `struct uinput_setup`.
pub const UINPUT_SETUP_SIZE: usize = 92;

/// Size in bytes of `struct uinput_abs_setup`.
pub const UINPUT_ABS_SETUP_SIZE: usize = 28;

/// Size in bytes of the name in `struct uinput_setup`, with its final NUL.
pub const UINPUT_MAX_NAME_SIZE: usize = 80;

/// Name under which the virtual wheel is registered.
pub const DEVICE_NAME: &'static str = "SideWinder Force Feedback Wheel";

/// The codes of the eight buttons, by their bit in the button byte.
pub open spec fn button_code_seq() -> Seq<u16> {
    seq![
        BTN_TRIGGER,
        BTN_THUMB,
        BTN_THUMB2,
        BTN_TOP,
        BTN_TOP2,
        BTN_PINKIE,
        BTN_BASE,
        BTN_BASE2,
    ]
}

/// The codes of the eight buttons, by their bit in the button byte.
pub fn button_codes() -> (r: [u16; 8])
    ensures
        r@ == button_code_seq(),
{
    let codes: [u16; 8] = [
        BTN_TRIGGER,
        BTN_THUMB,
        BTN_THUMB2,
        BTN_TOP,
        BTN_TOP2,
        BTN_PINKIE,
        BTN_BASE,
        BTN_BASE2,
    ];
    assert(codes@ =~= button_code_seq());
    codes
}

// ── ioctl request numbers ───────────────────────────────────────────────────

/// An ioctl request number of uinput: the direction in bits 30-31, the size of
/// the argument in bits 16-29, the type in bits 8-15, the number in bits 0-7.
pub open spec fn request_number(dir: int, size: int, nr: int) -> int {
    dir * 0x4000_0000 + size * 0x1_0000 + UINPUT_IOCTL_BASE * 0x100 + nr
}

/// Request number of an ioctl that writes an argument of `size` bytes. A size
/// that does not fit in its 14 bits runs into the direction bits.
pub fn iow(nr: u8, size: usize) -> (r: u64)
    ensures
        r == (1u64 << 30) | ((size as u64) << 16) | ((UINPUT_IOCTL_BASE as u64) << 8) | (
        nr as u64),
        size < 0x4000 ==> r == request_number(1, size as int, nr as int),
{
    let dir: u64 = 1;
    let wide: u64 = size as u64;
    let base: u8 = UINPUT_IOCTL_BASE;
    proof {
        assert(wide < 0x4000 && base == 0x55 && dir == 1 ==> (dir << 30) | (wide << 16) | ((
        base as u64) << 8) | (nr as u64) == 0x4000_0000 + wide * 0x1_0000 + 0x5500 + nr)
            by (bit_vector);
    }
    (dir << 30) | (wide << 16) | ((base as u64) << 8) | (nr as u64)
}

/// Request number of an ioctl without an argument.
pub fn io(nr: u8) -> (r: u64)
    ensures
        r == request_number(0, 0, nr as int),
{
    let base: u8 = UINPUT_IOCTL_BASE;
    proof {
        assert(base == 0x55 ==> ((base as u64) << 8) | (nr as u64) == 0x5500 + nr)
            by (bit_vector);
    }
    ((base as u64) << 8) | (nr as u64)
}

/// Request number of `UI_SET_EVBIT`.
pub fn ui_set_evbit() -> (r: u64)
    ensures
        r == request_number(1, C_INT_SIZE as int, 100),
{
    iow(100, C_INT_SIZE)
}

/// Request number of `UI_SET_KEYBIT`.
pub fn ui_set_keybit() -> (r: u64)
    ensures
        r == request_number(1, C_INT_SIZE as int, 101),
{
    iow(101, C_INT_SIZE)
}

/// Request number of `UI_SET_ABSBIT`.
pub fn ui_set_absbit() -> (r: u64)
    ensures
        r == request_number(1, C_INT_SIZE as int, 103),
{
    iow(103, C_INT_SIZE)
}

/// Request number of `UI_DEV_CREATE`.
pub fn ui_dev_create() -> (r: u64)
    ensures
        r == request_number(0, 0, 1),
{
    io(1)
}

/// Request number of `UI_DEV_DESTROY`.
pub fn ui_dev_destroy() -> (r: u64)
    ensures
        r == request_number(0, 0, 2),
{
    io(2)
}

/// Request number of `UI_DEV_SETUP`.
pub fn ui_dev_setup() -> (r: u64)
    ensures
        r == request_number(1, UINPUT_SETUP_SIZE as int, 3),
{
    iow(3, UINPUT_SETUP_SIZE)
}

/// Request number of `UI_ABS_SETUP`.
pub fn ui_abs_setup() -> (r: u64)
    ensures
        r == request_number(1, UINPUT_ABS_SETUP_SIZE as int, 4),
{
    iow(4, UINPUT_ABS_SETUP_SIZE)
}

/// The fields of a request number can be read back from it, so requests that
/// differ in any of them have different numbers.
pub proof fn law_request_fields(dir: int, size: int, nr: int)
    requires
        0 <= dir < 4,
        0 <= size < 0x4000,
        0 <= nr < 0x100,
    ensures
        ({
            let r = request_number(dir, size, nr);
            &&& r / 0x4000_0000 == dir
            &&& (r / 0x1_0000) % 0x4000 == size
            &&& (r / 0x100) % 0x100 == UINPUT_IOCTL_BASE
            &&& r % 0x100 == nr
        }),
{
    let r = request_number(dir, size, nr);
    lemma_split(r, 0x4000_0000, dir, size * 0x1_0000 + 0x5500 + nr);
    lemma_split(r, 0x1_0000, dir * 0x4000 + size, 0x5500 + nr);
    lemma_split(dir * 0x4000 + size, 0x4000, dir, size);
    lemma_split(r, 0x100, dir * 0x40_0000 + size * 0x100 + 0x55, nr);
    lemma_split(
        dir * 0x40_0000 + size * 0x100 + 0x55,
        0x100,
        dir * 0x4000 + size,
        0x55,
    );
}

/// Quotient and remainder of a sum of a multiple and a rest.
proof fn lemma_split(n: int, d: int, quotient: int, rest: int)
    requires
        d > 0,
        0 <= rest < d,
        n == quotient * d + rest,
    ensures
        n / d == quotient,
        n % d == rest,
{
    vstd::arithmetic::div_mod::lemma_fundamental_div_mod_converse(n, d, quotient, rest);
}

// ── Registering the virtual wheel ───────────────────────────────────────────

/// Identity of a device, `struct input_id`.
#[derive(Clone, Copy, Debug, PartialEq, Eq, Structural)]
pub struct InputId {
    pub bustype: u16,
    pub vendor: u16,
    pub product: u16,
    pub version: u16,
}

/// Description of the device, `struct uinput_setup`.
#[derive(Clone, Copy, Debug, PartialEq, Eq)]
pub struct UinputSetup {
    pub id: InputId,
    pub name: [u8; 80],
    pub ff_effects_max: u32,
}

/// Range of an axis, `struct input_absinfo`.
#[derive(Clone, Copy, Debug, PartialEq, Eq, Structural)]
pub struct InputAbsinfo {
    pub value: i32,
    pub minimum: i32,
    pub maximum: i32,
    pub fuzz: i32,
    pub flat: i32,
    pub resolution: i32,
}

/// Description of an axis, `struct uinput_abs_setup`.
#[derive(Clone, Copy, Debug, PartialEq, Eq, Structural)]
pub struct UinputAbsSetup {
    pub code: u16,
    pub info: InputAbsinfo,
}

/// One ioctl on the way to a registered device, with its argument.
#[derive(Clone, Copy, Debug, PartialEq, Eq)]
pub enum SetupStep {
    /// Declares an event type.
    SetEvbit(i32),
    /// Declares a key or button.
    SetKeybit(i32),
    /// Declares an absolute axis.
    SetAbsbit(i32),
    /// Sets the range of an axis.
    AbsSetup(UinputAbsSetup),
    /// Names and identifies the device.
    DevSetup(UinputSetup),
    /// Creates the device.
    DevCreate,
}

/// What a `SetupStep` asks of the kernel.
pub enum SetupStepView {
    SetEvbit(int),
    SetKeybit(int),
    SetAbsbit(int),
    AbsSetup(UinputAbsSetup),
    DevSetup { id: InputId, name: Seq<u8>, ff_effects_max: u32 },
    DevCreate,
}

impl View for SetupStep {
    type V = SetupStepView;

    open spec fn view(&self) -> SetupStepView {
        match *self {
            SetupStep::SetEvbit(b) => SetupStepView::SetEvbit(b as int),
            SetupStep::SetKeybit(b) => SetupStepView::SetKeybit(b as int),
            SetupStep::SetAbsbit(b) => SetupStepView::SetAbsbit(b as int),
            SetupStep::AbsSetup(a) => SetupStepView::AbsSetup(a),
            SetupStep::DevSetup(d) => SetupStepView::DevSetup {
                id: d.id,
                name: d.name@,
                ff_effects_max: d.ff_effects_max,
            },
            SetupStep::DevCreate => SetupStepView::DevCreate,
        }
    }
}

/// The contents of a list of steps.
pub open spec fn step_views(steps: Seq<SetupStep>) -> Seq<SetupStepView> {
    steps.map_values(|s: SetupStep| s@)
}

impl SetupStepView {
    /// The request number of the step's ioctl.
    pub open spec fn request(self) -> int {
        match self {
            SetupStepView::SetEvbit(_) => request_number(1, C_INT_SIZE as int, 100),
            SetupStepView::SetKeybit(_) => request_number(1, C_INT_SIZE as int, 101),
            SetupStepView::SetAbsbit(_) => request_number(1, C_INT_SIZE as int, 103),
            SetupStepView::AbsSetup(_) => request_number(1, UINPUT_ABS_SETUP_SIZE as int, 4),
            SetupStepView::DevSetup { .. } => request_number(1, UINPUT_SETUP_SIZE as int, 3),
            SetupStepView::DevCreate => request_number(0, 0, 1),
        }
    }

    /// The message when the step's ioctl fails with `os_error`.
    pub open spec fn failure(self, os_error: Seq<char>) -> Seq<char> {
        match self {
            SetupStepView::SetEvbit(b) => "UI_SET_EVBIT("@ + text::signed_decimal(b)
                + ") failed: "@ + os_error,
            SetupStepView::SetKeybit(b) => "UI_SET_KEYBIT("@ + text::signed_decimal(b)
                + ") failed: "@ + os_error,
            SetupStepView::SetAbsbit(b) => "UI_SET_ABSBIT("@ + text::signed_decimal(b)
                + ") failed: "@ + os_error,
            SetupStepView::AbsSetup(a) => "UI_ABS_SETUP(code="@ + text::decimal(a.code as nat)
                + ") failed: "@ + os_error,
            SetupStepView::DevSetup { .. } => "UI_DEV_SETUP ioctl failed: "@ + os_error,
            SetupStepView::DevCreate => "UI_DEV_CREATE ioctl failed: "@ + os_error,
        }
    }
}

/// `before`, then `n` in decimal, then `") failed: "` and `os_error`.
fn numbered_failure(before: &str, n: i32, os_error: &str) -> (r: String)
    ensures
        r@ == before@ + text::signed_decimal(n as int) + ") failed: "@ + os_error@,
{
    let mut out = String::from_str(before);
    text::push_signed_decimal(&mut out, n);
    out.append(") failed: ");
    out.append(os_error);
    out
}

impl SetupStep {
    /// The request number of the step's ioctl.
    pub fn request(&self) -> (r: u64)
        ensures
            r == self@.request(),
    {
        match self {
            SetupStep::SetEvbit(_) => ui_set_evbit(),
            SetupStep::SetKeybit(_) => ui_set_keybit(),
            SetupStep::SetAbsbit(_) => ui_set_absbit(),
            SetupStep::AbsSetup(_) => ui_abs_setup(),
            SetupStep::DevSetup(_) => ui_dev_setup(),
            SetupStep::DevCreate => ui_dev_create(),
        }
    }

    /// Judges what the step's ioctl returned: a negative value is a failure,
    /// reported with the text of the operating system's error.
    pub fn check(&self, ret: i32, os_error: &str) -> (r: Result<(), String>)
        ensures
            r is Ok <==> ret >= 0,
            r matches Err(e) ==> e@ == self@.failure(os_error@),
    {
        if ret >= 0 {
            return Ok(());
        }
        let message = match self {
            SetupStep::SetEvbit(b) => numbered_failure("UI_SET_EVBIT(", *b, os_error),
            SetupStep::SetKeybit(b) => numbered_failure("UI_SET_KEYBIT(", *b, os_error),
            SetupStep::SetAbsbit(b) => numbered_failure("UI_SET_ABSBIT(", *b, os_error),
            SetupStep::AbsSetup(a) => numbered_failure(
                "UI_ABS_SETUP(code=",
                a.code as i32,
                os_error,
            ),
            SetupStep::DevSetup(_) => {
                let mut out = String::from_str("UI_DEV_SETUP ioctl failed: ");
                out.append(os_error);
                out
            },
            SetupStep::DevCreate => {
                let mut out = String::from_str("UI_DEV_CREATE ioctl failed: ");
                out.append(os_error);
                out
            },
        };
        Err(message)
    }
}

/// The step that declares the event type `bit`.
pub fn set_evbit(bit: i32) -> (r: SetupStep)
    ensures
        r@ == SetupStepView::SetEvbit(bit as int),
{
    SetupStep::SetEvbit(bit)
}

/// The step that declares the key or button `bit`.
pub fn set_keybit(bit: i32) -> (r: SetupStep)
    ensures
        r@ == SetupStepView::SetKeybit(bit as int),
{
    SetupStep::SetKeybit(bit)
}

/// The step that declares the absolute axis `bit`.
pub fn set_absbit(bit: i32) -> (r: SetupStep)
    ensures
        r@ == SetupStepView::SetAbsbit(bit as int),
{
    SetupStep::SetAbsbit(bit)
}

/// What `abs_setup` asks of the kernel.
pub open spec fn axis_setup(code: u16, min: i32, max: i32, fuzz: i32, flat: i32) -> SetupStepView {
    SetupStepView::AbsSetup(
        UinputAbsSetup {
            code,
            info: InputAbsinfo {
                value: 0,
                minimum: min,
                maximum: max,
                fuzz,
                flat,
                resolution: 0,
            },
        },
    )
}

/// The step that sets the range of the axis `code`, which starts at 0.
pub fn abs_setup(code: u16, min: i32, max: i32, fuzz: i32, flat: i32) -> (r: SetupStep)
    ensures
        r@ == axis_setup(code, min, max, fuzz, flat),
{
    SetupStep::AbsSetup(
        UinputAbsSetup {
            code,
            info: InputAbsinfo {
                value: 0,
                minimum: min,
                maximum: max,
                fuzz,
                flat,
                resolution: 0,
            },
        },
    )
}

/// The device name in its field: its characters as bytes, then zeros.
pub open spec fn name_field() -> Seq<u8> {
    Seq::new(
        UINPUT_MAX_NAME_SIZE as nat,
        |i: int|
            if i < DEVICE_NAME@.len() {
                DEVICE_NAME@[i] as u8
            } else {
                0
            },
    )
}

/// The step that names and identifies the virtual wheel.
fn dev_setup() -> (r: SetupStep)
    ensures
        r@ == identification(),
{
    let mut name: [u8; 80] = [0u8;80];
    let text: &'static str = DEVICE_NAME;
    proof {
        reveal_strlit("SideWinder Force Feedback Wheel");
        assert(vstd::string::is_ascii(text));
        vstd::string::is_ascii_spec_bytes(text);
    }
    let bytes: &[u8] = text.as_bytes();
    let mut i: usize = 0;
    while i < bytes.len() && i < 79
        invariant
            i <= 79,
            i <= bytes@.len(),
            forall|j: int| 0 <= j < i ==> name@[j] == bytes@[j],
            forall|j: int| i <= j < 80 ==> name@[j] == 0,
        decreases 79 - i,
    {
        name[i] = bytes[i];
        i = i + 1;
    }
    assert(name@ =~= name_field());
    SetupStep::DevSetup(
        UinputSetup {
            id: InputId { bustype: BUS_USB, vendor: 0x045e, product: 0x001b, version: 1 },
            name,
            ff_effects_max: 0,
        },
    )
}

/// What names and identifies the virtual wheel: a USB device of Microsoft, the
/// SideWinder Force Feedback Wheel, without force feedback effects.
pub open spec fn identification() -> SetupStepView {
    SetupStepView::DevSetup {
        id: InputId { bustype: BUS_USB, vendor: 0x045e, product: 0x001b, version: 1 },
        name: name_field(),
        ff_effects_max: 0,
    }
}

/// The steps that register the virtual wheel: event types, buttons, axes, the
/// ranges of the axes, identification, creation.
pub open spec fn setup_plan() -> Seq<SetupStepView> {
    seq![
        SetupStepView::SetEvbit(EV_SYN as int),
        SetupStepView::SetEvbit(EV_KEY as int),
        SetupStepView::SetEvbit(EV_ABS as int),
        SetupStepView::SetKeybit(BTN_TRIGGER as int),
        SetupStepView::SetKeybit(BTN_THUMB as int),
        SetupStepView::SetKeybit(BTN_THUMB2 as int),
        SetupStepView::SetKeybit(BTN_TOP as int),
        SetupStepView::SetKeybit(BTN_TOP2 as int),
        SetupStepView::SetKeybit(BTN_PINKIE as int),
        SetupStepView::SetKeybit(BTN_BASE as int),
        SetupStepView::SetKeybit(BTN_BASE2 as int),
        SetupStepView::SetAbsbit(ABS_X as int),
        SetupStepView::SetAbsbit(ABS_Z as int),
        SetupStepView::SetAbsbit(ABS_RZ as int),
        axis_setup(ABS_X, (-32768) as i32, 32767, 128, 0),
        axis_setup(ABS_Z, 0, 255, 4, 0),
        axis_setup(ABS_RZ, 0, 255, 4, 0),
        identification(),
        SetupStepView::DevCreate,
    ]
}

/// The steps that register the virtual wheel, in the order in which they are
/// to be taken. Each must succeed (see `SetupStep::check`) before the next.
pub fn device_setup() -> (r: Vec<SetupStep>)
    ensures
        step_views(r@) == setup_plan(),
{
    let mut steps: Vec<SetupStep> = Vec::new();
    steps.push(set_evbit(EV_SYN as i32));
    steps.push(set_evbit(EV_KEY as i32));
    steps.push(set_evbit(EV_ABS as i32));
    let codes: [u16; 8] = button_codes();
    let mut i: usize = 0;
    while i < 8
        invariant
            i <= 8,
            codes@ == button_code_seq(),
            step_views(steps@) == setup_plan().take(3 + i),
        decreases 8 - i,
    {
        let ghost before = steps@;
        let step = set_keybit(codes[i] as i32);
        steps.push(step);
        proof {
            assert(step_views(steps@) =~= step_views(before).push(step@));
            assert(setup_plan()[3 + i] == SetupStepView::SetKeybit(button_code_seq()[i as int] as int));
            assert(setup_plan().take(3 + i + 1) =~= setup_plan().take(3 + i).push(
                setup_plan()[3 + i],
            ));
        }
        i = i + 1;
    }
    let ghost before = steps@;
    steps.push(set_absbit(ABS_X as i32));
    steps.push(set_absbit(ABS_Z as i32));
    steps.push(set_absbit(ABS_RZ as i32));
    steps.push(abs_setup(ABS_X, -32768, 32767, 128, 0));
    steps.push(abs_setup(ABS_Z, 0, 255, 4, 0));
    steps.push(abs_setup(ABS_RZ, 0, 255, 4, 0));
    steps.push(dev_setup());
    steps.push(SetupStep::DevCreate);
    proof {
        assert(step_views(steps@).take(11) =~= step_views(before));
        assert forall|j: int| 0 <= j < 19 implies step_views(steps@)[j] == setup_plan()[j] by {
            if j < 11 {
                assert(step_views(steps@)[j] == step_views(steps@).take(11)[j]);
                assert(setup_plan()[j] == setup_plan().take(11)[j]);
            }
        }
        assert(step_views(steps@) =~= setup_plan());
    }
    steps
}

/// The effect of one return value on a registration of which `done` steps have
/// succeeded: how many have then, and whether it failed.
pub open spec fn setup_transition(done: nat, ret: i32) -> (nat, bool) {
    if ret >= 0 {
        (done + 1, false)
    } else {
        (done, true)
    }
}

/// How far a registration has come.
struct Progress {
    done: usize,
    failed: bool,
    history: Ghost<Seq<i32>>,
}

/// The registration of the virtual wheel on an open `/dev/uinput`: the steps
/// that have succeeded, and whether one has failed, which ends it.
pub struct DeviceSetup {
    steps: Vec<SetupStep>,
    progress: Progress,
}

impl DeviceSetup {
    /// What the ioctls of the steps have returned so far.
    pub closed spec fn history(self) -> Seq<i32> {
        self.progress.history@
    }

    /// The number of steps that have succeeded.
    pub open spec fn done(self) -> nat {
        setup_after(self.history()).0
    }

    /// Whether a step has failed.
    pub open spec fn failed(self) -> bool {
        setup_after(self.history()).1
    }

    #[verifier::type_invariant]
    spec fn well_formed(self) -> bool {
        &&& step_views(self.steps@) == setup_plan()
        &&& self.progress.done <= self.steps@.len()
        &&& (self.progress.done as nat, self.progress.failed) == setup_after(
            self.progress.history@,
        )
    }

    /// Starts the registration with the descriptor that opening `/dev/uinput`
    /// gave. Without one there is no registration, and no step is taken.
    pub fn begin(fd: i32, os_error: &str) -> (r: Result<Self, String>)
        ensures
            r is Ok <==> fd >= 0,
            r matches Ok(setup) ==> setup.history() == Seq::<i32>::empty() && setup.done() == 0
                && !setup.failed(),
            r matches Err(e) ==> e@ == open_failure(os_error@),
    {
        match check_open(fd, os_error) {
            Err(e) => Err(e),
            Ok(_) => {
                let steps: Vec<SetupStep> = device_setup();
                let progress = Progress { done: 0, failed: false, history: Ghost(Seq::empty()) };
                Ok(DeviceSetup { steps, progress })
            },
        }
    }

    /// The step to take now: `None` once the device is registered, and `None`
    /// after a failure.
    pub fn step(&self) -> (r: Option<SetupStep>)
        ensures
            self.done() <= setup_plan().len(),
            r is Some <==> !self.failed() && self.done() < setup_plan().len(),
            r matches Some(step) ==> step@ == setup_plan()[self.done() as int],
    {
        proof {
            use_type_invariant(self);
            assert(step_views(self.steps@).len() == self.steps@.len());
        }
        if !self.progress.failed && self.progress.done < self.steps.len() {
            let step: SetupStep = self.steps[self.progress.done];
            assert(step_views(self.steps@)[self.progress.done as int] == step@);
            Some(step)
        } else {
            None
        }
    }

    /// Takes in what the ioctl of the current step returned: on success the
    /// next step is due, on failure the registration ends with a message.
    pub fn finish_step(&mut self, ret: i32, os_error: &str) -> (r: Result<(), String>)
        requires
            !old(self).failed(),
            old(self).done() < setup_plan().len(),
        ensures
            final(self).history() == old(self).history().push(ret),
            (final(self).done(), final(self).failed()) == setup_transition(old(self).done(), ret),
            r is Err <==> final(self).failed(),
            r matches Err(e) ==> e@ == setup_plan()[old(self).done() as int].failure(os_error@),
    {
        proof {
            use_type_invariant(&*self);
            assert(step_views(self.steps@).len() == self.steps@.len());
            assert(step_views(self.steps@)[self.progress.done as int]
                == self.steps@[self.progress.done as int]@);
            assert(self.history().push(ret).drop_last() =~= self.history());
        }
        let done: usize = self.progress.done;
        let r: Result<(), String> = self.steps[done].check(ret, os_error);
        let failed: bool = r.is_err();
        self.progress = Progress {
            done: if failed {
                done
            } else {
                done + 1
            },
            failed,
            history: Ghost(self.progress.history@.push(ret)),
        };
        r
    }
}

/// The registration after the ioctls of its steps returned `rets` in turn: the
/// number of steps that succeeded, and whether one failed, which ends it.
pub open spec fn setup_after(rets: Seq<i32>) -> (nat, bool)
    decreases rets.len(),
{
    if rets.len() == 0 {
        (0, false)
    } else {
        let (done, failed) = setup_after(rets.drop_last());
        if failed {
            (done, failed)
        } else {
            setup_transition(done, rets.last())
        }
    }
}

/// The device is created last, and only if everything before succeeded: no
/// step but the last one is a creation, and the registration reaches a step
/// exactly if no ioctl before it failed.
pub proof fn law_created_last(rets: Seq<i32>)
    ensures
        setup_plan().last() == SetupStepView::DevCreate,
        forall|i: int|
            0 <= i < setup_plan().len() - 1 ==> !(#[trigger] setup_plan()[i] is DevCreate),
        setup_after(rets) == (rets.len(), false) <==> forall|i: int|
            0 <= i < rets.len() ==> #[trigger] rets[i] >= 0,
        setup_after(rets).1 <==> exists|i: int| 0 <= i < rets.len() && #[trigger] rets[i] < 0,
    decreases rets.len(),
{
    if rets.len() > 0 {
        let before = rets.drop_last();
        law_created_last(before);
        assert(forall|i: int| 0 <= i < before.len() ==> before[i] == #[trigger] rets[i]);
        assert(rets.last() == rets[rets.len() - 1]);
        if exists|i: int| 0 <= i < before.len() && #[trigger] before[i] < 0 {
            let i = choose|i: int| 0 <= i < before.len() && #[trigger] before[i] < 0;
            assert(rets[i] < 0);
        } else {
            assert forall|i: int| 0 <= i < before.len() implies #[trigger] before[i] >= 0 by {}
        }
    }
}

/// The first failure ends the registration: whatever comes after it, the count
/// of succeeded steps stays, so no further step is due.
pub proof fn law_failure_ends(rets: Seq<i32>, k: int)
    requires
        0 <= k < rets.len(),
        rets[k] < 0,
        forall|i: int| 0 <= i < k ==> #[trigger] rets[i] >= 0,
    ensures
        setup_after(rets) == (k as nat, true),
    decreases rets.len(),
{
    let before = rets.drop_last();
    if k < before.len() {
        law_failure_ends(before, k);
    } else {
        law_created_last(before);
    }
}

/// The message when `/dev/uinput` cannot be opened.
pub open spec fn open_failure(os_error: Seq<char>) -> Seq<char> {
    "Cannot open /dev/uinput (errno "@ + os_error
        + "). Make sure your user is in the 'input' group or run with sudo. See the udev rules section in README."@
}

/// Judges the descriptor that opening `/dev/uinput` gave: a negative one is a
/// failure, reported with the text of the operating system's error.
pub fn check_open(fd: i32, os_error: &str) -> (r: Result<(), String>)
    ensures
        r is Ok <==> fd >= 0,
        r matches Err(e) ==> e@ == open_failure(os_error@),
{
    if fd >= 0 {
        return Ok(());
    }
    let mut out = String::from_str("Cannot open /dev/uinput (errno ");
    out.append(os_error);
    out.append(
        "). Make sure your user is in the 'input' group or run with sudo. See the udev rules section in README.",
    );
    Err(out)
}

/// The registered name ends in a NUL, and nothing of it is cut off.
pub proof fn law_name_terminated()
    ensures
        name_field().len() == UINPUT_MAX_NAME_SIZE,
        DEVICE_NAME@.len() < UINPUT_MAX_NAME_SIZE,
        forall|i: int| DEVICE_NAME@.len() <= i < UINPUT_MAX_NAME_SIZE ==> name_field()[i] == 0,
        forall|i: int|
            0 <= i < DEVICE_NAME@.len() ==> name_field()[i] as char == DEVICE_NAME@[i]
                && name_field()[i] != 0,
{
    reveal_strlit("SideWinder Force Feedback Wheel");
}

// ── Events ──────────────────────────────────────────────────────────────────

/// An event as it is written to the device, `struct input_event`.
#[derive(Clone, Copy, Debug, PartialEq, Eq, Structural)]
pub struct InputEvent {
    pub sec: i64,
    pub usec: i64,
    pub type_: u16,
    pub code: u16,
    pub value: i32,
}

/// The event of the given type, code and value, stamped with the time since
/// the epoch. Seconds beyond the range of `i64` wrap around.
pub fn stamped_event(secs: u64, micros: u32, type_: u16, code: u16, value: i32) -> (r: InputEvent)
    ensures
        r.sec == if secs <= i64::MAX {
            secs as int
        } else {
            secs - 0x1_0000_0000_0000_0000
        },
        r.usec == micros,
        r.type_ == type_,
        r.code == code,
        r.value == value,
{
    proof {
        assert(secs > 0x7fff_ffff_ffff_ffff ==> #[verifier::truncate] (secs as i64) == secs
            - 0x1_0000_0000_0000_0000) by (bit_vector);
    }
    InputEvent {
        sec: #[verifier::truncate] (secs as i64),
        usec: micros as i64,
        type_,
        code,
        value,
    }
}

/// Judges what writing an event returned: a negative count is a failure,
/// reported with the text of the operating system's error.
pub fn check_write(written: isize, os_error: &str) -> (r: Result<(), String>)
    ensures
        r is Ok <==> written >= 0,
        r matches Err(e) ==> e@ == "write() to uinput failed: "@ + os_error@,
{
    if written >= 0 {
        return Ok(());
    }
    let mut out = String::from_str("write() to uinput failed: ");
    out.append(os_error);
    Err(out)
}

/// What a step shows of itself is what it holds, with nothing changed.
pub proof fn law_step_view(step: SetupStep)
    ensures
        step matches SetupStep::SetEvbit(b) ==> step@ == SetupStepView::SetEvbit(b as int),
        step matches SetupStep::SetKeybit(b) ==> step@ == SetupStepView::SetKeybit(b as int),
        step matches SetupStep::SetAbsbit(b) ==> step@ == SetupStepView::SetAbsbit(b as int),
        step matches SetupStep::AbsSetup(a) ==> step@ == SetupStepView::AbsSetup(a),
        step matches SetupStep::DevSetup(d) ==> (step@ matches SetupStepView::DevSetup {
            id,
            name,
            ff_effects_max,
        } && id == d.id && name == d.name@ && ff_effects_max == d.ff_effects_max),
        step is DevCreate ==> step@ is DevCreate,
{
}

/// The contents of a list of steps are those of its steps, one by one.
pub proof fn law_step_views(steps: Seq<SetupStep>, i: int)
    requires
        0 <= i < steps.len(),
    ensures
        step_views(steps).len() == steps.len(),
        step_views(steps)[i] == steps[i]@,
{
}

/// Setting up an axis passes every number to its place.
pub proof fn law_axis_setup(code: u16, min: i32, max: i32, fuzz: i32, flat: i32)
    ensures
        axis_setup(code, min, max, fuzz, flat) matches SetupStepView::AbsSetup(a) && a.code == code
            && a.info.minimum == min && a.info.maximum == max && a.info.fuzz == fuzz && a.info.flat
            == flat && a.info.value == 0 && a.info.resolution == 0,
{
}

/// A message made of a label, a number, `") failed: "` and an error shows each.
proof fn lemma_numbered_failure(t: Seq<char>, label: Seq<char>, n: int, os_error: Seq<char>)
    requires
        t == label + text::signed_decimal(n) + ") failed: "@ + os_error,
    ensures
        shows_failure(t, label, n, os_error),
{
    reveal_strlit(") failed: ");
    let end = t.len() - os_error.len() - 10;
    text::law_number_shows(n, 0);
    assert(t.take(label.len() as int) =~= label);
    assert(t.subrange(label.len() as int, end) =~= text::signed_decimal(n));
    assert(t.subrange(end, end + 10) =~= ") failed: "@);
    assert(t.skip(end + 10) =~= os_error);
}

/// Whether `t` starts with `label`, then shows the number `n`, then says that
/// it failed, and ends in `os_error`.
pub open spec fn shows_failure(t: Seq<char>, label: Seq<char>, n: int, os_error: Seq<char>) -> bool {
    let end = t.len() - os_error.len() - 10;
    &&& label.len() <= end
    &&& t.take(label.len() as int) == label
    &&& text::shows(t.subrange(label.len() as int, end), n)
    &&& t.subrange(end, end + 10) == ") failed: "@
    &&& t.skip(end + 10) == os_error
}

/// The message about a failed step names its ioctl, shows the number it was
/// about and the error as it is.
pub proof fn law_failure_text(step: SetupStepView, os_error: Seq<char>)
    ensures
        step matches SetupStepView::SetEvbit(b) ==> shows_failure(
            step.failure(os_error),
            "UI_SET_EVBIT("@,
            b,
            os_error,
        ),
        step matches SetupStepView::SetKeybit(b) ==> shows_failure(
            step.failure(os_error),
            "UI_SET_KEYBIT("@,
            b,
            os_error,
        ),
        step matches SetupStepView::SetAbsbit(b) ==> shows_failure(
            step.failure(os_error),
            "UI_SET_ABSBIT("@,
            b,
            os_error,
        ),
        step matches SetupStepView::AbsSetup(a) ==> shows_failure(
            step.failure(os_error),
            "UI_ABS_SETUP(code="@,
            a.code as int,
            os_error,
        ),
        step is DevSetup ==> step.failure(os_error).take(27) == "UI_DEV_SETUP ioctl failed: "@
            && step.failure(os_error).skip(27) == os_error,
        step is DevCreate ==> step.failure(os_error).take(28) == "UI_DEV_CREATE ioctl failed: "@
            && step.failure(os_error).skip(28) == os_error,
{
    reveal_strlit("UI_DEV_SETUP ioctl failed: ");
    reveal_strlit("UI_DEV_CREATE ioctl failed: ");
    let t = step.failure(os_error);
    match step {
        SetupStepView::SetEvbit(b) => {
            lemma_numbered_failure(t, "UI_SET_EVBIT("@, b, os_error);
        },
        SetupStepView::SetKeybit(b) => {
            lemma_numbered_failure(t, "UI_SET_KEYBIT("@, b, os_error);
        },
        SetupStepView::SetAbsbit(b) => {
            lemma_numbered_failure(t, "UI_SET_ABSBIT("@, b, os_error);
        },
        SetupStepView::AbsSetup(a) => {
            lemma_numbered_failure(t, "UI_ABS_SETUP(code="@, a.code as int, os_error);
        },
        SetupStepView::DevSetup { .. } => {
            assert(t.take(27) =~= "UI_DEV_SETUP ioctl failed: "@);
            assert(t.skip(27) =~= os_error);
        },
        SetupStepView::DevCreate => {
            assert(t.take(28) =~= "UI_DEV_CREATE ioctl failed: "@);
            assert(t.skip(28) =~= os_error);
        },
    }
}

/// The message about `/dev/uinput` shows the error as it is.
pub proof fn law_open_failure(os_error: Seq<char>)
    ensures
        ({
            let t = open_failure(os_error);
            &&& t.take(31) == "Cannot open /dev/uinput (errno "@
            &&& t.len() >= 31 + os_error.len()
            &&& t.subrange(31, 31 + os_error.len() as int) == os_error
            &&& t.skip(31 + os_error.len() as int)
                == "). Make sure your user is in the 'input' group or run with sudo. See the udev rules section in README."@
        }),
{
    reveal_strlit("Cannot open /dev/uinput (errno ");
    let t = open_failure(os_error);
    assert(t.take(31) =~= "Cannot open /dev/uinput (errno "@);
    assert(t.subrange(31, 31 + os_error.len() as int) =~= os_error);
    assert(t.skip(31 + os_error.len() as int)
        =~= "). Make sure your user is in the 'input' group or run with sudo. See the udev rules section in README."@);
}

/// The numbers of the requests, as the kernel headers have them, by what each
/// step asks for and with no regard to its argument.
pub proof fn law_step_requests(step: SetupStepView)
    ensures
        step is SetEvbit ==> step.request() == 0x4004_5564,
        step is SetKeybit ==> step.request() == 0x4004_5565,
        step is SetAbsbit ==> step.request() == 0x4004_5567,
        step is AbsSetup ==> step.request() == 0x401c_5504,
        step is DevSetup ==> step.request() == 0x405c_5503,
        step is DevCreate ==> step.request() == 0x5501,
{
}

// ── Laws of the operations ──────────────────────────────────────────────────

/// What `iow` gives: the type and the number in the lower 16 bits, and above
/// them the size with the direction bit set, cut off at 64 bits. A size that
/// fits in its 14 bits reads back.
pub proof fn law_iow(nr: u8, size: usize, r: u64)
    requires
        call_ensures(iow, (nr, size), r),
    ensures
        r % 0x1_0000 == 0x5500 + nr,
        r >> 16 == (size as u64 & 0xffff_ffff_ffff) | 0x4000,
        size < 0x4000 ==> r / 0x1_0000 == 0x4000 + size,
{
    let wide: u64 = size as u64;
    let base: u8 = UINPUT_IOCTL_BASE;
    assert(base == 0x55);
    assert(r % 0x1_0000 == 0x5500 + nr && r >> 16 == (wide & 0xffff_ffff_ffff) | 0x4000)
        by (bit_vector)
        requires
            base == 0x55,
            r == (1u64 << 30) | (wide << 16) | ((base as u64) << 8) | (nr as u64),
    ;
    if size < 0x4000 {
        lemma_split(r as int, 0x1_0000, 0x4000 + size, 0x5500 + nr);
    }
}

/// The request numbers, as the kernel headers have them.
pub proof fn law_request_numbers(nr: u8, r: u64)
    ensures
        call_ensures(io, (nr,), r) ==> r == 0x5500 + nr,
        call_ensures(ui_set_evbit, (), r) ==> r == 0x4004_5564,
        call_ensures(ui_set_keybit, (), r) ==> r == 0x4004_5565,
        call_ensures(ui_set_absbit, (), r) ==> r == 0x4004_5567,
        call_ensures(ui_dev_create, (), r) ==> r == 0x5501,
        call_ensures(ui_dev_destroy, (), r) ==> r == 0x5502,
        call_ensures(ui_dev_setup, (), r) ==> r == 0x405c_5503,
        call_ensures(ui_abs_setup, (), r) ==> r == 0x401c_5504,
{
}

/// The step of a request carries its argument as it is, and the request number
/// of its own kind.
pub proof fn law_steps(bit: i32, step: SetupStep, r: u64)
    requires
        call_ensures(SetupStep::request, (&step,), r),
    ensures
        call_ensures(set_evbit, (bit,), step) ==> step == SetupStep::SetEvbit(bit) && r
            == 0x4004_5564,
        call_ensures(set_keybit, (bit,), step) ==> step == SetupStep::SetKeybit(bit) && r
            == 0x4004_5565,
        call_ensures(set_absbit, (bit,), step) ==> step == SetupStep::SetAbsbit(bit) && r
            == 0x4004_5567,
{
    law_step_requests(step@);
}

/// What `abs_setup` gives: every number in its place, the axis at 0.
pub proof fn law_abs_setup(code: u16, min: i32, max: i32, fuzz: i32, flat: i32, step: SetupStep)
    requires
        call_ensures(abs_setup, (code, min, max, fuzz, flat), step),
    ensures
        step matches SetupStep::AbsSetup(a) && a.code == code && a.info.minimum == min
            && a.info.maximum == max && a.info.fuzz == fuzz && a.info.flat == flat && a.info.value
            == 0 && a.info.resolution == 0,
{
    law_axis_setup(code, min, max, fuzz, flat);
}

/// What `SetupStep::check` says: a failure exactly if the return value is
/// negative, with the number that the step is about and the error as it is.
pub proof fn law_check(step: SetupStep, ret: i32, os_error: &str, r: Result<(), String>)
    requires
        call_ensures(SetupStep::check, (&step, ret, os_error), r),
    ensures
        r is Err <==> ret < 0,
        r matches Err(e) ==> match step {
            SetupStep::SetEvbit(b) => shows_failure(e@, "UI_SET_EVBIT("@, b as int, os_error@),
            SetupStep::SetKeybit(b) => shows_failure(e@, "UI_SET_KEYBIT("@, b as int, os_error@),
            SetupStep::SetAbsbit(b) => shows_failure(e@, "UI_SET_ABSBIT("@, b as int, os_error@),
            SetupStep::AbsSetup(a) => shows_failure(
                e@,
                "UI_ABS_SETUP(code="@,
                a.code as int,
                os_error@,
            ),
            SetupStep::DevSetup(_) => e@ == "UI_DEV_SETUP ioctl failed: "@ + os_error@,
            SetupStep::DevCreate => e@ == "UI_DEV_CREATE ioctl failed: "@ + os_error@,
        },
{
    law_failure_text(step@, os_error@);
}

/// What `check_open` and `check_write` say: a failure exactly if the descriptor
/// or the count is negative, with the error as it is.
pub proof fn law_check_results(fd: i32, written: isize, os_error: &str, r: Result<(), String>)
    ensures
        call_ensures(check_open, (fd, os_error), r) ==> (r is Err <==> fd < 0) && (
        r matches Err(e) ==> {
            &&& e@.take(31) == "Cannot open /dev/uinput (errno "@
            &&& e@.len() >= 31 + os_error@.len()
            &&& e@.subrange(31, 31 + os_error@.len() as int) == os_error@
            &&& e@.skip(31 + os_error@.len() as int)
                == "). Make sure your user is in the 'input' group or run with sudo. See the udev rules section in README."@
        }),
        call_ensures(check_write, (written, os_error), r) ==> (r is Err <==> written < 0) && (
        r matches Err(e) ==> e@ == "write() to uinput failed: "@ + os_error@),
{
    law_open_failure(os_error@);
}

/// What `stamped_event` gives: the event as it is, with the microseconds as they
/// are and the seconds up to multiples of 2 to the 64.
pub proof fn law_stamped_event(
    secs: u64,
    micros: u32,
    type_: u16,
    code: u16,
    value: i32,
    r: InputEvent,
)
    requires
        call_ensures(stamped_event, (secs, micros, type_, code, value), r),
    ensures
        r.sec == secs || r.sec + 0x1_0000_0000_0000_0000 == secs,
        r.usec == micros,
        r.type_ == type_,
        r.code == code,
        r.value == value,
{
}

/// A registration goes on with the next step of the plan after a success, and
/// with none after a failure or once the plan is through.
pub proof fn law_registration(
    setup: &mut DeviceSetup,
    ret: i32,
    os_error: &str,
    r: Result<(), String>,
    due: Option<SetupStep>,
    next: Option<SetupStep>,
)
    requires
        call_ensures(DeviceSetup::step, (&*old(setup),), due),
        call_ensures(DeviceSetup::finish_step, (setup, ret, os_error), r),
        call_ensures(DeviceSetup::step, (&*final(setup),), next),
        due is Some,
    ensures
        r is Err <==> ret < 0,
        r matches Err(e) ==> e@ == due->0@.failure(os_error@),
        ret < 0 ==> next is None,
        exists|i: int|
            0 <= i < 19 && #[trigger] setup_plan()[i] == due->0@ && (ret >= 0 ==> (next is Some <==> i
                < 18) && (next matches Some(step) ==> step@ == setup_plan()[i + 1])),
{
    let i = old(setup).done() as int;
    assert(setup_plan()[i] == due->0@);
}

/// A registration begins with the first step of the plan, if the device could
/// be opened.
pub proof fn law_begin(
    fd: i32,
    os_error: &str,
    r: Result<DeviceSetup, String>,
    first: Option<SetupStep>,
)
    requires
        call_ensures(DeviceSetup::begin, (fd, os_error), r),
        r matches Ok(setup) ==> call_ensures(DeviceSetup::step, (&setup,), first),
    ensures
        r is Err <==> fd < 0,
        r is Ok ==> (first matches Some(step) && step == SetupStep::SetEvbit(0)),
        r matches Err(e) ==> e@ == open_failure(os_error@),
{
}

} // verus!
