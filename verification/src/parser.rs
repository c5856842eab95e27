//! Raw HID input reports and the wheel state that they carry.
//!
//! A report of the wheel is laid out as follows:
//!
//! | bytes | meaning                                                       |
//! |-------|---------------------------------------------------------------|
//! | 0     | report ID, `0x01` for the main input report                   |
//! | 1-2   | steering, little-endian, lower 10 bits, centred at `0x200`    |
//! | 3     | throttle pedal, `0x00` released to `0xFF` floored             |
//! | 4     | brake pedal, same convention                                  |
//! | 5     | buttons, one bit each                                         |
//! | 6     | further buttons, one bit each; may be missing                 |
//! | 7     | status or padding, not read                                   |

use vstd::prelude::*;
use crate::text;

verus! {

/// Shortest report that holds every field that is always read.
pub const MIN_REPORT_LEN: usize = 6;

/// ID of the main input report.
pub const INPUT_REPORT_ID: u8 = 0x01;

/// Parsed state of the wheel at one instant.
#[derive(Clone, Copy, Debug, PartialEq, Eq, Structural)]
pub struct WheelState {
    /// Steering wheel position, normalised to -32768..32767.
    /// Negative = left, positive = right.
    pub steering: i16,
    /// Accelerator/throttle pedal, 0..255 (0 = released, 255 = floored).
    pub throttle: u8,
    /// Brake pedal, 0..255 (0 = released, 255 = fully depressed).
    pub brake: u8,
    /// The first 8 buttons, packed as a bitmask: bit 0 = button 1 (trigger).
    pub buttons: u8,
    /// Second button byte for wheels with more than 8 buttons.
    pub buttons2: u8,
}

/// Why a report carries no wheel state.
#[derive(Clone, Copy, Debug, PartialEq, Eq, Structural)]
pub enum Rejection {
    /// The report has only `len` bytes.
    TooShort { len: usize },
    /// The report starts with another ID.
    UnexpectedId { id: u8 },
}

/// The state of a wheel that nobody touches: centred, everything released.
pub open spec fn at_rest() -> WheelState {
    WheelState { steering: 0, throttle: 0, brake: 0, buttons: 0, buttons2: 0 }
}

/// Bit `i` of the byte `b`.
pub open spec fn bit(b: u8, i: int) -> bool {
    (b >> (i as u8)) & 1 == 1
}

/// The raw steering position: 10 bits, little-endian, from 0 (full left) to
/// 1023 (full right).
pub open spec fn raw_steering(lo: u8, hi: u8) -> int {
    (lo + 256 * hi) % 1024
}

/// The steering position, centred at 0 and scaled to 16 bits.
pub open spec fn steering_of(raw: int) -> int {
    (raw - 512) * 64
}

/// Why `report` carries no wheel state, if so.
pub open spec fn rejection_of(report: Seq<u8>) -> Option<Rejection> {
    if report.len() < MIN_REPORT_LEN {
        Some(Rejection::TooShort { len: report.len() as usize })
    } else if report[0] != INPUT_REPORT_ID {
        Some(Rejection::UnexpectedId { id: report[0] })
    } else {
        None
    }
}

/// The wheel state that `report` carries, if any.
pub open spec fn state_of(report: Seq<u8>) -> Option<WheelState> {
    if rejection_of(report) is Some {
        None
    } else {
        Some(
            WheelState {
                steering: steering_of(raw_steering(report[1], report[2])) as i16,
                throttle: report[3],
                brake: report[4],
                buttons: report[5],
                buttons2: if report.len() > 6 {
                    report[6]
                } else {
                    0
                },
            },
        )
    }
}

impl Rejection {
    /// The text of `message`.
    pub open spec fn text(self) -> Seq<char> {
        match self {
            Rejection::TooShort { len } => {
                "Report too short: "@ + text::decimal(len as nat)
                    + " bytes (expected ≥ 6). Check --debug output to see the real report length."@
            },
            Rejection::UnexpectedId { id } => {
                "Ignoring report with ID 0x"@ + text::fixed(id as int, 16, 2)
            },
        }
    }

    /// A message for the log.
    pub fn message(&self) -> (r: String)
        ensures
            r@ == self.text(),
    {
        match *self {
            Rejection::TooShort { len } => {
                let mut out = String::from_str("Report too short: ");
                text::push_decimal(&mut out, len as u64);
                out.append(
                    " bytes (expected ≥ 6). Check --debug output to see the real report length.",
                );
                out
            },
            Rejection::UnexpectedId { id } => {
                let mut out = String::from_str("Ignoring report with ID 0x");
                text::push_fixed(&mut out, id as u32, 16, 2);
                out
            },
        }
    }
}

/// Tells why `report` carries no wheel state: too short, or an unexpected ID.
pub fn rejection(report: &[u8]) -> (r: Option<Rejection>)
    ensures
        r == rejection_of(report@),
{
    if report.len() < MIN_REPORT_LEN {
        Some(Rejection::TooShort { len: report.len() })
    } else if report[0] != INPUT_REPORT_ID {
        Some(Rejection::UnexpectedId { id: report[0] })
    } else {
        None
    }
}

impl Default for WheelState {
    fn default() -> (r: Self)
        ensures
            r == at_rest(),
    {
        WheelState { steering: 0, throttle: 0, brake: 0, buttons: 0, buttons2: 0 }
    }
}

impl WheelState {
    /// Whether button `n` (0-indexed) is pressed: a bit of `buttons` for the
    /// first eight, of `buttons2` for the next eight, and no further ones.
    pub open spec fn pressed(self, n: int) -> bool {
        if 0 <= n < 8 {
            bit(self.buttons, n)
        } else if 8 <= n < 16 {
            bit(self.buttons2, n - 8)
        } else {
            false
        }
    }

    /// Parses a raw HID input report.
    ///
    /// Returns `None` if the report is too short or has an unexpected ID.
    pub fn parse(report: &[u8]) -> (r: Option<Self>)
        ensures
            r == state_of(report@),
    {
        if rejection(report).is_some() {
            return None;
        }
        let lo: u8 = report[1];
        let hi: u8 = report[2];
        let raw_steer: u16 = ((lo as u16) | ((hi as u16) << 8)) & 0x3FF;
        proof {
            assert(((lo as u16) | ((hi as u16) << 8)) & 0x3FF == ((lo as u16) + 256 * (hi as u16))
                % 1024) by (bit_vector);
        }
        let steering: i16 = ((raw_steer as i32 - 512) * 64) as i16;
        let buttons2: u8 = if report.len() > 6 {
            report[6]
        } else {
            0
        };
        Some(
            WheelState {
                steering,
                throttle: report[3],
                brake: report[4],
                buttons: report[5],
                buttons2,
            },
        )
    }

    /// Returns true if button `n` (0-indexed) is pressed.
    pub fn button(&self, n: u8) -> (r: bool)
        ensures
            r == self.pressed(n as int),
    {
        if n < 8 {
            (self.buttons >> n) & 1 == 1
        } else if n < 16 {
            (self.buttons2 >> (n - 8)) & 1 == 1
        } else {
            false
        }
    }
}

/// The bytes in hexadecimal, two digits each, separated by single spaces.
pub open spec fn hex_bytes(bytes: Seq<u8>) -> Seq<char>
    decreases bytes.len(),
{
    if bytes.len() == 0 {
        Seq::empty()
    } else if bytes.len() == 1 {
        text::fixed(bytes[0] as int, 16, 2)
    } else {
        hex_bytes(bytes.drop_last()) + " "@ + text::fixed(bytes.last() as int, 16, 2)
    }
}

/// The line that shows the parsed values of a report.
pub open spec fn state_line(state: WheelState) -> Seq<char> {
    "  steer="@ + text::right_aligned(text::signed_decimal(state.steering as int), 6)
        + "  throttle="@ + text::right_aligned(text::decimal(state.throttle as nat), 3)
        + "  brake="@ + text::right_aligned(text::decimal(state.brake as nat), 3)
        + "  buttons=0b"@ + text::fixed(state.buttons as int, 2, 8) + " 0b"@ + text::fixed(
        state.buttons2 as int,
        2,
        8,
    )
}

/// The lines of `dump_report`: the raw bytes, then the parsed values.
pub open spec fn dump_lines(report: Seq<u8>) -> Seq<Seq<char>> {
    seq![
        "[RAW "@ + text::right_aligned(text::decimal(report.len()), 2) + " bytes] "@ + hex_bytes(
            report,
        ),
        match state_of(report) {
            Some(state) => state_line(state),
            None => "  (could not parse this report — check byte layout assumptions)"@,
        },
    ]
}

/// Appends the bytes in hexadecimal, separated by single spaces.
fn push_hex_bytes(out: &mut String, bytes: &[u8])
    ensures
        final(out)@ == old(out)@ + hex_bytes(bytes@),
{
    let ghost start = out@;
    let mut i: usize = 0;
    while i < bytes.len()
        invariant
            i <= bytes@.len(),
            out@ == start + hex_bytes(bytes@.take(i as int)),
        decreases bytes@.len() - i,
    {
        proof {
            assert(bytes@.take(i + 1).drop_last() =~= bytes@.take(i as int));
        }
        if i > 0 {
            out.append(" ");
        }
        text::push_fixed(out, bytes[i] as u32, 16, 2);
        i = i + 1;
    }
    proof {
        assert(bytes@.take(i as int) =~= bytes@);
    }
}

/// The line that shows the parsed values of a report.
fn format_state(state: &WheelState) -> (r: String)
    ensures
        r@ == state_line(*state),
{
    let mut steering = String::new();
    text::push_signed_decimal(&mut steering, state.steering as i32);
    let mut throttle = String::new();
    text::push_decimal(&mut throttle, state.throttle as u64);
    let mut brake = String::new();
    text::push_decimal(&mut brake, state.brake as u64);
    let mut out = String::from_str("  steer=");
    text::push_right_aligned(&mut out, steering.as_str(), 6);
    out.append("  throttle=");
    text::push_right_aligned(&mut out, throttle.as_str(), 3);
    out.append("  brake=");
    text::push_right_aligned(&mut out, brake.as_str(), 3);
    out.append("  buttons=0b");
    text::push_fixed(&mut out, state.buttons as u32, 2, 8);
    out.append(" 0b");
    text::push_fixed(&mut out, state.buttons2 as u32, 2, 8);
    out
}

/// A raw report as annotated hex: one line with its bytes, one with the values
/// that were parsed from them.
pub fn dump_report(report: &[u8]) -> (r: Vec<String>)
    ensures
        text::contents(r@) == dump_lines(report@),
{
    let mut len = String::new();
    text::push_decimal(&mut len, report.len() as u64);
    let mut raw = String::from_str("[RAW ");
    text::push_right_aligned(&mut raw, len.as_str(), 2);
    raw.append(" bytes] ");
    push_hex_bytes(&mut raw, report);
    let parsed = match WheelState::parse(report) {
        Some(state) => format_state(&state),
        None => String::from_str(
            "  (could not parse this report — check byte layout assumptions)",
        ),
    };
    let mut lines: Vec<String> = Vec::new();
    lines.push(raw);
    lines.push(parsed);
    assert(text::contents(lines@) =~= dump_lines(report@));
    lines
}

/// The steering position of every parsed report is the scaled 10-bit reading:
/// it lies in -32768..32767, is negative left of the centre, positive right of
/// it, and zero at the centre.
pub proof fn law_steering(report: Seq<u8>)
    requires
        state_of(report) is Some,
    ensures
        ({
            let raw = raw_steering(report[1], report[2]);
            let steering = state_of(report)->0.steering;
            &&& 0 <= raw < 1024
            &&& steering == steering_of(raw)
            &&& -32768 <= steering <= 32704
            &&& steering < 0 <==> raw < 512
            &&& steering == 0 <==> raw == 512
            &&& steering > 0 <==> raw > 512
        }),
{
}

/// Turning the wheel further right always reads as a larger steering value.
pub proof fn law_steering_increases(left: Seq<u8>, right: Seq<u8>)
    requires
        state_of(left) is Some,
        state_of(right) is Some,
    ensures
        raw_steering(left[1], left[2]) < raw_steering(right[1], right[2])
            <==> state_of(left)->0.steering < state_of(right)->0.steering,
{
}

/// Only the first seven bytes of a report are read.
pub proof fn law_trailing_bytes(report: Seq<u8>)
    requires
        report.len() >= 7,
    ensures
        state_of(report) == state_of(report.take(7)),
{
}

/// A report without the second button byte reads as one where no further
/// button is pressed.
pub proof fn law_missing_buttons(report: Seq<u8>)
    requires
        report.len() == MIN_REPORT_LEN,
    ensures
        state_of(report) == state_of(report.push(0)),
{
}

/// The raw steering position takes only two bits of the second byte.
proof fn lemma_raw_steering(lo: u8, hi: u8)
    ensures
        raw_steering(lo, hi) == lo + 256 * (hi % 4),
{
}

/// The upper six bits of the second steering byte are not read.
pub proof fn law_steering_bits(report: Seq<u8>, hi: u8)
    requires
        state_of(report) is Some,
        hi % 4 == report[2] % 4,
    ensures
        state_of(report.update(2, hi)) == state_of(report),
{
    lemma_raw_steering(report[1], hi);
    lemma_raw_steering(report[1], report[2]);
}

/// The hex dump shows every byte: three characters per byte but for the last,
/// the two digits of byte `i` at `3 * i`.
pub proof fn law_hex_bytes(bytes: Seq<u8>, i: int)
    requires
        0 <= i < bytes.len(),
    ensures
        hex_bytes(bytes).len() == 3 * bytes.len() - 1,
        hex_bytes(bytes)[3 * i] == text::digit_char(bytes[i] as int / 16),
        hex_bytes(bytes)[3 * i + 1] == text::digit_char(bytes[i] as int % 16),
        i > 0 ==> hex_bytes(bytes)[3 * i - 1] == ' ',
    decreases bytes.len(),
{
    let n = bytes.last() as int;
    reveal_strlit(" ");
    reveal_with_fuel(text::fixed, 3);
    assert(text::fixed(n, 16, 2) =~= seq![text::digit_char(n / 16), text::digit_char(n % 16)]);
    if bytes.len() > 1 {
        if i < bytes.len() - 1 {
            law_hex_bytes(bytes.drop_last(), i);
        } else {
            law_hex_bytes(bytes.drop_last(), i - 1);
        }
    }
}

/// A report carries a state exactly if it has at least six bytes and starts
/// with a 1; a shorter one is too short whatever it holds.
pub proof fn law_which_reports_count(report: Seq<u8>)
    requires
        report.len() <= usize::MAX,
    ensures
        state_of(report) is Some <==> report.len() >= 6 && report[0] == 1,
        rejection_of(report) is None <==> state_of(report) is Some,
        report.len() < 6 <==> rejection_of(report) matches Some(Rejection::TooShort { .. }),
        rejection_of(report) matches Some(Rejection::TooShort { len }) ==> len == report.len(),
        rejection_of(report) matches Some(Rejection::UnexpectedId { id }) ==> id == report[0] && id
            != 1,
{
}

/// Each field of the state is its part of the report, over the whole range of
/// that part: the pedals and the button bytes are bytes 3 to 6 as they are, and
/// the steering is the lower ten bits of bytes 1 and 2, 64 to the notch.
pub proof fn law_fields(report: Seq<u8>)
    requires
        state_of(report) is Some,
    ensures
        ({
            let state = state_of(report)->0;
            &&& state.steering == 64 * (report[1] + 256 * (report[2] % 4)) - 32768
            &&& state.throttle == report[3]
            &&& state.brake == report[4]
            &&& state.buttons == report[5]
            &&& report.len() > 6 ==> state.buttons2 == report[6]
            &&& report.len() == 6 ==> state.buttons2 == 0
        }),
{
    lemma_raw_steering(report[1], report[2]);
}

/// The controls do not disturb each other: a report that differs in one byte
/// reads as the state that differs in that byte's field.
pub proof fn law_controls_are_independent(report: Seq<u8>, b: u8)
    requires
        state_of(report) is Some,
    ensures
        ({
            let state = state_of(report)->0;
            &&& state_of(report.update(3, b)) == Some(WheelState { throttle: b, ..state })
            &&& state_of(report.update(4, b)) == Some(WheelState { brake: b, ..state })
            &&& state_of(report.update(5, b)) == Some(WheelState { buttons: b, ..state })
            &&& report.len() > 6 ==> state_of(report.update(6, b)) == Some(
                WheelState { buttons2: b, ..state },
            )
            &&& state_of(report.update(1, b)) matches Some(turned) && turned == (WheelState {
                steering: turned.steering,
                ..state
            })
            &&& state_of(report.update(2, b)) matches Some(turned) && turned == (WheelState {
                steering: turned.steering,
                ..state
            })
        }),
{
}

/// Pressing a pedal further reads as a larger value, from 0 when released to
/// 255 when it is fully down.
pub proof fn law_pedals_increase(light: Seq<u8>, firm: Seq<u8>)
    requires
        state_of(light) is Some,
        state_of(firm) is Some,
    ensures
        light[3] < firm[3] <==> state_of(light)->0.throttle < state_of(firm)->0.throttle,
        light[4] < firm[4] <==> state_of(light)->0.brake < state_of(firm)->0.brake,
        light[3] == 0 ==> state_of(light)->0.throttle == 0,
        light[4] == 0 ==> state_of(light)->0.brake == 0,
        firm[3] == 255 ==> state_of(firm)->0.throttle == 255,
        firm[4] == 255 ==> state_of(firm)->0.brake == 255,
{
}

/// `weight` if `pressed`, else 0.
pub open spec fn weight_if(pressed: bool, weight: int) -> int {
    if pressed {
        weight
    } else {
        0
    }
}

/// A byte is the sum of its bits, the lowest one first.
proof fn lemma_bit_sum(b: u8)
    ensures
        b == (if bit(b, 0) { 1int } else { 0 }) + (if bit(b, 1) { 2int } else { 0 }) + (if bit(b, 2) {
            4int
        } else {
            0
        }) + (if bit(b, 3) { 8int } else { 0 }) + (if bit(b, 4) { 16int } else { 0 }) + (if bit(b, 5) {
            32int
        } else {
            0
        }) + (if bit(b, 6) { 64int } else { 0 }) + (if bit(b, 7) { 128int } else { 0 }),
{
    assert(b == ((b >> 0u8) & 1) + 2 * ((b >> 1u8) & 1) + 4 * ((b >> 2u8) & 1) + 8 * ((b >> 3u8)
        & 1) + 16 * ((b >> 4u8) & 1) + 32 * ((b >> 5u8) & 1) + 64 * ((b >> 6u8) & 1) + 128 * ((b
        >> 7u8) & 1)) by (bit_vector);
    assert((b >> 0u8) & 1 <= 1 && (b >> 1u8) & 1 <= 1 && (b >> 2u8) & 1 <= 1 && (b >> 3u8) & 1 <= 1
        && (b >> 4u8) & 1 <= 1 && (b >> 5u8) & 1 <= 1 && (b >> 6u8) & 1 <= 1 && (b >> 7u8) & 1
        <= 1) by (bit_vector);
}

/// The button bytes are the sums of their pressed buttons: button `n` weighs
/// 2 to the `n` in the first byte, 2 to the `n - 8` in the second. There are no
/// buttons beyond the sixteenth.
pub proof fn law_buttons_sum(w: WheelState)
    ensures
        w.buttons == weight_if(w.pressed(0), 1) + weight_if(w.pressed(1), 2) + weight_if(
            w.pressed(2),
            4,
        ) + weight_if(w.pressed(3), 8) + weight_if(w.pressed(4), 16) + weight_if(w.pressed(5), 32)
            + weight_if(w.pressed(6), 64) + weight_if(w.pressed(7), 128),
        w.buttons2 == weight_if(w.pressed(8), 1) + weight_if(w.pressed(9), 2) + weight_if(
            w.pressed(10),
            4,
        ) + weight_if(w.pressed(11), 8) + weight_if(w.pressed(12), 16) + weight_if(
            w.pressed(13),
            32,
        ) + weight_if(w.pressed(14), 64) + weight_if(w.pressed(15), 128),
        forall|n: int| n < 0 || n >= 16 ==> !#[trigger] w.pressed(n),
{
    lemma_bit_sum(w.buttons);
    lemma_bit_sum(w.buttons2);
}

/// Whether a button is pressed depends on the button bytes alone, on the first
/// one for the first eight buttons and on the second one for the next eight.
pub proof fn law_buttons_by_byte(a: WheelState, b: WheelState, n: int)
    ensures
        a.buttons == b.buttons && 0 <= n < 8 ==> a.pressed(n) == b.pressed(n),
        a.buttons2 == b.buttons2 && 8 <= n < 16 ==> a.pressed(n) == b.pressed(n),
{
}

/// The message about a short report shows its length, and the one about
/// another ID shows that ID in two hexadecimal digits.
pub proof fn law_rejection_text(r: Rejection)
    ensures
        r matches Rejection::TooShort { len } ==> {
            let tail = " bytes (expected ≥ 6). Check --debug output to see the real report length."@;
            let t = r.text();
            let end = t.len() - tail.len();
            &&& 18 < end
            &&& t.take(18) == "Report too short: "@
            &&& text::shows(t.subrange(18, end), len as int)
            &&& t.skip(end) == tail
        },
        r matches Rejection::UnexpectedId { id } ==> {
            let t = r.text();
            &&& t.len() == 28
            &&& t.take(26) == "Ignoring report with ID 0x"@
            &&& text::shows_digits(t.skip(26), 16, id as int)
        },
{
    reveal_strlit("Report too short: ");
    reveal_strlit("Ignoring report with ID 0x");
    let t = r.text();
    match r {
        Rejection::TooShort { len } => {
            let tail = " bytes (expected ≥ 6). Check --debug output to see the real report length."@;
            let end = t.len() - tail.len();
            text::law_number_shows(len as int, 0);
            text::law_decimal_reads_back(len as nat);
            assert(t.take(18) =~= "Report too short: "@);
            assert(t.subrange(18, end) =~= text::decimal(len as nat));
            assert(t.skip(end) =~= tail);
        },
        Rejection::UnexpectedId { id } => {
            text::law_fixed_widths(id, 0);
            assert(t.take(26) =~= "Ignoring report with ID 0x"@);
            assert(t.skip(26) =~= text::fixed(id as int, 16, 2));
        },
    }
}

/// The line with the parsed values has fixed columns, from which every field
/// of the state reads back.
pub proof fn law_state_line(state: WheelState)
    ensures
        ({
            let t = state_line(state);
            &&& t.len() == 70
            &&& t.subrange(0, 8) == "  steer="@
            &&& text::shows(text::without_spaces(t.subrange(8, 14)), state.steering as int)
            &&& t.subrange(14, 25) == "  throttle="@
            &&& text::shows(text::without_spaces(t.subrange(25, 28)), state.throttle as int)
            &&& t.subrange(28, 36) == "  brake="@
            &&& text::shows(text::without_spaces(t.subrange(36, 39)), state.brake as int)
            &&& t.subrange(39, 51) == "  buttons=0b"@
            &&& text::shows_digits(t.subrange(51, 59), 2, state.buttons as int)
            &&& t.subrange(59, 62) == " 0b"@
            &&& text::shows_digits(t.subrange(62, 70), 2, state.buttons2 as int)
        }),
{
    reveal_strlit("  steer=");
    reveal_strlit("  throttle=");
    reveal_strlit("  brake=");
    reveal_strlit("  buttons=0b");
    reveal_strlit(" 0b");
    text::law_columns(state.throttle, state.steering);
    text::law_columns(state.brake, state.steering);
    text::law_number_shows(state.steering as int, 6);
    text::law_number_shows(state.throttle as int, 3);
    text::law_number_shows(state.brake as int, 3);
    text::law_fixed_widths(state.buttons, 0);
    text::law_fixed_widths(state.buttons2, 0);
    let t = state_line(state);
    assert(t.subrange(0, 8) =~= "  steer="@);
    assert(t.subrange(8, 14) =~= text::right_aligned(
        text::signed_decimal(state.steering as int),
        6,
    ));
    assert(t.subrange(14, 25) =~= "  throttle="@);
    assert(t.subrange(25, 28) =~= text::right_aligned(text::decimal(state.throttle as nat), 3));
    assert(t.subrange(28, 36) =~= "  brake="@);
    assert(t.subrange(36, 39) =~= text::right_aligned(text::decimal(state.brake as nat), 3));
    assert(t.subrange(39, 51) =~= "  buttons=0b"@);
    assert(t.subrange(51, 59) =~= text::fixed(state.buttons as int, 2, 8));
    assert(t.subrange(59, 62) =~= " 0b"@);
    assert(t.subrange(62, 70) =~= text::fixed(state.buttons2 as int, 2, 8));
}

/// The bytes in hexadecimal can be read back one by one: those of byte `i`
/// stand at `3 * i`, after a space.
pub proof fn law_hex_bytes_read_back(bytes: Seq<u8>, i: int)
    requires
        0 <= i < bytes.len(),
    ensures
        hex_bytes(bytes).len() == 3 * bytes.len() - 1,
        text::shows_digits(hex_bytes(bytes).subrange(3 * i, 3 * i + 2), 16, bytes[i] as int),
        i > 0 ==> hex_bytes(bytes)[3 * i - 1] == ' ',
{
    law_hex_bytes(bytes, i);
    let pair = hex_bytes(bytes).subrange(3 * i, 3 * i + 2);
    text::law_digit(bytes[i] as int / 16);
    text::law_digit(bytes[i] as int % 16);
    reveal_with_fuel(text::digits_number, 3);
    assert(pair.drop_last().drop_last() =~= Seq::empty());
    assert(pair.last() == text::digit_char(bytes[i] as int % 16));
    assert(pair.drop_last().last() == text::digit_char(bytes[i] as int / 16));
}

/// A dump has two lines. The first shows the number of bytes, in two columns or
/// more, and then the bytes; the second shows the parsed state, or that there
/// is none.
pub proof fn law_dump(report: Seq<u8>)
    ensures
        ({
            let lines = dump_lines(report);
            let hex = hex_bytes(report);
            let raw = lines[0];
            let end = raw.len() - hex.len();
            &&& lines.len() == 2
            &&& end >= 15
            &&& report.len() < 100 ==> end == 15
            &&& report.len() >= 10 ==> raw[5] != ' '
            &&& report.len() == 0 ==> hex.len() == 0
            &&& raw.take(5) == "[RAW "@
            &&& text::shows(text::without_spaces(raw.subrange(5, end - 8)), report.len() as int)
            &&& raw.subrange(end - 8, end) == " bytes] "@
            &&& raw.skip(end) == hex
            &&& state_of(report) matches Some(state) ==> lines[1] == state_line(state)
            &&& state_of(report) is None ==> lines[1]
                == "  (could not parse this report — check byte layout assumptions)"@
        }),
{
    reveal_strlit("[RAW ");
    reveal_strlit(" bytes] ");
    let raw = dump_lines(report)[0];
    let hex = hex_bytes(report);
    let end = raw.len() - hex.len();
    let count = text::right_aligned(text::decimal(report.len()), 2);
    text::law_right_aligned(text::decimal(report.len()), 2);
    text::law_number_shows(report.len() as int, 2);
    text::lemma_decimal_len(report.len());
    text::law_decimal_reads_back(report.len());
    assert(raw.subrange(5, end - 8)[0] == raw[5]);
    assert(raw.take(5) =~= "[RAW "@);
    assert(raw.subrange(5, end - 8) =~= count);
    assert(raw.subrange(end - 8, end) =~= " bytes] "@);
    assert(raw.skip(end) =~= hex);
}

// ── Laws of the operations ──────────────────────────────────────────────────

/// What `WheelState::parse` makes of a report: a state exactly if it has at
/// least six bytes and starts with a 1, and in it each control as its bytes
/// have it.
pub proof fn law_parse(report: &[u8], r: Option<WheelState>)
    requires
        call_ensures(WheelState::parse, (report,), r),
    ensures
        r is Some <==> report@.len() >= 6 && report@[0] == 1,
        r matches Some(state) ==> {
            &&& state.steering == 64 * (report@[1] + 256 * (report@[2] % 4)) - 32768
            &&& state.throttle == report@[3]
            &&& state.brake == report@[4]
            &&& state.buttons == report@[5]
            &&& report@.len() > 6 ==> state.buttons2 == report@[6]
            &&& report@.len() == 6 ==> state.buttons2 == 0
        },
{
    if r is Some {
        law_fields(report@);
    }
}

/// What `WheelState::button` says of the buttons of a state adds up to its two
/// button bytes, from the lowest bit to the highest, and of any further button
/// it says that it is released.
pub proof fn law_button(w: WheelState, r: spec_fn(u8) -> bool)
    requires
        forall|n: u8| call_ensures(WheelState::button, (&w, n), #[trigger] r(n)),
    ensures
        w.buttons == weight_if(r(0), 1) + weight_if(r(1), 2) + weight_if(r(2), 4) + weight_if(
            r(3),
            8,
        ) + weight_if(r(4), 16) + weight_if(r(5), 32) + weight_if(r(6), 64) + weight_if(r(7), 128),
        w.buttons2 == weight_if(r(8), 1) + weight_if(r(9), 2) + weight_if(r(10), 4) + weight_if(
            r(11),
            8,
        ) + weight_if(r(12), 16) + weight_if(r(13), 32) + weight_if(r(14), 64) + weight_if(
            r(15),
            128,
        ),
        forall|n: u8| n >= 16 ==> !#[trigger] r(n),
{
    law_buttons_sum(w);
}

/// What `rejection` says of a report: nothing if it carries a state, else its
/// length if that is too short, and otherwise its ID.
pub proof fn law_rejection(report: &[u8], r: Option<Rejection>)
    requires
        call_ensures(rejection, (report,), r),
    ensures
        r is None <==> report@.len() >= 6 && report@[0] == 1,
        report@.len() < 6 ==> (r matches Some(Rejection::TooShort { len }) && len == report@.len()),
        report@.len() >= 6 && report@[0] != 1 ==> (r matches Some(Rejection::UnexpectedId { id })
            && id == report@[0]),
{
    assert(report.len() == report@.len());
}

/// What `Rejection::message` says: the length in decimal, or the ID in two
/// hexadecimal digits.
pub proof fn law_message(rejection: Rejection, r: String)
    requires
        call_ensures(Rejection::message, (&rejection,), r),
    ensures
        rejection matches Rejection::TooShort { len } ==> {
            let tail = " bytes (expected ≥ 6). Check --debug output to see the real report length."@;
            let end = r@.len() - tail.len();
            &&& 18 < end
            &&& r@.take(18) == "Report too short: "@
            &&& text::shows(r@.subrange(18, end), len as int)
            &&& r@.skip(end) == tail
        },
        rejection matches Rejection::UnexpectedId { id } ==> {
            &&& r@.len() == 28
            &&& r@.take(26) == "Ignoring report with ID 0x"@
            &&& text::shows_digits(r@.skip(26), 16, id as int)
        },
{
    law_rejection_text(rejection);
}

/// What `dump_report` shows: byte `i` of the report in two hexadecimal digits,
/// 3 columns after the one before it; in the second line the state that
/// `WheelState::parse` finds, or that there is none.
pub proof fn law_dump_report(report: &[u8], r: Vec<String>, state: Option<WheelState>, i: int)
    requires
        call_ensures(dump_report, (report,), r),
        call_ensures(WheelState::parse, (report,), state),
        0 <= i < report@.len(),
    ensures
        ({
            let raw = r@[0]@;
            let start = raw.len() - (3 * report@.len() - 1);
            &&& r@.len() == 2
            &&& start >= 15
            &&& report@.len() < 100 ==> start == 15
            &&& raw.take(5) == "[RAW "@
            &&& text::shows(text::without_spaces(raw.subrange(5, start - 8)), report@.len() as int)
            &&& raw.subrange(start - 8, start) == " bytes] "@
            &&& text::shows_digits(
                raw.subrange(start + 3 * i, start + 3 * i + 2),
                16,
                report@[i] as int,
            )
            &&& i > 0 ==> raw[start + 3 * i - 1] == ' '
            &&& state matches Some(w) ==> r@[1]@ == state_line(w)
            &&& state is None ==> r@[1]@
                == "  (could not parse this report — check byte layout assumptions)"@
        }),
{
    let hex = hex_bytes(report@);
    law_dump(report@);
    law_hex_bytes_read_back(report@, i);
    assert(text::contents(r@).len() == r@.len());
    assert(text::contents(r@)[0] == r@[0]@);
    assert(text::contents(r@)[1] == r@[1]@);
    let raw = r@[0]@;
    let start = raw.len() - hex.len();
    assert(raw.subrange(start + 3 * i, start + 3 * i + 2) =~= hex.subrange(3 * i, 3 * i + 2));
    assert(raw.skip(start) == hex);
    if i > 0 {
        assert(raw.skip(start)[3 * i - 1] == raw[start + 3 * i - 1]);
    }
}

} // verus!
