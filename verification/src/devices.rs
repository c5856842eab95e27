//! The listing of HID devices, and the message when the wheel cannot be opened.

use vstd::prelude::*;
use crate::text;

verus! {

/// What is known of a HID device.
#[derive(Debug, PartialEq, Eq)]
pub struct DeviceEntry {
    pub vendor_id: u16,
    pub product_id: u16,
    pub usage_page: u16,
    pub usage: u16,
    pub manufacturer: Option<String>,
    pub product: Option<String>,
    pub serial: Option<String>,
    pub path: String,
}

/// `s`, or `(none)` where it is missing.
pub open spec fn or_none(s: Option<String>) -> Seq<char> {
    match s {
        Some(text) => text@,
        None => "(none)"@,
    }
}

/// The head of the listing.
pub open spec fn header_lines() -> Seq<Seq<char>> {
    seq![
        "┌─────────────────────────────────────────────────────────────────┐"@,
        "│  HID device list                                                │"@,
        "└─────────────────────────────────────────────────────────────────┘"@,
    ]
}

/// The lines of one device, with an empty one after them.
pub open spec fn entry_lines(d: DeviceEntry) -> Seq<Seq<char>> {
    seq![
        "  VID=0x"@ + text::fixed(d.vendor_id as int, 16, 4) + "  PID=0x"@ + text::fixed(
            d.product_id as int,
            16,
            4,
        ) + "  usage_page=0x"@ + text::fixed(d.usage_page as int, 16, 4) + "  usage=0x"@
            + text::fixed(d.usage as int, 16, 4),
        "    manufacturer : "@ + or_none(d.manufacturer),
        "    product      : "@ + or_none(d.product),
        "    serial       : "@ + or_none(d.serial),
        "    path         : "@ + d.path@,
        Seq::empty(),
    ]
}

/// The lines of all devices, one after the other.
pub open spec fn entries_lines(devices: Seq<DeviceEntry>) -> Seq<Seq<char>>
    decreases devices.len(),
{
    if devices.len() == 0 {
        Seq::empty()
    } else {
        entries_lines(devices.drop_last()) + entry_lines(devices.last())
    }
}

/// The listing: its head, then the devices, or a note that there are none.
pub open spec fn listing(devices: Seq<DeviceEntry>) -> Seq<Seq<char>> {
    header_lines() + if devices.len() == 0 {
        seq!["  (no HID devices found — check permissions or udev rules)"@]
    } else {
        entries_lines(devices)
    }
}

/// Appends four hexadecimal digits after a label.
fn push_id(out: &mut String, label: &str, id: u16)
    ensures
        final(out)@ == old(out)@ + label@ + text::fixed(id as int, 16, 4),
{
    out.append(label);
    text::push_fixed(out, id as u32, 16, 4);
}

/// `label`, then `value` or `(none)`.
fn labelled(label: &str, value: &Option<String>) -> (r: String)
    ensures
        r@ == label@ + or_none(*value),
{
    let mut out = String::from_str(label);
    match value {
        Some(text) => out.append(text.as_str()),
        None => out.append("(none)"),
    }
    out
}

/// Appends the lines of one device.
fn push_entry(lines: &mut Vec<String>, d: &DeviceEntry)
    ensures
        text::contents(final(lines)@) == text::contents(old(lines)@) + entry_lines(*d),
{
    let ghost before = text::contents(lines@);
    let mut ids = String::new();
    push_id(&mut ids, "  VID=0x", d.vendor_id);
    push_id(&mut ids, "  PID=0x", d.product_id);
    push_id(&mut ids, "  usage_page=0x", d.usage_page);
    push_id(&mut ids, "  usage=0x", d.usage);
    let mut path = String::from_str("    path         : ");
    path.append(d.path.as_str());
    assert(ids@ =~= entry_lines(*d)[0]);
    lines.push(ids);
    lines.push(labelled("    manufacturer : ", &d.manufacturer));
    lines.push(labelled("    product      : ", &d.product));
    lines.push(labelled("    serial       : ", &d.serial));
    lines.push(path);
    lines.push(String::new());
    assert(text::contents(lines@) =~= before + entry_lines(*d));
}

/// The lines that list the given HID devices.
pub fn list_devices(devices: &[DeviceEntry]) -> (r: Vec<String>)
    ensures
        text::contents(r@) == listing(devices@),
{
    let mut lines: Vec<String> = Vec::new();
    lines.push(
        String::from_str("┌─────────────────────────────────────────────────────────────────┐"),
    );
    lines.push(
        String::from_str("│  HID device list                                                │"),
    );
    lines.push(
        String::from_str("└─────────────────────────────────────────────────────────────────┘"),
    );
    assert(text::contents(lines@) =~= header_lines());
    let mut count: usize = 0;
    while count < devices.len()
        invariant
            count <= devices@.len(),
            text::contents(lines@) == header_lines() + entries_lines(devices@.take(count as int)),
        decreases devices@.len() - count,
    {
        proof {
            assert(devices@.take(count + 1).drop_last() =~= devices@.take(count as int));
        }
        push_entry(&mut lines, &devices[count]);
        count = count + 1;
        assert(text::contents(lines@) =~= header_lines() + entries_lines(
            devices@.take(count as int),
        ));
    }
    assert(devices@.take(count as int) =~= devices@);
    if count == 0 {
        lines.push(String::from_str("  (no HID devices found — check permissions or udev rules)"));
    }
    assert(text::contents(lines@) =~= listing(devices@));
    lines
}

/// The message when the wheel cannot be opened, with its usual causes.
pub open spec fn open_failure(vid: u16, pid: u16, error: Seq<char>) -> Seq<char> {
    "Could not open HID device VID=0x"@ + text::fixed(vid as int, 16, 4) + " PID=0x"@ + text::fixed(
        pid as int,
        16,
        4,
    ) + ": "@ + error + troubleshooting()
}

/// What to try when the wheel cannot be opened.
pub open spec fn troubleshooting() -> Seq<char> {
    "\n\nTroubleshooting:\n• Run `sidewinder-wheel --list` to enumerate devices.\n• Verify VID/PID with `lsusb | grep -i sidewinder`.\n• Check permissions: `ls -l /dev/hidraw*`\n• Add udev rules (see README) or run with: sudo sidewinder-wheel\n• The wheel may need a different PID — use --pid 0xXXXX to override."@
}

/// The message when the HID device `vid`, `pid` cannot be opened.
pub fn open_failure_message(vid: u16, pid: u16, error: &str) -> (r: String)
    ensures
        r@ == open_failure(vid, pid, error@),
{
    let mut out = String::new();
    push_id(&mut out, "Could not open HID device VID=0x", vid);
    push_id(&mut out, " PID=0x", pid);
    out.append(": ");
    out.append(error);
    out.append(
        "\n\nTroubleshooting:\n• Run `sidewinder-wheel --list` to enumerate devices.\n• Verify VID/PID with `lsusb | grep -i sidewinder`.\n• Check permissions: `ls -l /dev/hidraw*`\n• Add udev rules (see README) or run with: sudo sidewinder-wheel\n• The wheel may need a different PID — use --pid 0xXXXX to override.",
    );
    assert(out@ =~= open_failure(vid, pid, error@));
    out
}

/// Every device is listed, in order: six lines each, after the three lines of
/// the head.
pub proof fn law_all_devices_listed(devices: Seq<DeviceEntry>, i: int)
    requires
        0 <= i < devices.len(),
    ensures
        listing(devices).len() == 3 + 6 * devices.len(),
        listing(devices).subrange(3 + 6 * i, 9 + 6 * i) == entry_lines(devices[i]),
{
    lemma_entries_lines(devices, i);
    assert(listing(devices).subrange(3 + 6 * i, 9 + 6 * i) =~= entries_lines(devices).subrange(
        6 * i,
        6 * i + 6,
    ));
}

/// Where the lines of device `i` stand among those of all devices.
proof fn lemma_entries_lines(devices: Seq<DeviceEntry>, i: int)
    requires
        0 <= i < devices.len(),
    ensures
        entries_lines(devices).len() == 6 * devices.len(),
        entries_lines(devices).subrange(6 * i, 6 * i + 6) == entry_lines(devices[i]),
    decreases devices.len(),
{
    let before = devices.drop_last();
    reveal_with_fuel(entries_lines, 2);
    if before.len() > 0 {
        if i < before.len() {
            lemma_entries_lines(before, i);
        } else {
            lemma_entries_lines(before, i - 1);
        }
    }
    if i < before.len() {
        assert(entries_lines(devices).subrange(6 * i, 6 * i + 6) =~= entries_lines(
            before,
        ).subrange(6 * i, 6 * i + 6));
    } else {
        assert(entries_lines(devices).subrange(6 * i, 6 * i + 6) =~= entry_lines(devices.last()));
    }
}

/// The first line of a device's entry shows its four IDs in fixed columns, from
/// which each reads back; so devices that differ in any of them have different
/// lines.
pub proof fn law_entry_ids(d: DeviceEntry)
    ensures
        ({
            let t = entry_lines(d)[0];
            &&& t.len() == 57
            &&& t.subrange(0, 8) == "  VID=0x"@
            &&& text::shows_digits(t.subrange(8, 12), 16, d.vendor_id as int)
            &&& t.subrange(12, 20) == "  PID=0x"@
            &&& text::shows_digits(t.subrange(20, 24), 16, d.product_id as int)
            &&& t.subrange(24, 39) == "  usage_page=0x"@
            &&& text::shows_digits(t.subrange(39, 43), 16, d.usage_page as int)
            &&& t.subrange(43, 53) == "  usage=0x"@
            &&& text::shows_digits(t.subrange(53, 57), 16, d.usage as int)
        }),
{
    reveal_strlit("  VID=0x");
    reveal_strlit("  PID=0x");
    reveal_strlit("  usage_page=0x");
    reveal_strlit("  usage=0x");
    text::law_fixed_widths(0, d.vendor_id);
    text::law_fixed_widths(0, d.product_id);
    text::law_fixed_widths(0, d.usage_page);
    text::law_fixed_widths(0, d.usage);
    let t = entry_lines(d)[0];
    assert(t.subrange(0, 8) =~= "  VID=0x"@);
    assert(t.subrange(8, 12) =~= text::fixed(d.vendor_id as int, 16, 4));
    assert(t.subrange(12, 20) =~= "  PID=0x"@);
    assert(t.subrange(20, 24) =~= text::fixed(d.product_id as int, 16, 4));
    assert(t.subrange(24, 39) =~= "  usage_page=0x"@);
    assert(t.subrange(39, 43) =~= text::fixed(d.usage_page as int, 16, 4));
    assert(t.subrange(43, 53) =~= "  usage=0x"@);
    assert(t.subrange(53, 57) =~= text::fixed(d.usage as int, 16, 4));
}

/// The IDs of a listed device, as they stand in its first line, are read from
/// the command line as the IDs of that device.
pub proof fn law_listed_ids_can_be_given(d: DeviceEntry)
    ensures
        crate::cli::hex_u16(entry_lines(d)[0].subrange(6, 12)) == Ok::<int, crate::cli::HexError>(
            d.vendor_id as int,
        ),
        crate::cli::hex_u16(entry_lines(d)[0].subrange(18, 24)) == Ok::<int, crate::cli::HexError>(
            d.product_id as int,
        ),
{
    reveal_strlit("  VID=0x");
    reveal_strlit("  PID=0x");
    reveal_strlit("0x");
    text::law_fixed_widths(0, d.vendor_id);
    text::law_fixed_widths(0, d.product_id);
    crate::cli::law_listed_id_reads_back(d.vendor_id);
    crate::cli::law_listed_id_reads_back(d.product_id);
    let t = entry_lines(d)[0];
    assert(t.subrange(6, 12) =~= "0x"@ + text::fixed(d.vendor_id as int, 16, 4));
    assert(t.subrange(18, 24) =~= "0x"@ + text::fixed(d.product_id as int, 16, 4));
}

/// The other lines of an entry show the device's texts as they are after a
/// label of 19 characters, or `(none)` where there is none; an empty line ends
/// the entry.
pub proof fn law_entry_texts(d: DeviceEntry)
    ensures
        ({
            let lines = entry_lines(d);
            &&& lines.len() == 6
            &&& lines[1].take(19) == "    manufacturer : "@
            &&& lines[2].take(19) == "    product      : "@
            &&& lines[3].take(19) == "    serial       : "@
            &&& lines[4].take(19) == "    path         : "@
            &&& d.manufacturer matches Some(text) ==> lines[1].skip(19) == text@
            &&& d.product matches Some(text) ==> lines[2].skip(19) == text@
            &&& d.serial matches Some(text) ==> lines[3].skip(19) == text@
            &&& d.manufacturer is None ==> lines[1].skip(19) == "(none)"@
            &&& d.product is None ==> lines[2].skip(19) == "(none)"@
            &&& d.serial is None ==> lines[3].skip(19) == "(none)"@
            &&& lines[4].skip(19) == d.path@
            &&& lines[5].len() == 0
        }),
{
    reveal_strlit("    manufacturer : ");
    reveal_strlit("    product      : ");
    reveal_strlit("    serial       : ");
    reveal_strlit("    path         : ");
    let lines = entry_lines(d);
    assert(lines[1].take(19) =~= "    manufacturer : "@);
    assert(lines[2].take(19) =~= "    product      : "@);
    assert(lines[3].take(19) =~= "    serial       : "@);
    assert(lines[4].take(19) =~= "    path         : "@);
    assert(lines[1].skip(19) =~= or_none(d.manufacturer));
    assert(lines[2].skip(19) =~= or_none(d.product));
    assert(lines[3].skip(19) =~= or_none(d.serial));
    assert(lines[4].skip(19) =~= d.path@);
}

/// The listing starts with the same three lines whatever is listed. With no
/// device, a single note follows.
pub proof fn law_listing_head(devices: Seq<DeviceEntry>)
    ensures
        listing(devices).len() >= 4,
        listing(devices)[0]
            == "┌─────────────────────────────────────────────────────────────────┐"@,
        listing(devices)[1]
            == "│  HID device list                                                │"@,
        listing(devices)[2]
            == "└─────────────────────────────────────────────────────────────────┘"@,
        devices.len() == 0 ==> listing(devices).len() == 4 && listing(devices)[3]
            == "  (no HID devices found — check permissions or udev rules)"@,
{
    if devices.len() > 0 {
        law_all_devices_listed(devices, 0);
    }
}

/// The message about a failed open shows the IDs that were asked for and the
/// error as it is, and then what to try.
pub proof fn law_open_failure(vid: u16, pid: u16, error: Seq<char>)
    ensures
        ({
            let t = open_failure(vid, pid, error);
            &&& t.len() == 49 + error.len() + troubleshooting().len()
            &&& t.subrange(0, 32) == "Could not open HID device VID=0x"@
            &&& text::shows_digits(t.subrange(32, 36), 16, vid as int)
            &&& t.subrange(36, 43) == " PID=0x"@
            &&& text::shows_digits(t.subrange(43, 47), 16, pid as int)
            &&& t.subrange(47, 49) == ": "@
            &&& t.subrange(49, 49 + error.len() as int) == error
            &&& t.skip(49 + error.len() as int) == troubleshooting()
        }),
{
    reveal_strlit("Could not open HID device VID=0x");
    reveal_strlit(" PID=0x");
    reveal_strlit(": ");
    text::law_fixed_widths(0, vid);
    text::law_fixed_widths(0, pid);
    let t = open_failure(vid, pid, error);
    assert(t.subrange(0, 32) =~= "Could not open HID device VID=0x"@);
    assert(t.subrange(32, 36) =~= text::fixed(vid as int, 16, 4));
    assert(t.subrange(36, 43) =~= " PID=0x"@);
    assert(t.subrange(43, 47) =~= text::fixed(pid as int, 16, 4));
    assert(t.subrange(47, 49) =~= ": "@);
    assert(t.subrange(49, 49 + error.len() as int) =~= error);
    assert(t.skip(49 + error.len() as int) =~= troubleshooting());
}

/// What `list_devices` shows of device `i`: its four IDs in the first of its six
/// lines, each in four hexadecimal digits, and its texts as they are in the
/// next four.
pub proof fn law_list_devices(devices: &[DeviceEntry], r: Vec<String>, i: int)
    requires
        call_ensures(list_devices, (devices,), r),
        0 <= i < devices@.len(),
    ensures
        ({
            let d = devices@[i];
            let first = 3 + 6 * i;
            let ids = r@[first]@;
            &&& r@.len() == 3 + 6 * devices@.len()
            &&& ids.len() == 57
            &&& ids.subrange(0, 8) == "  VID=0x"@
            &&& text::shows_digits(ids.subrange(8, 12), 16, d.vendor_id as int)
            &&& ids.subrange(12, 20) == "  PID=0x"@
            &&& text::shows_digits(ids.subrange(20, 24), 16, d.product_id as int)
            &&& ids.subrange(24, 39) == "  usage_page=0x"@
            &&& text::shows_digits(ids.subrange(39, 43), 16, d.usage_page as int)
            &&& ids.subrange(43, 53) == "  usage=0x"@
            &&& text::shows_digits(ids.subrange(53, 57), 16, d.usage as int)
            &&& r@[first + 1]@.take(19) == "    manufacturer : "@
            &&& r@[first + 2]@.take(19) == "    product      : "@
            &&& r@[first + 3]@.take(19) == "    serial       : "@
            &&& r@[first + 4]@.take(19) == "    path         : "@
            &&& d.manufacturer matches Some(text) ==> r@[first + 1]@.skip(19) == text@
            &&& d.product matches Some(text) ==> r@[first + 2]@.skip(19) == text@
            &&& d.serial matches Some(text) ==> r@[first + 3]@.skip(19) == text@
            &&& d.manufacturer is None ==> r@[first + 1]@.skip(19) == "(none)"@
            &&& d.product is None ==> r@[first + 2]@.skip(19) == "(none)"@
            &&& d.serial is None ==> r@[first + 3]@.skip(19) == "(none)"@
            &&& r@[first + 4]@.skip(19) == d.path@
            &&& r@[first + 5]@.len() == 0
        }),
{
    let d = devices@[i];
    let lines = listing(devices@);
    law_all_devices_listed(devices@, i);
    law_entry_ids(d);
    law_entry_texts(d);
    let own = lines.subrange(3 + 6 * i, 9 + 6 * i);
    assert(text::contents(r@).len() == r@.len());
    assert forall|k: int| 0 <= k < 6 implies #[trigger] own[k] == r@[3 + 6 * i + k]@ by {
        assert(text::contents(r@)[3 + 6 * i + k] == r@[3 + 6 * i + k]@);
    }
    assert(own[0] == entry_lines(d)[0] && own[1] == entry_lines(d)[1] && own[2] == entry_lines(d)[2]
        && own[3] == entry_lines(d)[3] && own[4] == entry_lines(d)[4] && own[5] == entry_lines(
        d,
    )[5]);
}

/// What `list_devices` shows before the devices, and where there are none.
pub proof fn law_list_head(devices: &[DeviceEntry], r: Vec<String>)
    requires
        call_ensures(list_devices, (devices,), r),
    ensures
        r@.len() >= 4,
        r@[0]@ == "┌─────────────────────────────────────────────────────────────────┐"@,
        r@[1]@ == "│  HID device list                                                │"@,
        r@[2]@ == "└─────────────────────────────────────────────────────────────────┘"@,
        devices@.len() == 0 ==> r@.len() == 4 && r@[3]@
            == "  (no HID devices found — check permissions or udev rules)"@,
{
    law_listing_head(devices@);
    assert(text::contents(r@).len() == r@.len());
    assert forall|k: int| 0 <= k < 4 implies #[trigger] r@[k]@ == listing(devices@)[k] by {
        assert(text::contents(r@)[k] == r@[k]@);
    }
}

/// What `open_failure_message` shows: both IDs in four hexadecimal digits, the
/// error as it is, and what to try.
pub proof fn law_open_failure_message(vid: u16, pid: u16, error: &str, r: String)
    requires
        call_ensures(open_failure_message, (vid, pid, error), r),
    ensures
        r@.len() == 49 + error@.len() + troubleshooting().len(),
        r@.subrange(0, 32) == "Could not open HID device VID=0x"@,
        text::shows_digits(r@.subrange(32, 36), 16, vid as int),
        r@.subrange(36, 43) == " PID=0x"@,
        text::shows_digits(r@.subrange(43, 47), 16, pid as int),
        r@.subrange(47, 49) == ": "@,
        r@.subrange(49, 49 + error@.len() as int) == error@,
        r@.skip(49 + error@.len() as int) == troubleshooting(),
{
    law_open_failure(vid, pid, error@);
}

} // verus!
