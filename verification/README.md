# sidewinder-wheel

Userspace Linux driver for the Microsoft SideWinder Force Feedback Wheel. It
reads raw HID reports from the wheel and exposes it as a virtual input device
through uinput.

| Path | Purpose |
|---|---|
| `src/parser.rs` | raw HID report to `WheelState`, hex dump of a report |
| `src/forward.rs` | change of the wheel state to events, only what changed |
| `src/batch.rs` | working off a list of outputs, up to the first failed write |
| `src/mirror.rs` | model of the virtual device and the laws of forwarding |
| `src/driver.rs` | the read loop as a state machine, laws over whole runs |
| `src/uinput.rs` | event codes, ioctl numbers, setup steps of the device |
| `src/cli.rs` | USB IDs on the command line |
| `src/devices.rs` | listing of HID devices, message for a failed open |
| `src/text.rs` | digits and padding |
| `app/` | command line, HID access, system calls |

Everything under `src/` is verified with Verus; `app/` is the ordinary Rust that
performs the input and output.

```bash
sidewinder-wheel --list            # list all HID devices
sidewinder-wheel                   # start the driver
sidewinder-wheel --pid 0x001c      # with a different product ID
sidewinder-wheel --debug           # show raw bytes and parsed values
```

## udev rules

The driver needs access to the wheel's hidraw node and to `/dev/uinput`. Put
rules like these into `/etc/udev/rules.d/99-sidewinder-wheel.rules`, and add
your user to the `input` group:

```
KERNEL=="hidraw*", ATTRS{idVendor}=="045e", ATTRS{idProduct}=="001b", GROUP="input", MODE="0660"
KERNEL=="uinput", GROUP="input", MODE="0660"
```

```bash
sudo udevadm control --reload-rules
sudo udevadm trigger
sudo usermod -aG input $USER
```
