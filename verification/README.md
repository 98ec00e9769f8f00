# siri-remote

A command line tool for the 3rd-generation Apple TV Siri Remote over Bluetooth
Low Energy: pair it, stream its events, show its live state in the terminal,
dump raw HID frames, republish its microphone as a PipeWire source, and use it
as a virtual gamepad.

The logic is a library proved with Verus; the program around it does the I/O.

## Layout

| Path | What it holds |
|------|---------------|
| `src/decoder.rs` | Button masks, touchpad reports, battery and power bytes |
| `src/scan.rs` | Recognising a remote's advertisements, ranking them by mean signal strength |
| `src/session.rs` | Selecting a remote, connecting, the typed event stream |
| `src/hid.rs` | Characteristics as a BLE stack presents them |
| `src/bluez/` | Devices and HID reports as the BlueZ object tree lists them |
| `src/audio/` | Microphone packets, loss concealment, the ring of samples |
| `src/gamepad/` | Button mapping, configuration, the virtual pad's state |
| `src/view/` | The dashboard's state, what it shows, and its reconnect loop |
| `src/reconnect.rs` | What follows a dropped or failed link |
| `src/events.rs`, `src/dump.rs`, `src/mic.rs`, `src/pair.rs`, `src/unpair.rs` | The commands' own rules and lines |
| `src/calibration.rs`, `src/contact.rs`, `src/cli.rs`, `src/logger.rs` | Calibration, contact geometry, option checks, log routing |
| `src/text.rs`, `src/order.rs` | Rendering and comparing text, stable sorting |
| `tests/` | Tests on concrete values |
| `app/` | The program: Bluetooth, D-Bus, terminal, PipeWire, uinput, files |

## Reading the contracts

Text is specified as a sequence of characters, paths as bytes, times as
nanoseconds of a monotonic clock, and UUIDs as 128-bit numbers. Floating point
stays out of the library: fractions that the user sets travel as their IEEE 754
bit patterns, and the mean signal strength as a sum over a count.

A function that waits for the outside world is split into steps: it takes what
has happened and returns what to do next. The program performs the action and
hands back the next event.

Properties that span functions stand at the end of each module as public proof
functions named `law_…`.

## Trusted items

The proofs rest on the documented behaviour of a few functions that are called
and not proved: `String::push`, `str::to_uppercase`, `str::to_lowercase`,
`char::is_whitespace`, `str::from_utf8`, the `Debug` form of `str`, the
`Display` form of `uuid::Uuid`, and the shape of a time stamp that `chrono`
renders. Each is declared beside the code that needs it.
