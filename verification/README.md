# Headset Battery Indicator

Makes a wireless gaming headset show up in KDE's Power & Battery applet, next to
the mouse and the keyboard. The battery level comes from
[HeadsetControl](https://github.com/Sapd/HeadsetControl), or - for the Audeze
Maxwell - from a native reader that is far more reliable.

No tray icon, no applet to install: the daemon creates a virtual HID device whose
report descriptor declares a battery, the kernel registers a power supply for it,
and UPower lists the headset like any other peripheral.

## How it is built

The library under `src/` decides; the program under `app/` acts. The library
opens no device, runs no process and reads no clock. It is told what was read,
what came of the last action and what time it is, and answers with bytes, texts
and the next action. Its functions carry contracts that Verus proves, and the
promises that span several functions stand beside them as proof functions whose
names begin with `law_`.

Three contracts are believed without proof, each of them about the standard
library: `String::push` appends a character (`text`), `u16::to_ne_bytes` gives the
bytes of a number in one of two orders (`uhid`), and the text of a
`std::time::Duration` is the same for the same span (`time`).

| Module | What it decides |
| --- | --- |
| `headset` | what a reader reports, and how a headset is named and labelled |
| `maxwell` | the native reader: frames, sessions, dongles, when to ask and when not to |
| `headsetcontrol` | what HeadsetControl's output says, and how long to wait for it |
| `source` | which of the two readers answers |
| `bridge` | which virtual batteries to keep, and what to publish on them |
| `uhid` | the events exchanged with `/dev/uhid` |
| `systemd` | which inherited descriptors to take |
| `cli` | options, and the texts that are printed |
| `text`, `time` | the string and clock arithmetic underneath |

## When the headset is not there

| Situation | What happens |
| --- | --- |
| The dongle says the headset is gone | The entry is withdrawn at once. |
| Detected but not answering | The entry stays, showing the last known level, for `--offline-grace` (10 s). |
| No longer reported at all | The entry stays for `--missing-grace` (30 s). A single warning per failure streak. |
| Never answered since the daemon started | Nothing is published until a first level is read. |
| Service stopped or restarted | Every virtual battery is destroyed. |

## Noisy readings

A reading more than 15 points away from the last published level is held back,
and only published if another reading confirms it, within 5 points. A glitch
never reaches UPower; a real change costs one extra poll.
