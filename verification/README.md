# mouse_battery

Battery monitor for ASUS wireless mice (TUF Gaming Mini WL) on Linux.

- `src/` is the verified library:
  - `hid` — battery readings, statuses, the `MouseDevice` trait and the
    first-responding-candidate search;
  - `asus` — the 64-byte battery query and the decoding of its response;
  - `discovery` — judging `/sys/class/hidraw` entries (uevent `HID_ID=` line,
    known ids, USB Interface 0) and ordering candidates by hidraw index;
  - `predictor` — the one-hour window of readings, the weak-cable check,
    percentage-tick calibration samples and the exact least-squares voltage fit;
  - `notifier` — the percentage-only low/full notification policy and its
    once-per-cycle laws;
  - `monitor` — what one poll cycle does to the published state;
  - `text` — hexadecimal/decimal parsing on bytes.
- `app/` is the daemon around it: hidapi I/O, sysfs reads, the DBus service
  (zbus), desktop notifications, the tokio poll loop and the floating-point
  rate smoothing and time estimates.
- `tests/` exercises the library on concrete values.
