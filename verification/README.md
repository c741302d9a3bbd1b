# MonDashboard

A Linux system dashboard, readable at a glance: processor, graphics cards,
memory, network, storage, processes, battery and fans, in a GTK4 /
libadwaita window that keeps running behind a notification-area icon.

## Layout

- `src/` — the `mondashboard` library, verified with Verus. It holds the
  logic of the dashboard over plain values: sysfs directories as read
  (`sysfs`), the detection and reading of graphics cards (`gpu`), processor
  identity, frequency and temperature (`cpu`), memory figures (`memory`),
  batteries from sysfs or UPower (`battery`), fans and liquid cooling
  (`fans`), the network interfaces listed and the active one (`network`),
  volumes grouped by disk (`disk`), the texts the widgets show (`display`),
  the configuration path (`config`) and the tray icon's image and requests
  (`tray`). Each public function states its result in its contract, with
  one exception: the methods of `tray::Demandes`, whose flags are atomics
  shared with the icon's thread. Verus's specifications of std atomics say
  nothing of the value they hold, so nothing is stated of what those
  methods return.
- `tests/` — tests of the library on concrete values.
- `app/` — the program around the library: reading `/sys`, `sysinfo`, NVML
  and UPower, the refresh loop, the JSON configuration file, the tray icon
  and the GTK widgets, which compute in floating point.
