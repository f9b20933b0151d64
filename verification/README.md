# razer_tray

Battery indicator logic for Razer wireless devices driven by the openrazer kernel
modules, verified with Verus.

- `src/` is the verified library: sysfs attribute parsing (`sysfs`, `text`),
  device ids and the persisted selection (`ids`), reading filters and the
  low-battery alert (`level`, `device`), the tracked devices and the selection
  (`state`), labels and notices (`label`), icon decoding and choice (`icon`),
  command-line options (`args`) and the configuration directory rule (`config`).
- `app/main.rs` is the tray program: it scans and reads sysfs, reads and writes the
  selection file, loads icon files, and talks to the StatusNotifierItem host and
  the notification daemon, leaving every decision to the library.
- `tests/` exercises the library on concrete values.
