# adb_tools

The verified core of a desktop logcat viewer and device workbench that drives
Android's `adb` and `scrcpy`.

- `src/` — the library, verified with Verus:
  - `text` — whitespace, trimming, words, lines and search on characters;
  - `command` — the step protocol (`Outcome`, `AdbStep`) and the shared ways of
    reading a command's output;
  - `devices` — `adb devices -l` and its listing;
  - `ops` — pairing, connecting, clearing the log, process ids, app install /
    clear / uninstall / restart, screenshots, mDNS pairing discovery;
  - `activity` — the resumed activity and an application's alarms;
  - `device_info` — device properties gathered by a sequence of queries;
  - `pairing` — QR-code pairing codes, service names and payloads;
  - `apps` — the remote application list (JSON);
  - `launch` — binary locations and the `logcat` / `scrcpy` command lines;
  - `laws` — properties of the library as a whole.
- `app/` — the process, environment and network layer that runs the commands
  the library asks for, and the serializable copies of its records.
- `tests/` — tests of the library on concrete values.
