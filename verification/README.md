# smart_alarm_clock

Firmware logic of a bedside alarm clock on an ESP32-S3, written in Verus:
the decisions are executable Rust functions whose contracts Verus proves.

## Layout

- `src/` — the verified library.
  - `state`, `alarm`, `alarm_laws` — the labelled-preset alarm core (explicit
    arm/disarm), its command bus and the laws it keeps.
  - `mqtt`, `net` — the Home Assistant (MQTT) and REST/WiFi-setup front-ends
    of that core: topic routing, discovery entities, what to publish when,
    request validation, stored settings, the state report.
  - `led` — the status LED's rainbow (colour from `smart_leds`).
  - `firmware` — the eight-slot panel core with implicit arming, and the
    panel's peripherals: BOOT button, buzzer melody, MAX7219 framebuffer,
    DS3231 registers and date arithmetic, captive-portal DNS replies.
  - `text` — decimal, `HH:MM:SS` and byte-string helpers with their specs.
- `tests/` — tests run against the compiled library.
- `app/` — the device program: peripherals, threads, WiFi, HTTP, MQTT
  client, NVS, system clock. Each worker feeds plain values to the library
  and performs what it returns. `BUILD` in `app/main.rs` picks the panel or
  the labelled build.
