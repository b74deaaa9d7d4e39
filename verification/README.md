# ulanzi_pomodoro

Pomodoro timer firmware for the Ulanzi TC001 (ESP32, 32x8 WS2812B matrix,
three buttons, piezo buzzer), with its logic verified by Verus.

- `src/` is the verified library:
  - `pomodoro` — the work/rest state machine and its presets;
  - `input` — debouncing, long press and auto-repeat of the buttons;
  - `display` — the frame buffer, the zig-zag LED mapping, brightness
    scaling and the WS2812B bit stream;
  - `storage` — the A/B flash slots (header, CRC-32, sequence numbers,
    recovery after an interrupted write) and the settings and daily
    statistics records;
  - `time` — the proleptic Gregorian calendar, the anchored wall clock and
    the SNTP packet format;
  - `ui` — the idle, running and menu screens: what each button does and
    what each screen draws;
  - `control` — the firmware's decisions between those parts (what an
    action changes, when to save, the boot and frame schedule).
- `app/` is the firmware binary: GPIO, RMT, flash, Wi-Fi/NTP, buzzer and the
  main loop. It only moves data between the hardware and the library, and
  rasterises text with the `embedded-graphics` fonts.
- `tests/` exercises the library on the host.
