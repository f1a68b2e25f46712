# speed

A counter on an ESP32-S3 panel with a TFT display, and the desktop program that
shows and sets it. The two find each other by datagrams, and the panel talks to
a broker inside the desktop program over MQTT; it also takes a new value over
HTTP.

- `src/` is the library: what both programs decide and compute, verified with
  Verus. `text` and `addr` hold texts, numbers and addresses; `counter`,
  `discovery`, `mqtt`, `http` and `broker` the messages and the connections;
  `wifi`, `events`, `ui` and `tft` the panel; `arp` and `web_gui` the desktop
  program. The laws of a module stand at its end.
- `tests/` runs the library on concrete values.
- `app/` is the program round the library: windows, sockets, tasks and JSON. It
  builds the desktop program, and on the panel the firmware under
  `app/firmware`.

The desktop program reads two settings from its environment:
`SPEED_DISCOVERY_BROADCAST`, the address that announcements go to, and
`SPEED_ESP_HOST`, the address of a panel that is announced to directly.
