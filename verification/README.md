# onlyfansd

A bridge for Casa Vieja ceiling fans (remote model TR301A): it mirrors fan
and light state to Home Assistant, serves the fans to HomeKit, and sends the
fans' 304.30 MHz OOK commands through an ESPHome bridge.

- `src/` is the verified library (Verus): the 25-bit RF message, the 3-chip
  encoding and the CC1101 register plan, the librpitx timing tables, speed
  snapping, entity naming, the per-room state table, the decisions taken for
  Home Assistant and HomeKit service calls, and the WebSocket session.
- `app/` is the daemon around it: configuration, HTTP and WebSocket I/O,
  debounce timers, persistence, the HomeKit server and the SPI device.
- `tests/` runs the library on concrete values.
