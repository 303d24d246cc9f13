# butterfly

Firmware logic of the Butterfly Effect device (ESP32-C3): a butterfly that
flaps its wings when someone comes close and makes its paired butterfly flap
along.

The decisions of the firmware are a library verified with Verus (`src/`):

- `servo`, `motor`: pulse and duty arithmetic of the two servos, the motor's
  software-PWM cycle.
- `dns`: the captive-portal DNS answers.
- `web`: request parsing and response bodies of the HTTP API, the captive
  portal's redirects.
- `wifi`: authentication names, identities derived from the MAC, the
  driver's credential fields.
- `json`: the JSON values the protocol handlers read, parsed from received
  lines by serde_json.
- `protocol::ap`, `protocol::sta`: the provisioning protocol on the soft-AP
  and the control protocol on the home network (binding, pairing,
  synchronisation), with `protocol::sta_laws` stating what holds across
  commands; `protocol::line`: line framing.
- `storage`: what is kept in flash and how it reads back.
- `sensor`, `behavior`: distance readings, the proximity behaviour, the
  rotation schedule and the link that keeps the peer in step.

`app/` is the program around it: peripherals, Wi-Fi driver, sockets,
threads, flash access, JSON rendering, and the wing phase
(floating point). `tests/` exercise the library on concrete values.
