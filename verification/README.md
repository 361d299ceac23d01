# mouse_sensitivity

The logic of a macOS tool that sets mouse tracking speed through the HID
event system, keeps per-device settings in a daemon, and reads a mouse's
sensor DPI over the Razer and Logitech (HID++ 2.0) vendor protocols.

- `src/` is the library, verified with Verus: the factory DPI table and its
  lookup (`known`), the vendor packets and the state machines of the DPI
  queries (`vendor`), the configuration and its paths (`config`), which HID
  services are mice (`hid`), the daemon's schedule and targets (`daemon`),
  the command-line decisions and texts (`cli`), and the numerals and string
  search they need (`text`).
- `app/` is the program around it: the command line, IOKit and CoreGraphics
  calls, the socket, the JSON config file, and the floating-point settings
  and calibration arithmetic.
- `tests/` runs the library on concrete values.
