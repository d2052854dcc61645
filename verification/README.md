# stubby

The core of a native Keychron launcher that talks to the keyboard over raw HID
with the VIA protocol, written in Verus.

- `src/` — the verified library:
  - `via`: VIA requests, the 33-byte output report, reading replies, what a read
    outcome means, and finding the raw-HID interface among the enumerated ones;
  - `kle`: a VIA definition's KLE keymap as positioned keys (fixed-point key
    units, `UNIT` = 1u), including the "row,col" label reader;
  - `keycodes`: keycode labels and the assignment palette;
  - `keymap`: the launcher's copy of a layer's keymap, and reading a layer
    key by key (the program carries each request to the device);
  - `session`: assigning a keycode to the selected key, resetting all layers,
    and the status shown after connecting;
  - `theme`: the launcher's colour themes;
  - `text`: hexadecimal and decimal rendering shared by the modules.
- `app/` — the transport probe: enumerates the keyboard's interfaces, opens the
  raw-HID one with `hidapi`, and asks the firmware a few questions. It also holds
  the `Via` device handle and the conversion of a definition's JSON (`serde_json`)
  into the library's KLE rows.
- `tests/` — tests of the library on concrete values.

The crate holds the launcher's core and its transport probe; it has no
graphical front end. The library's `theme`, `keymap` and `session` modules
hold what a front end decides: the colour themes, the layer read, assigning a
keycode, resetting, and the connection status. Drawing windows, with their
float geometry, is left to a front end built on top.
