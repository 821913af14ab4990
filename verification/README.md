# pedalboard

The logic of a MIDI foot controller, written in Verus: what its buttons, encoders,
expression pedals and incoming MIDI bring about, what each preset remembers, and how
its LED rings look. Nothing in the library touches hardware; times and readings come
in as numbers, and what is to be sent and shown comes out as values.

- `src/` is the library. Every function carries a contract that says what it returns
  or changes; what holds of several functions together is stated by the public proof
  functions whose names start with `law`.
  - `config` holds what is configured, `state` what each preset remembers and how it
    is stored in EEPROM, `engine` the rules of a preset.
  - `controller` takes input events. `controller::model` says what it does with them.
  - `action`, `encoder_accel`, `long_press`, `tap_tempo`, `routing`,
    `property_exchange` and `led` are the parts.
  - `bounded` is the fixed-capacity list that all of them use: `heapless::Vec` with
    the sequence of its items.
- `tests/` runs the library.
- `app/` holds the types that are stored or sent, with `serde` and `bitflags`, and the
  conversions from and to the library's own.

Verus believes without proof what `bounded` and `config` say of `heapless::Vec` and
`heapless::String`: creating, pushing, clearing and reading a list, and creating,
copying and reading a label.
