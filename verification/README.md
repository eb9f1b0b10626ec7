# G13 Nexus

Remapping, macros, lighting and LCD output for the Logitech G13 on Linux,
built on the kernel's `hid-lg-g15` driver: input from evdev, output through
uinput, the LEDs through the LED class, the LCD through hidraw.

The library in `src/` holds the logic, each function with a Verus contract:

- `text`, `strmap`: character sequences and the sorted string map that
  bindings and macros are kept in.
- `uinput`, `input`: key names and codes, the G13's control names, the
  byte layout of input events and of the uinput setup record, and the
  choice of evdev nodes.
- `config`: profiles, their defaults and normalization, and the naming and
  planning rules of the profile store.
- `daemon`, `routing`: what presses, releases, stick moves, recordings and
  socket requests do to the daemon's state, and what they send.
- `lcd`, `leds`: frames, font, pages and output report of the LCD; the LED
  values.
- `labels`, `ipc`: what the configuration window shows and sends; the
  socket messages.

`app/` is the program around it: the daemon's threads and device I/O, the
profile files, the JSON forms of the messages, and the command-line client
(`g13ctl`, or the first argument `ctl`).

The graphical configuration window is not part of this tree: its toolkit
(`eframe`, with `rfd` for file dialogs) could not be built here. What the
window decides (which controls it offers, how buttons look and respond,
which keys it forwards to a recording, which dropped files it takes as the
LCD image) is in `labels`, verified; the window itself would only draw and
call those functions.

Paths are handled as text. Where the user's configuration directory is
not valid UTF-8, its invalid parts are replaced (`to_string_lossy`), so
the store would sit in a differently named directory.
