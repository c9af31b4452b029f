# appshots

Linux AppShots: the screenshot of the focused window and the accessibility text
that goes with it, and hotkeys made of two modifier keys held together.

`src/` is the library, written and proved in Verus. It decides and computes;
it reads no file, sends no message and starts no process.

- `appshot`: which part of a screenshot is cut out for the window, when an AppShot is
  refused, what an AppShot holds
- `accessibility`, `windows`: elements and windows, and the text about them
- `backends`: which screenshot backend comes next, what each answer means, how
  long a program is waited for
- `screenshot`, `png`, `uri`: screenshots as data URLs, PNG headers, `file://`
  URIs
- `bare_modifier`, `hotkey`, `keymap`: arguments, hotkey names, key codes, key
  events and the signals they lead to
- `text`, `numbers`, `failure`: texts, decimal numbers, errors in words
- `codec`: base64, PNG images and lossy UTF-8, which outside code computes

What holds of the library as a whole is stated by the proof functions whose
names start with `law_`.

`app/` connects the library to D-Bus, files and processes.
