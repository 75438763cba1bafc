# funke

A terminal Bluetooth manager. It lists devices, connects and disconnects them, pairs and unpairs
them, gives and withdraws trust, shows their details and switches their audio profiles. It talks to
BlueZ over the system bus, and to the sound server through `pactl`.

The decisions are made by a library that is verified with Verus; the program around it does the input
and the output.

| Module | What it holds |
| --- | --- |
| `text`, `number` | text primitives, decimal numerals |
| `process`, `audio` | outcomes of commands, the profiles in a report of `pactl` |
| `bluetooth`, `bus` | adapters and devices, what the bus says of them, the order they are listed in |
| `keys`, `agent`, `app` | keys, the prompts of the pairing agent, the state of the interface |
| `session` | which work each event asks for, and what its outcome does |
| `screen` | what the terminal shows, and where |
| `cli` | the command line |
| `laws`, `listing_laws`, `screen_laws` | what holds of the whole |

Contracts speak of models: each type with text or lists in it has a view made of `Seq`, `Option` and
plain values, and each operation is a function on views. The laws are proved of those functions.

What the library takes from other crates stands behind trusted declarations, each with a comment that
says what is believed of it: property values, object paths and errors of `zbus`, the modifiers of
`crossterm`, the width of a line and the division of the terminal in `ratatui`, and the reply channels
of `tokio`.

`app/` is the program: the D-Bus proxies and the pairing agent, the commands, the terminal and the
event loop, which hands events to a `Session` and performs the commands that come back.
