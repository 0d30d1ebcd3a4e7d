# cursor-clip

The decision core of a clipboard manager for Wayland desktops, and of the window
inspector that comes with it. `src/` is a library in Verus: plain values go in,
plain values come out, and every function has a contract that is proved. `app/`
is ordinary Rust around it, and talks to the compositor, the widget toolkit, the
keyring, the database and the control socket.

| module | what it decides |
| --- | --- |
| `text`, `wire`, `fixed` | searching, trimming, numbers as text; packed arrays; pointer coordinates |
| `crypto`, `payload` | how a stored text is sealed under a password, framed and opened again |
| `persistence`, `config` | the rows of the history database, its password, the files and settings |
| `history`, `row`, `overlay` | the history list: search, pins, selection, rows, keys and buttons |
| `placement`, `session` | where the overlay opens, its main loop, and waiting for events |
| `toggle` | the socket that lets one overlay at a time exist |
| `capture_layer`, `initializer` | the surfaces that learn where the pointer is |
| `active_window`, `virtual_keyboard` | whether a terminal has the focus, and the keys that paste |
| `inspect`, `paint`, `report` | the window under the pointer, its border, and the report on it |

What reaches outside the library from within are calls of SHA-256, AES-256-GCM,
Base64, the random number generator and two functions of std, each behind a
small function in `crypto` and `text` whose comment says what is taken for
granted. Properties that span several functions are the `law_*` proof functions.
