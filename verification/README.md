# asd

The core of a session manager: the wire protocol between its daemon and its
clients, the git graph its terminal client shows over a session, and the logic
of its GUI client. The library under `src/` is written in Verus; every function
states what it does, and Verus proves it.

| Module | What it holds |
| --- | --- |
| `proto` | Frames, their encoding, the framed reader, and the paths everyone agrees on |
| `git` | Commits, refs, diffs, the working tree and the lanes of the commit graph |
| `search` | Ranking commits against a query |
| `ui` | Drawing the overlay's panes, Markdown, and highlighted diffs |
| `state` | The overlay itself: what a key, a pointer event or a reply changes |
| `worker` | What the diff thread is asked and what it answers |
| `gui` | The GUI client: keys, windows, connections, settings, and what is painted |
| `screen`, `style`, `geometry`, `text`, `path`, `input` | What the others share |

Calls into outside crates stand behind a few small functions whose contracts
Verus takes as given. Each says above it which outside function it calls and what
is claimed of it; `ratatui`, `unicode-width`, `unicode-segmentation`,
`pulldown-cmark`, `syntect`, `fuzzy-matcher`, `postcard`, `gix` and `chrono` are
reached that way.

What holds of several functions together is stated as a public proof function
whose name begins with `law_`.

`tests/` runs the library. `app/` is ordinary Rust around it: reading
repositories, sockets and the settings file, threads, and the windows.
The windows are built with the `gui` feature, which needs `iced` and the terminal
emulator.
