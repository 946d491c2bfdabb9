# melo

A keyboard-driven terminal music player for a local music library.

`src/` is the player's core, written in Verus and proved against its
contracts: the library list and its search filter, the highlight, the
playback decisions (next, previous, repeat, shuffle, seeking, media keys,
what happens when a track ends), re-reading the library, the order the
library is listed in, how a file's tags become a track, the omarchy colour
file, the cover-art cache and the way a cover is cut, scaled (by the image
crate) and laid out in half-block cells, the key bindings, the command line
and the texts and sizes the screen shows. `src/props.rs` holds the
properties that span several operations.

The audio engine, the desktop media keys, the clock and the terminal live
outside it: an operation that needs the engine returns an `Effect`, and a
track load is answered with `App::finish_load`.

`app/` is the program around the core: it walks the music folder, reads tags
(and the picture bytes in them), plays audio (rodio), draws the interface
(ratatui), listens to the desktop's media keys (souvlaki), sends
notifications and runs the event loop. `tests/` runs the core on concrete
inputs.
