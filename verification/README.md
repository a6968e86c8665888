# kindle-button-mapper

A daemon for Kindles that turns the buttons of gamepads, remotes and keyboards
into page turns, key presses and scripts.

`src/` is the verified library. It holds the rules by which the daemon decides:

- `config`: the configuration file, its devices, and what their buttons run;
- `mappings`: scripts bound to D-pad directions and triggers;
- `action`: which scripts are handled in-process, and step by step how;
- `koreader`: the request to KOReader's HTTP Inspector, and its reply;
- `reload`: the configuration read again in place;
- `vkeyboard`: key injection, page turns, and the life of the virtual keyboard;
- `touch`: the panel, and the swipe that turns a page on it;
- `nodes`: which input device is which, and how a missing node is made;
- `input`: events and the keyboard's setup, down to their bytes;
- `text`: white space, words, numbers and case;
- `outside`: the calls out of the library, and what is taken as known of them;
- `laws`: what holds of all of this together.

`app/` performs what the library decides: it opens files, devices and sockets,
runs commands and threads, takes signals, and logs.

What is not proved is in `outside`: the INI parser of `configparser`, the key
names of `evdev`, and the standard library's letter case and UTF-8 check. Each
is stated there next to the call. `configparser` is built with ordered maps, so
devices and bindings come in the order of the file.
