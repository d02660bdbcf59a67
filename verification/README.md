# Snypr

Screenshots, annotations and live drawing on Wayland.

The library decides, and Verus proves that it decides as its contracts say: what a drag, a click
or a key does to a drawing, what a toolbar shows and asks for, what the selector picks, where the
parts of an annotated picture go, how the replies and events of a compositor are read. It holds no
floating point: coordinates and colors are type parameters, and what only they can tell (a
distance, the size of a text) is handed in.

- `src/region.rs`, `src/strings.rs`: rectangles and texts.
- `src/ui/`: the canvas and its tools, the text editor, the toolbar, the selector, the overlay,
  the editor, the countdown, pictures, sinks and the tray menu.
- `src/wm/`: Hyprland, Sway, Niri and the foreign-toplevel protocol, and the subscriptions to the
  focused output.
- `tests/`: the library from outside.
- `app/`: the sockets, the Wayland connection and the GTK windows around the library. Its `Host`
  trait is what it needs from the program: configuration, messages, capturing and writing.
