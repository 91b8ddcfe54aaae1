# hypr-rectangle

Rectangle-like window management for Hyprland: snap the active window to
halves, quarters, thirds, two-thirds, the whole usable area or a centred
box, and restore it to where it was before the snap.

The geometry, the parsing of Hyprland's gap settings and the restore
history are a library verified with Verus (`src/`):

- `area` classifies layer surfaces (bars, docks, backgrounds) against their
  monitor and computes the usable area left by them and the outer gaps;
- `dims` computes tile sizes from the usable area and the inner gaps;
- `dispatch` turns a command into a window placement and narrows it to the
  16-bit coordinates Hyprland's dispatcher takes;
- `gaps` parses CSS-style gap values and picks an option's value out of
  `hyprctl getoption -j` output;
- `state` is the bounded restore history.

Each of these states its result exactly in its contract, and the laws the
tool relies on (tiles fill the area, halves and thirds sit side by side
with the visible gap, a recorded geometry is what restore gives back, the
history stays bounded) are proved as proof functions beside them.

`app/` is the program around it: the command line, the calls to Hyprland
and `hyprctl`, and the JSON file the history is kept in.
