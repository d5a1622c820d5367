# rini

The logic of a scrolling tiling window manager, as a verified library: what flies and how, what is
captured when, how frames are written, how requests are framed and answered, what a configuration
means.

- `src/` is the library. Every item states in its contract what it returns or changes, and Verus
  proves it. Laws that span several functions are public proof functions beside the functions they
  speak of.
- `tests/` runs the library on concrete values.
- `app/` is what touches the system: Mach ports, run loops, captures, files, JSON. It asks the library
  what to do next and does it.

Coordinates are thousandths of a point, times are nanoseconds, and pictures are named by handle.
