# gifust

Converts videos to animated GIFs with ffmpeg's two-pass palette method, from the
command line or from an interactive terminal UI.

- `src/` is the verified library (Verus):
  - `text.rs`: trimming, decimal rendering and parsing of integers, lexicographic order;
  - `filters.rs`: dithering methods and colour filters, their ffmpeg fragments, cycling;
  - `convert.rs`: conversion options, the filter chain and the arguments of both ffmpeg passes;
  - `cli.rs`: command-line arguments and what a command line asks for;
  - `tui/`: the options form, the file browser (listing and selection) and the key handling
    of the terminal UI, as a state machine that returns what the caller has to do.
- `app/` is the program around it: argument parsing with clap, running ffmpeg, reading
  directories, and drawing with ratatui.
- `tests/` runs the library on concrete values.
