# rustitles

A desktop tool that finds the videos in a folder that lack subtitles in the chosen
languages and downloads them with [Subliminal](https://github.com/Diaoul/subliminal).

The decision logic is a library verified with Verus; the window, processes, threads and
files are ordinary Rust around it.

## Layout

- `src/` — the verified library:
  - `text`, `paths`, `sorted`: characters, file names and sorted text collections;
  - `languages`, `subtitles`: language codes and how subtitle files are matched to videos;
  - `scan_history`: the record of finished downloads and when a video may be skipped;
  - `settings`: the user's settings, their defaults and normalisation;
  - `downloads`, `data`: the Subliminal command line, job queues and download verdicts;
  - `commands`, `versions`, `installer`, `startup`: dependency probes, version checks, the
    Subliminal installation sequence and the startup state machine;
  - `config`: Subliminal's TOML configuration, edited with `toml_edit`: the stored credentials
    and the settings each download run overrides;
  - `logging`, `redact`: the log buffer and the masking of credentials in output.
- `tests/` — tests of the library on concrete values.
- `app/` — the egui application: the window, the worker threads, child processes, the
  file system and the network.

Paths are modelled as Unix paths (`/` separates components); `app/` is built for Unix.
