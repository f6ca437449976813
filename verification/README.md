# baseline_core

Decoding and analysis of the recordings of the MATCH DSSD/BGO particle detector,
verified with Verus, and a desktop application around it.

- `src/` is the library. Every function in it is verified, but for
  the trusted ones listed below.
  - `line`, `lines`, `hex`, `decimal`, `text`, `clock`, `tail`, `series`: the
    building blocks: lines of hexadecimal bytes, numbers, texts and instants.
  - `observation`, `flux`, `calibration`, `baseline_data_table`: the decoders of
    the four kinds of recordings, with their laws in `observation::laws`,
    `observation::histogram_laws` and `agreement`.
  - `baseline_processing`, `fit_overlay`: counts, coincidences and the windows
    that fits are solved in.
  - `io`: segments of a recording, workbooks and their rows, headers, places of
    files.
  - `table`, `columns`, `json_view` and the `*_mode` modules: what the tables,
    reports and JSON rows of a mode say.
  - `panel`, `segment_session`, `baseline_run` and the `*_session` modules: what
    a mode shows and allows, and how its background work changes that.
  - `plot_export`: cropping pictures of plots and naming their files.
- `tests/` runs the library on concrete recordings and values.
- `app/` draws the window, reads and writes files, and does the floating-point
  work: calibration formulas, histograms over real axes, fits.

What the library takes on trust is marked where it stands: the date texts and
instants of `chrono` (`clock`), the matches of a `regex` pattern
(`io::segment_filter`), `String::push` (`text`) and `Arc::clone`
(`observation::particle`).
