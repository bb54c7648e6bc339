# rpdl

A download manager: single files fetched in parallel byte-range chunks,
many files at once, URL lists, GitHub sources and releases, torrents,
scheduled downloads and resumable transfers.

The crate is in two parts.

- `src/` is the library, written in Verus. It holds every decision the
  program makes: how a file is cut into chunks and in which order they
  are fetched, how the pieces are put back together, the resume record
  and its consistency check, the schedule book and the repetition rules,
  how GitHub requests and release assets are resolved, how torrent
  sources and listings are named, the window of link samples and the
  chunk size it calls for, the command line's option parsing, and what
  the code-generating attributes accept, refuse and generate. Each public
  function states its result in its contract (the constructor that reads
  the system clock states everything but the time it read), and the
  properties that span several calls are proved as lemmas.
- `app/` is the program around it: argument parsing with clap, HTTP with
  reqwest, files, progress bars, the BitTorrent session, the GitHub API
  and the async runtime. Statistics that are floating point (throughput,
  jitter, trends, percentages) are computed there.

`tests/` runs the library on concrete values.
