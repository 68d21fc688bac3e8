# vortex

The verified core of the Vortex media server, written in Verus.

- `src/` is the library, verified by Verus. Its public functions carry
  `requires`/`ensures` contracts that Verus proves (trait methods take
  theirs from the trait): codec and container names and what a device
  can play, the FFmpeg arguments of an HLS transcode, the VOD playlist, the
  transcode job and cache rules, probe results, the scanner's reading of file
  paths and tags, lyrics text, natural page order of comic archives, reading
  modes, folder browsing, photo albums and the recycle bin, metadata provider
  chains and the TMDB provider's URLs and records. The public `proof fn`s
  state the laws these obey (playlist coverage, sort order, round trips of
  cache directory names, what removing and restoring a photo does, ...).
  Calls into `std` paths, `regex` and `md5` go through small trusted wrappers
  whose contracts name what those functions return.
- `tests/` runs the library on concrete values.
- `app/` is ordinary Rust around the library: SQLite access through sqlx,
  the file system, FFmpeg and ffprobe processes, HTTP lookups, tag, EXIF and
  archive readers, and the floating-point parts (LRC timestamps, frame
  rates, GPS coordinates).
