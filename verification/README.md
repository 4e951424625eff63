# ai-vid-editor

An automatic video editor: it cuts or speeds up the silent parts of a
video with ffmpeg, cleans up the sound, reframes and watermarks the
picture, and writes subtitles, chapters, captions and timelines next to the
result. It processes single files, whole folders, watched folders and a
queue.

- `src/` is the verified library (Verus): configuration values and presets,
  hardware-encoder selection, the stage plan of the processing pipeline and
  its intermediate-file bookkeeping, the watcher's and the queue's decisions,
  batch progress and tallies, ffmpeg argument lists and concat lists, the
  readers of ffmpeg's reports, and the text of every exported file line.
- `app/` runs ffmpeg, reads and writes files, holds the floating-point
  settings and time arithmetic, and drives the batch, watch and queue loops.
- `tests/` exercises the library.
