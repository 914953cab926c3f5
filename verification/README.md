# downloadit

The verified core of a desktop front end for yt-dlp and ffmpeg.

- `src/` is the library, checked by Verus: the table of running downloads and
  previews, what pausing, cancelling and stopping a recording do, Base64 for
  captured frames, the arguments given to yt-dlp, how its progress lines, format
  listings and JSON dumps are read, and how the ffmpeg build is picked from a
  GitHub release.
- `app/` is the Tauri program around it: processes, files, network, the
  window events, and the floating-point parts (download percentages, video
  durations).
- `tests/` runs the library on concrete inputs.
