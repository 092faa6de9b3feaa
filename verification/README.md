# vlc2chromecast

A desktop tool that casts a local video file to a Chromecast by starting VLC
headless with its Chromecast output and HTTP control interface, then polling
VLC for progress and offering pause, seek and stop.

The crate is split in two:

- `src/` is the library, verified with Verus. It holds the tool's
  decisions: VLC's argument list and the HTTP requests sent to it
  (`vlc_http`), the checks before a launch and their messages (`launch`),
  the clock text of the progress bar (`clock`), the tail buffer of VLC's
  error output and the choice of the line that explains a failure
  (`stderr_log`), the step function of the status-polling loop
  (`playback_monitor`), the step function of stopping the VLC process
  (`shutdown`), the choice of the monitor under the cursor (`screen`), and
  the settings record with its defaults (`config`). `text` has the
  character-level helpers they share.
- VLC's status reply is read in `status_json`, which calls serde_json for
  the JSON document and its `state` member; the floating-point `time` and
  `length` fields are read in `app/`, which passes in whether the length is
  positive.
- `app/` is the program around it: the egui window, the file dialogs, the
  settings file, the TCP connection to VLC, the VLC process and its
  signals, the X11 queries, and the threads that run the library's step
  functions.

`tests/` exercises the library from outside, including comparisons of the
error-output handling against the standard library's own line splitting,
lowercasing and trimming.
