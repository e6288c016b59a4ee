# wallman

A wallpaper manager for Wayland compositors, with its logic verified by Verus.

- `src/` is the verified library: the raw pixel cache format (`cache`,
  `encoding`), the per-monitor wallpaper settings and the jobs of the image
  worker (`renderer`, `monitor_map`), the layer-surface bookkeeping
  (`surface`), the saved state (`state`), the daemon's startup and request
  handling (`daemon`), the `set` and `stop` subcommands (`commands`), the
  color palette file (`colors`), and the image pipeline (`image_ops`,
  `worker`), which calls the `image` and `color-thief` crates through
  wrappers whose contracts are trusted.
- `app/` is the program around it: the command line, files, the Unix
  socket, the Wayland connection, the worker thread and the Gaussian blur.
- `tests/` exercises the library on concrete values.
