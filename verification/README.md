# WaltzGPS

A map viewer for the Linux desktop: personalizable tile providers, a disk
cache, support for HiDPI screens.

* `src/` is the library. It holds every rule of the program — tile addresses,
  configuration, the cache policy, the download queue and its API keys, what
  the map draws and requests, what the dialogs do — as functions on plain
  values with contracts that Verus proves.
* `app/` is the program around it: GTK widgets, threads, processes, files, and
  the floating-point geometry of the map projection.
* `tests/` runs the library on concrete values.

## Usage

Navigate with the mouse and zoom using the mouse wheel. Pinch to zoom is
supported, as well.

* `i` and `o`: zoom in and out
* arrows: move around
* `1`, `2`, ... `9`: switch provider

`--config <path>` names another configuration file.
