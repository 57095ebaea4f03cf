# WiFi Checker

A WiFi site-survey program: click on a floor plan to record the signal, the
networks in range and, if wanted, the throughput at that point; look at the
result as a coloured map, a list and a channel report.

The logic is a library that is verified with [Verus](https://github.com/verus-lang/verus);
the program around it is ordinary Rust.

- `src/models` — projects, floors, measurements, and which signal of a
  measurement is shown.
- `src/services` — what the kernel (nl80211) and NetworkManager report, turned
  into readings of access points, channel widths and center frequencies.
- `src/widgets` — the texts, tables, orders and choices of the measurement
  panel, the legend and the channel report.
- `src/window` — the commands of the main window: measuring, the live view,
  floors, project files.
- `src/text.rs`, `names.rs`, `order.rs`, `find.rs`, `text_map.rs`, `clock.rs` —
  what the rest is built on.
- `app` — GTK, D-Bus, netlink, files and drawing.

Each function's contract says exactly what it returns or changes; the laws that
relate several functions are the public proof functions named `law_…`. Numbers
that the program only carries (coordinates, throughput) are held as their bit
patterns; everything that computes with them, such as drawing, is in `app`.

Trusted without proof are the contracts of the functions of the standard
library, of `chrono` and of `wl-nl80211` that the library calls. Each of them
says in its comment what it claims.
