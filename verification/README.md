# radio_cat

A verified library for talking to amateur radios and for showing them.

- `serial`, `tcp`, `udp`: the wire formats, and requests and answers as state
  machines. Whoever drives one makes the calls to the port or the socket and
  reports what happened. `serial::pin_test` checks a null-modem cable.
- `ui`: rectangles, styled text, intensities, settings and devices.
- `tui`: what a terminal console shows, piece by piece, and what its keys do.
- `gui`: the state of a windowed console, what its panels show, and the ring of
  rows behind its waterfall.

Intensities are counted in parts of `ui::intensity::FULL`. Decibels become
intensities outside the library, which holds no floating point.

`app/` is the pin tester and everything that touches a port, a socket, a
terminal or a window. `tests/` runs the library.
