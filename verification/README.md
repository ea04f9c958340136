# msu2_display

Drives an MSU2 MINI USB screen (160x80, RGB565) in two roles, with the logic
written in Verus and proved against its contracts:

- `host`: the `miniboard-ipd` daemon, which finds the screen, connects to it,
  and shows the host's IPv4 address as text or as a QR code. It holds the
  command line, the wire protocol, the screen layouts, the address selection
  rules, the netlink message parsing, the connection state machine and main
  loop, and the service installation plans for the common init systems.
- `flasher`: writing the status images to the screen's flash, with the
  fixed page layout, the flashing and retry logic, the progress drawn on the
  screen, and the session and log that the flasher window shows.

Layout:

- `src/`: the verified library (`frame`, `hex`, `text` and `seqs` are shared
  helpers).
- `tests/`: tests run against the compiled library.
- `app/`: the `miniboard-ipd` program: argument handling, sysfs, the tty,
  netlink sockets, threads, files and processes, all of which hand plain
  values to the library.
