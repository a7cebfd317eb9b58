# schengen-server

A Synergy protocol-compatible server using the InputCapture portal and libei for
Wayland desktops. It accepts connections from Synergy clients and forwards keyboard
and mouse input to them when the pointer crosses the edge of the desktop.

```bash
schengen-server --accept laptop:leftof:self --accept desktop:rightof:self
```

Clients are given as `name:position:reference`, where position is one of `leftof`,
`rightof`, `topof`, `bottomof`. The name `self` is reserved for the server; clients
can be chained in a row with e.g. `--accept otherlaptop:leftof:laptop`. The server
listens on port 24801 by default.

## Layout

`src/` is a library whose functions carry contracts that Verus proves:

- `args`, `config`, `text`: the command line and the configuration of the clients
- `layout`: the order in which clients are handed to the schengen server
- `coord`: coordinates, as bit patterns of double-precision numbers
- `portal`: desktop bounds, pointer barriers, the state of the capture session
- `ei`: seats, devices and input events of the EI protocol
- `keyboard`: keysyms and modifiers, through an XKB keymap
- `forward`: which client receives input, and where the cursor is
- `server`: what the server is set up with, and when capture is switched on and off

What the library takes on trust stands in `config`, `args`, `text`, `layout` and
`keyboard`, as declarations of outside types and functions with the claims made of
them. `tests/` runs the library, with the outside crates linked. `app/` is the program
around it: sockets, D-Bus, the EI connection, and floating-point arithmetic.
