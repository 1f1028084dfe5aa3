# byt

A keyboard-driven VPN switcher for Linux: it swaps between
NetworkManager-managed VPNs (WireGuard, OpenVPN) and Tailscale from a small
Iced GUI or the command line.

```sh
byt                  # open the GUI
byt status           # print current VPN state
byt import foo.conf  # import a WireGuard or OpenVPN config
```

## Layout

- `src/` is the library, verified with Verus: the config-file parsers, the
  listing and the mutual-exclusion plans for the backends, the `nmcli`
  command lines, the GUI's state machine and key bindings, and the messages of
  the commands and of the GUI's status line. Each public function states its result in its contract;
  the `law_*` proof functions state what holds across calls (activating one
  VPN leaves it the only active one, disconnecting leaves none active, the
  GUI's selection always names a row, a busy GUI starts nothing new, …).
- `app/` is the program around it: argument parsing, the Iced window, the
  D-Bus and subprocess calls to NetworkManager, systemd and `tailscale`, the
  single-instance lock and the preferences file. It hands the library plain
  values and carries out the actions the library returns.
- `tests/` runs the library on concrete inputs.
