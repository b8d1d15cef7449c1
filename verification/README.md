# arxos

The control library of ArxOS: an anonymity daemon with a fail-closed kill-switch, per-app Tor
isolation, the update ping, and the panels of the Control Center. The library decides; it never
touches the host. What has to be done comes out of it as data — commands, plans, the next action of
a state machine — and what the host replies goes back in. Every function is verified with Verus, but
for the wrappers around `serde_json` and `Debug` of std. Their contracts are trusted, and so is the
one given to `String::push` of std.

## Layout

- `src/` — the verified library.
  - Texts and data: `text`, `number`, `json`, `order`, `plan`, `host`, `util`.
  - The daemon: `nft` (rulesets and what they do to a packet), `killswitch`, `state`, `dns`,
    `harden`, `tor`, `i2p`, `verify`, `anond`, and its two state machines, `bring_up` and
    `take_down`.
  - Per-app isolation: `arxonion` (the ruleset) and `confine` (the state machine).
  - The update ping: `notify`.
  - The Control Center: `panel`, `sysinfo`, `net`, `perf`, `vm_tools`, `wallpaper`, `community`.
  - What holds of them together: `fail_closed`, `reversal`, `round_trip`, and the `law_` functions
    of the other modules.
- `tests/` — the library on concrete values, with a host that is made up.
- `app/` — the programs around the library: they run commands, read files and ports, and print.

## What is proved

- Under the kill-switch a packet leaves only through loopback, for an exempt user, on a tracked
  connection, to a private range, or with the port number of one of Tor's listeners; IPv6 leaves
  through loopback alone, and new clearnet connections go into Tor (`killswitch`).
- A bring-up arms the kill-switch before anything else, in one transaction that never takes down one
  that is up, never takes it down later, and calls a session active only when every probe has passed
  (`killswitch`, `fail_closed`).
- Taking a session down puts back the swap, the host name, the hardware addresses, the kernel settings
  and the resolver configuration that bringing it up found, where they could be read, and removes the
  kill-switch last (`reversal`, `round_trip`, `take_down`).
- A command in the isolation namespace reaches Tor and nothing else and runs only in a whole
  namespace. A namespace that was built for one command or one shell goes with it, and so do its
  files; the kernel settings that were changed for it are put back (`arxonion`, `confine`).
- The update ping tells a change, and does not tell the same thing twice in a row (`notify`).

A namespace that is kept up with `arxonion up` changes kernel settings for the whole host, and
`arxonion down` does not know what they were.
