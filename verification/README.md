# war

`war` packs a Go module cache into a portable archive on an online machine
and restores it on an offline one, so that `go build` works without a
network.

- `src/` is the verified library: the staged-module list of `~/.war/war.lock`,
  the `vendor/modules.txt` parser, the mapping between Go's `!`-encoded cache
  paths and archive paths, the pack plan, the per-entry unpack decisions, the
  sync decisions with their SHA-256 digest, the offline/online exports and the
  findings of `war go verify`.  Each public function states its result in its
  contract; the laws that tie several operations together are the `law_*`
  proof functions.
- `app/` is the `war` command line: argument parsing, the configuration file,
  the file system, zip archives, child processes and the environment.  It
  reads what the library needs, calls it, and acts on what it returns.
- `tests/` runs the library on concrete values.
