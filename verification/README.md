# dotman

A dotfiles deployment manager: it reads `dotman.yaml`, builds a plan of
installs, links, directories, shell steps and cleanups, runs it, and keeps a
history of runs.

- `src/` is the library, written in Verus. Every function there carries a
  contract that Verus proves: plan building and selection, the bookkeeping of
  a run (item and action outcomes, retries, aborts, and the step-by-step
  driver that decides what to report and when to stop), config normalisation,
  install command resolution, link and clean decisions, profiles, history
  listing, the web demo's state machine and what its run and plan screens
  draw, the diff summary, doctor findings, the self-update decisions and
  checksum check, and the text handling they share. Calls into outside crates
  (SHA-256, ULIDs, clock, Unicode widths, semver, regex) go through small
  trusted wrappers whose doc comments say what is assumed of them.
- `app/` is the command-line program around the library: argument parsing,
  files, processes, the network, and the serde copies of library types.
- `tests/` exercises the library on concrete values.
