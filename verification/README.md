# ember_bridge

The verified core of Ember Bridge, the desktop app that sends embroidery
designs to machines on the local network.

- `src/` is the library, with the proofs of its contracts:
  - `link`: which `ember-bridge://` links open which page;
  - `update`: when the app may install an update of itself;
  - `net`, `machine`, `text`: addresses, what machines report, text comparison;
  - `identity`: recognising a saved machine by serial number, following it to
    a new address, and the resolution steps that decide which machine to use;
  - `jobs`: the transfer history and queue (admission, cancellation,
    confirmation, restart recovery, pruning);
  - `upload`: the decisions of the upload worker;
  - `error`: the errors the transfer API reports.
- `tests/` exercises the library on concrete values.
- `app/` is the Tauri shell: disk persistence, the async worker and identity
  resolution against real devices, deep links and the updater.
