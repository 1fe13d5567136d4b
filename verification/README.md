# webapp_launcher

The logic of a desktop launcher for locally hosted web apps that are
installed from GitHub Releases, with its contracts proved.

- `src/` — the verified library:
  - `catalog` — the app records, the built-in catalog and lookups by id;
  - `paths` — where the launcher's files and each app's files live;
  - `processes` — the table of launched processes (a map from app id);
  - `process_tree` — the processes below a launched one and the order in
    which they are stopped;
  - `status` — bringing the catalog up to date with what is on disk and
    what still runs;
  - `release` — reading a release: repository addresses, asset choice for
    the host, update checks;
  - `commands` — the decisions of the install, launch, update-check and
    backup commands;
  - `backup` — settings, the backup folder, and mirroring each app's own
    backups into it;
  - `text` — text helpers (equality, containment, splitting, decimal
    notation).
- `app/` — the desktop shell: files, network, processes, JSON and the
  Tauri commands.
- `tests/` — tests of the library on concrete values.
