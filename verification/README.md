# aletheia

The verified core of a save-game backup tool. `src/` holds the logic, each
function proved against its contract:

- `utils`: game names turned into folder names.
- `paths`: whether an archived path stays inside its folder; last component of a Unix path.
- `gamedb`, `patterns`: a game's save-file patterns per platform, matched with the `glob` crate.
- `backups`: archive file names, listing backups newest first, pruning.
- `backup`: the steps of a backup: patterns searched, files archived, archive name, pruning.
- `restore`: which archived files may be written back, and which archive is restored.
- `infer`, `game`: recognising the launcher and restoring the game it starts.
- `scanner`: games recorded by Heroic and itch.io.
- `commands`: the archives the `verify` command checks.

`app/` is the program around it: files, the itch.io database, Steam's library,
environment variables and the local clock.
