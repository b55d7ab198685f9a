# mod-updater

A terminal tool that checks a Minecraft `mods` directory for updates on Modrinth and,
with an API key, on CurseForge, and installs them.

The decisions are made in a library verified with Verus (`src/`):

- `mc_version`: strict Minecraft version parsing, comparison, and whether a file name
  mentions a version as a token.
- `verify`: Fabric/Quilt dependency strings, Maven intervals and `mods.toml` version
  ranges, and the compatibility check of a downloaded jar's metadata texts (a file that
  does not parse cannot be checked and passes; only a clear mismatch is an error).
- `tree`: JSON and TOML documents as plain trees, parsed by `serde_json` and `toml`.
- `curseforge`, `modrinth`: the jar fingerprint, reading API replies, paging and
  rate-limit decisions.
- `resolve`: choosing the file to install and the step-by-step resolution of one jar
  (Modrinth by hash, then CurseForge by fingerprint or by name).
- `scan`, `hashing`, `sort`: what a scan records, digests, and the stable orderings of
  the lists.
- `tui`, `config`, `download`: the table's texts and key handling, configuration
  overrides, the `MOD_UPDATER_MODS_DIR` fallback and validation (a missing Minecraft
  version becomes `1.21.1`), and the plan of an installation: a fetched jar is checked
  before it replaces the installed one when `verify_after_download` is set.

`app/` holds the program around it: command line, files, HTTP, the event loop and the
drawing. `tests/` exercises the library.
