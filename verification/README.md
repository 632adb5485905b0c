# Formation Lap

Formation Lap starts and closes a sim-racing Session: a Primary Sim with its
Supporting Applications, described by Racing Profiles and Launch Recipes.

- `src/` is the library, written and proved with Verus: the Racing Profile
  library, the Session state machine (`formation_core`), the command layer
  (`commands`), the elevated-helper protocol, process-tree and observation
  rules, update advice and the signed updater's decisions, and the storage
  recovery rules. Calls into `url`, `uuid`, `sha2`, `base64`, `semver` and
  `minisign-verify` sit behind small wrappers whose contracts are stated next
  to them.
- `tests/` exercises the library on concrete values.
- `app/` is the desktop program around the library: the Tauri window and tray,
  files on disk, Windows process and registry calls, and network requests.

What the desktop program does not contain: the elevated helper process and a
Windows privilege broker that talks to it over a named pipe. The library holds
the helper's protocol (message framing, the size limit, the pipe-name and nonce
checks, ownership offers and response checks), but `app/` ships the
`DevelopmentPrivilegeBroker`, which answers every elevated request from its
queue of prepared responses and refuses it when that queue is empty. Profiles
whose applications need elevation therefore cannot start or close them.

The Session core keeps a ghost record of the requests it makes to start, adopt,
look at and stop Processes (`FormationLapCore::requests`), so that its
contracts can say which Processes a command asks to close, that closing never
terminates one, and that some commands make no such request at all.
