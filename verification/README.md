# navi_engine

The core of the Navi Discord bot engine, written in Verus and verified:
the dashboard's state machine (`tui_input`, `tui_state`, `tui_view`), the
plugin configuration registry and its key-value storage (`registry`,
`config`, `storage`, `admin`, `json`), permission levels (`perms`,
`types`), the Discord cache (`cache`), message layout (`components`),
interaction helpers (`interactions`, `bot`) and the self-update decisions
(`updater`, `archive`).

`app/` holds the program around the library: the Discord client, the Lua
engine that plugins run in, the SQLite store and the terminal dashboard.
