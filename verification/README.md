# athen_app

The decision logic of the Athen desktop assistant, as a library verified with
Verus.

- `src/` holds the library. Every function states in its contract what it
  returns or changes; the public proof functions state what holds across
  functions (which arc a message may reach, that secrets leave the disk when a
  vault takes them, that messages are split without loss).
- `app/` is ordinary Rust around it: files, network, timers, and the loops that
  carry out what the library decides.
- `tests/` runs the library on concrete values.

Where the library calls chrono, serde_json, url, uuid or a part of the standard
library that has no specification, the call stands in a small wrapper whose doc
comment says what is claimed of it. Most of these claims only give the result a
name; the function that uses the result is proved for every value of it.

| Module | What it decides |
| --- | --- |
| `models`, `providers` | connections, bundles, and the catalog of providers |
| `routing`, `router_plan` | which model serves a tier, an arc and a task |
| `credentials`, `provider_settings`, `provider_edits` | keys, and saving, deleting and activating providers |
| `settings`, `channel_settings`, `notifications`, `attachments`, `embeddings`, `github`, `onboarding` | the settings page and what saving it does |
| `probes`, `setup`, `calendar_sources`, `endpoint_docs`, `skills_render` | connection tests, setup tools, and generated texts |
| `owner_messages`, `owner_turn`, `deep_research`, `telegram_progress` | Telegram: commands, the arc of a message, the course of a turn, progress and replies |
| `dispatch`, `schedule`, `state`, `wiring`, `spawn_pidfile` | background loops and when they run, startup and shutdown |
| `text`, `json`, `time` | helpers on texts, JSON and points in time |
