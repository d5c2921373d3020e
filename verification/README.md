# azure_pim_tui

A terminal client for Azure Privileged Identity Management: it lists the
roles the signed-in user is eligible for, across subscriptions and groups,
and activates or deactivates them.

- `src/` is the library, verified with Verus: the application state and
  what every key press and background result does to it, the role lists
  built from the API answers, request addresses and bodies, the token
  cache and the sign-in decisions, and the texts the screen shows.
  `src/laws.rs` states the properties that span several operations.
- `app/` is the program around it: terminal drawing, HTTP calls, sign-in,
  reading the settings file, and the main loop, which carries out what the
  library decides.
- `tests/` runs the library on concrete values.
