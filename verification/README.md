# pickup_queue

The logic of a chat bot that forms pickup groups: players queue as tank,
healer or dps; as soon as the queue holds five different users who make up one
tank, one healer and three dps, the first such choice (in order of queue
positions) is announced and those users leave the queue.

- `src/` — the library, verified with Verus: the queue, group search and timeouts
  (`functions`), the enumeration of combinations (`combos`, on itertools),
  per-user settings and the slash commands (`usersettings`, `commands`), the
  decisions on chat events (`handler`), decimal text (`text`), and the
  properties that hold across operations (`laws`).
- `app/` — the bot itself: the chat client (serenity), the async runtime
  (tokio), the SQLite settings store (rusqlite).
- `tests/` — tests of the library.
