# discord_bot

The decision logic of a small Discord bot, verified with Verus, and the program
around it.

- `src/` — the verified library:
  - `text` — ASCII bytes to `String`, decimal rendering, prefix tests;
  - `pretty_numbers` — digit grouping (`"100000"` → `"100,000"`) and its laws;
  - `commands` — which command a chat message asks for;
  - `ping`, `last_seen`, `dictionary` — reply texts and request addresses;
  - `most_played_game` — which presence activities are stored as played games;
  - `message_activity` — the per-second message counting queue and the
    `!msgstats` reply;
  - `timestamps` — the range check that chrono makes on UNIX seconds.
- `app/` — the bot itself: gateway events, database and HTTP calls, logging.
- `tests/` — tests of the library on concrete values.
