# bridge

A Discord ⇄ Hypixel guild chat bridge whose core logic is verified with Verus.

- `src/` is the verified library: the grammar of the Minecraft chat lines the
  bridge reacts to (`grammar`, `chat`, `events`), the checks and replies of the
  slash commands (`commands`, `guild`, `legacy`, `execute`, `help`,
  `interactions`), the path of a Discord message into Minecraft (`inbound`,
  `chat_command`, `mentions`, `sanitizer`), what the bridge posts on Discord for
  each Minecraft event (`relay`, `discord`, `status`), the member list behind
  autocompletion (`autocomplete`) and the configuration (`config`,
  `bridge_config`).
- `tests/` runs the library on concrete chat lines and commands.
- `app/` is the program around it: the Discord gateway and HTTP client, the
  environment, and the loops that carry messages between the two sides.
