# rustyz

A Discord bot whose rules are a library verified with Verus.

`src/` is the library. Each module holds one part of what the bot decides or
computes, with contracts that Verus proves:

- `playtime`: play time per game from the presence log, paging and buttons;
- `calendar`, `window`: month arithmetic and the start of a "recent" window;
- `presence`, `activity`: game names, who is in which server, last-seen and
  last-played replies, uptimes;
- `vote`, `shippo`, `twitch`, `raiderio`, `wow`, `weather`: the rules of those
  commands and what the services' replies come to;
- `commands`: the registered commands and where each one goes;
- `members`, `embeds`, `fun`, `text`, `pattern`: replies, cards and text
  handling;
- `images`: which picture the compressing command takes, and the compression
  itself (the portrait crop is in `wow`).

Calls into outside crates (regular expressions, number grouping, time zones,
random draws, date arithmetic, picture codecs) stand behind small trusted functions whose contracts say what
the crate does.

`app/` is the program around the library: configuration, the database, the
Discord gateway, HTTP services, and the floating-point formatting of weather
and averages. `tests/` runs the library on concrete cases.
