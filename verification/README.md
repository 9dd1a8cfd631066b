# rustbot

A Discord bot built on serenity and songbird, split in two:

- `src/` is the verified library. It decides what the bot does: which reply
  a command sends, whom `spam` mentions, which users `split` moves, how
  `play` and `join` get the bot into the author's voice channel, how `loop`
  switches looping, and when the bot leaves a call that only bots are in.
  Commands that wait on Discord between decisions are written as state
  machines (`connect_step`, `loop_step`, `auto_leave_step`): the caller
  performs each effect and reports what happened.
- `app/` is the program: command line, telemetry, the Discord client and the
  command shells that read from Discord, call the library and carry out its
  decisions.

Modules of the library: `text` (white space and prefixes), `replies`,
`token`, `guild` (voice states, channels, roles and members as plain
values), `random` (`random` and `split`), `spam`, `voice` (`play`, `join`,
`leave`, `skip`, `loop`) and `eventhandler`.
