# fabsebot

A Discord bot whose decisions are written in Verus and proved against their contracts.

- `src/` is the verified library: parsing of configuration, command arguments and message
  links; splitting of long texts into message-sized pieces; the chatbot's context text;
  pixel operations on quote images; paging, polls, rankings and games; the decisions taken
  on each incoming message (AFK notices, pings, word tracking, reactions, global chat relay);
  guild and user settings with their laws; music queue and seek decisions; media checks;
  the frames of quote pictures (avatar decoding, resizing and blending through the `image`
  crate). Calls into outside crates (`urlencoding`, `base64`, `scraper`, `image`, and a few
  std string operations) stand behind small trusted wrappers whose doc comments say what
  they claim.
- `tests/` runs the library on concrete values.
- `app/` holds what Verus does not see: the Discord client (`poise`/`serenity`), the
  database (`sqlx`), HTTP requests (`reqwest`), caches and text layout with fonts. It hands
  plain values to the library and acts on what comes back.

Not wired into `app/`: the music and voice commands (playback, queueing, seeking, pausing,
joining and leaving voice, global music, text to speech), which need a voice client that
is not among the dependencies; their decisions stand in `src/music.rs`. Nor the AI
summary command, whose endpoint the configuration does not name.
