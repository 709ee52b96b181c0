# professor

A Discord helper bot. The library in `src/` holds everything the bot decides,
each function with a contract that Verus proves; `app/` connects to Discord and
turns those decisions into requests.

- `ayy`: answers "ayy" with "lmao", word for word.
- `cheeseburger`, `too_fat`: fixed answers to some messages.
- `error_codes`: finds console error codes such as `151-0204` in messages and
  explains them from a catalog; the explanation collapses after half a minute
  and a button expands it again.
- `emergency_report`, `miiverse_mod_application`: slash commands that show a
  form and post its answers in a staff channel.
- `fest_fax`: a slash command that announces a Splatfest from the festival data
  file.
- `message`, `text`: what the handlers share.

The error-code catalog is read at start-up from `./error-codes/data`, one
directory per category, each with an `en_US.json` and one directory per error.
The bot logs in with the token in `PROFESSOR_TOKEN` (also read from `.env`).
