# notnotsavebot

The verified core of two Telegram bots, `notnotsavebot` and the smaller `mine-bot`. A bot takes the
address of a post, has `yt-dlp` fetch its media, has `ffmpeg` make them fit for phones and for the
upload limit, and sends them back with the text of the post.

`src/` is a Verus library. It holds what the bots decide: what settings mean, which links are which
posts, what a page or an answer says about a post, how files are named, how a download and a
conversion go on after each step, what is shown meanwhile, who may use the bot, and what is sent.
Every function states its result in its contract, and Verus proves it. Public proof functions state
what holds across functions.

| Modules | About |
| --- | --- |
| `text`, `numbers`, `order`, `json` | characters, numerals, sorting, JSON documents |
| `config`, `document`, `listing`, `settings` | settings and the `config` commands |
| `users`, `accounts`, `schema` | roles, the table of users, its layout |
| `commands` | messages and the answers to them |
| `links`, `posts`, `images` | addresses, posts and their images |
| `metadata`, `filename`, `present`, `decoding`, `round_trip` | what is known of a post, file names, messages |
| `download`, `encode`, `delivery` | the steps of a download, of a conversion, of sending |
| `progress`, `status` | what the tools report and the status message |
| `mine_bot` | the rules of `mine-bot` |

A few calls into `serde_json`, `url`, `chrono`, `camino` and the standard library are taken at their
word. Each stands behind an item whose comment says what is claimed of it.

`Cargo.toml` names `takecell` only to hold this dependency of `teloxide` to a version that compiles.

`app/` is the program around the library: the command line, the database, the network, the tools
and Telegram. It runs as `mine-bot` when it is called by that name. `tests/` runs the library on
given values.
