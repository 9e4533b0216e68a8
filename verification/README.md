# discord_to_insta

Turns the announcements of a Discord channel into Instagram captions, picks the
image for the distance that an announcement names, and runs the bots around
them: the auto-reactor, the invite-link moderation, the weekly polls, the
message log and the approval of posts on Telegram.

`src/` is the library, written in Verus. Every function states what it does in
its contract, and the contracts are proved. `app/` is the program around it: the
window, the network, the database and the files. `tests/` runs the library.

| Module | What it decides |
|---|---|
| `transform` | the caption of an announcement |
| `images` | the distance in an announcement and its image |
| `poller` | which messages get which reactions, and what is remembered |
| `state` | what is remembered between runs |
| `moderation` | warnings, alerts and deletions for invite links |
| `weekly_poll` | when the weekly polls go out and what they ask |
| `gateway` | what arrives on the Discord gateway and what it leads to |
| `db` | which statements record what was seen |
| `discord`, `telegram`, `instagram` | requests, replies and errors |
| `window` | what the window holds and shows |
| `text`, `strmap`, `log`, `calendar`, `json`, `patterns` | what the others are built on |

What the library takes from other crates stands in `patterns` (regular
expressions), `json` (JSON documents) and `calendar` (dates), behind functions
whose contracts are not proved; each says which function it calls and what it
claims of it. `text` adds a contract for `String::push`.

Properties of the library as a whole are the proof functions whose names begin
with `law_`.
