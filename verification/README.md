# dm-mcp

A toolkit for AI dungeon masters who run solo campaigns: one player, a language model that
narrates, and a server that keeps the state of the world and its rules. Tools are served over
the Model Context Protocol, on stdio or over HTTP.

The rules are a library written in Rust and verified with Verus. The server around it is
ordinary Rust.

## Layout

- `src/` is the library. A campaign is a set of tables in memory (`campaign`, `rows`) with an
  invariant, `World::wf`, that every operation keeps. Each operation says in its contract
  when it is refused and with which error, and which campaign comes out of it otherwise.
- `app/` is the server: settings from the environment, content from YAML, SQLite, JSON and
  the two transports.
- `tests/` runs the library on examples.

| Modules | About |
|---|---|
| `campaign`, `rows`, `integrity`, `events`, `history` | tables, what holds of them, the append-only log |
| `characters`, `proficiencies`, `effects`, `conditions`, `checks` | characters and what they can do |
| `dice`, `random`, `hit_points`, `templates`, `npcs` | chance, and what is made by it |
| `setup`, `terrain`, `survey`, `world`, `recall` | the beginning, the map, the clock, memory |
| `encounters`, `combat`, `rests` | fights, other ways out of them, and recovery |
| `inventory`, `barter` | things, what they weigh and what they fetch |
| `content`, `config`, `http`, `handler`, `error` | rule content, settings, access, refusals |
| `text`, `doubles` | texts and numbers |

## Conventions

Where chance decides, there are two functions: one that takes the draws as an argument and
says exactly what comes of them, and one that makes the draws and calls it.

Weights and values are whole thousandths, chances whole millionths. Where a rule multiplies by
a number in double precision, `doubles` says in whole numbers what comes of it.

Laws that relate several operations are the public proof functions named `law_...`: that a
dispelled effect leaves nothing behind, that experience does not depend on the way a goal was
reached, that knowledge of the map only grows, and so on.

What is taken on trust is small: drawing a random number, reading a JSON string, asking whether
a log filter can be read, how a string is quoted, and `String::push`. Each of these is a few
lines with a comment that says what is claimed.
