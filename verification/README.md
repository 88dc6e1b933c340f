# emrs

The rules of a media server that speaks Emby's protocol, as a library whose
behaviour is stated in contracts and proved by Verus.

## Layout

- `src/` is the library. It performs no input or output: it takes plain values
  and returns plain values, and every function states what it returns.
  - `emby/` builds the objects that clients receive: items, cards, people,
    views, media sources and their streams.
  - `ids`, `params`, `items`, `taxonomy`, `images` read requests and say what
    they ask for.
  - `auth`, `login`, `progress`, `streaming` decide who passes, who logs in,
    what was watched and which bytes are sent.
  - `filename`, `nfo`, `xml`, `pattern` read file names and metadata files.
  - `block_cache`, `cache`, `hosts`, `outbound`, `watcher`, `jobs`, `library`
    are the decisions behind the work in the background.
  - `text`, `number`, `json` are what the others are made of.
- `tests/` run the library on given values.
- `app/` is the server: routes, database, files and network. It asks the library
  what to do, does it, and hands back what happened.
- `extras/schema.sql` holds the tables of the database.

## How decisions and work are kept apart

Where work and decisions alternate, the library holds the decisions as a function
from a step and what came of it to the next step (`next_block_step`,
`guard_after_lookup`, `after_fetch`, `Batch::step`, `scan_step`, `scrape_step`),
and `app/` runs the loop.

Numbers that are not whole (ratings, frame rates, aspect ratios) pass through the
library as they are held and become floating-point numbers in `app/`.

## What is not proved

Calls into `serde_json`, `quick-xml`, `regex`, `sha2`, `uuid`, `http`, `image` and a
few functions of the standard library stand behind small functions marked
`#[verifier::external_body]`. Each says in its comment what is taken on trust.
