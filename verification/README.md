# revolt_core

The rules of a chat service, verified with Verus: channels and threads, unread messages,
calendar events with recurrence, follows of announcement channels, files, donations,
end-to-end encrypted devices, imports of servers, commands of bots, what a gateway
connection sees and is told, settings, and the schema of the database with its migrations.

- `src/` is the library. Every function states what it returns or changes; what holds
  across functions is proved in functions whose names begin with `law_`.
- `tests/` runs the library on concrete values.
- `app/` is the code around it that reads settings, talks to MongoDB and listens for
  connections.

## Where to start

- `table` and `db`: rows kept in order under distinct keys, and the in-memory database
  that all stores are stated over.
- `calendar`, `calendar_store`, `calendar_laws`: occurrences of a series on the wall clock
  of its time zone, edits, answers to invitations.
- `channels`, `channel_store`, `channel_ops`: channels of every kind, threads, groups and
  unread messages.
- `cache`, `gateway`, `ready`: what a connection knows, which events reach it, and what it
  gets when it begins.
- `donations`, `donation_store`: payments, claim codes and supporter totals.
- `e2ee`, `e2ee_store`: device keys, signatures, envelopes and backups.
- `schema`, `migrations`: the steps that make a fresh database or bring an old one up to
  date.

What other crates compute (time zones, digests, signatures, patterns, identifiers) is
called through small functions marked `external_body`; each one says what is taken on
trust.
