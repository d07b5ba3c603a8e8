# announcements

System notices for a Matrix homeserver. Every local user has a direct chat with a bot that writes
the notices; the library sees to it that these chats exist, carry their tags, greet a user once, and
that only administrators can send an announcement to all of them.

The library decides; the homeserver acts. A procedure is a task that asks for one thing after the
other (`service::Request`) and goes on by the replies (`service::Reply`). What it asks, in which
order and to what end, is stated as a `dialogue::Dialogue`, and every task is proved to keep to its
dialogue.

- `src/text.rs`, `src/direct.rs`: text, identifiers, and the content of `m.direct`
- `src/service.rs`, `src/dialogue.rs`: requests, replies, and conversations made of them
- `src/rooms.rs`, `src/creation.rs`, `src/welcome.rs`, `src/provision.rs`, `src/backfill.rs`: the
  procedures on direct chats
- `src/api.rs`: the HTTP endpoints
- `src/world.rs`, `src/laws/`: what the services hold, and what is proved of whole conversations
- `app/`: the homeserver's side
