//! What the services hold, and what it means that they do as they are asked.
//!
//! The laws on whole conversations are laws on services that keep to this account, and that no one
//! else makes use of meanwhile.
//!
//! Requests to change something may fail. Requests to tell something do not: where no `m.direct` is
//! told, the user has none, and where no count is told, there is no such room. So the laws that no
//! one loses a direct chat hold where what is there can be read. An `m.direct` that cannot be read
//! is taken for none; a room is then listed in one that is begun anew, and what it listed is lost.
//!
//! Of a room ID that is drawn at random, this account says that no room has it yet.
use crate::dialogue::Exchange;
use crate::direct::{listed, DirectView};
use crate::service::{Membership, ReplyView, Request, RequestView, StateContent};
use vstd::prelude::*;

verus! {

/// What the services hold.
pub struct World {
    /// The users of this server.
    pub local: Set<Seq<char>>,
    /// The users who have an account.
    pub accounts: Set<Seq<char>>,
    /// The `m.direct` account data of each user who has any.
    pub direct: Map<Seq<char>, DirectView>,
    /// The users who have joined each room that is there.
    pub members: Map<Seq<char>, Set<Seq<char>>>,
    /// The keys of the global table.
    pub keys: Set<Seq<u8>>,
    /// The tags that each user has on each room: user, room, tag.
    pub tags: Set<(Seq<char>, Seq<char>, Seq<char>)>,
}

impl World {
    /// The users who have joined a room.
    pub open spec fn joined(self, room: Seq<char>) -> Set<Seq<char>> {
        if self.members.contains_key(room) {
            self.members[room]
        } else {
            Set::empty()
        }
    }

    /// The rooms that a user's `m.direct` lists for `peer`.
    pub open spec fn rooms_with(self, owner: Seq<char>, peer: Seq<char>) -> Seq<Seq<char>> {
        if self.direct.contains_key(owner) {
            listed(self.direct[owner], peer)
        } else {
            Seq::empty()
        }
    }

    /// A room that two different users have joined, and no one else.
    pub open spec fn is_chat(self, one: Seq<char>, other: Seq<char>, room: Seq<char>) -> bool {
        one != other && self.joined(room) == Set::empty().insert(one).insert(other)
    }

    /// The bot's `m.direct` lists, for the user, a room that the two have joined, and no one else.
    pub open spec fn has_dm(self, bot: Seq<char>, user: Seq<char>) -> bool {
        exists|i: int| #[trigger] self.is_listed_dm(bot, user, i)
    }

    /// Room `i` of those listed for the user is the two's own.
    pub open spec fn is_listed_dm(self, bot: Seq<char>, user: Seq<char>, i: int) -> bool {
        0 <= i < self.rooms_with(bot, user).len() && self.is_chat(
            bot,
            user,
            self.rooms_with(bot, user)[i],
        )
    }

    /// The same world, with a user among those who have joined a room.
    pub open spec fn with_member(self, room: Seq<char>, user: Seq<char>) -> World {
        World { members: self.members.insert(room, self.joined(room).insert(user)), ..self }
    }

    /// Nothing has changed in who is in which room, and in which rooms are listed.
    pub open spec fn same_chats(self, other: World) -> bool {
        self.direct == other.direct && self.members == other.members
    }
}

/// Whether a request was carried out with success.
pub open spec fn is_done(reply: ReplyView) -> bool {
    reply is Done && reply->Done_0 is Ok
}

/// What a request that was carried out makes of the world.
pub open spec fn effect(before: World, request: RequestView) -> World {
    match request {
        Request::CreateUser { user, .. } => World {
            accounts: before.accounts.insert(user),
            ..before
        },
        Request::UpdateDirect { owner, direct } => World {
            direct: before.direct.insert(owner, direct),
            ..before
        },
        Request::AppendState { room, sender, event } => if event.content == (
        StateContent::<Seq<char>>::Member { membership: Membership::Join }) {
            before.with_member(room, event.state_key)
        } else {
            before
        },
        Request::Join { user, room, .. } => before.with_member(room, user),
        Request::SetRoomTag { owner, room, tag, .. } => World {
            tags: before.tags.insert((owner, room, tag)),
            ..before
        },
        Request::InsertKey { key } => World { keys: before.keys.insert(key), ..before },
        _ => before,
    }
}

/// Whether what a reply tells is so.
pub open spec fn is_true_in(world: World, request: RequestView, reply: ReplyView) -> bool {
    match request {
        Request::IsLocal { user } => reply->Flag_0 == world.local.contains(user),
        Request::UserExists { user } => reply->Flag_0 == world.accounts.contains(user),
        Request::GetDirect { owner } => reply->Direct_0 == if world.direct.contains_key(owner) {
            Some(world.direct[owner])
        } else {
            None
        },
        Request::JoinedCount { room } => match reply->Count_0 {
            Some(count) => world.joined(room).finite() && count == world.joined(room).len(),
            None => !world.members.contains_key(room),
        },
        Request::IsJoined { user, room } => reply->Flag_0 == world.joined(room).contains(user),
        Request::NewRoomId { .. } => !world.members.contains_key(reply->Room_0),
        Request::GetKey { key } => is_done(reply) <==> world.keys.contains(key),
        _ => true,
    }
}

/// The service tells what is so, and carries out what it is asked to, or else leaves everything as
/// it is and replies with a failure.
pub open spec fn serves(before: World, exchange: Exchange, after: World) -> bool {
    &&& is_true_in(before, exchange.request, exchange.reply)
    &&& after == if exchange.reply is Done && !is_done(exchange.reply) {
        before
    } else {
        effect(before, exchange.request)
    }
}

/// `worlds` is how the world goes from exchange to exchange.
pub open spec fn is_history(worlds: Seq<World>, talk: Seq<Exchange>) -> bool {
    &&& worlds.len() == talk.len() + 1
    &&& forall|i: int|
        0 <= i < talk.len() ==> serves(worlds[i], #[trigger] talk[i], worlds[i + 1])
}

/// The history of a conversation is that of its first part and then that of the second.
pub proof fn lemma_history_parts(worlds: Seq<World>, talk: Seq<Exchange>, cut: int)
    requires
        is_history(worlds, talk),
        0 <= cut <= talk.len(),
    ensures
        is_history(worlds.take(cut + 1), talk.take(cut)),
        is_history(worlds.skip(cut), talk.skip(cut)),
        worlds.take(cut + 1)[0] == worlds[0],
        worlds.take(cut + 1).last() == worlds[cut],
        worlds.skip(cut)[0] == worlds[cut],
        worlds.skip(cut).last() == worlds.last(),
{
    let early = worlds.take(cut + 1);
    let late = worlds.skip(cut);
    assert forall|i: int| 0 <= i < talk.take(cut).len() implies serves(
        early[i],
        #[trigger] talk.take(cut)[i],
        early[i + 1],
    ) by {
        assert(talk.take(cut)[i] == talk[i]);
    }
    assert forall|i: int| 0 <= i < talk.skip(cut).len() implies serves(
        late[i],
        #[trigger] talk.skip(cut)[i],
        late[i + 1],
    ) by {
        assert(talk.skip(cut)[i] == talk[i + cut]);
    }
}

/// The history of a conversation that is not empty is its first step and then the rest.
pub proof fn lemma_history_step(worlds: Seq<World>, talk: Seq<Exchange>)
    requires
        is_history(worlds, talk),
        talk.len() > 0,
    ensures
        serves(worlds[0], talk[0], worlds[1]),
        is_history(worlds.drop_first(), talk.drop_first()),
        worlds.drop_first()[0] == worlds[1],
        worlds.drop_first().last() == worlds.last(),
{
    lemma_history_parts(worlds, talk, 1);
    assert(worlds.skip(1) =~= worlds.drop_first());
    assert(talk.skip(1) =~= talk.drop_first());
    assert(serves(worlds[0], talk[0], worlds[1]));
}

} // verus!
