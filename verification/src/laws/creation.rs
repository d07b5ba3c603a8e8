//! Laws on making a direct chat.
use crate::creation::{
    append_state, create_room, dm_power_levels, if_done, initial_state, join_request, join_user,
    list_for_bot, list_for_user, lock_to_build, lock_to_join, register_room, stated_creator,
    tag_new, unlock_built, unlock_failed, unlock_joined,
};
use crate::dialogue::{conclusion, lemma_conversation_parts, Dialogue, Exchange};
use crate::direct::listed;
use crate::laws::requests::{is_marking, lemma_both_listings_ask, lemma_talk_asks_only};
use crate::laws::rooms::{
    is_tagged, law_listing_lists_the_room, law_listing_stores_the_list,
    law_tagging_covers_every_tag, lemma_tagged_in_part, lemma_tags_keep, listed_also, requests,
    stores_listed, tag_requests,
};
use crate::rooms::{list_room, tag_room};
use crate::service::{
    ConfigView, FailureView, GuestAccess, HistoryVisibility, JoinRule, Membership, PowerLevels,
    RequestView, RoomVersion, StateContent, StateEvent,
};
use crate::text::is_generated_room_id;
use crate::world::{is_history, lemma_history_parts, lemma_history_step, World};
use vstd::prelude::*;

verus! {

/// The level of a user.
pub open spec fn level_of(levels: PowerLevels<Seq<char>>, user: Seq<char>) -> int {
    if user == levels.user {
        levels.user_level as int
    } else {
        levels.users_default as int
    }
}

/// Whether a level is enough for everything that takes a level in a room.
pub open spec fn may_do_anything(levels: PowerLevels<Seq<char>>, level: int) -> bool {
    &&& level >= levels.ban
    &&& level >= levels.events_default
    &&& level >= levels.invite
    &&& level >= levels.kick
    &&& level >= levels.redact
    &&& level >= levels.state_default
}

/// Whether a level is too low for anything that takes a level in a room.
pub open spec fn may_do_nothing(levels: PowerLevels<Seq<char>>, level: int) -> bool {
    &&& level < levels.ban
    &&& level < levels.events_default
    &&& level < levels.invite
    &&& level < levels.kick
    &&& level < levels.redact
    &&& level < levels.state_default
}

/// In a direct chat the bot may do everything, and no one else may write, invite, remove or
/// change anything.
pub proof fn law_only_the_bot_may_act(bot: Seq<char>, user: Seq<char>)
    ensures
        may_do_anything(dm_power_levels(bot), level_of(dm_power_levels(bot), bot)),
        user != bot ==> may_do_nothing(
            dm_power_levels(bot),
            level_of(dm_power_levels(bot), user),
        ),
{
}

/// Whoever makes a room is named in the event that makes it in the versions before 11, and not in
/// those from 11 on.
pub proof fn law_creators_are_named_before_version_11(version: RoomVersion, creator: Seq<char>)
    ensures
        version is V11 || version is V12 <==> stated_creator(version, creator) is None,
        stated_creator(version, creator) is Some ==> stated_creator(version, creator) == Some(
            creator,
        ),
{
}

/// Nothing that was there is gone: rooms keep their members, lists of direct chats grow at their
/// end, and keys and accounts stay.
pub open spec fn grows(before: World, after: World) -> bool {
    &&& after.local == before.local
    &&& before.keys.subset_of(after.keys)
    &&& before.accounts.subset_of(after.accounts)
    &&& forall|room: Seq<char>| #[trigger]
        before.members.contains_key(room) ==> after.members.contains_key(room)
            && after.members[room] == before.members[room]
    &&& forall|owner: Seq<char>, peer: Seq<char>| #[trigger]
        before.rooms_with(owner, peer).is_prefix_of(after.rooms_with(owner, peer))
}

/// To grow is transitive.
pub proof fn lemma_grows_on(first: World, second: World, third: World)
    requires
        grows(first, second),
        grows(second, third),
    ensures
        grows(first, third),
{
    assert forall|owner: Seq<char>, peer: Seq<char>| #[trigger]
        first.rooms_with(owner, peer).is_prefix_of(third.rooms_with(owner, peer)) by {
        let one = first.rooms_with(owner, peer);
        let two = second.rooms_with(owner, peer);
        let three = third.rooms_with(owner, peer);
        assert(one.is_prefix_of(two));
        assert(two.is_prefix_of(three));
        assert(one =~= three.subrange(0, one.len() as int)) by {
            assert forall|i: int| 0 <= i < one.len() implies one[i] == three[i] by {
                assert(one[i] == two.subrange(0, one.len() as int)[i]);
                assert(two[i] == three.subrange(0, two.len() as int)[i]);
            }
        }
    }
}

/// Who has a direct chat keeps it where nothing is lost.
pub proof fn lemma_growing_keeps_dms(before: World, after: World, bot: Seq<char>, user: Seq<char>)
    requires
        grows(before, after),
        before.has_dm(bot, user),
    ensures
        after.has_dm(bot, user),
{
    let i = choose|i: int| #[trigger] before.is_listed_dm(bot, user, i);
    let rooms = before.rooms_with(bot, user);
    assert(rooms.is_prefix_of(after.rooms_with(bot, user)));
    assert(after.rooms_with(bot, user).subrange(0, rooms.len() as int)[i] == rooms[i]);
    assert(before.joined(rooms[i]).contains(bot));
    assert(before.members.contains_key(rooms[i]));
    assert(after.is_listed_dm(bot, user, i));
}

/// The world with a new room, which the two have joined.
spec fn with_chat(base: World, room: Seq<char>, bot: Seq<char>, user: Seq<char>) -> World {
    World {
        members: base.members.insert(room, Set::empty().insert(bot).insert(user)),
        ..base
    }
}

/// The world with a new room, which the bot alone has joined.
spec fn with_bot_room(base: World, room: Seq<char>, bot: Seq<char>) -> World {
    World { members: base.members.insert(room, Set::empty().insert(bot)), ..base }
}

/// The room is the two's own, and each lists it for the other.
pub open spec fn is_mutual_chat(
    world: World,
    bot: Seq<char>,
    user: Seq<char>,
    room: Seq<char>,
) -> bool {
    &&& world.is_chat(bot, user, room)
    &&& world.rooms_with(bot, user).contains(room)
    &&& world.rooms_with(user, bot).contains(room)
}

/// Such a room is a direct chat.
pub proof fn lemma_mutual_chat_is_dm(
    world: World,
    bot: Seq<char>,
    user: Seq<char>,
    room: Seq<char>,
)
    requires
        is_mutual_chat(world, bot, user, room),
    ensures
        world.has_dm(bot, user),
{
    let i = choose|i: int|
        0 <= i < world.rooms_with(bot, user).len() && world.rooms_with(bot, user)[i] == room;
    assert(world.is_listed_dm(bot, user, i));
}

/// `rooms` with `room` among them, at the end if it is new there.
pub open spec fn added(rooms: Seq<Seq<char>>, room: Seq<char>) -> Seq<Seq<char>> {
    if rooms.contains(room) {
        rooms
    } else {
        rooms.push(room)
    }
}

/// A room that was not there is the two's own, and each lists it for the other. Apart from that and
/// from tags, nothing has changed: neither who is in which room, nor what anyone lists.
pub open spec fn is_new_chat(
    before: World,
    after: World,
    bot: Seq<char>,
    user: Seq<char>,
    room: Seq<char>,
) -> bool {
    let for_bot = listed_also(before.direct, bot, user, room);
    &&& bot != user
    &&& !before.members.contains_key(room)
    &&& after == World {
        members: before.members.insert(room, Set::empty().insert(bot).insert(user)),
        direct: listed_also(for_bot, user, bot, room),
        tags: after.tags,
        ..before
    }
}

/// In such a room the two have a chat, and it is all that is new in what they list for each other.
pub proof fn lemma_new_chat_is_mutual(
    before: World,
    after: World,
    bot: Seq<char>,
    user: Seq<char>,
    room: Seq<char>,
)
    requires
        is_new_chat(before, after, bot, user, room),
    ensures
        is_mutual_chat(after, bot, user, room),
        after.rooms_with(bot, user) == added(before.rooms_with(bot, user), room),
        after.rooms_with(user, bot) == added(before.rooms_with(user, bot), room),
{
    lemma_added_is_there(before.rooms_with(bot, user), room);
    lemma_added_is_there(before.rooms_with(user, bot), room);
}

/// What is added is there, and nothing else is new.
pub proof fn lemma_added_is_there(rooms: Seq<Seq<char>>, room: Seq<char>)
    ensures
        added(rooms, room).contains(room),
        forall|other: Seq<char>| #[trigger]
            added(rooms, room).contains(other) && other != room ==> rooms.contains(other),
{
    if !rooms.contains(room) {
        let longer = rooms.push(room);
        assert(longer[rooms.len() as int] == room);
        assert forall|other: Seq<char>| #[trigger]
            longer.contains(other) && other != room implies rooms.contains(other) by {
            let i = choose|i: int| 0 <= i < longer.len() && longer[i] == other;
            assert(rooms[i] == other);
        }
    }
}

/// What is so once the making of a chat is over.
spec fn is_outcome(
    base: World,
    last: World,
    bot: Seq<char>,
    user: Seq<char>,
    room: Seq<char>,
    result: Result<(), FailureView>,
) -> bool {
    &&& grows(base, last)
    &&& last.keys == base.keys
    &&& result is Ok ==> is_new_chat(base, last, bot, user, room)
}

proof fn lemma_list_grows(before: World, owner: Seq<char>, peer: Seq<char>, room: Seq<char>)
    ensures
        grows(
            before,
            World { direct: listed_also(before.direct, owner, peer, room), ..before },
        ),
{
    let after = World { direct: listed_also(before.direct, owner, peer, room), ..before };
    assert forall|one: Seq<char>, other: Seq<char>| #[trigger]
        before.rooms_with(one, other).is_prefix_of(after.rooms_with(one, other)) by {
        let rooms = before.rooms_with(one, other);
        assert(rooms =~= after.rooms_with(one, other).subrange(0, rooms.len() as int));
    }
}

proof fn lemma_listing_outcome(
    base: World,
    config: ConfigView,
    user: Seq<char>,
    room: Seq<char>,
    talk: Seq<Exchange>,
    worlds: Seq<World>,
)
    requires
        user != config.bot,
        !base.members.contains_key(room),
        worlds[0] == with_chat(base, room, config.bot, user),
        conclusion(
            list_for_bot(list_room(config.bot, user, room), config, user, room),
            talk,
        ) is Some,
        is_history(worlds, talk),
    ensures
        is_outcome(
            base,
            worlds.last(),
            config.bot,
            user,
            room,
            conclusion(
                list_for_bot(list_room(config.bot, user, room), config, user, room),
                talk,
            )->0,
        ),
{
    let bot = config.bot;
    assert(grows(base, worlds[0]));
    let for_bot = list_room(bot, user, room);
    let for_user = list_room(user, bot, room);
    let tagging = tag_room(bot, user, room, config.room_tags);
    let next = |listed: Result<(), FailureView>|
        if_done(listed, list_for_user(for_user, config, user, room));
    let cut = lemma_conversation_parts(for_bot, next, talk);
    lemma_history_parts(worlds, talk, cut);
    law_listing_lists_the_room(bot, user, room, talk.take(cut), worlds.take(cut + 1));
    let w1 = worlds[cut];
    lemma_list_grows(worlds[0], bot, user, room);
    lemma_grows_on(base, worlds[0], w1);
    if conclusion(for_bot, talk.take(cut))->0 is Ok {
        let talk1 = talk.skip(cut);
        let worlds1 = worlds.skip(cut);
        let next1 = |listed: Result<(), FailureView>| if_done(listed, tag_new(tagging));
        let cut1 = lemma_conversation_parts(for_user, next1, talk1);
        lemma_history_parts(worlds1, talk1, cut1);
        law_listing_lists_the_room(user, bot, room, talk1.take(cut1), worlds1.take(cut1 + 1));
        let w2 = worlds1[cut1];
        lemma_list_grows(w1, user, bot, room);
        lemma_grows_on(base, w1, w2);
        if conclusion(for_user, talk1.take(cut1))->0 is Ok {
            let talk2 = talk1.skip(cut1);
            let worlds2 = worlds1.skip(cut1);
            let next2 = |tagged: ()| Dialogue::<Result<(), FailureView>>::Return(Ok(()));
            let cut2 = lemma_conversation_parts(tagging, next2, talk2);
            lemma_history_parts(worlds2, talk2, cut2);
            law_tagging_covers_every_tag(bot, user, room, config.room_tags, talk2.take(cut2));
            lemma_tags_keep(worlds2.take(cut2 + 1), talk2.take(cut2), bot, user, room);
            assert(talk2.skip(cut2).len() == 0);
            assert(worlds2.last() == worlds2[cut2]);
            let last = worlds.last();
            assert(grows(w2, last)) by {
                assert forall|one: Seq<char>, other: Seq<char>| #[trigger]
                    w2.rooms_with(one, other).is_prefix_of(last.rooms_with(one, other)) by {
                    let rooms = w2.rooms_with(one, other);
                    assert(rooms =~= last.rooms_with(one, other).subrange(0, rooms.len() as int));
                }
            }
            lemma_grows_on(base, w2, last);
        } else {
            assert(talk1.skip(cut1).len() == 0);
        }
    } else {
        assert(talk.skip(cut).len() == 0);
    }
}

/// The world while the initial state is appended: the second event brings the bot in.
spec fn while_built(base: World, room: Seq<char>, bot: Seq<char>, i: nat) -> World {
    if i >= 2 {
        with_bot_room(base, room, bot)
    } else {
        base
    }
}

proof fn lemma_append_outcome(
    base: World,
    config: ConfigView,
    user: Seq<char>,
    room: Seq<char>,
    i: nat,
    talk: Seq<Exchange>,
    worlds: Seq<World>,
)
    requires
        user != config.bot,
        !base.members.contains_key(room),
        i <= initial_state(config).len(),
        worlds[0] == while_built(base, room, config.bot, i),
        conclusion(append_state(config, user, room, i), talk) is Some,
        is_history(worlds, talk),
    ensures
        is_outcome(
            base,
            worlds.last(),
            config.bot,
            user,
            room,
            conclusion(append_state(config, user, room, i), talk)->0,
        ),
    decreases initial_state(config).len() - i,
{
    let bot = config.bot;
    if i == initial_state(config).len() {
        lemma_entry_outcome(base, config, user, room, talk, worlds);
    } else {
        assert(append_state(config, user, room, i) is Ask);
        lemma_history_step(worlds, talk);
        let w1 = worlds[1];
        if talk[0].reply->Done_0 is Ok {
            assert(i == 0 || i == 1 || i == 2 || i == 3 || i == 4 || i == 5 || i == 6 || i == 7 || i
                == 8);
            assert(initial_state(config)[i as int].content == (StateContent::<Seq<char>>::Member {
                membership: Membership::Join,
            }) <==> i == 1);
            assert(w1 == while_built(base, room, bot, i + 1)) by {
                assert(w1.members =~= while_built(base, room, bot, i + 1).members);
            }
            lemma_append_outcome(
                base,
                config,
                user,
                room,
                i + 1,
                talk.drop_first(),
                worlds.drop_first(),
            );
        } else {
            let failure = talk[0].reply->Done_0->Err_0;
            let talk1 = talk.drop_first();
            assert(conclusion(unlock_failed(room, failure), talk1) is Some);
            lemma_history_step(worlds.drop_first(), talk1);
            assert(talk1.drop_first().len() == 0) by {
                reveal_with_fuel(conclusion, 2);
            }
            reveal_with_fuel(conclusion, 2);
            assert(worlds.last() == w1);
        }
    }
}

proof fn lemma_entry_outcome(
    base: World,
    config: ConfigView,
    user: Seq<char>,
    room: Seq<char>,
    talk: Seq<Exchange>,
    worlds: Seq<World>,
)
    requires
        user != config.bot,
        !base.members.contains_key(room),
        worlds[0] == with_bot_room(base, room, config.bot),
        conclusion(unlock_built(config, user, room), talk) is Some,
        is_history(worlds, talk),
    ensures
        is_outcome(
            base,
            worlds.last(),
            config.bot,
            user,
            room,
            conclusion(unlock_built(config, user, room), talk)->0,
        ),
{
    reveal_with_fuel(conclusion, 6);
    let bot = config.bot;
    assert(grows(base, worlds[0]));
    lemma_history_step(worlds, talk);
    let talk1 = talk.drop_first();
    let worlds1 = worlds.drop_first();
    lemma_history_step(worlds1, talk1);
    if talk1[0].reply->Done_0 is Ok {
        let talk2 = talk1.drop_first();
        let worlds2 = worlds1.drop_first();
        assert(conclusion(lock_to_join(config, user, room), talk2) is Some);
        lemma_history_step(worlds2, talk2);
        let talk3 = talk2.drop_first();
        let worlds3 = worlds2.drop_first();
        assert(conclusion(join_user(config, user, room), talk3) is Some);
        lemma_history_step(worlds3, talk3);
        let joined = talk3[0].reply->Done_0;
        let talk4 = talk3.drop_first();
        let worlds4 = worlds3.drop_first();
        assert(conclusion(unlock_joined(config, user, room, joined), talk4) is Some);
        lemma_history_step(worlds4, talk4);
        if joined is Ok {
            assert(worlds4[0].members =~= with_chat(base, room, bot, user).members);
            lemma_listing_outcome(
                base,
                config,
                user,
                room,
                talk4.drop_first(),
                worlds4.drop_first(),
            );
        }
    }
}

/// Where a chat is made with success, a room that was not there before is the two's own, and each
/// of them lists it for the other. Its ID is one of this server. Whether or not it succeeds, no one
/// who had a direct chat loses it, and no one is recorded as welcomed.
pub proof fn law_creation_makes_a_dm(
    config: ConfigView,
    user: Seq<char>,
    talk: Seq<Exchange>,
    worlds: Seq<World>,
)
    requires
        user != config.bot,
        conclusion(create_room(config, user), talk) is Some,
        is_history(worlds, talk),
    ensures
        is_generated_room_id(talk[0].reply->Room_0, config.server_name),
        conclusion(create_room(config, user), talk)->0 is Ok ==> is_new_chat(
            worlds[0],
            worlds.last(),
            config.bot,
            user,
            talk[0].reply->Room_0,
        ) && is_mutual_chat(worlds.last(), config.bot, user, talk[0].reply->Room_0)
            && worlds.last().has_dm(config.bot, user),
        grows(worlds[0], worlds.last()),
        forall|other: Seq<char>| #[trigger]
            worlds[0].has_dm(config.bot, other) ==> worlds.last().has_dm(config.bot, other),
        worlds.last().keys == worlds[0].keys,
{
    reveal_with_fuel(conclusion, 4);
    let bot = config.bot;
    let base = worlds[0];
    let last = worlds.last();
    lemma_history_step(worlds, talk);
    let room = talk[0].reply->Room_0;
    let talk1 = talk.drop_first();
    let worlds1 = worlds.drop_first();
    assert(conclusion(register_room(config, user, room), talk1) is Some);
    lemma_history_step(worlds1, talk1);
    let talk2 = talk1.drop_first();
    let worlds2 = worlds1.drop_first();
    assert(conclusion(lock_to_build(config, user, room), talk2) is Some);
    lemma_history_step(worlds2, talk2);
    lemma_append_outcome(base, config, user, room, 0, talk2.drop_first(), worlds2.drop_first());
    if conclusion(create_room(config, user), talk)->0 is Ok {
        lemma_new_chat_is_mutual(base, last, bot, user, room);
        lemma_mutual_chat_is_dm(last, bot, user, room);
    }
    assert forall|other: Seq<char>| #[trigger] base.has_dm(bot, other) implies last.has_dm(
        bot,
        other,
    ) by {
        lemma_growing_keeps_dms(base, last, bot, other);
    }
}

proof fn lemma_append_order(
    config: ConfigView,
    user: Seq<char>,
    room: Seq<char>,
    i: nat,
    talk: Seq<Exchange>,
)
    requires
        i <= initial_state(config).len(),
        conclusion(append_state(config, user, room, i), talk) is Some,
        conclusion(append_state(config, user, room, i), talk)->0 is Ok,
    ensures
        talk.len() >= initial_state(config).len() - i,
        forall|j: int|
            i <= j < initial_state(config).len() ==> (#[trigger] talk[j - i].request) == (
            RequestView::AppendState {
                room,
                sender: config.bot,
                event: initial_state(config)[j],
            }),
        conclusion(
            unlock_built(config, user, room),
            talk.skip(initial_state(config).len() - i),
        ) == conclusion(append_state(config, user, room, i), talk),
    decreases initial_state(config).len() - i,
{
    let n = initial_state(config).len();
    if i == n {
        assert(talk.skip(0) =~= talk);
    } else {
        assert(append_state(config, user, room, i) is Ask);
        let rest = talk.drop_first();
        if talk[0].reply->Done_0 is Err {
            let failure = talk[0].reply->Done_0->Err_0;
            assert(conclusion(unlock_failed(room, failure), rest) is Some);
            reveal_with_fuel(conclusion, 2);
        } else {
            lemma_append_order(config, user, room, i + 1, rest);
            assert forall|j: int| i <= j < n implies (#[trigger] talk[j - i].request) == (
            RequestView::AppendState {
                room,
                sender: config.bot,
                event: initial_state(config)[j],
            }) by {
                if j > i {
                    assert(talk[j - i] == rest[j - (i + 1)]);
                }
            }
            assert(talk.skip(n - i) =~= rest.skip(n - (i + 1)));
        }
    }
}

/// A chat is made in this order: the room gets its initial state, event by event and from the bot,
/// then the bot invites the user to a direct chat, and then the user is joined.
pub proof fn law_creation_keeps_its_order(
    config: ConfigView,
    user: Seq<char>,
    talk: Seq<Exchange>,
)
    requires
        conclusion(create_room(config, user), talk) == Some(Ok::<(), FailureView>(())),
    ensures
        talk.len() >= 17,
        talk[0].request == (RequestView::NewRoomId { server: config.server_name }),
        is_generated_room_id(talk[0].reply->Room_0, config.server_name),
        ({
            let room = talk[0].reply->Room_0;
            &&& talk[1].request == (RequestView::ShortRoomId { room })
            &&& talk[2].request == (RequestView::LockRoom { room })
            &&& forall|i: int|
                0 <= i < initial_state(config).len() ==> (#[trigger] talk[i + 3].request) == (
                RequestView::AppendState {
                    room,
                    sender: config.bot,
                    event: initial_state(config)[i],
                })
            &&& talk[12].request == (RequestView::UnlockRoom { room })
            &&& talk[13].request == (RequestView::Invite {
                sender: config.bot,
                user,
                room,
                reason: None,
                is_direct: true,
            })
            &&& talk[14].request == (RequestView::LockRoom { room })
            &&& talk[15].request == (RequestView::Join {
                user,
                room,
                asked_for: None,
                reason: Some("Подключение к каналу системных уведомлений"@),
                servers: Seq::empty(),
                is_appservice: false,
            })
            &&& talk[16].request == (RequestView::UnlockRoom { room })
        }),
{
    reveal_with_fuel(conclusion, 4);
    let room = talk[0].reply->Room_0;
    let talk1 = talk.drop_first();
    assert(conclusion(register_room(config, user, room), talk1) is Some);
    let talk2 = talk1.drop_first();
    assert(conclusion(lock_to_build(config, user, room), talk2) is Some);
    let talk3 = talk2.drop_first();
    assert(talk1[0] == talk[1] && talk2[0] == talk[2]);
    assert(initial_state(config).len() == 9);
    lemma_append_order(config, user, room, 0, talk3);
    assert forall|i: int| 0 <= i < initial_state(config).len() implies (
    #[trigger] talk[i + 3].request) == (RequestView::AppendState {
        room,
        sender: config.bot,
        event: initial_state(config)[i],
    }) by {
        assert(talk3[i - 0] == talk[i + 3]);
    }
    let late = talk3.skip(9);
    assert(late =~= talk.skip(12));
    lemma_entry_order(config, user, room, late);
    assert(late[0] == talk[12] && late[1] == talk[13] && late[2] == talk[14] && late[3]
        == talk[15] && late[4] == talk[16]);
}

/// Appends a state event from the bot.
pub open spec fn appends(
    bot: Seq<char>,
    room: Seq<char>,
    state_key: Seq<char>,
    content: StateContent<Seq<char>>,
) -> RequestView {
    RequestView::AppendState { room, sender: bot, event: StateEvent { state_key, content } }
}

/// The state of a chat that is made is that which is configured. Its first event makes the room,
/// in version 11, without a creator, and open to other servers exactly where that is configured.
/// Then the bot joins; the bot alone gets a level; one joins by invitation; everyone in the room
/// reads what has been written; guests stay out; the room gets its name and its topic; and links
/// get no preview.
pub proof fn law_creation_states_what_is_configured(
    config: ConfigView,
    user: Seq<char>,
    talk: Seq<Exchange>,
)
    requires
        conclusion(create_room(config, user), talk) == Some(Ok::<(), FailureView>(())),
    ensures
        talk.len() >= 17,
        ({
            let room = talk[0].reply->Room_0;
            let bot = config.bot;
            let none = Seq::<char>::empty();
            &&& talk[3].request == appends(
                bot,
                room,
                none,
                StateContent::Create {
                    creator: None,
                    federate: config.federate,
                    room_version: RoomVersion::V11,
                },
            )
            &&& talk[4].request == appends(
                bot,
                room,
                bot,
                StateContent::Member { membership: Membership::Join },
            )
            &&& talk[5].request == appends(
                bot,
                room,
                none,
                StateContent::PowerLevels(
                    PowerLevels {
                        ban: 50,
                        events_default: 50,
                        invite: 50,
                        kick: 50,
                        redact: 50,
                        state_default: 50,
                        user: bot,
                        user_level: 100,
                        users_default: 0,
                    },
                ),
            )
            &&& talk[6].request == appends(
                bot,
                room,
                none,
                StateContent::JoinRules { join_rule: JoinRule::Invite },
            )
            &&& talk[7].request == appends(
                bot,
                room,
                none,
                StateContent::HistoryVisibility { history_visibility: HistoryVisibility::Shared },
            )
            &&& talk[8].request == appends(
                bot,
                room,
                none,
                StateContent::GuestAccess { guest_access: GuestAccess::Forbidden },
            )
            &&& talk[9].request == appends(
                bot,
                room,
                none,
                StateContent::Name { name: config.room_name },
            )
            &&& talk[10].request == appends(
                bot,
                room,
                none,
                StateContent::Topic { topic: config.room_topic },
            )
            &&& talk[11].request == appends(
                bot,
                room,
                none,
                StateContent::PreviewUrls { disabled: true },
            )
        }),
{
    law_creation_keeps_its_order(config, user, talk);
    let state = initial_state(config);
    assert(state.len() == 9);
    assert(talk[0int + 3].request->AppendState_event == state[0]);
    assert(talk[1int + 3].request->AppendState_event == state[1]);
    assert(talk[2int + 3].request->AppendState_event == state[2]);
    assert(talk[3int + 3].request->AppendState_event == state[3]);
    assert(talk[4int + 3].request->AppendState_event == state[4]);
    assert(talk[5int + 3].request->AppendState_event == state[5]);
    assert(talk[6int + 3].request->AppendState_event == state[6]);
    assert(talk[7int + 3].request->AppendState_event == state[7]);
    assert(talk[8int + 3].request->AppendState_event == state[8]);
}

/// Once the user has joined, the chat is listed for the bot and then for the user, and then it gets
/// its tags, and nothing else is done.
pub proof fn law_creation_lists_and_tags(
    config: ConfigView,
    user: Seq<char>,
    talk: Seq<Exchange>,
)
    requires
        conclusion(create_room(config, user), talk) == Some(Ok::<(), FailureView>(())),
    ensures
        talk.len() >= 21,
        ({
            let room = talk[0].reply->Room_0;
            &&& talk[17].request == (RequestView::GetDirect { owner: config.bot })
            &&& stores_listed(config.bot, user, room, talk[17].reply, talk[18].request)
            &&& talk[19].request == (RequestView::GetDirect { owner: user })
            &&& stores_listed(user, config.bot, room, talk[19].reply, talk[20].request)
            &&& requests(talk.skip(21)) == tag_requests(config.bot, user, room, config.room_tags)
        }),
{
    reveal_with_fuel(conclusion, 4);
    let room = talk[0].reply->Room_0;
    let talk1 = talk.drop_first();
    assert(conclusion(register_room(config, user, room), talk1) is Some);
    let talk2 = talk1.drop_first();
    assert(conclusion(lock_to_build(config, user, room), talk2) is Some);
    let talk3 = talk2.drop_first();
    assert(initial_state(config).len() == 9);
    lemma_append_order(config, user, room, 0, talk3);
    let late = talk3.skip(9);
    lemma_entry_order(config, user, room, late);
    let listing = late.skip(5);
    assert(listing =~= talk.skip(17));
    lemma_listing_order(config, user, room, listing);
    assert(listing[0] == talk[17] && listing[1] == talk[18] && listing[2] == talk[19] && listing[3]
        == talk[20]);
    assert(listing.skip(4) =~= talk.skip(21));
}

proof fn lemma_listing_order(
    config: ConfigView,
    user: Seq<char>,
    room: Seq<char>,
    talk: Seq<Exchange>,
)
    requires
        conclusion(
            list_for_bot(list_room(config.bot, user, room), config, user, room),
            talk,
        ) == Some(Ok::<(), FailureView>(())),
    ensures
        talk.len() >= 4,
        talk[0].request == (RequestView::GetDirect { owner: config.bot }),
        stores_listed(config.bot, user, room, talk[0].reply, talk[1].request),
        talk[2].request == (RequestView::GetDirect { owner: user }),
        stores_listed(user, config.bot, room, talk[2].reply, talk[3].request),
        requests(talk.skip(4)) == tag_requests(config.bot, user, room, config.room_tags),
{
    let bot = config.bot;
    let for_bot = list_room(bot, user, room);
    let for_user = list_room(user, bot, room);
    let tagging = tag_room(bot, user, room, config.room_tags);
    let next = |listed: Result<(), FailureView>|
        if_done(listed, list_for_user(for_user, config, user, room));
    let cut = lemma_conversation_parts(for_bot, next, talk);
    law_listing_stores_the_list(bot, user, room, talk.take(cut));
    assert(talk.take(cut)[0] == talk[0] && talk.take(cut)[1] == talk[1]);
    let talk1 = talk.skip(2);
    let next1 = |listed: Result<(), FailureView>| if_done(listed, tag_new(tagging));
    let cut1 = lemma_conversation_parts(for_user, next1, talk1);
    law_listing_stores_the_list(user, bot, room, talk1.take(cut1));
    assert(talk1.take(cut1)[0] == talk[2] && talk1.take(cut1)[1] == talk[3]);
    let talk2 = talk1.skip(2);
    assert(talk2 =~= talk.skip(4));
    let next2 = |tagged: ()| Dialogue::<Result<(), FailureView>>::Return(Ok(()));
    let cut2 = lemma_conversation_parts(tagging, next2, talk2);
    law_tagging_covers_every_tag(bot, user, room, config.room_tags, talk2.take(cut2));
    assert(talk2.skip(cut2).len() == 0);
    assert(talk2.take(cut2) =~= talk2);
}

proof fn lemma_entry_order(
    config: ConfigView,
    user: Seq<char>,
    room: Seq<char>,
    talk: Seq<Exchange>,
)
    requires
        conclusion(unlock_built(config, user, room), talk) == Some(Ok::<(), FailureView>(())),
    ensures
        talk.len() >= 5,
        talk[0].request == (RequestView::UnlockRoom { room }),
        talk[1].request == (RequestView::Invite {
            sender: config.bot,
            user,
            room,
            reason: None,
            is_direct: true,
        }),
        talk[2].request == (RequestView::LockRoom { room }),
        talk[3].request == join_request(user, room),
        talk[4].request == (RequestView::UnlockRoom { room }),
        conclusion(
            list_for_bot(list_room(config.bot, user, room), config, user, room),
            talk.skip(5),
        ) == Some(Ok::<(), FailureView>(())),
{
    reveal_with_fuel(conclusion, 6);
    let talk1 = talk.drop_first();
    assert(talk1[0] == talk[1]);
    let talk2 = talk1.drop_first();
    assert(conclusion(lock_to_join(config, user, room), talk2) is Some);
    assert(talk2[0] == talk[2]);
    let talk3 = talk2.drop_first();
    assert(conclusion(join_user(config, user, room), talk3) is Some);
    assert(talk3[0] == talk[3]);
    let talk4 = talk3.drop_first();
    let joined = talk3[0].reply->Done_0;
    assert(conclusion(unlock_joined(config, user, room, joined), talk4) is Some);
    assert(talk4[0] == talk[4]);
    assert(talk4.drop_first() =~= talk.skip(5));
}

proof fn lemma_listing_tags(
    config: ConfigView,
    user: Seq<char>,
    room: Seq<char>,
    talk: Seq<Exchange>,
)
    requires
        conclusion(
            list_for_bot(list_room(config.bot, user, room), config, user, room),
            talk,
        ) is Some,
        conclusion(
            list_for_bot(list_room(config.bot, user, room), config, user, room),
            talk,
        )->0 is Ok,
    ensures
        is_tagged(config, user, talk, room),
{
    let bot = config.bot;
    let for_bot = list_room(bot, user, room);
    let for_user = list_room(user, bot, room);
    let tagging = tag_room(bot, user, room, config.room_tags);
    let next = |listed: Result<(), FailureView>|
        if_done(listed, list_for_user(for_user, config, user, room));
    let cut = lemma_conversation_parts(for_bot, next, talk);
    let talk1 = talk.skip(cut);
    let next1 = |listed: Result<(), FailureView>| if_done(listed, tag_new(tagging));
    let cut1 = lemma_conversation_parts(for_user, next1, talk1);
    let talk2 = talk1.skip(cut1);
    let next2 = |tagged: ()| Dialogue::<Result<(), FailureView>>::Return(Ok(()));
    let cut2 = lemma_conversation_parts(tagging, next2, talk2);
    law_tagging_covers_every_tag(bot, user, room, config.room_tags, talk2.take(cut2));
    lemma_tagged_in_part(config, user, talk2, cut2, room);
    lemma_tagged_in_part(config, user, talk1, cut1, room);
    lemma_tagged_in_part(config, user, talk, cut, room);
}

/// A chat that is made is to get every configured tag, for the user and for the bot.
pub proof fn law_creation_tags_the_chat(config: ConfigView, user: Seq<char>, talk: Seq<Exchange>)
    requires
        conclusion(create_room(config, user), talk) == Some(Ok::<(), FailureView>(())),
    ensures
        is_tagged(config, user, talk, talk[0].reply->Room_0),
{
    reveal_with_fuel(conclusion, 4);
    let room = talk[0].reply->Room_0;
    let talk1 = talk.drop_first();
    assert(conclusion(register_room(config, user, room), talk1) is Some);
    let talk2 = talk1.drop_first();
    assert(conclusion(lock_to_build(config, user, room), talk2) is Some);
    let talk3 = talk2.drop_first();
    assert(initial_state(config).len() == 9);
    lemma_append_order(config, user, room, 0, talk3);
    let late = talk3.skip(9);
    lemma_entry_order(config, user, room, late);
    let listing = late.skip(5);
    assert(listing =~= talk.skip(17));
    lemma_listing_tags(config, user, room, listing);
    lemma_tagged_in_part(config, user, talk, 17, room);
}

/// Where a state event cannot be appended, or the user cannot be invited or joined.
pub open spec fn is_refusal(exchange: Exchange) -> bool {
    let request = exchange.request;
    (request is AppendState || request is Invite || request is Join) && exchange.reply->Done_0
        is Err
}

/// The conversation stops at `i`, but for the lock, which is given up where it is held, and it
/// comes to the failure. No list has been touched.
pub open spec fn stops_at(
    room: Seq<char>,
    talk: Seq<Exchange>,
    i: int,
    result: Result<(), FailureView>,
) -> bool {
    &&& result == talk[i].reply->Done_0
    &&& if talk[i].request is Invite {
        talk.len() == i + 1
    } else {
        talk.len() == i + 2 && talk[i + 1].request == (RequestView::UnlockRoom { room })
    }
    &&& forall|j: int|
        0 <= j < talk.len() ==> !((#[trigger] talk[j].request) is UpdateDirect)
}

proof fn lemma_stops_later(
    room: Seq<char>,
    talk: Seq<Exchange>,
    i: int,
    result: Result<(), FailureView>,
)
    requires
        0 < i < talk.len(),
        !(talk[0].request is UpdateDirect),
        stops_at(room, talk.drop_first(), i - 1, result),
    ensures
        stops_at(room, talk, i, result),
{
    let rest = talk.drop_first();
    assert(rest[i - 1] == talk[i]);
    if !(talk[i].request is Invite) {
        assert(rest[i] == talk[i + 1]);
    }
    assert forall|j: int| 0 <= j < talk.len() implies !((#[trigger] talk[j].request)
        is UpdateDirect) by {
        if j > 0 {
            assert(rest[j - 1] == talk[j]);
        }
    }
}

proof fn lemma_append_stops(
    config: ConfigView,
    user: Seq<char>,
    room: Seq<char>,
    k: nat,
    talk: Seq<Exchange>,
    i: int,
)
    requires
        k <= initial_state(config).len(),
        conclusion(append_state(config, user, room, k), talk) is Some,
        0 <= i < talk.len(),
        is_refusal(talk[i]),
    ensures
        stops_at(room, talk, i, conclusion(append_state(config, user, room, k), talk)->0),
    decreases initial_state(config).len() - k,
{
    if k == initial_state(config).len() {
        lemma_entry_stops(config, user, room, talk, i);
    } else {
        assert(append_state(config, user, room, k) is Ask);
        let rest = talk.drop_first();
        let result = conclusion(append_state(config, user, room, k), talk)->0;
        if talk[0].reply->Done_0 is Err {
            let failure = talk[0].reply->Done_0->Err_0;
            assert(conclusion(unlock_failed(room, failure), rest) is Some);
            reveal_with_fuel(conclusion, 2);
            assert(rest[0] == talk[1]);
            assert(i == 0);
        } else {
            assert(rest[i - 1] == talk[i]);
            lemma_append_stops(config, user, room, k + 1, rest, i - 1);
            lemma_stops_later(room, talk, i, result);
        }
    }
}

proof fn lemma_entry_stops(
    config: ConfigView,
    user: Seq<char>,
    room: Seq<char>,
    talk: Seq<Exchange>,
    i: int,
)
    requires
        conclusion(unlock_built(config, user, room), talk) is Some,
        0 <= i < talk.len(),
        is_refusal(talk[i]),
    ensures
        stops_at(room, talk, i, conclusion(unlock_built(config, user, room), talk)->0),
{
    reveal_with_fuel(conclusion, 6);
    let talk1 = talk.drop_first();
    assert(talk1[0] == talk[1]);
    if talk1[0].reply->Done_0 is Ok {
        let talk2 = talk1.drop_first();
        assert(conclusion(lock_to_join(config, user, room), talk2) is Some);
        assert(talk2[0] == talk[2]);
        let talk3 = talk2.drop_first();
        assert(conclusion(join_user(config, user, room), talk3) is Some);
        assert(talk3[0] == talk[3]);
        let talk4 = talk3.drop_first();
        let joined = talk3[0].reply->Done_0;
        assert(conclusion(unlock_joined(config, user, room, joined), talk4) is Some);
        assert(talk4[0] == talk[4]);
        if joined is Ok {
            let late = talk4.drop_first();
            let allowed = |request: RequestView| is_marking(request);
            let listing = list_for_bot(list_room(config.bot, user, room), config, user, room);
            lemma_both_listings_ask(config, user, room, allowed);
            lemma_talk_asks_only(listing, allowed, late);
            if i >= 5 {
                assert(late[i - 5] == talk[i]);
                assert(allowed(talk[i].request));
            }
        }
    }
}

/// Where no list is replaced in the course of `talk`, all lists stay as they are.
pub proof fn lemma_lists_stay(worlds: Seq<World>, talk: Seq<Exchange>)
    requires
        is_history(worlds, talk),
        forall|j: int|
            0 <= j < talk.len() ==> !((#[trigger] talk[j].request) is UpdateDirect),
    ensures
        worlds.last().direct == worlds[0].direct,
    decreases talk.len(),
{
    if talk.len() > 0 {
        let rest = talk.drop_first();
        lemma_history_step(worlds, talk);
        assert forall|j: int| 0 <= j < rest.len() implies !((#[trigger] rest[j].request)
            is UpdateDirect) by {
            assert(rest[j] == talk[j + 1]);
        }
        assert(!(talk[0].request is UpdateDirect));
        lemma_lists_stay(worlds.drop_first(), rest);
    }
}

/// Once a state event cannot be appended, or the user cannot be invited or joined, nothing follows
/// but that the lock is given up where it is held. It comes to that failure, and everyone's
/// `m.direct` stays as it was.
pub proof fn law_creation_stops_at_a_failure(
    config: ConfigView,
    user: Seq<char>,
    talk: Seq<Exchange>,
    worlds: Seq<World>,
    i: int,
)
    requires
        conclusion(create_room(config, user), talk) is Some,
        is_history(worlds, talk),
        0 <= i < talk.len(),
        is_refusal(talk[i]),
    ensures
        stops_at(
            talk[0].reply->Room_0,
            talk,
            i,
            conclusion(create_room(config, user), talk)->0,
        ),
        worlds.last().direct == worlds[0].direct,
{
    reveal_with_fuel(conclusion, 4);
    let room = talk[0].reply->Room_0;
    let result = conclusion(create_room(config, user), talk)->0;
    let talk1 = talk.drop_first();
    assert(conclusion(register_room(config, user, room), talk1) is Some);
    let talk2 = talk1.drop_first();
    assert(conclusion(lock_to_build(config, user, room), talk2) is Some);
    let talk3 = talk2.drop_first();
    assert(talk1[0] == talk[1] && talk2[0] == talk[2]);
    assert(talk3[i - 3] == talk[i]);
    lemma_append_stops(config, user, room, 0, talk3, i - 3);
    lemma_stops_later(room, talk2, i - 2, result);
    lemma_stops_later(room, talk1, i - 1, result);
    lemma_stops_later(room, talk, i, result);
    lemma_lists_stay(worlds, talk);
}

} // verus!
