//! Laws on finding, checking, tagging and listing a direct chat.
use crate::dialogue::{conclusion, lemma_conversation_parts, Dialogue, Exchange};
use crate::direct::{listed, rooms_of_user, with_room, DirectView};
use crate::rooms::{check_room, find_room, first_checked, list_room, tag_room, tag_room_for_bot};
use crate::service::{ConfigView, ReplyView, Request, RequestView};
use crate::text::is_user_id;
use crate::world::{is_history, lemma_history_parts, lemma_history_step, World};
use vstd::prelude::*;

verus! {

/// Whether a request asks for something and changes nothing.
pub open spec fn is_read(request: RequestView) -> bool {
    match request {
        Request::IsLocal { .. } => true,
        Request::UserExists { .. } => true,
        Request::GetDirect { .. } => true,
        Request::JoinedCount { .. } => true,
        Request::IsJoined { .. } => true,
        Request::GetKey { .. } => true,
        Request::ReadFile { .. } => true,
        Request::ListLocalUsers => true,
        _ => false,
    }
}

/// Nothing is changed in the course of `talk`.
pub open spec fn reads_only(talk: Seq<Exchange>) -> bool {
    forall|i: int| 0 <= i < talk.len() ==> is_read(#[trigger] talk[i].request)
}

/// Nothing is done in the course of `talk` but tags put on a room, for a user or for the bot.
pub open spec fn tags_only(
    talk: Seq<Exchange>,
    bot: Seq<char>,
    user: Seq<char>,
    room: Seq<char>,
) -> bool {
    forall|i: int|
        0 <= i < talk.len() ==> (#[trigger] talk[i].request) is SetRoomTag && (
        talk[i].request->SetRoomTag_owner == user || talk[i].request->SetRoomTag_owner == bot)
            && talk[i].request->SetRoomTag_room == room && talk[i].request->SetRoomTag_info is None
}

/// Where `talk` changes nothing, nothing changes.
pub proof fn lemma_reads_keep(worlds: Seq<World>, talk: Seq<Exchange>)
    requires
        is_history(worlds, talk),
        reads_only(talk),
    ensures
        worlds.last() == worlds[0],
    decreases talk.len(),
{
    if talk.len() > 0 {
        lemma_history_step(worlds, talk);
        assert(is_read(talk[0].request));
        assert forall|i: int| 0 <= i < talk.drop_first().len() implies is_read(
            #[trigger] talk.drop_first()[i].request,
        ) by {
            assert(talk.drop_first()[i] == talk[i + 1]);
        }
        lemma_reads_keep(worlds.drop_first(), talk.drop_first());
    }
}

/// Where `talk` puts nothing but tags, the chats stay as they are.
pub proof fn lemma_tags_keep(
    worlds: Seq<World>,
    talk: Seq<Exchange>,
    bot: Seq<char>,
    user: Seq<char>,
    room: Seq<char>,
)
    requires
        is_history(worlds, talk),
        tags_only(talk, bot, user, room),
    ensures
        worlds.last().same_chats(worlds[0]),
        worlds.last().keys == worlds[0].keys,
        worlds.last().local == worlds[0].local,
        worlds.last().accounts == worlds[0].accounts,
    decreases talk.len(),
{
    if talk.len() > 0 {
        lemma_history_step(worlds, talk);
        assert(talk[0].request is SetRoomTag);
        assert forall|i: int| 0 <= i < talk.drop_first().len() implies (
        #[trigger] talk.drop_first()[i].request) is SetRoomTag && (
        talk.drop_first()[i].request->SetRoomTag_owner == user
            || talk.drop_first()[i].request->SetRoomTag_owner == bot)
            && talk.drop_first()[i].request->SetRoomTag_room == room
            && talk.drop_first()[i].request->SetRoomTag_info is None by {
            assert(talk.drop_first()[i] == talk[i + 1]);
        }
        lemma_tags_keep(worlds.drop_first(), talk.drop_first(), bot, user, room);
    }
}

proof fn lemma_pair(set: Set<Seq<char>>, one: Seq<char>, other: Seq<char>)
    requires
        set.finite(),
        one != other,
    ensures
        set.len() == 2 && set.contains(one) && set.contains(other) <==> set == Set::empty().insert(
            one,
        ).insert(other),
{
    if set.len() == 2 && set.contains(one) && set.contains(other) {
        let rest = set.remove(one).remove(other);
        assert(rest.len() == 0);
        assert forall|x: Seq<char>| set.contains(x) implies x == one || x == other by {
            if x != one && x != other {
                assert(rest.contains(x));
                assert(rest.remove(x).len() + 1 == rest.len());
            }
        }
        assert(set =~= Set::empty().insert(one).insert(other));
    }
}

/// The check of a room only reads.
pub proof fn lemma_check_reads(
    bot: Seq<char>,
    user: Seq<char>,
    room: Seq<char>,
    talk: Seq<Exchange>,
)
    requires
        conclusion(check_room(bot, user, room), talk) is Some,
    ensures
        reads_only(talk),
        talk.len() <= 3,
{
    reveal_with_fuel(conclusion, 4);
}

/// The check of a room goes by what is replied. It asks how many users have joined the room, then
/// whether the user has, then whether the bot has, and no more once one of these tells against it.
/// The room checks out where two have joined, and both of these have. The bot has no chat with
/// itself, and nothing is asked then.
pub proof fn law_check_goes_by_the_replies(
    bot: Seq<char>,
    user: Seq<char>,
    room: Seq<char>,
    talk: Seq<Exchange>,
)
    requires
        conclusion(check_room(bot, user, room), talk) is Some,
    ensures
        user == bot ==> talk.len() == 0 && conclusion(check_room(bot, user, room), talk) == Some(
            false,
        ),
        user != bot ==> {
            let is_dm = conclusion(check_room(bot, user, room), talk)->0;
            &&& 1 <= talk.len() <= 3
            &&& talk[0].request == (RequestView::JoinedCount { room })
            &&& talk.len() >= 2 <==> talk[0].reply == ReplyView::Count(Some(2))
            &&& talk.len() >= 2 ==> talk[1].request == (RequestView::IsJoined { user, room })
            &&& talk.len() == 3 <==> talk.len() >= 2 && talk[1].reply == ReplyView::Flag(true)
            &&& talk.len() == 3 ==> talk[2].request == (RequestView::IsJoined { user: bot, room })
            &&& is_dm <==> talk.len() == 3 && talk[2].reply == ReplyView::Flag(true)
        },
{
    reveal_with_fuel(conclusion, 4);
    if user != bot && talk[0].reply->Count_0 == Some(2u64) {
        let talk1 = talk.drop_first();
        assert(talk1[0] == talk[1]);
        if talk1[0].reply->Flag_0 {
            assert(talk1.drop_first()[0] == talk[2]);
        }
    }
}

/// A room checks out exactly when the user and the bot, two different users, have joined it and no
/// one else has.
pub proof fn law_check_tells_the_chat(
    bot: Seq<char>,
    user: Seq<char>,
    room: Seq<char>,
    talk: Seq<Exchange>,
    worlds: Seq<World>,
)
    requires
        conclusion(check_room(bot, user, room), talk) is Some,
        is_history(worlds, talk),
    ensures
        conclusion(check_room(bot, user, room), talk) == Some(
            worlds[0].is_chat(bot, user, room),
        ),
        worlds.last() == worlds[0],
{
    reveal_with_fuel(conclusion, 4);
    lemma_check_reads(bot, user, room, talk);
    lemma_reads_keep(worlds, talk);
    if user != bot {
        lemma_history_step(worlds, talk);
        let joined = worlds[0].joined(room);
        lemma_pair(joined, bot, user);
        if talk[0].reply->Count_0 == Some(2u64) {
            let talk1 = talk.drop_first();
            let worlds1 = worlds.drop_first();
            lemma_history_step(worlds1, talk1);
            if talk1[0].reply->Flag_0 {
                lemma_history_step(worlds1.drop_first(), talk1.drop_first());
            }
        }
    }
}

/// Two parts that only read make a whole that only reads.
pub proof fn lemma_reads_join(talk: Seq<Exchange>, cut: int)
    requires
        0 <= cut <= talk.len(),
        reads_only(talk.take(cut)),
        reads_only(talk.skip(cut)),
    ensures
        reads_only(talk),
{
    assert forall|i: int| 0 <= i < talk.len() implies is_read(#[trigger] talk[i].request) by {
        if i < cut {
            assert(talk.take(cut)[i] == talk[i]);
        } else {
            assert(talk.skip(cut)[i - cut] == talk[i]);
        }
    }
}

proof fn lemma_first_checked_reads(
    bot: Seq<char>,
    user: Seq<char>,
    rooms: Seq<Seq<char>>,
    talk: Seq<Exchange>,
)
    requires
        conclusion(first_checked(bot, user, rooms), talk) is Some,
    ensures
        reads_only(talk),
    decreases rooms.len(),
{
    if rooms.len() > 0 {
        let next = |is_dm: bool|
            if is_dm {
                Dialogue::Return(Some(rooms[0]))
            } else {
                first_checked(bot, user, rooms.drop_first())
            };
        let check = check_room(bot, user, rooms[0]);
        assert(first_checked(bot, user, rooms) == check.then_do(next));
        let cut = lemma_conversation_parts(check, next, talk);
        lemma_check_reads(bot, user, rooms[0], talk.take(cut));
        if !conclusion(check, talk.take(cut))->0 {
            lemma_first_checked_reads(bot, user, rooms.drop_first(), talk.skip(cut));
        }
        lemma_reads_join(talk, cut);
    }
}

/// The search for a chat only reads.
pub proof fn lemma_find_reads(bot: Seq<char>, user: Seq<char>, talk: Seq<Exchange>)
    requires
        conclusion(find_room(bot, user), talk) is Some,
    ensures
        reads_only(talk),
{
    reveal_with_fuel(conclusion, 2);
    let rest = talk.drop_first();
    match talk[0].reply->Direct_0 {
        Some(direct) => {
            lemma_first_checked_reads(bot, user, rooms_of_user(direct, user), rest);
        },
        None => {},
    }
    assert(talk.skip(1) =~= rest);
    lemma_reads_join(talk, 1);
}

/// Room `i` of `rooms` is the two's own, and none before it is.
pub open spec fn is_first_chat(
    world: World,
    bot: Seq<char>,
    user: Seq<char>,
    rooms: Seq<Seq<char>>,
    i: int,
) -> bool {
    &&& 0 <= i < rooms.len()
    &&& world.is_chat(bot, user, rooms[i])
    &&& forall|j: int| 0 <= j < i ==> !world.is_chat(bot, user, #[trigger] rooms[j])
}

proof fn lemma_first_checked(
    bot: Seq<char>,
    user: Seq<char>,
    rooms: Seq<Seq<char>>,
    talk: Seq<Exchange>,
    worlds: Seq<World>,
)
    requires
        conclusion(first_checked(bot, user, rooms), talk) is Some,
        is_history(worlds, talk),
    ensures
        match conclusion(first_checked(bot, user, rooms), talk)->0 {
            Some(room) => exists|i: int| #[trigger]
                is_first_chat(worlds[0], bot, user, rooms, i) && rooms[i] == room,
            None => forall|i: int|
                0 <= i < rooms.len() ==> !worlds[0].is_chat(bot, user, #[trigger] rooms[i]),
        },
    decreases rooms.len(),
{
    if rooms.len() > 0 {
        let next = |is_dm: bool|
            if is_dm {
                Dialogue::Return(Some(rooms[0]))
            } else {
                first_checked(bot, user, rooms.drop_first())
            };
        let check = check_room(bot, user, rooms[0]);
        assert(first_checked(bot, user, rooms) == check.then_do(next));
        let cut = lemma_conversation_parts(check, next, talk);
        lemma_history_parts(worlds, talk, cut);
        law_check_tells_the_chat(
            bot,
            user,
            rooms[0],
            talk.take(cut),
            worlds.take(cut + 1),
        );
        if conclusion(check, talk.take(cut))->0 {
            assert(is_first_chat(worlds[0], bot, user, rooms, 0));
        } else {
            let rest = rooms.drop_first();
            lemma_first_checked(bot, user, rest, talk.skip(cut), worlds.skip(cut));
            match conclusion(first_checked(bot, user, rooms), talk)->0 {
                Some(room) => {
                    let i = choose|i: int| #[trigger]
                        is_first_chat(worlds[0], bot, user, rest, i) && rest[i] == room;
                    assert forall|j: int| 0 <= j < i + 1 implies !worlds[0].is_chat(
                        bot,
                        user,
                        #[trigger] rooms[j],
                    ) by {
                        if j > 0 {
                            assert(rest[j - 1] == rooms[j]);
                        }
                    }
                    assert(is_first_chat(worlds[0], bot, user, rooms, i + 1));
                },
                None => {
                    assert forall|i: int| 0 <= i < rooms.len() implies !worlds[0].is_chat(
                        bot,
                        user,
                        #[trigger] rooms[i],
                    ) by {
                        if i > 0 {
                            assert(rest[i - 1] == rooms[i]);
                        }
                    }
                },
            }
        }
    }
}

/// The rooms that a reply to the request for `m.direct` lists for the user. None are where the user
/// is known by no user ID.
pub open spec fn told_rooms(reply: ReplyView, user: Seq<char>) -> Seq<Seq<char>> {
    match reply->Direct_0 {
        Some(direct) => if is_user_id(user) && direct.contains_key(user) {
            direct[user]
        } else {
            Seq::empty()
        },
        None => Seq::empty(),
    }
}

/// From `cuts[0]` on, `talk` is the check of each of the first rooms of `rooms`, one after the
/// other: that of `rooms[k]` is the part from `cuts[k]` to `cuts[k + 1]`. All but the last fail.
pub open spec fn are_checks(
    bot: Seq<char>,
    user: Seq<char>,
    rooms: Seq<Seq<char>>,
    talk: Seq<Exchange>,
    cuts: Seq<int>,
    found: Option<Seq<char>>,
) -> bool {
    let n = cuts.len() - 1;
    &&& 0 <= n <= rooms.len()
    &&& cuts[n] == talk.len()
    &&& forall|k: int|
        0 <= k < n ==> is_checked(
            bot,
            user,
            #[trigger] rooms[k],
            talk,
            cuts[k],
            cuts[k + 1],
            k == n - 1 && found is Some,
        )
    &&& match found {
        Some(room) => n > 0 && rooms[n - 1] == room,
        None => n == rooms.len(),
    }
}

/// The part of `talk` from `from` to `to` is the check of the room, and comes to `is_dm`.
pub open spec fn is_checked(
    bot: Seq<char>,
    user: Seq<char>,
    room: Seq<char>,
    talk: Seq<Exchange>,
    from: int,
    to: int,
    is_dm: bool,
) -> bool {
    &&& 0 <= from <= to <= talk.len()
    &&& conclusion(check_room(bot, user, room), talk.subrange(from, to)) == Some(is_dm)
}

proof fn lemma_checks(
    bot: Seq<char>,
    user: Seq<char>,
    rooms: Seq<Seq<char>>,
    talk: Seq<Exchange>,
    from: int,
) -> (cuts: Seq<int>)
    requires
        0 <= from <= talk.len(),
        conclusion(first_checked(bot, user, rooms), talk.skip(from)) is Some,
    ensures
        cuts.len() > 0,
        cuts[0] == from,
        are_checks(
            bot,
            user,
            rooms,
            talk,
            cuts,
            conclusion(first_checked(bot, user, rooms), talk.skip(from))->0,
        ),
    decreases rooms.len(),
{
    let late = talk.skip(from);
    let found = conclusion(first_checked(bot, user, rooms), late)->0;
    if rooms.len() == 0 {
        seq![from]
    } else {
        let next = |is_dm: bool|
            if is_dm {
                Dialogue::Return(Some(rooms[0]))
            } else {
                first_checked(bot, user, rooms.drop_first())
            };
        let check = check_room(bot, user, rooms[0]);
        assert(first_checked(bot, user, rooms) == check.then_do(next));
        let cut = lemma_conversation_parts(check, next, late);
        let to = from + cut;
        assert(talk.subrange(from, to) =~= late.take(cut));
        assert(talk.skip(to) =~= late.skip(cut));
        if conclusion(check, late.take(cut))->0 {
            let cuts = seq![from, to];
            assert(is_checked(bot, user, rooms[0], talk, from, to, true));
            cuts
        } else {
            let rest = rooms.drop_first();
            let more = lemma_checks(bot, user, rest, talk, to);
            let cuts = seq![from] + more;
            let n = cuts.len() - 1;
            assert(is_checked(bot, user, rooms[0], talk, from, to, false));
            assert forall|k: int| 0 <= k < n implies is_checked(
                bot,
                user,
                #[trigger] rooms[k],
                talk,
                cuts[k],
                cuts[k + 1],
                k == n - 1 && found is Some,
            ) by {
                if k > 0 {
                    assert(rest[k - 1] == rooms[k]);
                    assert(cuts[k] == more[k - 1] && cuts[k + 1] == more[k]);
                } else {
                    assert(cuts[0] == from && cuts[1] == more[0]);
                }
            }
            cuts
        }
    }
}

/// A search asks for the bot's `m.direct`, and then checks the rooms listed there for the user, one
/// after the other, up to the first that checks out; it comes to that room. It comes to none where
/// none checks out.
pub proof fn law_find_checks_in_order(
    bot: Seq<char>,
    user: Seq<char>,
    talk: Seq<Exchange>,
) -> (cuts: Seq<int>)
    requires
        conclusion(find_room(bot, user), talk) is Some,
    ensures
        talk.len() > 0,
        talk[0].request == (RequestView::GetDirect { owner: bot }),
        cuts.len() > 0,
        cuts[0] == 1,
        are_checks(
            bot,
            user,
            told_rooms(talk[0].reply, user),
            talk,
            cuts,
            conclusion(find_room(bot, user), talk)->0,
        ),
{
    reveal_with_fuel(conclusion, 2);
    assert(talk.skip(1) =~= talk.drop_first());
    match talk[0].reply->Direct_0 {
        Some(direct) => {
            assert(rooms_of_user(direct, user) == told_rooms(talk[0].reply, user));
            lemma_checks(bot, user, rooms_of_user(direct, user), talk, 1)
        },
        None => seq![1int],
    }
}

/// The room that a search comes to is the first of those that the bot's `m.direct` lists for the
/// user and that the two have joined, and no one else. It comes to none exactly when there is none.
/// Nothing changes meanwhile.
pub proof fn law_find_finds_the_first_chat(
    bot: Seq<char>,
    user: Seq<char>,
    talk: Seq<Exchange>,
    worlds: Seq<World>,
)
    requires
        conclusion(find_room(bot, user), talk) is Some,
        is_history(worlds, talk),
    ensures
        worlds.last() == worlds[0],
        match conclusion(find_room(bot, user), talk)->0 {
            Some(room) => is_user_id(user) && exists|i: int| #[trigger]
                is_first_chat(worlds[0], bot, user, worlds[0].rooms_with(bot, user), i)
                    && worlds[0].rooms_with(bot, user)[i] == room,
            None => is_user_id(user) ==> !worlds[0].has_dm(bot, user),
        },
{
    reveal_with_fuel(conclusion, 2);
    lemma_find_reads(bot, user, talk);
    lemma_reads_keep(worlds, talk);
    lemma_history_step(worlds, talk);
    let rooms = worlds[0].rooms_with(bot, user);
    match talk[0].reply->Direct_0 {
        Some(direct) => {
            lemma_first_checked(
                bot,
                user,
                rooms_of_user(direct, user),
                talk.drop_first(),
                worlds.drop_first(),
            );
        },
        None => {},
    }
    if conclusion(find_room(bot, user), talk)->0 is None && is_user_id(user) {
        assert forall|i: int| !worlds[0].is_listed_dm(bot, user, i) by {
            if 0 <= i < rooms.len() {
                assert(!worlds[0].is_chat(bot, user, rooms[i]));
            }
        }
    }
}

/// The room is the first of those listed for the user that the two have joined, and no one else.
pub open spec fn finds(world: World, bot: Seq<char>, user: Seq<char>, room: Seq<char>) -> bool {
    exists|i: int| #[trigger]
        is_first_chat(world, bot, user, world.rooms_with(bot, user), i) && world.rooms_with(
            bot,
            user,
        )[i] == room
}

/// There is no more than one such room, and it is a direct chat.
pub proof fn lemma_finds_one(
    world: World,
    bot: Seq<char>,
    user: Seq<char>,
    one: Seq<char>,
    other: Seq<char>,
)
    requires
        finds(world, bot, user, one),
        finds(world, bot, user, other),
    ensures
        one == other,
        world.is_chat(bot, user, one),
        world.rooms_with(bot, user).contains(one),
        world.has_dm(bot, user),
{
    let rooms = world.rooms_with(bot, user);
    let i = choose|i: int| #[trigger]
        is_first_chat(world, bot, user, rooms, i) && rooms[i] == one;
    let j = choose|j: int| #[trigger]
        is_first_chat(world, bot, user, rooms, j) && rooms[j] == other;
    if i < j {
        assert(!world.is_chat(bot, user, rooms[i]));
    } else if j < i {
        assert(!world.is_chat(bot, user, rooms[j]));
    }
    assert(world.is_listed_dm(bot, user, i));
}

/// Of the two's own rooms that are listed, one is the first.
pub proof fn lemma_finds_some(world: World, bot: Seq<char>, user: Seq<char>) -> (room: Seq<char>)
    requires
        world.has_dm(bot, user),
    ensures
        finds(world, bot, user, room),
{
    let rooms = world.rooms_with(bot, user);
    let last = choose|i: int| #[trigger] world.is_listed_dm(bot, user, i);
    let i = lemma_first_before(world, bot, user, last);
    assert(is_first_chat(world, bot, user, rooms, i));
    rooms[i]
}

proof fn lemma_first_before(
    world: World,
    bot: Seq<char>,
    user: Seq<char>,
    last: int,
) -> (i: int)
    requires
        world.is_listed_dm(bot, user, last),
    ensures
        is_first_chat(world, bot, user, world.rooms_with(bot, user), i),
    decreases last,
{
    let rooms = world.rooms_with(bot, user);
    if exists|j: int| 0 <= j < last && world.is_chat(bot, user, #[trigger] rooms[j]) {
        let j = choose|j: int| 0 <= j < last && world.is_chat(bot, user, #[trigger] rooms[j]);
        assert(world.is_listed_dm(bot, user, j));
        lemma_first_before(world, bot, user, j)
    } else {
        last
    }
}

/// The search comes to that room, for a user ID, and to nothing where there is none.
pub proof fn law_search_gives_what_is_found(
    bot: Seq<char>,
    user: Seq<char>,
    talk: Seq<Exchange>,
    worlds: Seq<World>,
    room: Seq<char>,
)
    requires
        conclusion(find_room(bot, user), talk) is Some,
        is_history(worlds, talk),
    ensures
        conclusion(find_room(bot, user), talk)->0 == Some(room) <==> is_user_id(user) && finds(
            worlds[0],
            bot,
            user,
            room,
        ),
{
    law_find_finds_the_first_chat(bot, user, talk, worlds);
    let world = worlds[0];
    if finds(world, bot, user, room) {
        lemma_finds_one(world, bot, user, room, room);
        match conclusion(find_room(bot, user), talk)->0 {
            Some(found) => {
                assert(finds(world, bot, user, found));
                lemma_finds_one(world, bot, user, room, found);
            },
            None => {},
        }
    }
}

/// Whether `request` is made in the course of `talk`.
pub open spec fn asked(talk: Seq<Exchange>, request: RequestView) -> bool {
    exists|i: int| 0 <= i < talk.len() && #[trigger] talk[i].request == request
}

/// What is asked in a part is asked in the whole.
pub proof fn lemma_asked_in_part(talk: Seq<Exchange>, cut: int, request: RequestView)
    requires
        0 <= cut <= talk.len(),
    ensures
        asked(talk.take(cut), request) || asked(talk.skip(cut), request) <==> asked(talk, request),
{
    if asked(talk.take(cut), request) {
        let i = choose|i: int|
            0 <= i < talk.take(cut).len() && #[trigger] talk.take(cut)[i].request == request;
        assert(talk[i].request == request);
    }
    if asked(talk.skip(cut), request) {
        let i = choose|i: int|
            0 <= i < talk.skip(cut).len() && #[trigger] talk.skip(cut)[i].request == request;
        assert(talk[i + cut].request == request);
    }
    if asked(talk, request) {
        let i = choose|i: int| 0 <= i < talk.len() && #[trigger] talk[i].request == request;
        if i < cut {
            assert(talk.take(cut)[i].request == request);
        } else {
            assert(talk.skip(cut)[i - cut].request == request);
        }
    }
}

/// Both the user and the bot are asked to have `tag` put on the room.
pub open spec fn tag_asked_for_both(
    talk: Seq<Exchange>,
    bot: Seq<char>,
    user: Seq<char>,
    room: Seq<char>,
    tag: Seq<char>,
) -> bool {
    &&& asked(talk, Request::SetRoomTag { owner: user, room, tag, info: None })
    &&& asked(talk, Request::SetRoomTag { owner: bot, room, tag, info: None })
}

/// What is asked for in the course of `talk`, in order.
pub open spec fn requests(talk: Seq<Exchange>) -> Seq<RequestView> {
    Seq::new(talk.len(), |i: int| talk[i].request)
}

/// Each tag that is not empty, in order, and each once for the user and then once for the bot.
pub open spec fn tag_requests(
    bot: Seq<char>,
    user: Seq<char>,
    room: Seq<char>,
    tags: Seq<Seq<char>>,
) -> Seq<RequestView>
    decreases tags.len(),
{
    if tags.len() == 0 {
        Seq::empty()
    } else {
        let rest = tag_requests(bot, user, room, tags.drop_first());
        let tag = tags[0];
        if tag.len() == 0 {
            rest
        } else {
            seq![
                Request::SetRoomTag { owner: user, room, tag, info: None },
                Request::SetRoomTag { owner: bot, room, tag, info: None },
            ] + rest
        }
    }
}

/// Tagging a room puts every tag that is not empty on it, for the user and then for the bot, each
/// once and in the order of the tags, and does nothing else. It comes to its end whether or not a
/// tag could be put.
pub proof fn law_tagging_covers_every_tag(
    bot: Seq<char>,
    user: Seq<char>,
    room: Seq<char>,
    tags: Seq<Seq<char>>,
    talk: Seq<Exchange>,
)
    requires
        conclusion(tag_room(bot, user, room, tags), talk) is Some,
    ensures
        requests(talk) == tag_requests(bot, user, room, tags),
        tags_only(talk, bot, user, room),
        forall|i: int|
            0 <= i < talk.len() ==> tags.contains(
                (#[trigger] talk[i].request)->SetRoomTag_tag,
            ) && talk[i].request->SetRoomTag_tag.len() > 0,
        forall|i: int|
            0 <= i < tags.len() && tags[i].len() > 0 ==> tag_asked_for_both(
                talk,
                bot,
                user,
                room,
                #[trigger] tags[i],
            ),
    decreases tags.len(),
{
    reveal_with_fuel(conclusion, 3);
    if tags.len() > 0 {
        let rest = tags.drop_first();
        assert forall|tag: Seq<char>| rest.contains(tag) implies #[trigger] tags.contains(tag) by {
            let k = choose|k: int| 0 <= k < rest.len() && rest[k] == tag;
            assert(tags[k + 1] == tag);
        }
        if tags[0].len() == 0 {
            law_tagging_covers_every_tag(bot, user, room, rest, talk);
            assert forall|i: int| 0 <= i < tags.len() && tags[i].len() > 0 implies
                tag_asked_for_both(talk, bot, user, room, #[trigger] tags[i]) by {
                assert(rest[i - 1] == tags[i]);
            }
        } else {
            assert(tag_room_for_bot(bot, user, room, tags) is Ask);
            let late = talk.drop_first().drop_first();
            assert(late =~= talk.skip(2));
            law_tagging_covers_every_tag(bot, user, room, rest, late);
            let tag = tags[0];
            assert(tags.contains(tag));
            let for_user = RequestView::SetRoomTag { owner: user, room, tag, info: None };
            let for_bot = RequestView::SetRoomTag { owner: bot, room, tag, info: None };
            assert(talk[0].request == for_user);
            assert(talk.drop_first()[0] == talk[1]);
            assert(talk[1].request == for_bot);
            assert(requests(talk) =~= seq![talk[0].request, talk[1].request] + requests(late));
            assert forall|i: int| 0 <= i < tags.len() && tags[i].len() > 0 implies
                tag_asked_for_both(talk, bot, user, room, #[trigger] tags[i]) by {
                if i > 0 {
                    assert(rest[i - 1] == tags[i]);
                    lemma_asked_in_part(
                        talk,
                        2,
                        Request::SetRoomTag { owner: user, room, tag: tags[i], info: None },
                    );
                    lemma_asked_in_part(
                        talk,
                        2,
                        Request::SetRoomTag { owner: bot, room, tag: tags[i], info: None },
                    );
                }
            }
            assert forall|i: int| 0 <= i < talk.len() implies (#[trigger] talk[i].request)
                is SetRoomTag && (talk[i].request->SetRoomTag_owner == user
                || talk[i].request->SetRoomTag_owner == bot) && talk[i].request->SetRoomTag_room
                == room && talk[i].request->SetRoomTag_info is None && tags.contains(
                talk[i].request->SetRoomTag_tag,
            )
                && talk[i].request->SetRoomTag_tag.len() > 0 by {
                if i >= 2 {
                    assert(late[i - 2] == talk[i]);
                }
            }
        }
    }
}

/// A room that is listed for the user, and is the user's and the bot's own, is to get every
/// configured tag that is not empty, for both.
pub open spec fn is_tagged_chat(
    config: ConfigView,
    user: Seq<char>,
    talk: Seq<Exchange>,
    world: World,
    room: Seq<char>,
) -> bool {
    &&& world.is_chat(config.bot, user, room)
    &&& world.rooms_with(config.bot, user).contains(room)
    &&& is_tagged(config, user, talk, room)
}

/// A room is to get every configured tag that is not empty, for the user and for the bot.
pub open spec fn is_tagged(
    config: ConfigView,
    user: Seq<char>,
    talk: Seq<Exchange>,
    room: Seq<char>,
) -> bool {
    forall|i: int|
        0 <= i < config.room_tags.len() && config.room_tags[i].len() > 0 ==> tag_asked_for_both(
            talk,
            config.bot,
            user,
            room,
            #[trigger] config.room_tags[i],
        )
}

/// What is tagged in a part is tagged in the whole.
pub proof fn lemma_tagged_in_part(
    config: ConfigView,
    user: Seq<char>,
    talk: Seq<Exchange>,
    cut: int,
    room: Seq<char>,
)
    requires
        0 <= cut <= talk.len(),
        is_tagged(config, user, talk.take(cut), room) || is_tagged(
            config,
            user,
            talk.skip(cut),
            room,
        ),
    ensures
        is_tagged(config, user, talk, room),
{
    assert forall|i: int|
        0 <= i < config.room_tags.len() && config.room_tags[i].len()
            > 0 implies tag_asked_for_both(
        talk,
        config.bot,
        user,
        room,
        #[trigger] config.room_tags[i],
    ) by {
        let tag = config.room_tags[i];
        let bot = config.bot;
        lemma_asked_in_part(talk, cut, Request::SetRoomTag { owner: user, room, tag, info: None });
        lemma_asked_in_part(talk, cut, Request::SetRoomTag { owner: bot, room, tag, info: None });
    }
}

/// Everyone's `m.direct`, with the room among those that `owner` lists for `peer`. All other
/// entries stay.
pub open spec fn listed_also(
    direct: Map<Seq<char>, DirectView>,
    owner: Seq<char>,
    peer: Seq<char>,
    room: Seq<char>,
) -> Map<Seq<char>, DirectView> {
    direct.insert(
        owner,
        with_room(
            if direct.contains_key(owner) {
                direct[owner]
            } else {
                Map::empty()
            },
            peer,
            room,
        ),
    )
}

/// Listing a room reads the owner's `m.direct`, and stores it with the room at the end of those of
/// the peer, or as it is where the room is among them already. Every other entry stays, and where
/// none is to be had, there is no other. It comes to what became of the storing.
pub proof fn law_listing_stores_the_list(
    owner: Seq<char>,
    peer: Seq<char>,
    room: Seq<char>,
    talk: Seq<Exchange>,
)
    requires
        conclusion(list_room(owner, peer, room), talk) is Some,
    ensures
        talk.len() == 2,
        talk[0].request == (RequestView::GetDirect { owner }),
        stores_listed(owner, peer, room, talk[0].reply, talk[1].request),
        conclusion(list_room(owner, peer, room), talk) == Some(talk[1].reply->Done_0),
{
    reveal_with_fuel(conclusion, 3);
    assert(talk.drop_first()[0] == talk[1]);
    let before: DirectView = match talk[0].reply->Direct_0 {
        Some(direct) => direct,
        None => Map::empty(),
    };
    let rooms = listed(before, peer);
    assert(rooms + seq![room] =~= rooms.push(room));
}

/// The request stores what the reply tells of `m.direct`, with the room among those of the peer.
pub open spec fn stores_listed(
    owner: Seq<char>,
    peer: Seq<char>,
    room: Seq<char>,
    reply: ReplyView,
    request: RequestView,
) -> bool {
    let before: DirectView = match reply->Direct_0 {
        Some(direct) => direct,
        None => Map::empty(),
    };
    let rooms: Seq<Seq<char>> = if before.contains_key(peer) {
        before[peer]
    } else {
        Seq::empty()
    };
    request == (RequestView::UpdateDirect {
        owner,
        direct: before.insert(
            peer,
            if rooms.contains(room) {
                rooms
            } else {
                rooms + seq![room]
            },
        ),
    })
}

/// Listing a room either fails and leaves everything as it is, or leaves the owner's `m.direct`
/// with the room among those of the peer, and everything else as it is.
pub proof fn law_listing_lists_the_room(
    owner: Seq<char>,
    peer: Seq<char>,
    room: Seq<char>,
    talk: Seq<Exchange>,
    worlds: Seq<World>,
)
    requires
        conclusion(list_room(owner, peer, room), talk) is Some,
        is_history(worlds, talk),
    ensures
        worlds.last() == match conclusion(list_room(owner, peer, room), talk)->0 {
            Ok(()) => World {
                direct: listed_also(worlds[0].direct, owner, peer, room),
                ..worlds[0]
            },
            Err(_) => worlds[0],
        },
{
    reveal_with_fuel(conclusion, 3);
    lemma_history_step(worlds, talk);
    lemma_history_step(worlds.drop_first(), talk.drop_first());
}

} // verus!
