//! Laws on seeing to it that a user has a direct chat.
use crate::creation::{create_room, if_done};
use crate::dialogue::{conclusion, lemma_conversation_parts, Exchange};
use crate::laws::creation::{
    grows, is_new_chat, law_creation_makes_a_dm, law_creation_tags_the_chat, lemma_added_is_there,
    lemma_growing_keeps_dms, lemma_grows_on, lemma_mutual_chat_is_dm, lemma_new_chat_is_mutual,
};
use crate::laws::requests::{is_creating, lemma_creation_asks, lemma_talk_asks_only};
use crate::laws::rooms::{
    finds, is_first_chat, is_read, is_tagged, is_tagged_chat, law_check_tells_the_chat,
    law_find_finds_the_first_chat, law_search_gives_what_is_found, law_tagging_covers_every_tag,
    lemma_check_reads, lemma_find_reads, lemma_finds_one, lemma_finds_some, lemma_tagged_in_part,
    lemma_tags_keep, reads_only, requests, tag_requests,
};
use crate::laws::welcome::{
    delivers, is_message, law_welcome_is_recorded, law_welcome_says_the_text,
    law_welcomed_user_is_left_alone, lemma_welcome_shape, says_nothing,
};
use crate::provision::{
    create_bot, ensure_bot, ensure_dm, with_bot, with_check, with_creation, with_search, with_tags,
};
use crate::rooms::{check_room, find_room, tag_room};
use crate::service::{ConfigView, FailureView, ReplyView, Request, RequestView};
use crate::text::is_user_id;
use crate::welcome::{welcome_key, welcome_user};
use crate::world::{is_done, is_history, lemma_history_parts, lemma_history_step, World};
use vstd::prelude::*;

verus! {

/// Where the bot is seen to, it has an account if that succeeds. Its account is created only if it
/// had none, and nothing else changes.
pub proof fn law_bot_has_an_account(bot: Seq<char>, talk: Seq<Exchange>, worlds: Seq<World>)
    requires
        conclusion(ensure_bot(bot), talk) is Some,
        is_history(worlds, talk),
    ensures
        worlds.last() == if conclusion(ensure_bot(bot), talk)->0 is Ok {
            World { accounts: worlds[0].accounts.insert(bot), ..worlds[0] }
        } else {
            worlds[0]
        },
        talk.len() <= 2,
        talk[0].request == (RequestView::UserExists { user: bot }),
        talk.len() == 2 ==> !worlds[0].accounts.contains(bot) && talk[1].request == (
        RequestView::CreateUser { user: bot, password: None, origin: None }),
        worlds[0].accounts.contains(bot) ==> talk.len() == 1 && conclusion(ensure_bot(bot), talk)->0
            is Ok,
{
    reveal_with_fuel(conclusion, 3);
    lemma_history_step(worlds, talk);
    if talk[0].reply->Flag_0 {
        assert(worlds[0].accounts.insert(bot) =~= worlds[0].accounts);
    } else {
        let talk1 = talk.drop_first();
        assert(talk1[0] == talk[1]);
        assert(conclusion(create_bot(bot), talk1) is Some);
        lemma_history_step(worlds.drop_first(), talk1);
    }
}

/// Seeing to the bot goes by what is replied: where its account exists, that is all, and where it
/// does not, it is created, without a password and from no origin. It comes to what became of that.
pub proof fn law_bot_goes_by_the_replies(bot: Seq<char>, talk: Seq<Exchange>)
    requires
        conclusion(ensure_bot(bot), talk) is Some,
    ensures
        talk.len() >= 1,
        talk[0].request == (RequestView::UserExists { user: bot }),
        talk[0].reply == ReplyView::Flag(true) ==> talk.len() == 1 && conclusion(
            ensure_bot(bot),
            talk,
        )->0 is Ok,
        talk[0].reply != ReplyView::Flag(true) ==> {
            &&& talk.len() == 2
            &&& talk[1].request == (RequestView::CreateUser {
                user: bot,
                password: None,
                origin: None,
            })
            &&& conclusion(ensure_bot(bot), talk) == Some(talk[1].reply->Done_0)
        },
{
    reveal_with_fuel(conclusion, 3);
    if !talk[0].reply->Flag_0 {
        assert(talk.drop_first()[0] == talk[1]);
    }
}

/// The bot's account could not be created, and nothing was done but to try.
pub open spec fn stops_without_bot(
    bot: Seq<char>,
    talk: Seq<Exchange>,
    failure: FailureView,
) -> bool {
    &&& talk.len() == 2
    &&& talk[0].request == (RequestView::UserExists { user: bot })
    &&& talk[1].request == (RequestView::CreateUser { user: bot, password: None, origin: None })
    &&& talk[1].reply == ReplyView::Done(Err(failure))
}

/// Seeing to the bot takes one or two requests, and fails only where it cannot be created.
pub proof fn lemma_bot_shape(bot: Seq<char>, talk: Seq<Exchange>)
    requires
        conclusion(ensure_bot(bot), talk) is Some,
    ensures
        1 <= talk.len() <= 2,
        conclusion(ensure_bot(bot), talk)->0 is Err ==> stops_without_bot(
            bot,
            talk,
            conclusion(ensure_bot(bot), talk)->0->Err_0,
        ),
{
    reveal_with_fuel(conclusion, 3);
    if !talk[0].reply->Flag_0 {
        assert(talk.drop_first()[0] == talk[1]);
    }
}

/// Whether a request is one of those by which a chat is made and listed.
pub open spec fn is_building(request: RequestView) -> bool {
    match request {
        Request::NewRoomId { .. } => true,
        Request::ShortRoomId { .. } => true,
        Request::AppendState { .. } => true,
        Request::Invite { .. } => true,
        Request::Join { .. } => true,
        Request::UpdateDirect { .. } => true,
        _ => false,
    }
}

/// No chat is made or listed in the course of `talk`.
pub open spec fn builds_nothing(talk: Seq<Exchange>) -> bool {
    forall|i: int| 0 <= i < talk.len() ==> !is_building(#[trigger] talk[i].request)
}

/// The same of the parts as of the whole.
proof fn lemma_parts_build_nothing(talk: Seq<Exchange>, cut: int)
    requires
        0 <= cut <= talk.len(),
        builds_nothing(talk.take(cut)),
        builds_nothing(talk.skip(cut)),
    ensures
        builds_nothing(talk),
{
    assert forall|i: int| 0 <= i < talk.len() implies !is_building(#[trigger] talk[i].request) by {
        if i < cut {
            assert(talk.take(cut)[i] == talk[i]);
        } else {
            assert(talk.skip(cut)[i - cut] == talk[i]);
        }
    }
}

proof fn lemma_parts_say_nothing(talk: Seq<Exchange>, cut: int)
    requires
        0 <= cut <= talk.len(),
        says_nothing(talk.take(cut)),
        says_nothing(talk.skip(cut)),
    ensures
        says_nothing(talk),
{
    assert forall|i: int| !#[trigger] is_message(talk, i) by {
        if is_message(talk, i) {
            if i < cut {
                assert(talk.take(cut)[i] == talk[i]);
                assert(is_message(talk.take(cut), i));
            } else {
                assert(talk.skip(cut)[i - cut] == talk[i]);
                assert(is_message(talk.skip(cut), i - cut));
            }
        }
    }
}

/// What a part of the provision up to the welcome has done.
#[verifier::opaque]
spec fn is_prelude(
    config: ConfigView,
    user: Seq<char>,
    talk: Seq<Exchange>,
    before: World,
    after: World,
) -> bool {
    &&& says_nothing(talk)
    &&& grows(before, after)
    &&& after.keys == before.keys
    &&& before.has_dm(config.bot, user) && is_user_id(user) ==> builds_nothing(talk)
        && after.same_chats(before)
}

proof fn lemma_prelude_on(
    config: ConfigView,
    user: Seq<char>,
    talk: Seq<Exchange>,
    cut: int,
    first: World,
    second: World,
    third: World,
)
    requires
        0 <= cut <= talk.len(),
        is_prelude(config, user, talk.take(cut), first, second),
        is_prelude(config, user, talk.skip(cut), second, third),
    ensures
        is_prelude(config, user, talk, first, third),
{
    reveal(is_prelude);
    lemma_parts_say_nothing(talk, cut);
    lemma_grows_on(first, second, third);
    if first.has_dm(config.bot, user) && is_user_id(user) {
        lemma_growing_keeps_dms(first, second, config.bot, user);
        lemma_parts_build_nothing(talk, cut);
    }
}

proof fn lemma_same_chats_grow(before: World, after: World)
    requires
        after.same_chats(before),
        after.local == before.local,
        after.keys == before.keys,
        before.accounts.subset_of(after.accounts),
    ensures
        grows(before, after),
{
    assert forall|owner: Seq<char>, peer: Seq<char>| #[trigger]
        before.rooms_with(owner, peer).is_prefix_of(after.rooms_with(owner, peer)) by {
        let rooms = before.rooms_with(owner, peer);
        assert(rooms =~= after.rooms_with(owner, peer).subrange(0, rooms.len() as int));
    }
}

/// A part of the provision that neither makes nor says anything.
proof fn lemma_quiet_prelude(
    config: ConfigView,
    user: Seq<char>,
    talk: Seq<Exchange>,
    before: World,
    after: World,
)
    requires
        forall|i: int|
            0 <= i < talk.len() ==> is_read(#[trigger] talk[i].request)
                || talk[i].request is SetRoomTag || talk[i].request is CreateUser,
        after.same_chats(before),
        after.local == before.local,
        after.keys == before.keys,
        before.accounts.subset_of(after.accounts),
    ensures
        is_prelude(config, user, talk, before, after),
{
    reveal(is_prelude);
    lemma_same_chats_grow(before, after);
    assert forall|i: int| !#[trigger] is_message(talk, i) by {
        if is_message(talk, i) {
            assert(is_read(talk[i].request) || talk[i].request is SetRoomTag
                || talk[i].request is CreateUser);
        }
    }
    assert forall|i: int| 0 <= i < talk.len() implies !is_building(#[trigger] talk[i].request) by {
        assert(is_read(talk[i].request) || talk[i].request is SetRoomTag
            || talk[i].request is CreateUser);
    }
}

/// A direct chat of the user's that is to get every configured tag, and that a search comes to.
pub open spec fn is_served_chat(
    config: ConfigView,
    user: Seq<char>,
    talk: Seq<Exchange>,
    world: World,
    room: Seq<char>,
) -> bool {
    &&& is_tagged_chat(config, user, talk, world, room)
    &&& is_user_id(user) ==> finds(world, config.bot, user, room)
}

/// The provision comes to the welcome at `cut`, and the user has a direct chat by then that is to
/// get every tag.
spec fn reaches_welcome(
    config: ConfigView,
    user: Seq<char>,
    talk: Seq<Exchange>,
    worlds: Seq<World>,
    result: Result<(), FailureView>,
    cut: int,
) -> bool {
    &&& 0 <= cut <= talk.len()
    &&& is_prelude(config, user, talk.take(cut), worlds[0], worlds[cut])
    &&& worlds[cut].has_dm(config.bot, user)
    &&& exists|room: Seq<char>|
        is_served_chat(config, user, talk.take(cut), worlds[cut], room)
    &&& conclusion(welcome_user(config, user), talk.skip(cut)) == Some(result)
}

/// Where the provision does not come to the welcome, it fails at `cut`, and ends there.
spec fn is_course(
    config: ConfigView,
    user: Seq<char>,
    talk: Seq<Exchange>,
    worlds: Seq<World>,
    result: Result<(), FailureView>,
    cut: int,
) -> bool {
    ||| reaches_welcome(config, user, talk, worlds, result, cut)
    ||| cut == talk.len() && result is Err && is_prelude(
        config,
        user,
        talk.take(cut),
        worlds[0],
        worlds[cut],
    )
}

proof fn lemma_course_on(
    config: ConfigView,
    user: Seq<char>,
    talk: Seq<Exchange>,
    worlds: Seq<World>,
    result: Result<(), FailureView>,
    start: int,
    cut: int,
)
    requires
        worlds.len() == talk.len() + 1,
        0 <= start <= talk.len(),
        is_prelude(config, user, talk.take(start), worlds[0], worlds[start]),
        is_course(config, user, talk.skip(start), worlds.skip(start), result, cut),
    ensures
        is_course(config, user, talk, worlds, result, start + cut),
        reaches_welcome(config, user, talk.skip(start), worlds.skip(start), result, cut)
            ==> reaches_welcome(config, user, talk, worlds, result, start + cut),
{
    let all = talk.take(start + cut);
    assert(all.take(start) =~= talk.take(start));
    assert(all.skip(start) =~= talk.skip(start).take(cut));
    assert(talk.skip(start + cut) =~= talk.skip(start).skip(cut));
    lemma_prelude_on(
        config,
        user,
        all,
        start,
        worlds[0],
        worlds[start],
        worlds[start + cut],
    );
    if reaches_welcome(config, user, talk.skip(start), worlds.skip(start), result, cut) {
        let late = talk.skip(start).take(cut);
        let world = worlds[start + cut];
        let room = choose|room: Seq<char>| is_served_chat(config, user, late, world, room);
        lemma_tagged_in_part(config, user, all, start, room);
        assert(is_served_chat(config, user, all, world, room));
    }
}

/// Where there was no chat, and one is made, the search comes to that.
proof fn lemma_new_chat_is_found(
    before: World,
    after: World,
    bot: Seq<char>,
    user: Seq<char>,
    room: Seq<char>,
)
    requires
        !before.has_dm(bot, user),
        is_new_chat(before, after, bot, user, room),
    ensures
        finds(after, bot, user, room),
{
    lemma_new_chat_is_mutual(before, after, bot, user, room);
    lemma_mutual_chat_is_dm(after, bot, user, room);
    lemma_added_is_there(before.rooms_with(bot, user), room);
    let found = lemma_finds_some(after, bot, user);
    lemma_finds_one(after, bot, user, found, found);
    let rooms = after.rooms_with(bot, user);
    let old = before.rooms_with(bot, user);
    if found != room {
        let i = choose|i: int| 0 <= i < rooms.len() && rooms[i] == found;
        assert(old.contains(found));
        let j = choose|j: int| 0 <= j < old.len() && old[j] == found;
        assert(before.joined(found) == after.joined(found));
        assert(before.is_listed_dm(bot, user, j));
    }
}

proof fn lemma_creation_course(
    config: ConfigView,
    user: Seq<char>,
    talk: Seq<Exchange>,
    worlds: Seq<World>,
) -> (cut: int)
    requires
        user != config.bot,
        conclusion(with_creation(create_room(config, user), config, user), talk) is Some,
        is_history(worlds, talk),
        is_user_id(user) ==> !worlds[0].has_dm(config.bot, user),
    ensures
        is_course(
            config,
            user,
            talk,
            worlds,
            conclusion(with_creation(create_room(config, user), config, user), talk)->0,
            cut,
        ),
{
    let creation = create_room(config, user);
    let next = |created: Result<(), FailureView>| if_done(created, welcome_user(config, user));
    let cut = lemma_conversation_parts(creation, next, talk);
    lemma_history_parts(worlds, talk, cut);
    law_creation_makes_a_dm(config, user, talk.take(cut), worlds.take(cut + 1));
    let allowed = |request: RequestView| is_creating(request);
    lemma_creation_asks(config, user, allowed);
    lemma_talk_asks_only(creation, allowed, talk.take(cut));
    assert forall|i: int| !#[trigger] is_message(talk.take(cut), i) by {
        if is_message(talk.take(cut), i) {
            assert(allowed(talk.take(cut)[i].request));
        }
    }
    reveal(is_prelude);
    let result = conclusion(creation, talk.take(cut))->0;
    if result is Ok {
        assert(result->Ok_0 == ());
        law_creation_tags_the_chat(config, user, talk.take(cut));
        let room = talk.take(cut)[0].reply->Room_0;
        if is_user_id(user) {
            lemma_new_chat_is_found(worlds[0], worlds[cut], config.bot, user, room);
        }
        assert(is_served_chat(config, user, talk.take(cut), worlds[cut], room));
    }
    cut
}

/// Where no chat changes, the search comes to the same.
pub proof fn lemma_same_chats_find(
    before: World,
    after: World,
    bot: Seq<char>,
    user: Seq<char>,
    room: Seq<char>,
)
    requires
        after.same_chats(before),
    ensures
        finds(before, bot, user, room) == finds(after, bot, user, room),
{
    let rooms = before.rooms_with(bot, user);
    assert(after.rooms_with(bot, user) == rooms);
    assert forall|i: int| is_first_chat(before, bot, user, rooms, i) == #[trigger] is_first_chat(
        after,
        bot,
        user,
        rooms,
        i,
    ) by {
        assert forall|j: int| 0 <= j < rooms.len() implies before.is_chat(bot, user, rooms[j])
            == after.is_chat(bot, user, #[trigger] rooms[j]) by {}
    }
    if finds(before, bot, user, room) {
        let i = choose|i: int| #[trigger]
            is_first_chat(before, bot, user, rooms, i) && rooms[i] == room;
        assert(is_first_chat(after, bot, user, rooms, i));
    }
}

proof fn lemma_tags_course(
    config: ConfigView,
    user: Seq<char>,
    room: Seq<char>,
    talk: Seq<Exchange>,
    worlds: Seq<World>,
) -> (cut: int)
    requires
        conclusion(
            with_tags(tag_room(config.bot, user, room, config.room_tags), config, user),
            talk,
        ) is Some,
        is_history(worlds, talk),
        worlds[0].has_dm(config.bot, user),
        finds(worlds[0], config.bot, user, room),
    ensures
        reaches_welcome(
            config,
            user,
            talk,
            worlds,
            conclusion(
                with_tags(tag_room(config.bot, user, room, config.room_tags), config, user),
                talk,
            )->0,
            cut,
        ),
{
    let bot = config.bot;
    let tagging = tag_room(bot, user, room, config.room_tags);
    let next = |tagged: ()| welcome_user(config, user);
    let cut = lemma_conversation_parts(tagging, next, talk);
    lemma_history_parts(worlds, talk, cut);
    law_tagging_covers_every_tag(bot, user, room, config.room_tags, talk.take(cut));
    lemma_tags_keep(worlds.take(cut + 1), talk.take(cut), bot, user, room);
    lemma_quiet_prelude(config, user, talk.take(cut), worlds[0], worlds[cut]);
    lemma_same_chats_grow(worlds[0], worlds[cut]);
    lemma_growing_keeps_dms(worlds[0], worlds[cut], bot, user);
    lemma_finds_one(worlds[0], bot, user, room, room);
    lemma_same_chats_find(worlds[0], worlds[cut], bot, user, room);
    assert(is_served_chat(config, user, talk.take(cut), worlds[cut], room));
    cut
}

proof fn lemma_check_course(
    config: ConfigView,
    user: Seq<char>,
    room: Seq<char>,
    talk: Seq<Exchange>,
    worlds: Seq<World>,
) -> (cut: int)
    requires
        conclusion(
            with_check(check_room(config.bot, user, room), config, user, room),
            talk,
        ) is Some,
        is_history(worlds, talk),
        finds(worlds[0], config.bot, user, room),
        worlds[0].has_dm(config.bot, user),
    ensures
        reaches_welcome(
            config,
            user,
            talk,
            worlds,
            conclusion(
                with_check(check_room(config.bot, user, room), config, user, room),
                talk,
            )->0,
            cut,
        ),
{
    let check = check_room(config.bot, user, room);
    let next = |is_dm: bool|
        if is_dm {
            with_tags(tag_room(config.bot, user, room, config.room_tags), config, user)
        } else {
            with_creation(create_room(config, user), config, user)
        };
    let start = lemma_conversation_parts(check, next, talk);
    lemma_history_parts(worlds, talk, start);
    lemma_finds_one(worlds[0], config.bot, user, room, room);
    lemma_check_reads(config.bot, user, room, talk.take(start));
    law_check_tells_the_chat(config.bot, user, room, talk.take(start), worlds.take(start + 1));
    lemma_quiet_prelude(config, user, talk.take(start), worlds[0], worlds[start]);
    let cut = lemma_tags_course(config, user, room, talk.skip(start), worlds.skip(start));
    let result = conclusion(with_check(check, config, user, room), talk)->0;
    lemma_course_on(config, user, talk, worlds, result, start, cut);
    start + cut
}

proof fn lemma_search_course(
    config: ConfigView,
    user: Seq<char>,
    talk: Seq<Exchange>,
    worlds: Seq<World>,
) -> (cut: int)
    requires
        user != config.bot,
        conclusion(with_search(find_room(config.bot, user), config, user), talk) is Some,
        is_history(worlds, talk),
    ensures
        is_course(
            config,
            user,
            talk,
            worlds,
            conclusion(with_search(find_room(config.bot, user), config, user), talk)->0,
            cut,
        ),
        is_user_id(user) && worlds[0].has_dm(config.bot, user) ==> reaches_welcome(
            config,
            user,
            talk,
            worlds,
            conclusion(with_search(find_room(config.bot, user), config, user), talk)->0,
            cut,
        ),
{
    let bot = config.bot;
    let search = find_room(bot, user);
    let next = |found: Option<Seq<char>>|
        match found {
            Some(room) => with_check(check_room(bot, user, room), config, user, room),
            None => with_creation(create_room(config, user), config, user),
        };
    assert(with_search(search, config, user) == search.then_do(next));
    let start = lemma_conversation_parts(search, next, talk);
    lemma_history_parts(worlds, talk, start);
    lemma_find_reads(bot, user, talk.take(start));
    law_find_finds_the_first_chat(bot, user, talk.take(start), worlds.take(start + 1));
    lemma_quiet_prelude(config, user, talk.take(start), worlds[0], worlds[start]);
    let late = talk.skip(start);
    let late_worlds = worlds.skip(start);
    let result = conclusion(with_search(search, config, user), talk)->0;
    let cut = match conclusion(search, talk.take(start))->0 {
        Some(room) => {
            let rooms = worlds[0].rooms_with(bot, user);
            let i = choose|i: int| #[trigger]
                is_first_chat(worlds[0], bot, user, rooms, i) && rooms[i] == room;
            assert(finds(worlds[0], bot, user, room));
            lemma_finds_one(worlds[0], bot, user, room, room);
            lemma_check_course(config, user, room, late, late_worlds)
        },
        None => lemma_creation_course(config, user, late, late_worlds),
    };
    lemma_course_on(config, user, talk, worlds, result, start, cut);
    start + cut
}

proof fn lemma_bot_course(
    config: ConfigView,
    user: Seq<char>,
    talk: Seq<Exchange>,
    worlds: Seq<World>,
) -> (cut: int)
    requires
        user != config.bot,
        conclusion(with_bot(ensure_bot(config.bot), config, user), talk) is Some,
        is_history(worlds, talk),
    ensures
        is_course(
            config,
            user,
            talk,
            worlds,
            conclusion(with_bot(ensure_bot(config.bot), config, user), talk)->0,
            cut,
        ),
        is_user_id(user) && worlds[0].has_dm(config.bot, user) ==> reaches_welcome(
            config,
            user,
            talk,
            worlds,
            conclusion(with_bot(ensure_bot(config.bot), config, user), talk)->0,
            cut,
        ) || fails_without_bot(
            config.bot,
            talk,
            conclusion(with_bot(ensure_bot(config.bot), config, user), talk)->0,
        ),
{
    let ensuring = ensure_bot(config.bot);
    let next = |ensured: Result<(), FailureView>|
        if_done(ensured, with_search(find_room(config.bot, user), config, user));
    let start = lemma_conversation_parts(ensuring, next, talk);
    lemma_history_parts(worlds, talk, start);
    let early = talk.take(start);
    law_bot_has_an_account(config.bot, early, worlds.take(start + 1));
    lemma_quiet_prelude(config, user, early, worlds[0], worlds[start]);
    let result = conclusion(with_bot(ensuring, config, user), talk)->0;
    if worlds[0].has_dm(config.bot, user) {
        lemma_same_chats_grow(worlds[0], worlds[start]);
        lemma_growing_keeps_dms(worlds[0], worlds[start], config.bot, user);
    }
    if conclusion(ensuring, early)->0 is Ok {
        let cut = lemma_search_course(config, user, talk.skip(start), worlds.skip(start));
        lemma_course_on(config, user, talk, worlds, result, start, cut);
        start + cut
    } else {
        assert(talk.skip(start).len() == 0);
        assert(early =~= talk);
        lemma_bot_shape(config.bot, early);
        start
    }
}

/// The bot's account could not be created, and that is what it comes to.
pub open spec fn fails_without_bot(
    bot: Seq<char>,
    talk: Seq<Exchange>,
    result: Result<(), FailureView>,
) -> bool {
    result is Err && stops_without_bot(bot, talk, result->Err_0)
}

proof fn lemma_ensure_course(
    config: ConfigView,
    user: Seq<char>,
    talk: Seq<Exchange>,
    worlds: Seq<World>,
) -> (cut: int)
    requires
        config.dm_enabled,
        user != config.bot,
        worlds[0].local.contains(user),
        conclusion(ensure_dm(config, user), talk) is Some,
        is_history(worlds, talk),
    ensures
        is_course(
            config,
            user,
            talk,
            worlds,
            conclusion(ensure_dm(config, user), talk)->0,
            cut,
        ),
        is_user_id(user) && worlds[0].has_dm(config.bot, user) ==> reaches_welcome(
            config,
            user,
            talk,
            worlds,
            conclusion(ensure_dm(config, user), talk)->0,
            cut,
        ) || fails_without_bot(
            config.bot,
            talk.drop_first(),
            conclusion(ensure_dm(config, user), talk)->0,
        ),
{
    lemma_history_step(worlds, talk);
    let result = conclusion(ensure_dm(config, user), talk)->0;
    let cut = lemma_bot_course(config, user, talk.drop_first(), worlds.drop_first());
    lemma_quiet_prelude(config, user, talk.take(1), worlds[0], worlds[1]);
    assert(talk.skip(1) =~= talk.drop_first());
    assert(worlds.skip(1) =~= worlds.drop_first());
    lemma_course_on(config, user, talk, worlds, result, 1, cut);
    1 + cut
}

/// A welcome makes no chat.
proof fn lemma_welcome_builds_nothing(config: ConfigView, user: Seq<char>, talk: Seq<Exchange>)
    requires
        conclusion(welcome_user(config, user), talk) is Some,
    ensures
        builds_nothing(talk),
{
    let at = lemma_welcome_shape(config, user, talk);
    assert forall|i: int| 0 <= i < talk.len() implies !is_building(#[trigger] talk[i].request) by {
        if at == -1 {
            assert(is_read(talk[i].request));
        } else if i < at - 1 {
            assert(is_read(talk.take(at - 1)[i].request));
        }
    }
}

/// No one is provided for where direct chats are disabled, and neither is the bot nor a user of
/// another server: nothing is changed, and it succeeds.
pub proof fn law_ensure_leaves_others_alone(
    config: ConfigView,
    user: Seq<char>,
    talk: Seq<Exchange>,
    worlds: Seq<World>,
)
    requires
        !config.dm_enabled || user == config.bot || !worlds[0].local.contains(user),
        conclusion(ensure_dm(config, user), talk) is Some,
        is_history(worlds, talk),
    ensures
        conclusion(ensure_dm(config, user), talk) == Some(Ok::<(), FailureView>(())),
        talk.len() <= 1,
        reads_only(talk),
        worlds.last() == worlds[0],
{
    reveal_with_fuel(conclusion, 2);
    if config.dm_enabled && user != config.bot {
        lemma_history_step(worlds, talk);
    }
}

/// Whether or not it succeeds, providing for a user takes nothing away: whoever had a direct chat
/// still has it.
pub proof fn law_ensure_keeps_all_dms(
    config: ConfigView,
    user: Seq<char>,
    talk: Seq<Exchange>,
    worlds: Seq<World>,
)
    requires
        conclusion(ensure_dm(config, user), talk) is Some,
        is_history(worlds, talk),
    ensures
        grows(worlds[0], worlds.last()),
        forall|other: Seq<char>| #[trigger]
            worlds[0].has_dm(config.bot, other) ==> worlds.last().has_dm(config.bot, other),
{
    let first = worlds[0];
    let last = worlds.last();
    if !config.dm_enabled || user == config.bot || !first.local.contains(user) {
        law_ensure_leaves_others_alone(config, user, talk, worlds);
        lemma_same_chats_grow(first, last);
    } else {
        let cut = lemma_ensure_course(config, user, talk, worlds);
        reveal(is_prelude);
        if !(cut == talk.len() && conclusion(ensure_dm(config, user), talk)->0 is Err) {
            lemma_history_parts(worlds, talk, cut);
            law_welcome_is_recorded(config, user, talk.skip(cut), worlds.skip(cut));
            assert(grows(worlds[cut], last)) by {
                lemma_same_chats_grow(worlds[cut], World { keys: worlds[cut].keys, ..last });
            }
            lemma_grows_on(first, worlds[cut], last);
        }
    }
    assert forall|other: Seq<char>| #[trigger] first.has_dm(config.bot, other) implies last.has_dm(
        config.bot,
        other,
    ) by {
        lemma_growing_keeps_dms(first, last, config.bot, other);
    }
}

/// Where a local user is provided for with success, the user has a direct chat with the bot.
pub proof fn law_ensure_gives_a_dm(
    config: ConfigView,
    user: Seq<char>,
    talk: Seq<Exchange>,
    worlds: Seq<World>,
)
    requires
        config.dm_enabled,
        user != config.bot,
        worlds[0].local.contains(user),
        conclusion(ensure_dm(config, user), talk) == Some(Ok::<(), FailureView>(())),
        is_history(worlds, talk),
    ensures
        worlds.last().has_dm(config.bot, user),
{
    let cut = lemma_ensure_course(config, user, talk, worlds);
    lemma_history_parts(worlds, talk, cut);
    law_welcome_is_recorded(config, user, talk.skip(cut), worlds.skip(cut));
    let i = choose|i: int| #[trigger] worlds[cut].is_listed_dm(config.bot, user, i);
    assert(worlds.last().is_listed_dm(config.bot, user, i));
}

/// Where a local user is provided for with success, the direct chat that a search comes to
/// afterwards is to get every configured tag, for the user and for the bot.
pub proof fn law_ensure_tags_the_chat(
    config: ConfigView,
    user: Seq<char>,
    talk: Seq<Exchange>,
    worlds: Seq<World>,
)
    requires
        config.dm_enabled,
        user != config.bot,
        worlds[0].local.contains(user),
        conclusion(ensure_dm(config, user), talk) == Some(Ok::<(), FailureView>(())),
        is_history(worlds, talk),
    ensures
        exists|room: Seq<char>| is_served_chat(config, user, talk, worlds.last(), room),
{
    let cut = lemma_ensure_course(config, user, talk, worlds);
    lemma_history_parts(worlds, talk, cut);
    law_welcome_is_recorded(config, user, talk.skip(cut), worlds.skip(cut));
    let room = choose|room: Seq<char>|
        is_served_chat(config, user, talk.take(cut), worlds[cut], room);
    lemma_tagged_in_part(config, user, talk, cut, room);
    lemma_same_chats_find(worlds[cut], worlds.last(), config.bot, user, room);
    assert(is_served_chat(config, user, talk, worlds.last(), room));
}

/// The tags go to the room, and then the user is welcomed, which `result` comes from.
pub open spec fn is_tagged_and_welcomed(
    config: ConfigView,
    user: Seq<char>,
    room: Seq<char>,
    talk: Seq<Exchange>,
    result: Result<(), FailureView>,
    cut: int,
) -> bool {
    &&& 0 <= cut <= talk.len()
    &&& is_tagged(config, user, talk.take(cut), room)
    &&& conclusion(welcome_user(config, user), talk.skip(cut)) == Some(result)
}

/// Where a search comes to a room before a user is provided for, a search afterwards comes to the
/// same room, whether or not that succeeds. For a local user, unless the bot's account cannot be
/// created, the tags go to that room, and then the welcome is tried; it comes to what that comes
/// to.
pub proof fn law_ensure_keeps_the_found_chat(
    config: ConfigView,
    user: Seq<char>,
    room: Seq<char>,
    before: Seq<Exchange>,
    before_worlds: Seq<World>,
    talk: Seq<Exchange>,
    worlds: Seq<World>,
    after: Seq<Exchange>,
    after_worlds: Seq<World>,
)
    requires
        conclusion(find_room(config.bot, user), before) == Some(Some(room)),
        is_history(before_worlds, before),
        worlds[0] == before_worlds.last(),
        conclusion(ensure_dm(config, user), talk) is Some,
        is_history(worlds, talk),
        after_worlds[0] == worlds.last(),
        conclusion(find_room(config.bot, user), after) is Some,
        is_history(after_worlds, after),
    ensures
        conclusion(find_room(config.bot, user), after) == Some(Some(room)),
        config.dm_enabled && user != config.bot && worlds[0].local.contains(user) ==> {
            let result = conclusion(ensure_dm(config, user), talk)->0;
            ||| fails_without_bot(config.bot, talk.drop_first(), result)
            ||| exists|cut: int| #[trigger]
                is_tagged_and_welcomed(config, user, room, talk, result, cut)
        },
{
    let bot = config.bot;
    law_find_finds_the_first_chat(bot, user, before, before_worlds);
    law_search_gives_what_is_found(bot, user, before, before_worlds, room);
    lemma_finds_one(worlds[0], bot, user, room, room);
    law_ensure_makes_no_second_dm(config, user, talk, worlds);
    lemma_same_chats_find(worlds[0], worlds.last(), bot, user, room);
    law_search_gives_what_is_found(bot, user, after, after_worlds, room);
    let result = conclusion(ensure_dm(config, user), talk)->0;
    if config.dm_enabled && user != bot && worlds[0].local.contains(user)
        && !fails_without_bot(bot, talk.drop_first(), result) {
        let cut = lemma_ensure_course(config, user, talk, worlds);
        reveal(is_prelude);
        let tagged = choose|tagged: Seq<char>|
            is_served_chat(config, user, talk.take(cut), worlds[cut], tagged);
        lemma_same_chats_find(worlds[0], worlds[cut], bot, user, tagged);
        lemma_finds_one(worlds[0], bot, user, room, tagged);
        assert(is_tagged_and_welcomed(config, user, room, talk, result, cut));
    }
}

/// Where a local user is provided for with success, the bot has an account.
pub proof fn law_ensure_gives_the_bot_an_account(
    config: ConfigView,
    user: Seq<char>,
    talk: Seq<Exchange>,
    worlds: Seq<World>,
)
    requires
        config.dm_enabled,
        user != config.bot,
        worlds[0].local.contains(user),
        conclusion(ensure_dm(config, user), talk) == Some(Ok::<(), FailureView>(())),
        is_history(worlds, talk),
    ensures
        worlds.last().accounts.contains(config.bot),
{
    lemma_history_step(worlds, talk);
    let talk1 = talk.drop_first();
    let worlds1 = worlds.drop_first();
    let ensuring = ensure_bot(config.bot);
    let next = |ensured: Result<(), FailureView>|
        if_done(ensured, with_search(find_room(config.bot, user), config, user));
    let start = lemma_conversation_parts(ensuring, next, talk1);
    lemma_history_parts(worlds1, talk1, start);
    law_bot_has_an_account(config.bot, talk1.take(start), worlds1.take(start + 1));
    if conclusion(ensuring, talk1.take(start))->0 is Ok {
        let late = talk1.skip(start);
        let late_worlds = worlds1.skip(start);
        let cut = lemma_search_course(config, user, late, late_worlds);
        reveal(is_prelude);
        lemma_history_parts(late_worlds, late, cut);
        law_welcome_is_recorded(config, user, late.skip(cut), late_worlds.skip(cut));
        assert(late_worlds[0].accounts.contains(config.bot));
    }
}

/// A user who has a direct chat is not given another: no room is made, no one is invited, and what
/// is listed stays as it is.
pub proof fn law_ensure_makes_no_second_dm(
    config: ConfigView,
    user: Seq<char>,
    talk: Seq<Exchange>,
    worlds: Seq<World>,
)
    requires
        conclusion(ensure_dm(config, user), talk) is Some,
        is_history(worlds, talk),
        worlds[0].has_dm(config.bot, user),
    ensures
        is_user_id(user) ==> builds_nothing(talk) && worlds.last().same_chats(worlds[0]),
{
    if is_user_id(user) {
        if !config.dm_enabled || user == config.bot || !worlds[0].local.contains(user) {
            law_ensure_leaves_others_alone(config, user, talk, worlds);
            assert forall|i: int| 0 <= i < talk.len() implies !is_building(
                #[trigger] talk[i].request,
            ) by {
                assert(is_read(talk[i].request));
            }
        } else {
            let cut = lemma_ensure_course(config, user, talk, worlds);
            reveal(is_prelude);
            if cut == talk.len() && conclusion(ensure_dm(config, user), talk)->0 is Err {
                assert(talk.take(cut) =~= talk);
            } else {
                lemma_history_parts(worlds, talk, cut);
                law_welcome_is_recorded(config, user, talk.skip(cut), worlds.skip(cut));
                lemma_welcome_builds_nothing(config, user, talk.skip(cut));
                lemma_parts_build_nothing(talk, cut);
            }
        }
    }
}

/// To provide for a user is idempotent: once it has succeeded, doing it again makes and lists
/// nothing, whatever has been added in between.
pub proof fn law_ensure_is_idempotent(
    config: ConfigView,
    user: Seq<char>,
    first: Seq<Exchange>,
    first_worlds: Seq<World>,
    second: Seq<Exchange>,
    second_worlds: Seq<World>,
)
    requires
        conclusion(ensure_dm(config, user), first) == Some(Ok::<(), FailureView>(())),
        is_history(first_worlds, first),
        conclusion(ensure_dm(config, user), second) is Some,
        is_history(second_worlds, second),
        grows(first_worlds.last(), second_worlds[0]),
    ensures
        is_user_id(user) ==> builds_nothing(second) && second_worlds.last().same_chats(
            second_worlds[0],
        ),
{
    if !config.dm_enabled || user == config.bot || !first_worlds[0].local.contains(user) {
        law_ensure_leaves_others_alone(config, user, first, first_worlds);
        law_ensure_leaves_others_alone(config, user, second, second_worlds);
        assert forall|i: int| 0 <= i < second.len() implies !is_building(
            #[trigger] second[i].request,
        ) by {
            assert(is_read(second[i].request));
        }
    } else {
        law_ensure_gives_a_dm(config, user, first, first_worlds);
        lemma_growing_keeps_dms(first_worlds.last(), second_worlds[0], config.bot, user);
        law_ensure_makes_no_second_dm(config, user, second, second_worlds);
    }
}

/// In providing for a user at most one message is sent, and the user is recorded as welcomed
/// exactly when that succeeds. Who is recorded already is sent nothing.
pub proof fn law_ensure_sends_one_welcome(
    config: ConfigView,
    user: Seq<char>,
    talk: Seq<Exchange>,
    worlds: Seq<World>,
)
    requires
        conclusion(ensure_dm(config, user), talk) is Some,
        is_history(worlds, talk),
    ensures
        forall|i: int, j: int| #[trigger]
            is_message(talk, i) && #[trigger] is_message(talk, j) ==> i == j,
        worlds.last().keys == if delivers(talk) {
            worlds[0].keys.insert(welcome_key(user))
        } else {
            worlds[0].keys
        },
        worlds[0].keys.contains(welcome_key(user)) ==> says_nothing(talk),
{
    if !config.dm_enabled || user == config.bot || !worlds[0].local.contains(user) {
        law_ensure_leaves_others_alone(config, user, talk, worlds);
        assert forall|i: int| !#[trigger] is_message(talk, i) by {
            if is_message(talk, i) {
                assert(is_read(talk[i].request));
            }
        }
    } else {
        let cut = lemma_ensure_course(config, user, talk, worlds);
        reveal(is_prelude);
        let early = talk.take(cut);
        let late = talk.skip(cut);
        if cut == talk.len() && conclusion(ensure_dm(config, user), talk)->0 is Err {
            assert(early =~= talk);
        } else {
            lemma_history_parts(worlds, talk, cut);
            law_welcome_is_recorded(config, user, late, worlds.skip(cut));
            law_welcome_says_the_text(config, user, late);
            assert forall|i: int| #[trigger] is_message(talk, i) implies i >= cut && is_message(
                late,
                i - cut,
            ) && late[i - cut] == talk[i] by {
                if i < cut {
                    assert(early[i] == talk[i]);
                    assert(is_message(early, i));
                }
            }
            assert forall|i: int, j: int| #[trigger]
                is_message(talk, i) && #[trigger] is_message(talk, j) implies i == j by {
                assert(is_message(late, i - cut) && is_message(late, j - cut));
            }
            if delivers(late) {
                let i = choose|i: int| #[trigger] is_message(late, i) && is_done(late[i].reply);
                assert(late[i] == talk[i + cut]);
                assert(is_message(talk, i + cut));
            }
            if delivers(talk) {
                let i = choose|i: int| #[trigger] is_message(talk, i) && is_done(talk[i].reply);
                assert(is_message(late, i - cut));
            }
            if worlds[0].keys.contains(welcome_key(user)) {
                law_welcomed_user_is_left_alone(config, user, late, worlds.skip(cut));
            }
        }
    }
}

/// A user is welcomed once, however often the user is provided for.
pub proof fn law_ensure_welcomes_once(
    config: ConfigView,
    user: Seq<char>,
    first: Seq<Exchange>,
    first_worlds: Seq<World>,
    second: Seq<Exchange>,
    second_worlds: Seq<World>,
)
    requires
        conclusion(ensure_dm(config, user), first) is Some,
        is_history(first_worlds, first),
        conclusion(ensure_dm(config, user), second) is Some,
        is_history(second_worlds, second),
        first_worlds.last().keys.subset_of(second_worlds[0].keys),
        delivers(first),
    ensures
        says_nothing(second),
{
    law_ensure_sends_one_welcome(config, user, first, first_worlds);
    law_ensure_sends_one_welcome(config, user, second, second_worlds);
}

/// Where the cuts are that part a provision.
pub struct Parts {
    /// Where the bot has been seen to.
    pub bot: int,
    /// Where the search is over.
    pub search: int,
    /// Where the room that was found has been checked.
    pub check: int,
    /// Where the chat has been tagged, or made.
    pub chat: int,
}

/// `talk` is the making of a chat, up to `end`, and then, if that succeeds, the welcome.
pub open spec fn makes_and_welcomes(
    config: ConfigView,
    user: Seq<char>,
    talk: Seq<Exchange>,
    result: Result<(), FailureView>,
    from: int,
    end: int,
) -> bool {
    let made = conclusion(create_room(config, user), talk.subrange(from, end));
    &&& from <= end <= talk.len()
    &&& made is Some
    &&& made->0 is Err ==> talk.len() == end && result == made->0
    &&& made->0 is Ok ==> conclusion(welcome_user(config, user), talk.skip(end)) == Some(result)
}

/// A provision for a local user has these parts: the bot is seen to, and if that succeeds, a search
/// is made. A room that it comes to is checked once more. If it checks out, it gets its tags, and
/// nothing else, and then the user is welcomed. In any other case a chat is made, and if that
/// succeeds, the user is welcomed.
pub open spec fn has_parts(
    config: ConfigView,
    user: Seq<char>,
    talk: Seq<Exchange>,
    result: Result<(), FailureView>,
    parts: Parts,
) -> bool {
    let ensured = conclusion(ensure_bot(config.bot), talk.subrange(1, parts.bot));
    &&& 1 <= parts.bot <= talk.len()
    &&& ensured is Some
    &&& ensured->0 is Err ==> talk.len() == parts.bot && result == ensured->0
    &&& ensured->0 is Ok ==> {
        let found = conclusion(
            find_room(config.bot, user),
            talk.subrange(parts.bot, parts.search),
        );
        &&& parts.bot <= parts.search <= talk.len()
        &&& found is Some
        &&& found->0 is None ==> makes_and_welcomes(
            config,
            user,
            talk,
            result,
            parts.search,
            parts.chat,
        )
        &&& found->0 is Some ==> {
            let room = found->0->0;
            let checked = conclusion(
                check_room(config.bot, user, room),
                talk.subrange(parts.search, parts.check),
            );
            &&& parts.search <= parts.check <= talk.len()
            &&& checked is Some
            &&& !checked->0 ==> makes_and_welcomes(
                config,
                user,
                talk,
                result,
                parts.check,
                parts.chat,
            )
            &&& checked->0 ==> {
                &&& parts.check <= parts.chat <= talk.len()
                &&& requests(talk.subrange(parts.check, parts.chat)) == tag_requests(
                    config.bot,
                    user,
                    room,
                    config.room_tags,
                )
                &&& conclusion(welcome_user(config, user), talk.skip(parts.chat)) == Some(result)
            }
        }
    }
}

proof fn lemma_creation_parts(
    config: ConfigView,
    user: Seq<char>,
    talk: Seq<Exchange>,
    from: int,
) -> (end: int)
    requires
        0 <= from <= talk.len(),
        conclusion(with_creation(create_room(config, user), config, user), talk.skip(from)) is Some,
    ensures
        makes_and_welcomes(
            config,
            user,
            talk,
            conclusion(
                with_creation(create_room(config, user), config, user),
                talk.skip(from),
            )->0,
            from,
            end,
        ),
{
    let late = talk.skip(from);
    let creation = create_room(config, user);
    let next = |created: Result<(), FailureView>| if_done(created, welcome_user(config, user));
    assert(with_creation(creation, config, user) == creation.then_do(next));
    let cut = lemma_conversation_parts(creation, next, late);
    assert(talk.subrange(from, from + cut) =~= late.take(cut));
    assert(talk.skip(from + cut) =~= late.skip(cut));
    from + cut
}

proof fn lemma_search_parts(
    config: ConfigView,
    user: Seq<char>,
    talk: Seq<Exchange>,
    from: int,
) -> (parts: Parts)
    requires
        1 <= from <= talk.len(),
        conclusion(ensure_bot(config.bot), talk.subrange(1, from)) == Some(
            Ok::<(), FailureView>(()),
        ),
        conclusion(
            with_search(find_room(config.bot, user), config, user),
            talk.skip(from),
        ) is Some,
    ensures
        has_parts(
            config,
            user,
            talk,
            conclusion(
                with_search(find_room(config.bot, user), config, user),
                talk.skip(from),
            )->0,
            parts,
        ),
{
    let late = talk.skip(from);
    let search = find_room(config.bot, user);
    let next = |found: Option<Seq<char>>|
        match found {
            Some(room) => with_check(check_room(config.bot, user, room), config, user, room),
            None => with_creation(create_room(config, user), config, user),
        };
    assert(with_search(search, config, user) == search.then_do(next));
    let cut = lemma_conversation_parts(search, next, late);
    let searched = from + cut;
    assert(talk.subrange(from, searched) =~= late.take(cut));
    assert(talk.skip(searched) =~= late.skip(cut));
    match conclusion(search, late.take(cut))->0 {
        None => {
            let end = lemma_creation_parts(config, user, talk, searched);
            Parts { bot: from, search: searched, check: searched, chat: end }
        },
        Some(room) => {
            let rest = talk.skip(searched);
            let check = check_room(config.bot, user, room);
            let tagging = tag_room(config.bot, user, room, config.room_tags);
            let next1 = |is_dm: bool|
                if is_dm {
                    with_tags(tagging, config, user)
                } else {
                    with_creation(create_room(config, user), config, user)
                };
            assert(with_check(check, config, user, room) == check.then_do(next1));
            let cut1 = lemma_conversation_parts(check, next1, rest);
            let checked = searched + cut1;
            assert(talk.subrange(searched, checked) =~= rest.take(cut1));
            assert(talk.skip(checked) =~= rest.skip(cut1));
            if conclusion(check, rest.take(cut1))->0 {
                let last = talk.skip(checked);
                let next2 = |tagged: ()| welcome_user(config, user);
                assert(with_tags(tagging, config, user) == tagging.then_do(next2));
                let cut2 = lemma_conversation_parts(tagging, next2, last);
                law_tagging_covers_every_tag(
                    config.bot,
                    user,
                    room,
                    config.room_tags,
                    last.take(cut2),
                );
                assert(talk.subrange(checked, checked + cut2) =~= last.take(cut2));
                assert(talk.skip(checked + cut2) =~= last.skip(cut2));
                Parts { bot: from, search: searched, check: checked, chat: checked + cut2 }
            } else {
                let end = lemma_creation_parts(config, user, talk, checked);
                Parts { bot: from, search: searched, check: checked, chat: end }
            }
        },
    }
}

/// A provision goes by what is replied. Where direct chats are disabled, and for the bot, nothing
/// is asked; and nothing more once the user turns out to be of another server. A local user's
/// provision has the parts of which `has_parts` speaks.
pub proof fn law_ensure_goes_by_the_replies(
    config: ConfigView,
    user: Seq<char>,
    talk: Seq<Exchange>,
) -> (parts: Parts)
    requires
        conclusion(ensure_dm(config, user), talk) is Some,
    ensures
        !config.dm_enabled || user == config.bot ==> talk.len() == 0 && conclusion(
            ensure_dm(config, user),
            talk,
        )->0 is Ok,
        config.dm_enabled && user != config.bot ==> {
            &&& talk.len() >= 1
            &&& talk[0].request == (RequestView::IsLocal { user })
            &&& talk[0].reply == ReplyView::Flag(false) ==> talk.len() == 1 && conclusion(
                ensure_dm(config, user),
                talk,
            )->0 is Ok
            &&& talk[0].reply != ReplyView::Flag(false) ==> has_parts(
                config,
                user,
                talk,
                conclusion(ensure_dm(config, user), talk)->0,
                parts,
            )
        },
{
    reveal_with_fuel(conclusion, 2);
    let none = Parts { bot: 0, search: 0, check: 0, chat: 0 };
    if !config.dm_enabled || user == config.bot || talk[0].reply == ReplyView::Flag(false) {
        none
    } else {
        let late = talk.drop_first();
        let ensuring = ensure_bot(config.bot);
        assert(conclusion(with_bot(ensuring, config, user), late) is Some);
        let next = |ensured: Result<(), FailureView>|
            if_done(ensured, with_search(find_room(config.bot, user), config, user));
        assert(with_bot(ensuring, config, user) == ensuring.then_do(next));
        let cut = lemma_conversation_parts(ensuring, next, late);
        assert(talk.subrange(1, 1 + cut) =~= late.take(cut));
        assert(talk.skip(1 + cut) =~= late.skip(cut));
        let ensured = conclusion(ensuring, late.take(cut))->0;
        if ensured is Ok {
            assert(ensured->Ok_0 == ());
            lemma_search_parts(config, user, talk, 1 + cut)
        } else {
            Parts { bot: 1 + cut, ..none }
        }
    }
}

} // verus!
