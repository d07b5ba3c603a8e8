//! Which requests a procedure makes at all.
use crate::creation::{
    append_state, create_room, if_done, initial_state, invite_user, join_user, list_for_bot,
    list_for_user, lock_to_build, lock_to_join, register_room, tag_new, unlock_built, unlock_failed,
    unlock_joined,
};
use crate::dialogue::{conclusion, Dialogue, Exchange};
use crate::direct::rooms_of_user;
use crate::provision::{
    create_bot, ensure_bot, ensure_dm, with_bot, with_check, with_creation, with_search, with_tags,
};
use crate::rooms::{
    check_bot, check_room, check_user, find_room, first_checked, list_room, tag_room,
    tag_room_for_bot,
};
use crate::service::{
    ConfigView, Content, ContentView, FailureView, ReplyView, Request, RequestView,
};
use crate::text::trimmed;
use crate::welcome::{
    append_message, mark_if_sent, mark_welcomed, markdown_message, read_welcome, send_message,
    unlock_appended, welcome_in_room, welcome_user,
};
use vstd::prelude::*;

verus! {

/// Whatever is replied, `dialogue` makes no request but `allowed` ones.
pub open spec fn asks_only<R>(
    dialogue: Dialogue<R>,
    allowed: spec_fn(RequestView) -> bool,
) -> bool
    decreases dialogue,
{
    match dialogue {
        Dialogue::Return(_) => true,
        Dialogue::Ask(request, resume) => {
            &&& allowed(request)
            &&& forall|reply: ReplyView| asks_only(#[trigger] resume(reply), allowed)
        },
    }
}

/// A composed dialogue asks only what its parts ask.
pub proof fn lemma_then_asks_only<R, S>(
    dialogue: Dialogue<R>,
    next: spec_fn(R) -> Dialogue<S>,
    allowed: spec_fn(RequestView) -> bool,
)
    requires
        asks_only(dialogue, allowed),
        forall|result: R| asks_only(#[trigger] next(result), allowed),
    ensures
        asks_only(dialogue.then_do(next), allowed),
    decreases dialogue,
{
    match dialogue {
        Dialogue::Return(result) => {
            assert(asks_only(next(result), allowed));
        },
        Dialogue::Ask(request, resume) => {
            let composed = dialogue.then_do(next);
            assert forall|reply: ReplyView| asks_only(
                #[trigger] (composed->Ask_1)(reply),
                allowed,
            ) by {
                assert(asks_only(resume(reply), allowed));
                lemma_then_asks_only(resume(reply), next, allowed);
            }
        },
    }
}

/// In a conversation of a dialogue, only what the dialogue asks is asked.
pub proof fn lemma_talk_asks_only<R>(
    dialogue: Dialogue<R>,
    allowed: spec_fn(RequestView) -> bool,
    talk: Seq<Exchange>,
)
    requires
        asks_only(dialogue, allowed),
        conclusion(dialogue, talk) is Some,
    ensures
        forall|i: int| 0 <= i < talk.len() ==> allowed(#[trigger] talk[i].request),
    decreases talk.len(),
{
    if talk.len() > 0 {
        let rest = talk.drop_first();
        let after = dialogue.after(talk[0].reply);
        assert(asks_only((dialogue->Ask_1)(talk[0].reply), allowed));
        lemma_talk_asks_only(after, allowed, rest);
        assert forall|i: int| 0 <= i < talk.len() implies allowed(#[trigger] talk[i].request) by {
            if i > 0 {
                assert(rest[i - 1] == talk[i]);
            }
        }
    }
}

/// What is asked for in making a chat.
pub open spec fn is_creating(request: RequestView) -> bool {
    match request {
        Request::NewRoomId { .. } => true,
        Request::ShortRoomId { .. } => true,
        Request::LockRoom { .. } => true,
        Request::UnlockRoom { .. } => true,
        Request::AppendState { .. } => true,
        Request::Invite { .. } => true,
        Request::Join { .. } => true,
        Request::GetDirect { .. } => true,
        Request::UpdateDirect { .. } => true,
        Request::SetRoomTag { .. } => true,
        _ => false,
    }
}

/// What is asked for in listing a chat, or in putting tags on it.
pub open spec fn is_marking(request: RequestView) -> bool {
    request is GetDirect || request is UpdateDirect || request is SetRoomTag
}

/// The tagging of a chat only puts tags.
pub proof fn lemma_tagging_asks(
    bot: Seq<char>,
    user: Seq<char>,
    room: Seq<char>,
    tags: Seq<Seq<char>>,
    allowed: spec_fn(RequestView) -> bool,
)
    requires
        forall|request: RequestView| request is SetRoomTag ==> #[trigger] allowed(request),
    ensures
        asks_only(tag_room(bot, user, room, tags), allowed),
    decreases tags.len(),
{
    if tags.len() > 0 {
        let rest = tag_room(bot, user, room, tags.drop_first());
        lemma_tagging_asks(bot, user, room, tags.drop_first(), allowed);
        if tags[0].len() > 0 {
            let for_bot = tag_room_for_bot(bot, user, room, tags);
            let for_user = tag_room(bot, user, room, tags);
            assert(asks_only(for_bot, allowed)) by {
                assert forall|reply: ReplyView| asks_only(
                    #[trigger] (for_bot->Ask_1)(reply),
                    allowed,
                ) by {
                    assert((for_bot->Ask_1)(reply) == rest);
                }
            }
            assert forall|reply: ReplyView| asks_only(
                #[trigger] (for_user->Ask_1)(reply),
                allowed,
            ) by {
                assert((for_user->Ask_1)(reply) == for_bot);
            }
        }
    }
}

proof fn lemma_listing_asks(
    owner: Seq<char>,
    peer: Seq<char>,
    room: Seq<char>,
    allowed: spec_fn(RequestView) -> bool,
)
    requires
        forall|request: RequestView| is_marking(request) ==> #[trigger] allowed(request),
    ensures
        asks_only(list_room(owner, peer, room), allowed),
{
    reveal_with_fuel(asks_only, 4);
}

/// The making of a chat asks for nothing else.
pub proof fn lemma_creation_asks(
    config: ConfigView,
    user: Seq<char>,
    allowed: spec_fn(RequestView) -> bool,
)
    requires
        forall|request: RequestView| is_creating(request) ==> #[trigger] allowed(request),
    ensures
        asks_only(create_room(config, user), allowed),
{
    reveal_with_fuel(asks_only, 3);
    let creation = create_room(config, user);
    assert forall|reply: ReplyView| asks_only(#[trigger] (creation->Ask_1)(reply), allowed) by {
        let room = reply->Room_0;
        let registering = register_room(config, user, room);
        let locking = lock_to_build(config, user, room);
        lemma_appending_asks(config, user, room, 0, allowed);
        assert(asks_only(locking, allowed));
        assert(asks_only(registering, allowed));
    }
}

proof fn lemma_appending_asks(
    config: ConfigView,
    user: Seq<char>,
    room: Seq<char>,
    i: nat,
    allowed: spec_fn(RequestView) -> bool,
)
    requires
        forall|request: RequestView| is_creating(request) ==> #[trigger] allowed(request),
    ensures
        asks_only(append_state(config, user, room, i), allowed),
    decreases initial_state(config).len() - i,
{
    if i >= initial_state(config).len() {
        lemma_entry_asks(config, user, room, allowed);
        assert(asks_only(unlock_built(config, user, room), allowed));
    } else {
        lemma_appending_asks(config, user, room, i + 1, allowed);
        let appending = append_state(config, user, room, i);
        assert forall|reply: ReplyView| asks_only(
            #[trigger] (appending->Ask_1)(reply),
            allowed,
        ) by {
            if reply->Done_0 is Err {
                reveal_with_fuel(asks_only, 3);
                assert(asks_only(unlock_failed(room, reply->Done_0->Err_0), allowed));
            }
        }
    }
}

proof fn lemma_entry_asks(
    config: ConfigView,
    user: Seq<char>,
    room: Seq<char>,
    allowed: spec_fn(RequestView) -> bool,
)
    requires
        forall|request: RequestView| is_creating(request) ==> #[trigger] allowed(request),
    ensures
        asks_only(unlock_built(config, user, room), allowed),
{
    reveal_with_fuel(asks_only, 3);
    lemma_both_listings_ask(config, user, room, allowed);
    assert forall|joined: Result<(), FailureView>| asks_only(
        #[trigger] unlock_joined(config, user, room, joined),
        allowed,
    ) by {
        let unlocking = unlock_joined(config, user, room, joined);
        assert forall|reply: ReplyView| asks_only(
            #[trigger] (unlocking->Ask_1)(reply),
            allowed,
        ) by {}
    }
    let joining = join_user(config, user, room);
    assert forall|reply: ReplyView| asks_only(#[trigger] (joining->Ask_1)(reply), allowed) by {
        assert(asks_only(unlock_joined(config, user, room, reply->Done_0), allowed));
    }
    assert(asks_only(joining, allowed));
    assert(asks_only(lock_to_join(config, user, room), allowed));
    assert(asks_only(invite_user(config, user, room), allowed));
}

/// The listing of a new chat for both asks for nothing else, with the tagging that follows.
pub proof fn lemma_both_listings_ask(
    config: ConfigView,
    user: Seq<char>,
    room: Seq<char>,
    allowed: spec_fn(RequestView) -> bool,
)
    requires
        forall|request: RequestView| is_marking(request) ==> #[trigger] allowed(request),
    ensures
        asks_only(
            list_for_bot(list_room(config.bot, user, room), config, user, room),
            allowed,
        ),
{
    let bot = config.bot;
    let tagging = tag_room(bot, user, room, config.room_tags);
    lemma_tagging_asks(bot, user, room, config.room_tags, allowed);
    let last = |tagged: ()| Dialogue::<Result<(), FailureView>>::Return(Ok(()));
    lemma_then_asks_only(tagging, last, allowed);
    let for_user = list_room(user, bot, room);
    lemma_listing_asks(user, bot, room, allowed);
    let tag = |listed: Result<(), FailureView>| if_done(listed, tag_new(tagging));
    lemma_then_asks_only(for_user, tag, allowed);
    let for_bot = list_room(bot, user, room);
    lemma_listing_asks(bot, user, room, allowed);
    let list = |listed: Result<(), FailureView>|
        if_done(listed, list_for_user(for_user, config, user, room));
    lemma_then_asks_only(for_bot, list, allowed);
}

/// What is asked for in the search for a chat.
pub open spec fn is_search(request: RequestView) -> bool {
    request is GetDirect || request is JoinedCount || request is IsJoined
}

/// The check of a room asks who has joined it.
pub proof fn lemma_check_asks(
    bot: Seq<char>,
    user: Seq<char>,
    room: Seq<char>,
    allowed: spec_fn(RequestView) -> bool,
)
    requires
        forall|request: RequestView| is_search(request) ==> #[trigger] allowed(request),
    ensures
        asks_only(check_room(bot, user, room), allowed),
{
    reveal_with_fuel(asks_only, 4);
    let bot_check = check_bot(bot, room);
    assert(asks_only(bot_check, allowed));
    let user_check = check_user(bot, user, room);
    assert(asks_only(user_check, allowed));
}

proof fn lemma_first_checked_asks(
    bot: Seq<char>,
    user: Seq<char>,
    rooms: Seq<Seq<char>>,
    allowed: spec_fn(RequestView) -> bool,
)
    requires
        forall|request: RequestView| is_search(request) ==> #[trigger] allowed(request),
    ensures
        asks_only(first_checked(bot, user, rooms), allowed),
    decreases rooms.len(),
{
    if rooms.len() > 0 {
        let next = |is_dm: bool|
            if is_dm {
                Dialogue::Return(Some(rooms[0]))
            } else {
                first_checked(bot, user, rooms.drop_first())
            };
        let check = check_room(bot, user, rooms[0]);
        assert(first_checked(bot, user, rooms) == check.then_do(next));
        lemma_check_asks(bot, user, rooms[0], allowed);
        lemma_first_checked_asks(bot, user, rooms.drop_first(), allowed);
        lemma_then_asks_only(check, next, allowed);
    }
}

/// The search for a chat asks what is listed and who has joined.
pub proof fn lemma_find_asks(
    bot: Seq<char>,
    user: Seq<char>,
    allowed: spec_fn(RequestView) -> bool,
)
    requires
        forall|request: RequestView| is_search(request) ==> #[trigger] allowed(request),
    ensures
        asks_only(find_room(bot, user), allowed),
{
    let search = find_room(bot, user);
    assert forall|reply: ReplyView| asks_only(#[trigger] (search->Ask_1)(reply), allowed) by {
        if reply->Direct_0 is Some {
            lemma_first_checked_asks(
                bot,
                user,
                rooms_of_user(reply->Direct_0->0, user),
                allowed,
            );
        }
    }
}

/// Seeing to the bot asks whether it exists, and creates it.
pub proof fn lemma_bot_asks(bot: Seq<char>, allowed: spec_fn(RequestView) -> bool)
    requires
        forall|request: RequestView|
            request is UserExists || request is CreateUser ==> #[trigger] allowed(request),
    ensures
        asks_only(ensure_bot(bot), allowed),
{
    reveal_with_fuel(asks_only, 3);
    assert(asks_only(create_bot(bot), allowed));
}

/// A welcome asks neither for the users nor where one belongs.
proof fn lemma_welcome_asks(
    config: ConfigView,
    user: Seq<char>,
    allowed: spec_fn(RequestView) -> bool,
)
    requires
        forall|request: RequestView|
            !(request is ListLocalUsers || request is IsLocal) ==> #[trigger] allowed(request),
    ensures
        asks_only(welcome_user(config, user), allowed),
{
    reveal_with_fuel(asks_only, 2);
    if config.welcome_path is Some {
        let reading = read_welcome(config, user, config.welcome_path->0);
        assert forall|reply: ReplyView| asks_only(#[trigger] (reading->Ask_1)(reply), allowed) by {
            if reply->Text_0 is Some {
                lemma_welcome_in_room_asks(config, user, trimmed(reply->Text_0->0), allowed);
            }
        }
        assert(asks_only(reading, allowed));
        let asking = welcome_user(config, user);
        assert forall|reply: ReplyView| asks_only(#[trigger] (asking->Ask_1)(reply), allowed) by {}
    }
}

/// The sending of a message locks the room, appends, and unlocks it.
pub proof fn lemma_message_asks(
    sender: Seq<char>,
    room: Seq<char>,
    content: ContentView,
    allowed: spec_fn(RequestView) -> bool,
)
    requires
        forall|request: RequestView|
            request is LockRoom || request is AppendMessage || request is UnlockRoom
                ==> #[trigger] allowed(request),
    ensures
        asks_only(send_message(sender, room, content), allowed),
{
    reveal_with_fuel(asks_only, 3);
    assert forall|appended: Result<(), FailureView>| asks_only(
        #[trigger] unlock_appended(room, appended),
        allowed,
    ) by {}
    assert(asks_only(append_message(sender, room, content), allowed));
}

proof fn lemma_welcome_in_room_asks(
    config: ConfigView,
    user: Seq<char>,
    text: Seq<char>,
    allowed: spec_fn(RequestView) -> bool,
)
    requires
        forall|request: RequestView|
            !(request is ListLocalUsers || request is IsLocal) ==> #[trigger] allowed(request),
    ensures
        asks_only(
            welcome_in_room(find_room(config.bot, user), config, user, text),
            allowed,
        ),
{
    let mark = |sent: Result<(), FailureView>|
        match sent {
            Ok(()) => mark_welcomed(user),
            Err(_) => Dialogue::Return(Ok(())),
        };
    assert(asks_only(mark_welcomed(user), allowed)) by {
        reveal_with_fuel(asks_only, 2);
    }
    let next = |found: Option<Seq<char>>|
        match found {
            None => Dialogue::Return(Ok(())),
            Some(room) => mark_if_sent(
                send_message(config.bot, room, Content::Text(markdown_message(text))),
                user,
            ),
        };
    assert forall|found: Option<Seq<char>>| asks_only(#[trigger] next(found), allowed) by {
        match found {
            None => {},
            Some(room) => {
                let content = Content::Text(markdown_message(text));
                let sending = send_message(config.bot, room, content);
                lemma_message_asks(config.bot, room, content, allowed);
                assert(mark_if_sent(sending, user) == sending.then_do(mark));
                lemma_then_asks_only(sending, mark, allowed);
            },
        }
    }
    let search = find_room(config.bot, user);
    lemma_find_asks(config.bot, user, allowed);
    assert(welcome_in_room(search, config, user, text) == search.then_do(next));
    lemma_then_asks_only(search, next, allowed);
}

/// The provision for a user asks of no other whether they are local, and does not list the users.
pub proof fn lemma_ensure_asks(
    config: ConfigView,
    user: Seq<char>,
    allowed: spec_fn(RequestView) -> bool,
)
    requires
        forall|request: RequestView|
            !(request is ListLocalUsers || request is IsLocal) ==> #[trigger] allowed(request),
        allowed(Request::IsLocal { user }),
    ensures
        asks_only(ensure_dm(config, user), allowed),
{
    let bot = config.bot;
    lemma_welcome_asks(config, user, allowed);
    lemma_creation_asks(config, user, allowed);
    let after_creation = |created: Result<(), FailureView>|
        if_done(created, welcome_user(config, user));
    lemma_then_asks_only(create_room(config, user), after_creation, allowed);
    assert(asks_only(with_creation(create_room(config, user), config, user), allowed));
    assert forall|room: Seq<char>| asks_only(
        #[trigger] with_check(check_room(bot, user, room), config, user, room),
        allowed,
    ) by {
        let tagging = tag_room(bot, user, room, config.room_tags);
        let after_tags = |tagged: ()| welcome_user(config, user);
        lemma_tagging_asks(bot, user, room, config.room_tags, allowed);
        lemma_then_asks_only(tagging, after_tags, allowed);
        let check = check_room(bot, user, room);
        let after_check = |is_dm: bool|
            if is_dm {
                with_tags(tag_room(bot, user, room, config.room_tags), config, user)
            } else {
                with_creation(create_room(config, user), config, user)
            };
        lemma_check_asks(bot, user, room, allowed);
        lemma_then_asks_only(check, after_check, allowed);
    }
    let search = find_room(bot, user);
    let after_search = |found: Option<Seq<char>>|
        match found {
            Some(room) => with_check(check_room(bot, user, room), config, user, room),
            None => with_creation(create_room(config, user), config, user),
        };
    lemma_find_asks(bot, user, allowed);
    assert(with_search(search, config, user) == search.then_do(after_search));
    assert forall|found: Option<Seq<char>>| asks_only(#[trigger] after_search(found), allowed) by {
        match found {
            Some(room) => {
                assert(asks_only(
                    with_check(check_room(bot, user, room), config, user, room),
                    allowed,
                ));
            },
            None => {},
        }
    }
    lemma_then_asks_only(search, after_search, allowed);
    let ensuring = ensure_bot(bot);
    let after_bot = |ensured: Result<(), FailureView>|
        if_done(ensured, with_search(find_room(bot, user), config, user));
    lemma_bot_asks(bot, allowed);
    lemma_then_asks_only(ensuring, after_bot, allowed);
    assert(asks_only(with_bot(ensuring, config, user), allowed));
    reveal_with_fuel(asks_only, 2);
}

} // verus!
