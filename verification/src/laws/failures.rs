//! Laws on what makes a procedure fail.
use crate::creation::{
    append_state, create_room, if_done, initial_state, invite_user, join_user, list_for_bot,
    list_for_user, lock_to_build, lock_to_join, register_room, tag_new, unlock_built, unlock_failed,
    unlock_joined,
};
use crate::dialogue::{conclusion, Dialogue, Exchange};
use crate::direct::DirectView;
use crate::laws::requests::{
    asks_only, is_search, lemma_check_asks, lemma_find_asks, lemma_message_asks, lemma_tagging_asks,
};
use crate::provision::{
    create_bot, ensure_bot, ensure_dm, with_bot, with_check, with_creation, with_search, with_tags,
};
use crate::rooms::{check_room, find_room, list_room, store_direct, tag_room};
use crate::service::{is_reply, ConfigView, Content, FailureView, ReplyView, Request, RequestView};
use crate::text::trimmed;
use crate::welcome::{
    mark_if_sent, mark_welcomed, markdown_message, read_welcome, send_message, welcome_in_room,
    welcome_user,
};
use vstd::prelude::*;

verus! {

/// Whether the failure of a request matters. A tag or a welcome that fails does not.
pub open spec fn matters(request: RequestView) -> bool {
    match request {
        Request::CreateUser { .. } => true,
        Request::AppendState { .. } => true,
        Request::Invite { .. } => true,
        Request::Join { .. } => true,
        Request::UpdateDirect { .. } => true,
        Request::GetKey { .. } => true,
        _ => false,
    }
}

/// The failure that a reply tells of, if it matters. A key that is not found is no failure.
pub open spec fn failure_in(request: RequestView, reply: ReplyView) -> Option<FailureView> {
    if matters(request) && reply->Done_0 is Err && !(request is GetKey
        && reply->Done_0->Err_0.not_found) {
        Some(reply->Done_0->Err_0)
    } else {
        None
    }
}

/// The first failure in the course of `talk` that matters.
pub open spec fn first_failure(talk: Seq<Exchange>) -> Option<FailureView>
    decreases talk.len(),
{
    if talk.len() == 0 {
        None
    } else {
        match failure_in(talk[0].request, talk[0].reply) {
            Some(failure) => Some(failure),
            None => first_failure(talk.drop_first()),
        }
    }
}

/// Success where nothing has failed, and else the failure.
pub open spec fn told(failed: Option<FailureView>) -> Result<(), FailureView> {
    match failed {
        None => Ok(()),
        Some(failure) => Err(failure),
    }
}

/// Whatever is replied, the dialogue comes to the first failure that matters, or to success where
/// there is none. `failed` is what has failed before; where something has, nothing else does.
pub open spec fn tells(
    dialogue: Dialogue<Result<(), FailureView>>,
    failed: Option<FailureView>,
) -> bool
    decreases dialogue,
{
    match dialogue {
        Dialogue::Return(result) => result == told(failed),
        Dialogue::Ask(request, resume) => {
            &&& failed is Some ==> !matters(request)
            &&& forall|reply: ReplyView| #[trigger]
                is_reply(request, reply) ==> tells(
                    resume(reply),
                    match failed {
                        Some(failure) => Some(failure),
                        None => failure_in(request, reply),
                    },
                )
        },
    }
}

/// Every conversation of such a dialogue comes to the first failure in it that matters, or to
/// success where there is none.
pub proof fn law_conversations_tell_the_failure(
    dialogue: Dialogue<Result<(), FailureView>>,
    failed: Option<FailureView>,
    talk: Seq<Exchange>,
)
    requires
        tells(dialogue, failed),
        conclusion(dialogue, talk) is Some,
    ensures
        conclusion(dialogue, talk) == Some(
            told(
                match failed {
                    Some(failure) => Some(failure),
                    None => first_failure(talk),
                },
            ),
        ),
    decreases talk.len(),
{
    if talk.len() > 0 {
        let request = talk[0].request;
        let reply = talk[0].reply;
        assert(is_reply(request, reply));
        law_conversations_tell_the_failure(
            dialogue.after(reply),
            match failed {
                Some(failure) => Some(failure),
                None => failure_in(request, reply),
            },
            talk.drop_first(),
        );
    }
}

proof fn lemma_then_tells(
    dialogue: Dialogue<Result<(), FailureView>>,
    next: spec_fn(Result<(), FailureView>) -> Dialogue<Result<(), FailureView>>,
    failed: Option<FailureView>,
)
    requires
        tells(dialogue, failed),
        tells(next(Ok(())), None),
        forall|failure: FailureView| tells(#[trigger] next(Err(failure)), Some(failure)),
    ensures
        tells(dialogue.then_do(next), failed),
    decreases dialogue,
{
    match dialogue {
        Dialogue::Return(result) => {
            match failed {
                None => {},
                Some(failure) => {
                    assert(tells(next(Err(failure)), Some(failure)));
                },
            }
        },
        Dialogue::Ask(request, resume) => {
            let composed = dialogue.then_do(next);
            assert forall|reply: ReplyView| #[trigger] is_reply(request, reply) implies tells(
                (composed->Ask_1)(reply),
                match failed {
                    Some(failure) => Some(failure),
                    None => failure_in(request, reply),
                },
            ) by {
                lemma_then_tells(
                    resume(reply),
                    next,
                    match failed {
                        Some(failure) => Some(failure),
                        None => failure_in(request, reply),
                    },
                );
            }
        },
    }
}

proof fn lemma_harmless_then_tells<R>(
    dialogue: Dialogue<R>,
    next: spec_fn(R) -> Dialogue<Result<(), FailureView>>,
    allowed: spec_fn(RequestView) -> bool,
)
    requires
        asks_only(dialogue, allowed),
        forall|request: RequestView| #[trigger] allowed(request) ==> !matters(request),
        forall|result: R| tells(#[trigger] next(result), None),
    ensures
        tells(dialogue.then_do(next), None),
    decreases dialogue,
{
    match dialogue {
        Dialogue::Return(result) => {
            assert(tells(next(result), None));
        },
        Dialogue::Ask(request, resume) => {
            let composed = dialogue.then_do(next);
            assert(allowed(request));
            assert forall|reply: ReplyView| #[trigger] is_reply(request, reply) implies tells(
                (composed->Ask_1)(reply),
                None,
            ) by {
                assert(asks_only(resume(reply), allowed));
                lemma_harmless_then_tells(resume(reply), next, allowed);
            }
        },
    }
}

proof fn lemma_if_done_tells(next: Dialogue<Result<(), FailureView>>)
    requires
        tells(next, None),
    ensures
        forall|result: Result<(), FailureView>|
            tells(
                #[trigger] if_done(result, next),
                match result {
                    Ok(()) => None,
                    Err(failure) => Some(failure),
                },
            ),
{
}

/// The making of a chat fails exactly when an event cannot be appended, the user cannot be invited
/// or joined, or the chat cannot be listed; it comes to that failure. A tag may fail.
pub proof fn law_creation_tells_the_failure(config: ConfigView, user: Seq<char>)
    ensures
        tells(create_room(config, user), None),
{
    reveal_with_fuel(tells, 2);
    let creation = create_room(config, user);
    assert forall|reply: ReplyView| #[trigger] is_reply(creation->Ask_0, reply) implies tells(
        (creation->Ask_1)(reply),
        None,
    ) by {
        let room = reply->Room_0;
        lemma_appending_tells(config, user, room, 0);
        assert(tells(lock_to_build(config, user, room), None));
        assert(tells(register_room(config, user, room), None));
    }
}

proof fn lemma_appending_tells(config: ConfigView, user: Seq<char>, room: Seq<char>, i: nat)
    ensures
        tells(append_state(config, user, room, i), None),
    decreases initial_state(config).len() - i,
{
    if i >= initial_state(config).len() {
        lemma_entry_tells(config, user, room);
        assert(tells(unlock_built(config, user, room), None));
    } else {
        lemma_appending_tells(config, user, room, i + 1);
        let appending = append_state(config, user, room, i);
        assert forall|failure: FailureView| tells(
            #[trigger] unlock_failed(room, failure),
            Some(failure),
        ) by {
            reveal_with_fuel(tells, 2);
        }
        assert forall|reply: ReplyView| #[trigger] is_reply(appending->Ask_0, reply) implies tells(
            (appending->Ask_1)(reply),
            failure_in(appending->Ask_0, reply),
        ) by {
            if reply->Done_0 is Err {
                assert(tells(
                    unlock_failed(room, reply->Done_0->Err_0),
                    Some(reply->Done_0->Err_0),
                ));
            }
        }
    }
}

proof fn lemma_listing_tells(owner: Seq<char>, peer: Seq<char>, room: Seq<char>)
    ensures
        tells(list_room(owner, peer, room), None),
{
    reveal_with_fuel(tells, 2);
    assert forall|direct: DirectView| tells(
        #[trigger] store_direct(owner, direct),
        None,
    ) by {
        let storing = store_direct(owner, direct);
        assert forall|reply: ReplyView| #[trigger] is_reply(storing->Ask_0, reply) implies tells(
            (storing->Ask_1)(reply),
            failure_in(storing->Ask_0, reply),
        ) by {
            let result = reply->Done_0;
            assert(result is Ok ==> result->Ok_0 == ());
            assert(result == told(failure_in(storing->Ask_0, reply)));
        }
    }
}

proof fn lemma_both_listings_tell(config: ConfigView, user: Seq<char>, room: Seq<char>)
    ensures
        tells(list_for_bot(list_room(config.bot, user, room), config, user, room), None),
{
    let bot = config.bot;
    let harmless = |request: RequestView| request is SetRoomTag;
    let tagging = tag_room(bot, user, room, config.room_tags);
    lemma_tagging_asks(bot, user, room, config.room_tags, harmless);
    let last = |tagged: ()| Dialogue::<Result<(), FailureView>>::Return(Ok(()));
    lemma_harmless_then_tells(tagging, last, harmless);
    lemma_if_done_tells(tag_new(tagging));
    let for_user = list_room(user, bot, room);
    lemma_listing_tells(user, bot, room);
    let tag = |listed: Result<(), FailureView>| if_done(listed, tag_new(tagging));
    lemma_then_tells(for_user, tag, None);
    lemma_if_done_tells(list_for_user(for_user, config, user, room));
    let for_bot = list_room(bot, user, room);
    lemma_listing_tells(bot, user, room);
    let list = |listed: Result<(), FailureView>|
        if_done(listed, list_for_user(for_user, config, user, room));
    lemma_then_tells(for_bot, list, None);
}

proof fn lemma_entry_tells(config: ConfigView, user: Seq<char>, room: Seq<char>)
    ensures
        tells(unlock_built(config, user, room), None),
{
    reveal_with_fuel(tells, 2);
    lemma_both_listings_tell(config, user, room);
    let listing = list_for_bot(list_room(config.bot, user, room), config, user, room);
    assert forall|joined: Result<(), FailureView>| tells(
        #[trigger] unlock_joined(config, user, room, joined),
        match joined {
            Ok(()) => None,
            Err(failure) => Some(failure),
        },
    ) by {
        lemma_if_done_tells(listing);
    }
    let joining = join_user(config, user, room);
    assert forall|reply: ReplyView| #[trigger] is_reply(joining->Ask_0, reply) implies tells(
        (joining->Ask_1)(reply),
        failure_in(joining->Ask_0, reply),
    ) by {
        assert((joining->Ask_1)(reply) == unlock_joined(config, user, room, reply->Done_0));
    }
    assert(tells(joining, None));
    assert(tells(lock_to_join(config, user, room), None));
    let inviting = invite_user(config, user, room);
    assert forall|reply: ReplyView| #[trigger] is_reply(inviting->Ask_0, reply) implies tells(
        (inviting->Ask_1)(reply),
        failure_in(inviting->Ask_0, reply),
    ) by {
        lemma_if_done_tells(lock_to_join(config, user, room));
        assert((inviting->Ask_1)(reply) == if_done(
            reply->Done_0,
            lock_to_join(config, user, room),
        ));
    }
    assert(tells(inviting, None));
}

proof fn lemma_welcome_in_room_tells(config: ConfigView, user: Seq<char>, text: Seq<char>)
    ensures
        tells(welcome_in_room(find_room(config.bot, user), config, user, text), None),
{
    let harmless = |request: RequestView| !matters(request);
    let mark = |sent: Result<(), FailureView>|
        match sent {
            Ok(()) => mark_welcomed(user),
            Err(_) => Dialogue::Return(Ok(())),
        };
    assert(tells(mark_welcomed(user), None)) by {
        reveal_with_fuel(tells, 2);
    }
    let next = |found: Option<Seq<char>>|
        match found {
            None => Dialogue::Return(Ok(())),
            Some(room) => mark_if_sent(
                send_message(config.bot, room, Content::Text(markdown_message(text))),
                user,
            ),
        };
    assert forall|found: Option<Seq<char>>| tells(#[trigger] next(found), None) by {
        match found {
            None => {},
            Some(room) => {
                let content = Content::Text(markdown_message(text));
                let sending = send_message(config.bot, room, content);
                lemma_message_asks(config.bot, room, content, harmless);
                assert(mark_if_sent(sending, user) == sending.then_do(mark));
                lemma_harmless_then_tells(sending, mark, harmless);
            },
        }
    }
    let search = find_room(config.bot, user);
    let reads = |request: RequestView| is_search(request);
    lemma_find_asks(config.bot, user, reads);
    assert(welcome_in_room(search, config, user, text) == search.then_do(next));
    lemma_harmless_then_tells(search, next, reads);
}

/// A welcome fails exactly when the record of who was welcomed cannot be read.
pub proof fn law_welcome_tells_the_failure(config: ConfigView, user: Seq<char>)
    ensures
        tells(welcome_user(config, user), None),
{
    reveal_with_fuel(tells, 2);
    if config.welcome_path is Some {
        let reading = read_welcome(config, user, config.welcome_path->0);
        assert forall|reply: ReplyView| #[trigger] is_reply(reading->Ask_0, reply) implies tells(
            (reading->Ask_1)(reply),
            None,
        ) by {
            if reply->Text_0 is Some {
                lemma_welcome_in_room_tells(config, user, trimmed(reply->Text_0->0));
            }
        }
        assert(tells(reading, None));
        let asking = welcome_user(config, user);
        assert forall|reply: ReplyView| #[trigger] is_reply(asking->Ask_0, reply) implies tells(
            (asking->Ask_1)(reply),
            failure_in(asking->Ask_0, reply),
        ) by {}
    }
}

/// Seeing to the bot fails exactly when its account cannot be created.
pub proof fn law_bot_tells_the_failure(bot: Seq<char>)
    ensures
        tells(ensure_bot(bot), None),
{
    reveal_with_fuel(tells, 2);
    let creating = create_bot(bot);
    assert forall|reply: ReplyView| #[trigger] is_reply(creating->Ask_0, reply) implies tells(
        (creating->Ask_1)(reply),
        failure_in(creating->Ask_0, reply),
    ) by {
        let result = reply->Done_0;
        assert(result is Ok ==> result->Ok_0 == ());
        assert(result == told(failure_in(creating->Ask_0, reply)));
    }
    assert(tells(creating, None));
}

/// The provision for a user fails exactly when the bot's account or the chat cannot be made, or the
/// record of who was welcomed cannot be read. It comes to that failure, and neither a tag nor the
/// welcome matters.
pub proof fn law_ensure_tells_the_failure(config: ConfigView, user: Seq<char>)
    ensures
        tells(ensure_dm(config, user), None),
{
    let bot = config.bot;
    let reads = |request: RequestView| is_search(request);
    let tags = |request: RequestView| request is SetRoomTag;
    law_welcome_tells_the_failure(config, user);
    law_creation_tells_the_failure(config, user);
    let after_creation = |created: Result<(), FailureView>|
        if_done(created, welcome_user(config, user));
    lemma_if_done_tells(welcome_user(config, user));
    lemma_then_tells(create_room(config, user), after_creation, None);
    let creating = with_creation(create_room(config, user), config, user);
    assert(tells(creating, None));
    assert forall|room: Seq<char>| tells(
        #[trigger] with_check(check_room(bot, user, room), config, user, room),
        None,
    ) by {
        let tagging = tag_room(bot, user, room, config.room_tags);
        let after_tags = |tagged: ()| welcome_user(config, user);
        lemma_tagging_asks(bot, user, room, config.room_tags, tags);
        lemma_harmless_then_tells(tagging, after_tags, tags);
        let check = check_room(bot, user, room);
        let after_check = |is_dm: bool|
            if is_dm {
                with_tags(tag_room(bot, user, room, config.room_tags), config, user)
            } else {
                with_creation(create_room(config, user), config, user)
            };
        lemma_check_asks(bot, user, room, reads);
        lemma_harmless_then_tells(check, after_check, reads);
    }
    let search = find_room(bot, user);
    let after_search = |found: Option<Seq<char>>|
        match found {
            Some(room) => with_check(check_room(bot, user, room), config, user, room),
            None => with_creation(create_room(config, user), config, user),
        };
    lemma_find_asks(bot, user, reads);
    assert(with_search(search, config, user) == search.then_do(after_search));
    assert forall|found: Option<Seq<char>>| tells(#[trigger] after_search(found), None) by {
        match found {
            Some(room) => {
                assert(tells(
                    with_check(check_room(bot, user, room), config, user, room),
                    None,
                ));
            },
            None => {},
        }
    }
    lemma_harmless_then_tells(search, after_search, reads);
    let searching = with_search(search, config, user);
    lemma_if_done_tells(searching);
    let ensuring = ensure_bot(bot);
    let after_bot = |ensured: Result<(), FailureView>|
        if_done(ensured, with_search(find_room(bot, user), config, user));
    law_bot_tells_the_failure(bot);
    lemma_then_tells(ensuring, after_bot, None);
    assert(tells(with_bot(ensuring, config, user), None));
    reveal_with_fuel(tells, 2);
}

} // verus!
