//! Laws on the lock that guards a room's state.
use crate::backfill::{
    all_but, failed_after, lemma_provision_of_the_others, provide, provide_listed, provide_users,
    UserFailureView,
};
use crate::creation::{
    append_state, create_room, if_done, initial_state, invite_user, join_user, list_for_bot,
    lock_to_build, lock_to_join, register_room, unlock_built, unlock_failed, unlock_joined,
};
use crate::dialogue::{conclusion, Dialogue, Exchange};
use crate::laws::requests::{
    asks_only, is_marking, is_search, lemma_bot_asks, lemma_both_listings_ask, lemma_check_asks,
    lemma_find_asks, lemma_tagging_asks,
};
use crate::provision::{
    ensure_bot, ensure_dm, with_bot, with_check, with_creation, with_search, with_tags,
};
use crate::rooms::{check_room, find_room, list_room, tag_room};
use crate::service::{
    ConfigView, Content, ContentView, FailureView, ReplyView, Request, RequestView,
};
use crate::text::trimmed;
use crate::welcome::{
    append_message, mark_if_sent, mark_welcomed, markdown_message, read_welcome, send_message,
    unlock_appended, welcome_in_room, welcome_user,
};
use vstd::prelude::*;

verus! {

/// Whether a request may be made while the lock of `held`, or none, is held.
pub open spec fn is_allowed(held: Option<Seq<char>>, request: RequestView) -> bool {
    match request {
        Request::LockRoom { .. } => held is None,
        Request::UnlockRoom { room } => held == Some(room),
        Request::AppendState { room, .. } => held == Some(room),
        Request::AppendMessage { room, .. } => held == Some(room),
        Request::Join { room, .. } => held == Some(room),
        Request::Invite { .. } => held is None,
        _ => true,
    }
}

/// The lock that is held after a request.
pub open spec fn held_after(held: Option<Seq<char>>, request: RequestView) -> Option<Seq<char>> {
    match request {
        Request::LockRoom { room } => Some(room),
        Request::UnlockRoom { .. } => None,
        _ => held,
    }
}

/// Events are appended and users joined under the lock of their room, users invited without it, a
/// lock is taken only where none is held, and in the end none is.
pub open spec fn keeps_locks(held: Option<Seq<char>>, talk: Seq<Exchange>) -> bool
    decreases talk.len(),
{
    if talk.len() == 0 {
        held is None
    } else {
        is_allowed(held, talk[0].request) && keeps_locks(
            held_after(held, talk[0].request),
            talk.drop_first(),
        )
    }
}

/// The same of a dialogue: it holds whatever is replied.
pub open spec fn locks_well<R>(dialogue: Dialogue<R>, held: Option<Seq<char>>) -> bool
    decreases dialogue,
{
    match dialogue {
        Dialogue::Return(_) => held is None,
        Dialogue::Ask(request, resume) => {
            &&& is_allowed(held, request)
            &&& forall|reply: ReplyView|
                locks_well(#[trigger] resume(reply), held_after(held, request))
        },
    }
}

/// Every conversation of a dialogue that locks well does so.
pub proof fn law_conversations_lock_well<R>(
    dialogue: Dialogue<R>,
    held: Option<Seq<char>>,
    talk: Seq<Exchange>,
)
    requires
        locks_well(dialogue, held),
        conclusion(dialogue, talk) is Some,
    ensures
        keeps_locks(held, talk),
    decreases talk.len(),
{
    if talk.len() > 0 {
        let after = dialogue.after(talk[0].reply);
        assert(locks_well((dialogue->Ask_1)(talk[0].reply), held_after(held, dialogue->Ask_0)));
        law_conversations_lock_well(
            after,
            held_after(held, talk[0].request),
            talk.drop_first(),
        );
    }
}

proof fn lemma_then_locks_well<R, S>(
    dialogue: Dialogue<R>,
    next: spec_fn(R) -> Dialogue<S>,
    held: Option<Seq<char>>,
)
    requires
        locks_well(dialogue, held),
        forall|result: R| locks_well(#[trigger] next(result), None),
    ensures
        locks_well(dialogue.then_do(next), held),
    decreases dialogue,
{
    match dialogue {
        Dialogue::Return(result) => {
            assert(locks_well(next(result), None));
        },
        Dialogue::Ask(request, resume) => {
            let composed = dialogue.then_do(next);
            let after = held_after(held, request);
            assert forall|reply: ReplyView| locks_well(
                #[trigger] (composed->Ask_1)(reply),
                after,
            ) by {
                assert(locks_well(resume(reply), after));
                lemma_then_locks_well(resume(reply), next, after);
            }
        },
    }
}

/// Whether a request has nothing to do with locks.
pub open spec fn is_lock_free(request: RequestView) -> bool {
    is_allowed(None, request) && !(request is LockRoom)
}

proof fn lemma_lock_free<R>(dialogue: Dialogue<R>, allowed: spec_fn(RequestView) -> bool)
    requires
        asks_only(dialogue, allowed),
        forall|request: RequestView| #[trigger] allowed(request) ==> is_lock_free(request),
    ensures
        locks_well(dialogue, None),
    decreases dialogue,
{
    match dialogue {
        Dialogue::Return(_) => {},
        Dialogue::Ask(request, resume) => {
            assert(allowed(request));
            assert forall|reply: ReplyView| locks_well(#[trigger] resume(reply), None) by {
                assert(asks_only(resume(reply), allowed));
                lemma_lock_free(resume(reply), allowed);
            }
        },
    }
}

/// A message is appended under the lock of its room, which is given up afterwards.
pub proof fn law_message_locks_well(sender: Seq<char>, room: Seq<char>, content: ContentView)
    ensures
        locks_well(send_message(sender, room, content), None),
{
    reveal_with_fuel(locks_well, 3);
    assert forall|appended: Result<(), FailureView>| locks_well(
        #[trigger] unlock_appended(room, appended),
        Some(room),
    ) by {}
    assert(locks_well(append_message(sender, room, content), Some(room)));
}

/// The making of a chat locks well, also where it fails.
pub proof fn law_creation_locks_well(config: ConfigView, user: Seq<char>)
    ensures
        locks_well(create_room(config, user), None),
{
    reveal_with_fuel(locks_well, 2);
    let creation = create_room(config, user);
    assert forall|reply: ReplyView| locks_well(#[trigger] (creation->Ask_1)(reply), None) by {
        let room = reply->Room_0;
        lemma_appending_locks_well(config, user, room, 0);
        assert(locks_well(lock_to_build(config, user, room), None));
        assert(locks_well(register_room(config, user, room), None));
    }
}

proof fn lemma_appending_locks_well(config: ConfigView, user: Seq<char>, room: Seq<char>, i: nat)
    ensures
        locks_well(append_state(config, user, room, i), Some(room)),
    decreases initial_state(config).len() - i,
{
    if i >= initial_state(config).len() {
        lemma_entry_locks_well(config, user, room);
        assert(locks_well(unlock_built(config, user, room), Some(room)));
    } else {
        lemma_appending_locks_well(config, user, room, i + 1);
        let appending = append_state(config, user, room, i);
        assert forall|reply: ReplyView| locks_well(
            #[trigger] (appending->Ask_1)(reply),
            Some(room),
        ) by {
            if reply->Done_0 is Err {
                reveal_with_fuel(locks_well, 2);
                assert(locks_well(unlock_failed(room, reply->Done_0->Err_0), Some(room)));
            }
        }
    }
}

proof fn lemma_entry_locks_well(config: ConfigView, user: Seq<char>, room: Seq<char>)
    ensures
        locks_well(unlock_built(config, user, room), Some(room)),
{
    reveal_with_fuel(locks_well, 2);
    let allowed = |request: RequestView| is_marking(request);
    lemma_both_listings_ask(config, user, room, allowed);
    let listing = list_for_bot(list_room(config.bot, user, room), config, user, room);
    lemma_lock_free(listing, allowed);
    assert forall|joined: Result<(), FailureView>| locks_well(
        #[trigger] unlock_joined(config, user, room, joined),
        Some(room),
    ) by {
        let unlocking = unlock_joined(config, user, room, joined);
        assert forall|reply: ReplyView| locks_well(#[trigger] (unlocking->Ask_1)(reply), None) by {}
    }
    let joining = join_user(config, user, room);
    assert forall|reply: ReplyView| locks_well(
        #[trigger] (joining->Ask_1)(reply),
        Some(room),
    ) by {
        assert(locks_well(unlock_joined(config, user, room, reply->Done_0), Some(room)));
    }
    assert(locks_well(joining, Some(room)));
    assert(locks_well(lock_to_join(config, user, room), None));
    assert(locks_well(invite_user(config, user, room), None));
}

/// The welcome of a user locks well.
pub proof fn law_welcome_locks_well(config: ConfigView, user: Seq<char>)
    ensures
        locks_well(welcome_user(config, user), None),
{
    reveal_with_fuel(locks_well, 2);
    if config.welcome_path is Some {
        let reading = read_welcome(config, user, config.welcome_path->0);
        assert forall|reply: ReplyView| locks_well(#[trigger] (reading->Ask_1)(reply), None) by {
            if reply->Text_0 is Some {
                lemma_welcome_in_room_locks_well(config, user, trimmed(reply->Text_0->0));
            }
        }
        assert(locks_well(reading, None));
        let asking = welcome_user(config, user);
        assert forall|reply: ReplyView| locks_well(#[trigger] (asking->Ask_1)(reply), None) by {}
    }
}

proof fn lemma_welcome_in_room_locks_well(config: ConfigView, user: Seq<char>, text: Seq<char>)
    ensures
        locks_well(
            welcome_in_room(find_room(config.bot, user), config, user, text),
            None,
        ),
{
    let mark = |sent: Result<(), FailureView>|
        match sent {
            Ok(()) => mark_welcomed(user),
            Err(_) => Dialogue::Return(Ok(())),
        };
    assert(locks_well(mark_welcomed(user), None)) by {
        reveal_with_fuel(locks_well, 2);
    }
    let next = |found: Option<Seq<char>>|
        match found {
            None => Dialogue::Return(Ok(())),
            Some(room) => mark_if_sent(
                send_message(config.bot, room, Content::Text(markdown_message(text))),
                user,
            ),
        };
    assert forall|found: Option<Seq<char>>| locks_well(#[trigger] next(found), None) by {
        match found {
            None => {},
            Some(room) => {
                let sending = send_message(config.bot, room, Content::Text(markdown_message(text)));
                law_message_locks_well(config.bot, room, Content::Text(markdown_message(text)));
                assert(mark_if_sent(sending, user) == sending.then_do(mark));
                lemma_then_locks_well(sending, mark, None);
            },
        }
    }
    let search = find_room(config.bot, user);
    let allowed = |request: RequestView| is_search(request);
    lemma_find_asks(config.bot, user, allowed);
    lemma_lock_free(search, allowed);
    assert(welcome_in_room(search, config, user, text) == search.then_do(next));
    lemma_then_locks_well(search, next, None);
}

/// The provision for a user locks well.
pub proof fn law_ensure_locks_well(config: ConfigView, user: Seq<char>)
    ensures
        locks_well(ensure_dm(config, user), None),
{
    let bot = config.bot;
    let reads = |request: RequestView| is_search(request);
    let marks = |request: RequestView| is_marking(request);
    let accounts = |request: RequestView| request is UserExists || request is CreateUser;
    law_welcome_locks_well(config, user);
    law_creation_locks_well(config, user);
    let after_creation = |created: Result<(), FailureView>|
        if_done(created, welcome_user(config, user));
    lemma_then_locks_well(create_room(config, user), after_creation, None);
    let creating = with_creation(create_room(config, user), config, user);
    assert(locks_well(creating, None));
    assert forall|room: Seq<char>| locks_well(
        #[trigger] with_check(check_room(bot, user, room), config, user, room),
        None,
    ) by {
        let tagging = tag_room(bot, user, room, config.room_tags);
        let after_tags = |tagged: ()| welcome_user(config, user);
        lemma_tagging_asks(bot, user, room, config.room_tags, marks);
        lemma_lock_free(tagging, marks);
        lemma_then_locks_well(tagging, after_tags, None);
        let check = check_room(bot, user, room);
        let after_check = |is_dm: bool|
            if is_dm {
                with_tags(tag_room(bot, user, room, config.room_tags), config, user)
            } else {
                with_creation(create_room(config, user), config, user)
            };
        lemma_check_asks(bot, user, room, reads);
        lemma_lock_free(check, reads);
        lemma_then_locks_well(check, after_check, None);
    }
    let search = find_room(bot, user);
    let after_search = |found: Option<Seq<char>>|
        match found {
            Some(room) => with_check(check_room(bot, user, room), config, user, room),
            None => with_creation(create_room(config, user), config, user),
        };
    lemma_find_asks(bot, user, reads);
    lemma_lock_free(search, reads);
    assert(with_search(search, config, user) == search.then_do(after_search));
    assert forall|found: Option<Seq<char>>| locks_well(#[trigger] after_search(found), None) by {
        match found {
            Some(room) => {
                assert(locks_well(
                    with_check(check_room(bot, user, room), config, user, room),
                    None,
                ));
            },
            None => {},
        }
    }
    lemma_then_locks_well(search, after_search, None);
    let ensuring = ensure_bot(bot);
    let after_bot = |ensured: Result<(), FailureView>|
        if_done(ensured, with_search(find_room(bot, user), config, user));
    lemma_bot_asks(bot, accounts);
    lemma_lock_free(ensuring, accounts);
    lemma_then_locks_well(ensuring, after_bot, None);
    assert(locks_well(with_bot(ensuring, config, user), None));
    reveal_with_fuel(locks_well, 2);
}

proof fn lemma_users_lock_well(
    config: ConfigView,
    users: Seq<Seq<char>>,
    failed: Seq<UserFailureView>,
)
    ensures
        locks_well(provide_users(config, users, failed), None),
    decreases users.len(),
{
    if users.len() > 0 {
        let provision = ensure_dm(config, users[0]);
        let rest = users.drop_first();
        let next = lemma_provision_of_the_others(config, users, failed);
        law_ensure_locks_well(config, users[0]);
        assert forall|provided: Result<(), FailureView>| locks_well(
            #[trigger] next(provided),
            None,
        ) by {
            lemma_users_lock_well(config, rest, failed_after(failed, users[0], provided));
        }
        lemma_then_locks_well(provision, next, None);
    }
}

/// The provision for all local users locks well.
pub proof fn law_backfill_locks_well(config: ConfigView)
    ensures
        locks_well(provide(config), None),
{
    let listing = provide_listed(config);
    assert forall|reply: ReplyView| locks_well(#[trigger] (listing->Ask_1)(reply), None) by {
        lemma_users_lock_well(config, all_but(reply->Users_0, config.bot), Seq::empty());
    }
    assert(locks_well(listing, None));
    let ensuring = ensure_bot(config.bot);
    let next = |ensured: Result<(), FailureView>| if_done(ensured, provide_listed(config));
    let accounts = |request: RequestView| request is UserExists || request is CreateUser;
    lemma_bot_asks(config.bot, accounts);
    lemma_lock_free(ensuring, accounts);
    lemma_then_locks_well(ensuring, next, None);
}

} // verus!
