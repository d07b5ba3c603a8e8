//! Laws on messages, and on the one that welcomes a user.
use crate::dialogue::{conclusion, lemma_conversation_parts, lemma_talk_answers, Dialogue, Exchange};
use crate::laws::rooms::{
    is_first_chat, is_read, law_find_finds_the_first_chat, lemma_find_reads, lemma_reads_keep,
    reads_only,
};
use crate::laws::text::{is_blank, law_blank_text_trims_to_nothing};
use crate::rooms::find_room;
use crate::service::{ConfigView, Content, ContentView, FailureView, Message, RequestView};
use crate::text::{is_user_id, trimmed};
use crate::welcome::{
    append_message, mark_if_sent, mark_welcomed, markdown_html, markdown_message, plain_message,
    read_welcome, send_message, unlock_appended, welcome_in_room, welcome_key, welcome_user,
};
use crate::world::{is_done, is_history, lemma_history_parts, lemma_history_step, serves, World};
use vstd::prelude::*;
use vstd::utf8::{encode_utf8, is_ascii_chars, is_ascii_chars_encode_utf8};

verus! {

/// A message is sent as it is given, whatever is in it: the room is locked, the message appended
/// for its sender, and the room unlocked, whether or not the message could be appended. It comes to
/// what became of the appending.
pub proof fn law_message_is_sent_as_given(
    sender: Seq<char>,
    room: Seq<char>,
    content: ContentView,
    talk: Seq<Exchange>,
)
    requires
        conclusion(send_message(sender, room, content), talk) is Some,
    ensures
        talk.len() == 3,
        talk[0].request == (RequestView::LockRoom { room }),
        talk[1].request == (RequestView::AppendMessage { room, sender, content }),
        talk[2].request == (RequestView::UnlockRoom { room }),
        conclusion(send_message(sender, room, content), talk) == Some(talk[1].reply->Done_0),
{
    reveal_with_fuel(conclusion, 4);
    let talk1 = talk.drop_first();
    assert(conclusion(append_message(sender, room, content), talk1) is Some);
    let talk2 = talk1.drop_first();
    assert(conclusion(unlock_appended(room, talk1[0].reply->Done_0), talk2) is Some);
    assert(talk1[0] == talk[1]);
    assert(talk2[0] == talk[2]);
}

/// A text as a message is that text to the letter, with its HTML where it is Markdown, and with
/// none where it is not.
pub proof fn law_messages_keep_their_text(text: Seq<char>)
    ensures
        markdown_message(text).body == text,
        markdown_message(text).formatted_body == markdown_html(text),
        plain_message(text).body == text,
        plain_message(text).formatted_body is None,
{
}

/// The key of a user is the bytes of `announcements_welcome_v1`, a zero byte, and those of the user
/// ID.
pub proof fn law_welcome_key_spells_the_user(user: Seq<char>)
    ensures
        welcome_key(user).take(25) == seq![
            97u8,
            110,
            110,
            111,
            117,
            110,
            99,
            101,
            109,
            101,
            110,
            116,
            115,
            95,
            119,
            101,
            108,
            99,
            111,
            109,
            101,
            95,
            118,
            49,
            0,
        ],
        welcome_key(user).skip(25) == encode_utf8(user),
{
    let prefix = "announcements_welcome_v1\0"@;
    reveal_strlit("announcements_welcome_v1\0");
    assert(is_ascii_chars(prefix));
    is_ascii_chars_encode_utf8(prefix);
    assert(encode_utf8(prefix).len() == 25);
    assert(welcome_key(user).skip(25) =~= encode_utf8(user));
    assert(welcome_key(user).take(25) =~= encode_utf8(prefix));
}

/// A message is sent at `at`: it is the welcome for `user`, appended by the bot under the lock of a
/// room that the search came to, and recorded if that succeeds. Nothing but reads comes before.
pub open spec fn is_welcome_at(
    config: ConfigView,
    user: Seq<char>,
    talk: Seq<Exchange>,
    at: int,
) -> bool {
    let room = talk[at].request->AppendMessage_room;
    &&& 3 <= at
    &&& at + 1 < talk.len()
    &&& config.welcome_path is Some
    &&& talk[0].request == (RequestView::GetKey { key: welcome_key(user) })
    &&& !is_done(talk[0].reply)
    &&& talk[1].request == (RequestView::ReadFile { path: config.welcome_path->0 })
    &&& talk[1].reply is Text
    &&& talk[1].reply->Text_0 is Some
    &&& trimmed(talk[1].reply->Text_0->0).len() > 0
    &&& conclusion(find_room(config.bot, user), talk.subrange(2, at - 1)) == Some(Some(room))
    &&& talk[at - 1].request == (RequestView::LockRoom { room })
    &&& talk[at].request == (RequestView::AppendMessage {
        room,
        sender: config.bot,
        content: Content::Text(
            Message {
                body: trimmed(talk[1].reply->Text_0->0),
                formatted_body: markdown_html(trimmed(talk[1].reply->Text_0->0)),
            },
        ),
    })
    &&& talk[at + 1].request == (RequestView::UnlockRoom { room })
    &&& reads_only(talk.take(at - 1))
    &&& if is_done(talk[at].reply) {
        talk.len() == at + 3 && talk[at + 2].request == (RequestView::InsertKey {
            key: welcome_key(user),
        })
    } else {
        talk.len() == at + 2
    }
}

proof fn lemma_sending_shape(
    config: ConfigView,
    user: Seq<char>,
    room: Seq<char>,
    text: Seq<char>,
    talk: Seq<Exchange>,
)
    requires
        conclusion(
            mark_if_sent(
                send_message(config.bot, room, Content::Text(markdown_message(text))),
                user,
            ),
            talk,
        ) is Some,
    ensures
        talk.len() >= 3,
        talk[0].request == (RequestView::LockRoom { room }),
        talk[1].request == (RequestView::AppendMessage {
            room,
            sender: config.bot,
            content: Content::Text(markdown_message(text)),
        }),
        talk[2].request == (RequestView::UnlockRoom { room }),
        if is_done(talk[1].reply) {
            talk.len() == 4 && talk[3].request == (RequestView::InsertKey {
                key: welcome_key(user),
            })
        } else {
            talk.len() == 3
        },
        conclusion(
            mark_if_sent(
                send_message(config.bot, room, Content::Text(markdown_message(text))),
                user,
            ),
            talk,
        )->0 is Ok,
{
    let message = Content::Text(markdown_message(text));
    let sending = send_message(config.bot, room, message);
    let next = |sent: Result<(), FailureView>|
        match sent {
            Ok(()) => mark_welcomed(user),
            Err(_) => Dialogue::Return(Ok(())),
        };
    assert(mark_if_sent(sending, user) == sending.then_do(next));
    let cut = lemma_conversation_parts(sending, next, talk);
    let early = talk.take(cut);
    let late = talk.skip(cut);
    assert(conclusion(append_message(config.bot, room, message), early.drop_first()) is Some);
    let appended = early.drop_first()[0].reply->Done_0;
    assert(conclusion(
        unlock_appended(room, appended),
        early.drop_first().drop_first(),
    ) is Some);
    reveal_with_fuel(conclusion, 4);
    assert(cut == 3);
    assert(early[0] == talk[0] && early[1] == talk[1] && early[2] == talk[2]);
    assert(appended == talk[1].reply->Done_0);
    if late.len() > 0 {
        assert(late[0] == talk[3]);
    }
}

/// A welcome goes by what is replied. Where none is configured, nothing is asked. Whoever has had
/// it is not sent it, and where that cannot be told, it fails. A file that cannot be read, or holds
/// nothing but white space, is not sent. Any other is, if a search comes to a room, and to that
/// room; the search takes the exchanges up to `cut`. Whether it can be sent does not matter.
pub proof fn law_welcome_goes_by_the_replies(
    config: ConfigView,
    user: Seq<char>,
    talk: Seq<Exchange>,
) -> (cut: int)
    requires
        conclusion(welcome_user(config, user), talk) is Some,
    ensures
        config.welcome_path is None ==> talk.len() == 0 && conclusion(
            welcome_user(config, user),
            talk,
        )->0 is Ok,
        config.welcome_path is Some ==> talk.len() >= 1 && talk[0].request == (
        RequestView::GetKey { key: welcome_key(user) }) && match talk[0].reply->Done_0 {
            Ok(()) => talk.len() == 1 && conclusion(welcome_user(config, user), talk)->0 is Ok,
            Err(failure) => if !failure.not_found {
                talk.len() == 1 && conclusion(welcome_user(config, user), talk)->0 == Err::<
                    (),
                    FailureView,
                >(failure)
            } else {
                &&& conclusion(welcome_user(config, user), talk)->0 is Ok
                &&& talk.len() >= 2
                &&& talk[1].request == (RequestView::ReadFile { path: config.welcome_path->0 })
                &&& talk[1].reply->Text_0 is None ==> talk.len() == 2
                &&& talk[1].reply->Text_0 is Some && is_blank(talk[1].reply->Text_0->0)
                    ==> talk.len() == 2
                &&& talk[1].reply->Text_0 is Some && !is_blank(talk[1].reply->Text_0->0) ==> {
                    let found = conclusion(find_room(config.bot, user), talk.subrange(2, cut));
                    &&& 2 <= cut <= talk.len()
                    &&& found is Some
                    &&& found->0 is None ==> talk.len() == cut
                    &&& found->0 is Some ==> is_welcome_at(config, user, talk, cut + 1)
                }
            },
        },
{
    reveal_with_fuel(conclusion, 3);
    if config.welcome_path is None || talk[0].reply->Done_0 is Ok
        || !talk[0].reply->Done_0->Err_0.not_found {
        0
    } else {
        let path = config.welcome_path->0;
        let talk1 = talk.drop_first();
        assert(conclusion(read_welcome(config, user, path), talk1) is Some);
        assert(talk1[0] == talk[1]);
        if talk[1].reply->Text_0 is None {
            0
        } else {
            law_blank_text_trims_to_nothing(talk[1].reply->Text_0->0);
            if is_blank(talk[1].reply->Text_0->0) {
                0
            } else {
                lemma_found_shape(config, user, talk)
            }
        }
    }
}

proof fn lemma_found_shape(config: ConfigView, user: Seq<char>, talk: Seq<Exchange>) -> (cut: int)
    requires
        conclusion(welcome_user(config, user), talk) is Some,
        config.welcome_path is Some,
        talk[0].reply->Done_0 is Err,
        talk[0].reply->Done_0->Err_0.not_found,
        talk[1].reply->Text_0 is Some,
        trimmed(talk[1].reply->Text_0->0).len() > 0,
    ensures
        2 <= cut <= talk.len(),
        conclusion(welcome_user(config, user), talk)->0 is Ok,
        conclusion(find_room(config.bot, user), talk.subrange(2, cut)) is Some,
        reads_only(talk.take(cut)),
        match conclusion(find_room(config.bot, user), talk.subrange(2, cut))->0 {
            None => talk.len() == cut,
            Some(_) => is_welcome_at(config, user, talk, cut + 1),
        },
{
    reveal_with_fuel(conclusion, 3);
    let talk1 = talk.drop_first();
    assert(conclusion(read_welcome(config, user, config.welcome_path->0), talk1) is Some);
    assert(talk1[0] == talk[1]);
    let text = trimmed(talk[1].reply->Text_0->0);
    let talk2 = talk1.drop_first();
    assert(talk2 =~= talk.skip(2));
    let search = find_room(config.bot, user);
    let next = |found: Option<Seq<char>>|
        match found {
            None => Dialogue::Return(Ok(())),
            Some(room) => mark_if_sent(
                send_message(config.bot, room, Content::Text(markdown_message(text))),
                user,
            ),
        };
    assert(welcome_in_room(search, config, user, text) == search.then_do(next));
    let end = lemma_conversation_parts(search, next, talk2);
    let cut = end + 2;
    lemma_find_reads(config.bot, user, talk2.take(end));
    assert forall|i: int| 0 <= i < cut implies is_read(#[trigger] talk[i].request) by {
        if i >= 2 {
            assert(talk2.take(end)[i - 2] == talk[i]);
        }
    }
    assert(talk.subrange(2, cut) =~= talk2.take(end));
    let late = talk2.skip(end);
    match conclusion(search, talk2.take(end))->0 {
        None => {
            assert(late.len() == 0);
        },
        Some(room) => {
            lemma_sending_shape(config, user, room, text, late);
            let at = cut + 1;
            assert(talk.subrange(2, at - 1) =~= talk2.take(end));
            assert(forall|i: int|
                0 <= i < late.len() ==> #[trigger] late[i] == talk[i + cut]);
            assert(late[0] == talk[at - 1]);
            assert(late[1] == talk[at]);
            assert(late[2] == talk[at + 1]);
            if is_done(talk[at].reply) {
                assert(late[3] == talk[at + 2]);
            }
        },
    }
    cut
}

/// A conversation that welcomes a user either only reads, or sends one message.
pub proof fn lemma_welcome_shape(
    config: ConfigView,
    user: Seq<char>,
    talk: Seq<Exchange>,
) -> (at: int)
    requires
        conclusion(welcome_user(config, user), talk) is Some,
    ensures
        at == -1 || is_welcome_at(config, user, talk, at),
        at == -1 ==> reads_only(talk),
{
    law_welcome_goes_by_the_replies(config, user, talk);
    if config.welcome_path is None || talk.len() <= 2 {
        -1
    } else {
        law_blank_text_trims_to_nothing(talk[1].reply->Text_0->0);
        let end = lemma_found_shape(config, user, talk);
        if conclusion(find_room(config.bot, user), talk.subrange(2, end))->0 is None {
            assert(talk.take(end) =~= talk);
            -1
        } else {
            end + 1
        }
    }
}

/// Whether a message is appended at `i`, be it with success or not.
pub open spec fn is_message(talk: Seq<Exchange>, i: int) -> bool {
    0 <= i < talk.len() && talk[i].request is AppendMessage
}

/// Whether no message is appended in the course of `talk`.
pub open spec fn says_nothing(talk: Seq<Exchange>) -> bool {
    forall|i: int| !#[trigger] is_message(talk, i)
}

/// Whether a message is appended with success in the course of `talk`.
pub open spec fn delivers(talk: Seq<Exchange>) -> bool {
    exists|i: int| #[trigger] is_message(talk, i) && is_done(talk[i].reply)
}

proof fn lemma_only_message(config: ConfigView, user: Seq<char>, talk: Seq<Exchange>, at: int)
    requires
        is_welcome_at(config, user, talk, at),
    ensures
        is_message(talk, at),
        forall|i: int| #[trigger] is_message(talk, i) ==> i == at,
{
    assert forall|i: int| #[trigger] is_message(talk, i) implies i == at by {
        if i < at - 1 {
            assert(is_read(talk.take(at - 1)[i].request));
        }
    }
}

proof fn lemma_reads_say_nothing(talk: Seq<Exchange>)
    requires
        reads_only(talk),
    ensures
        says_nothing(talk),
{
    assert forall|i: int| !#[trigger] is_message(talk, i) by {
        if is_message(talk, i) {
            assert(is_read(talk[i].request));
        }
    }
}

/// At most one message is sent. It is the bot's, and is the text of the welcome file as Markdown,
/// without the white space around it.
pub proof fn law_welcome_says_the_text(config: ConfigView, user: Seq<char>, talk: Seq<Exchange>)
    requires
        conclusion(welcome_user(config, user), talk) is Some,
    ensures
        forall|i: int, j: int| #[trigger]
            is_message(talk, i) && #[trigger] is_message(talk, j) ==> i == j,
        forall|i: int| #[trigger] is_message(talk, i) ==> is_welcome_at(config, user, talk, i),
{
    let at = lemma_welcome_shape(config, user, talk);
    if at == -1 {
        lemma_reads_say_nothing(talk);
    } else {
        lemma_only_message(config, user, talk, at);
    }
}

/// A welcome changes nothing but the record of who was welcomed, and that exactly when the message
/// was appended with success.
pub proof fn law_welcome_is_recorded(
    config: ConfigView,
    user: Seq<char>,
    talk: Seq<Exchange>,
    worlds: Seq<World>,
)
    requires
        conclusion(welcome_user(config, user), talk) is Some,
        is_history(worlds, talk),
    ensures
        worlds.last() == if delivers(talk) {
            World { keys: worlds[0].keys.insert(welcome_key(user)), ..worlds[0] }
        } else {
            worlds[0]
        },
{
    let at = lemma_welcome_shape(config, user, talk);
    if at == -1 {
        lemma_reads_say_nothing(talk);
        lemma_reads_keep(worlds, talk);
    } else {
        lemma_only_message(config, user, talk, at);
        lemma_history_parts(worlds, talk, at - 1);
        lemma_reads_keep(worlds.take(at), talk.take(at - 1));
        assert(serves(worlds[at - 1], talk[at - 1], worlds[at - 1 + 1]));
        assert(serves(worlds[at], talk[at], worlds[at + 1]));
        assert(serves(worlds[at + 1], talk[at + 1], worlds[at + 1 + 1]));
        if is_done(talk[at].reply) {
            assert(is_message(talk, at));
            assert(serves(worlds[at + 2], talk[at + 2], worlds[at + 2 + 1]));
            lemma_insert_reply(config, user, talk, at);
        }
    }
}

proof fn lemma_insert_reply(config: ConfigView, user: Seq<char>, talk: Seq<Exchange>, at: int)
    requires
        conclusion(welcome_user(config, user), talk) is Some,
        is_welcome_at(config, user, talk, at),
        is_done(talk[at].reply),
    ensures
        talk[at + 2].reply is Ack,
{
    lemma_talk_answers(welcome_user(config, user), talk, at + 2);
}

/// Who is recorded as welcomed is sent nothing, and nothing changes.
pub proof fn law_welcomed_user_is_left_alone(
    config: ConfigView,
    user: Seq<char>,
    talk: Seq<Exchange>,
    worlds: Seq<World>,
)
    requires
        conclusion(welcome_user(config, user), talk) is Some,
        is_history(worlds, talk),
        worlds[0].keys.contains(welcome_key(user)),
    ensures
        conclusion(welcome_user(config, user), talk) == Some(Ok::<(), FailureView>(())),
        reads_only(talk),
        says_nothing(talk),
        worlds.last() == worlds[0],
{
    reveal_with_fuel(conclusion, 2);
    if config.welcome_path is Some {
        lemma_history_step(worlds, talk);
    }
    lemma_reads_say_nothing(talk);
    lemma_reads_keep(worlds, talk);
}

/// The welcome is sent once: after a conversation in which it was appended with success, no later
/// one appends a message, whatever else has been recorded in between.
pub proof fn law_welcome_is_sent_once(
    config: ConfigView,
    user: Seq<char>,
    first: Seq<Exchange>,
    first_worlds: Seq<World>,
    second: Seq<Exchange>,
    second_worlds: Seq<World>,
)
    requires
        conclusion(welcome_user(config, user), first) is Some,
        is_history(first_worlds, first),
        conclusion(welcome_user(config, user), second) is Some,
        is_history(second_worlds, second),
        first_worlds.last().keys.subset_of(second_worlds[0].keys),
        delivers(first),
    ensures
        says_nothing(second),
{
    law_welcome_is_recorded(config, user, first, first_worlds);
    law_welcomed_user_is_left_alone(config, user, second, second_worlds);
}

/// The welcome goes to the user's direct chat.
pub proof fn law_welcome_goes_to_the_dm(
    config: ConfigView,
    user: Seq<char>,
    talk: Seq<Exchange>,
    worlds: Seq<World>,
    at: int,
)
    requires
        conclusion(welcome_user(config, user), talk) is Some,
        is_history(worlds, talk),
        is_message(talk, at),
    ensures
        worlds[0].is_chat(config.bot, user, talk[at].request->AppendMessage_room),
        worlds[0].rooms_with(config.bot, user).contains(talk[at].request->AppendMessage_room),
{
    law_welcome_says_the_text(config, user, talk);
    lemma_search_history(talk, worlds, at);
    law_find_finds_the_first_chat(
        config.bot,
        user,
        talk.subrange(2, at - 1),
        worlds.subrange(2, at),
    );
    let room = talk[at].request->AppendMessage_room;
    let rooms = worlds[0].rooms_with(config.bot, user);
    let i = choose|i: int| #[trigger]
        is_first_chat(worlds[0], config.bot, user, rooms, i) && rooms[i] == room;
    assert(rooms[i] == room);
}

proof fn lemma_search_history(talk: Seq<Exchange>, worlds: Seq<World>, at: int)
    requires
        is_history(worlds, talk),
        3 <= at < talk.len(),
        reads_only(talk.take(at - 1)),
    ensures
        is_history(worlds.subrange(2, at), talk.subrange(2, at - 1)),
        worlds.subrange(2, at)[0] == worlds[0],
{
    let early = talk.take(at - 1);
    lemma_history_parts(worlds, talk, at - 1);
    lemma_history_parts(worlds.take(at), early, 2);
    assert(reads_only(early.take(2))) by {
        assert forall|i: int| 0 <= i < early.take(2).len() implies is_read(
            #[trigger] early.take(2)[i].request,
        ) by {
            assert(early[i] == early.take(2)[i]);
        }
    }
    lemma_reads_keep(worlds.take(at).take(3), early.take(2));
    assert(worlds.take(at).skip(2) =~= worlds.subrange(2, at));
    assert(early.skip(2) =~= talk.subrange(2, at - 1));
}

/// The welcome is sent when it is due: the user has a direct chat and is not recorded as welcomed,
/// the table can be read, and the file holds more than white space.
pub proof fn law_welcome_is_sent_when_due(
    config: ConfigView,
    user: Seq<char>,
    talk: Seq<Exchange>,
    worlds: Seq<World>,
)
    requires
        conclusion(welcome_user(config, user), talk) == Some(Ok::<(), FailureView>(())),
        is_history(worlds, talk),
        config.welcome_path is Some,
        !worlds[0].keys.contains(welcome_key(user)),
        worlds[0].has_dm(config.bot, user),
    ensures
        talk.len() >= 2,
        talk[1].request == (RequestView::ReadFile { path: config.welcome_path->0 }),
        is_user_id(user) && talk[1].reply->Text_0 is Some && trimmed(
            talk[1].reply->Text_0->0,
        ).len() > 0 ==> !says_nothing(talk),
{
    reveal_with_fuel(conclusion, 3);
    lemma_history_step(worlds, talk);
    let path = config.welcome_path->0;
    let talk1 = talk.drop_first();
    let worlds1 = worlds.drop_first();
    assert(conclusion(read_welcome(config, user, path), talk1) is Some);
    assert(talk1[0] == talk[1]);
    lemma_history_step(worlds1, talk1);
    if is_user_id(user) && talk1[0].reply->Text_0 is Some && trimmed(
        talk1[0].reply->Text_0->0,
    ).len() > 0 {
        let text = trimmed(talk1[0].reply->Text_0->0);
        let talk2 = talk1.drop_first();
        let worlds2 = worlds1.drop_first();
        let search = find_room(config.bot, user);
        let next = |found: Option<Seq<char>>|
            match found {
                None => Dialogue::Return(Ok(())),
                Some(room) => mark_if_sent(
                    send_message(config.bot, room, Content::Text(markdown_message(text))),
                    user,
                ),
            };
        assert(welcome_in_room(search, config, user, text) == search.then_do(next));
        let cut = lemma_conversation_parts(search, next, talk2);
        lemma_history_parts(worlds2, talk2, cut);
        law_find_finds_the_first_chat(
            config.bot,
            user,
            talk2.take(cut),
            worlds2.take(cut + 1),
        );
        let room = conclusion(search, talk2.take(cut))->0->0;
        let late = talk2.skip(cut);
        lemma_sending_shape(config, user, room, text, late);
        assert(talk[cut + 3] == late[1]);
        assert(is_message(talk, cut + 3));
    }
}

} // verus!
