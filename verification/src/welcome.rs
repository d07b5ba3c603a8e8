//! Messages of the bot, and the one that welcomes a user.
use crate::dialogue::{follows, group_then_do, Dialogue, Progress, Step, Task};
use crate::rooms::{find_announcements_dm_room, find_room, RoomSearch};
use crate::service::{
    outcome, Config, ConfigView, Content, ContentView, Failure, FailureView, Message, MessageView,
    Reply, ReplyView, Request, ServiceReply,
};
use crate::text::{optional_text, trim, trimmed};
use ruma::events::room::message::{MessageType, RoomMessageEventContent};
use vstd::prelude::*;
use vstd::slice::slice_to_vec;
use vstd::utf8::{encode_utf8, encode_utf8_decode_utf8};

verus! {

broadcast use group_then_do;

// ---------------------------------------------------------------------------
// Messages

/// The HTML that `ruma` makes of a Markdown text, or nothing where it finds no formatting in it.
pub uninterp spec fn markdown_html(text: Seq<char>) -> Option<Seq<char>>;

/// A Markdown text as a message: the text as it is, and its HTML where it is formatted.
pub open spec fn markdown_message(text: Seq<char>) -> MessageView {
    Message { body: text, formatted_body: markdown_html(text) }
}

/// A text as a message without formatting.
pub open spec fn plain_message(text: Seq<char>) -> MessageView {
    Message { body: text, formatted_body: None }
}

/// `RoomMessageEventContent::text_markdown` makes a text message that keeps the given text as its
/// body, and has a formatted body where Markdown formatting was found. The HTML depends on the
/// text alone; it is named `markdown_html` and not spelled out.
#[verifier::external_body]
pub(crate) fn text_markdown(text: String) -> (message: Message<String>)
    ensures
        message@.body == text@,
        message@.formatted_body == markdown_html(text@),
{
    match RoomMessageEventContent::text_markdown(text).msgtype {
        MessageType::Text(content) => Message {
            body: content.body,
            formatted_body: content.formatted.map(|formatted| formatted.body),
        },
        other => Message { body: other.body().to_owned(), formatted_body: None },
    }
}

/// Appends a message to a room's timeline, under the lock on the room's state.
pub open spec fn send_message(
    sender: Seq<char>,
    room: Seq<char>,
    content: ContentView,
) -> Dialogue<Result<(), FailureView>> {
    Dialogue::Ask(
        Request::LockRoom { room },
        |reply: ReplyView| append_message(sender, room, content),
    )
}

pub open spec fn append_message(
    sender: Seq<char>,
    room: Seq<char>,
    content: ContentView,
) -> Dialogue<Result<(), FailureView>> {
    Dialogue::Ask(
        Request::AppendMessage { room, sender, content },
        |reply: ReplyView| unlock_appended(room, reply->Done_0),
    )
}

pub open spec fn unlock_appended(room: Seq<char>, appended: Result<(), FailureView>) -> Dialogue<
    Result<(), FailureView>,
> {
    Dialogue::Ask(
        Request::UnlockRoom { room },
        |reply: ReplyView| Dialogue::Return(appended),
    )
}

enum MessageStage {
    Lock { sender: String, content: Content<String> },
    /// The message that is being appended.
    Append { author: Ghost<Seq<char>>, appended: Ghost<ContentView> },
    Unlock { result: Result<(), Failure<String>> },
}

/// The sending of a message, in progress.
pub struct MessageSending {
    room: String,
    stage: MessageStage,
}

/// Appends a message of `sender` to a room's timeline, whatever is in it.
pub fn append_room_message(
    config: &Config,
    sender: &String,
    room_id: &String,
    content: Content<String>,
) -> (step: Step<MessageSending, Result<(), Failure<String>>>)
    ensures
        follows(step, config@, send_message(sender@, room_id@, content@)),
{
    let stage = MessageStage::Lock { sender: sender.clone(), content };
    Step::Ask(
        Request::LockRoom { room: room_id.clone() },
        MessageSending { room: room_id.clone(), stage },
    )
}

impl Progress for MessageSending {
    type Output = Result<(), Failure<String>>;

    type Result = Result<(), FailureView>;

    open spec fn result(output: Self::Output) -> Self::Result {
        outcome(output)
    }

    closed spec fn rest(self, config: ConfigView) -> Dialogue<Self::Result> {
        match self.stage {
            MessageStage::Lock { sender, content } => send_message(sender@, self.room@, content@),
            MessageStage::Append { author, appended } => append_message(
                author@,
                self.room@,
                appended@,
            ),
            MessageStage::Unlock { result } => unlock_appended(self.room@, outcome(result)),
        }
    }
}

impl Task for MessageSending {
    fn resume(self, config: &Config, reply: ServiceReply) -> (step: Step<Self, Self::Output>) {
        let room = self.room;
        match (self.stage, reply) {
            (MessageStage::Lock { sender, content }, Reply::Ack) => {
                let stage = MessageStage::Append {
                    author: Ghost(sender@),
                    appended: Ghost(content@),
                };
                Step::Ask(
                    Request::AppendMessage { room: room.clone(), sender, content },
                    MessageSending { room, stage },
                )
            },
            (MessageStage::Append { .. }, Reply::Done(appended)) => {
                Step::Ask(
                    Request::UnlockRoom { room: room.clone() },
                    MessageSending { room, stage: MessageStage::Unlock { result: appended } },
                )
            },
            (MessageStage::Unlock { result }, Reply::Ack) => Step::Return(result),
            _ => vstd::pervasive::unreached(),
        }
    }
}

// ---------------------------------------------------------------------------
// The welcome

/// The key in the global table that says that a user has been welcomed.
pub open spec fn welcome_key(user: Seq<char>) -> Seq<u8> {
    encode_utf8("announcements_welcome_v1\0"@) + encode_utf8(user)
}

/// No two users share a key.
pub proof fn law_welcome_keys_differ(one: Seq<char>, other: Seq<char>)
    ensures
        welcome_key(one) == welcome_key(other) <==> one == other,
{
    if welcome_key(one) == welcome_key(other) {
        let prefix = encode_utf8("announcements_welcome_v1\0"@);
        assert(welcome_key(one).skip(prefix.len() as int) =~= encode_utf8(one));
        assert(welcome_key(other).skip(prefix.len() as int) =~= encode_utf8(other));
        encode_utf8_decode_utf8(one);
        encode_utf8_decode_utf8(other);
    }
}

/// The key in the global table that says that a user has been welcomed.
pub fn welcome_sent_key(user_id: &String) -> (key: Vec<u8>)
    ensures
        key@ == welcome_key(user_id@),
{
    let prefix: &str = "announcements_welcome_v1\0";
    let mut key: Vec<u8> = slice_to_vec(prefix.as_bytes());
    key.extend_from_slice(user_id.as_str().as_bytes());
    assert(key@ =~= welcome_key(user_id@));
    key
}

/// Sends the user the text of the welcome file, if there is one and the user has not had it. It
/// fails only where the global table cannot be read.
pub open spec fn welcome_user(config: ConfigView, user: Seq<char>) -> Dialogue<
    Result<(), FailureView>,
> {
    match config.welcome_path {
        None => Dialogue::Return(Ok(())),
        Some(path) => Dialogue::Ask(
            Request::GetKey { key: welcome_key(user) },
            |reply: ReplyView|
                match reply->Done_0 {
                    Ok(()) => Dialogue::Return(Ok(())),
                    Err(failure) => if failure.not_found {
                        read_welcome(config, user, path)
                    } else {
                        Dialogue::Return(Err(failure))
                    },
                },
        ),
    }
}

pub open spec fn read_welcome(config: ConfigView, user: Seq<char>, path: Seq<u8>) -> Dialogue<
    Result<(), FailureView>,
> {
    Dialogue::Ask(
        Request::ReadFile { path },
        |reply: ReplyView|
            match reply->Text_0 {
                None => Dialogue::Return(Ok(())),
                Some(text) => if trimmed(text).len() == 0 {
                    Dialogue::Return(Ok(()))
                } else {
                    welcome_in_room(find_room(config.bot, user), config, user, trimmed(text))
                },
            },
    )
}

/// Once the user's direct chat is found, welcomes the user there.
pub open spec fn welcome_in_room(
    search: Dialogue<Option<Seq<char>>>,
    config: ConfigView,
    user: Seq<char>,
    text: Seq<char>,
) -> Dialogue<Result<(), FailureView>> {
    search.then_do(
        |found: Option<Seq<char>>|
            match found {
                None => Dialogue::Return(Ok(())),
                Some(room) => mark_if_sent(
                    send_message(config.bot, room, Content::Text(markdown_message(text))),
                    user,
                ),
            },
    )
}

/// Once the message is sent, records that. A message that could not be sent is let be.
pub open spec fn mark_if_sent(
    sending: Dialogue<Result<(), FailureView>>,
    user: Seq<char>,
) -> Dialogue<Result<(), FailureView>> {
    sending.then_do(
        |sent: Result<(), FailureView>|
            match sent {
                Ok(()) => mark_welcomed(user),
                Err(_) => Dialogue::Return(Ok(())),
            },
    )
}

pub open spec fn mark_welcomed(user: Seq<char>) -> Dialogue<Result<(), FailureView>> {
    Dialogue::Ask(
        Request::InsertKey { key: welcome_key(user) },
        |reply: ReplyView| Dialogue::Return(Ok(())),
    )
}

enum WelcomeStage {
    GetKey,
    ReadFile,
    Search { text: String, search: RoomSearch },
    Send(MessageSending),
    Mark,
}

/// The welcoming of a user, in progress.
pub struct Welcome {
    user: String,
    stage: WelcomeStage,
}

/// Sends `user_id` the configured welcome message, once.
pub fn send_welcome_once_if_configured(config: &Config, user_id: &String) -> (step: Step<
    Welcome,
    Result<(), Failure<String>>,
>)
    ensures
        follows(step, config@, welcome_user(config@, user_id@)),
{
    match &config.welcome_path {
        None => Step::Return(Ok(())),
        Some(_) => Step::Ask(
            Request::GetKey { key: welcome_sent_key(user_id) },
            Welcome { user: user_id.clone(), stage: WelcomeStage::GetKey },
        ),
    }
}

impl Progress for Welcome {
    type Output = Result<(), Failure<String>>;

    type Result = Result<(), FailureView>;

    open spec fn result(output: Self::Output) -> Self::Result {
        outcome(output)
    }

    closed spec fn rest(self, config: ConfigView) -> Dialogue<Self::Result> {
        match self.stage {
            WelcomeStage::GetKey => welcome_user(config, self.user@),
            WelcomeStage::ReadFile => match config.welcome_path {
                Some(path) => read_welcome(config, self.user@, path),
                None => Dialogue::Return(Ok(())),
            },
            WelcomeStage::Search { text, search } => if search.rest(config) is Ask {
                welcome_in_room(search.rest(config), config, self.user@, text@)
            } else {
                Dialogue::Return(Ok(()))
            },
            WelcomeStage::Send(sending) => if sending.rest(config) is Ask {
                mark_if_sent(sending.rest(config), self.user@)
            } else {
                Dialogue::Return(Ok(()))
            },
            WelcomeStage::Mark => mark_welcomed(self.user@),
        }
    }
}

impl Welcome {
    /// Welcomes the user in the room that was found, if any.
    fn found(config: &Config, user: String, text: String, found: Option<String>) -> (step: Step<
        Welcome,
        Result<(), Failure<String>>,
    >)
        ensures
            follows(
                step,
                config@,
                match optional_text(found) {
                    None => Dialogue::Return(Ok(())),
                    Some(room) => mark_if_sent(
                        send_message(config@.bot, room, Content::Text(markdown_message(text@))),
                        user@,
                    ),
                },
            ),
    {
        match found {
            None => Step::Return(Ok(())),
            Some(room) => {
                let content = Content::Text(text_markdown(text));
                match append_room_message(config, &config.bot, &room, content) {
                    Step::Ask(request, sending) => {
                        Step::Ask(request, Welcome { user, stage: WelcomeStage::Send(sending) })
                    },
                    Step::Return(sent) => Self::sent(config, user, sent),
                }
            },
        }
    }

    /// Records that the user was welcomed, if so.
    fn sent(config: &Config, user: String, sent: Result<(), Failure<String>>) -> (step: Step<
        Welcome,
        Result<(), Failure<String>>,
    >)
        ensures
            follows(
                step,
                config@,
                match outcome(sent) {
                    Ok(()) => mark_welcomed(user@),
                    Err(_) => Dialogue::Return(Ok(())),
                },
            ),
    {
        match sent {
            Ok(()) => Step::Ask(
                Request::InsertKey { key: welcome_sent_key(&user) },
                Welcome { user, stage: WelcomeStage::Mark },
            ),
            Err(_) => Step::Return(Ok(())),
        }
    }
}

impl Task for Welcome {
    fn resume(self, config: &Config, reply: ServiceReply) -> (step: Step<Self, Self::Output>) {
        let user = self.user;
        match (self.stage, reply) {
            (WelcomeStage::GetKey, Reply::Done(result)) => {
                match result {
                    Ok(()) => Step::Return(Ok(())),
                    Err(failure) => {
                        if !failure.not_found {
                            return Step::Return(Err(failure));
                        }
                        match &config.welcome_path {
                            Some(path) => Step::Ask(
                                Request::ReadFile { path: slice_to_vec(path.as_slice()) },
                                Welcome { user, stage: WelcomeStage::ReadFile },
                            ),
                            None => vstd::pervasive::unreached(),
                        }
                    },
                }
            },
            (WelcomeStage::ReadFile, Reply::Text(read)) => {
                match read {
                    None => Step::Return(Ok(())),
                    Some(content) => {
                        let text = trim(content.as_str());
                        if text.is_empty() {
                            return Step::Return(Ok(()));
                        }
                        let text: String = text.to_owned();
                        match find_announcements_dm_room(config, &user) {
                            Step::Ask(request, search) => {
                                let stage = WelcomeStage::Search { text, search };
                                Step::Ask(request, Welcome { user, stage })
                            },
                            Step::Return(found) => Self::found(config, user, text, found),
                        }
                    },
                }
            },
            (WelcomeStage::Search { text, search }, reply) => {
                match search.resume(config, reply) {
                    Step::Ask(request, next) => {
                        let stage = WelcomeStage::Search { text, search: next };
                        Step::Ask(request, Welcome { user, stage })
                    },
                    Step::Return(found) => Self::found(config, user, text, found),
                }
            },
            (WelcomeStage::Send(sending), reply) => {
                match sending.resume(config, reply) {
                    Step::Ask(request, next) => {
                        Step::Ask(request, Welcome { user, stage: WelcomeStage::Send(next) })
                    },
                    Step::Return(sent) => Self::sent(config, user, sent),
                }
            },
            (WelcomeStage::Mark, _) => Step::Return(Ok(())),
            _ => vstd::pervasive::unreached(),
        }
    }
}

} // verus!
