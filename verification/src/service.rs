//! What the announcements logic asks of the homeserver's services, and what they reply.
//!
//! Requests, replies and what they carry are written once, over the representation of text: with
//! `String` they are the values that run, with `Seq<char>` they are what contracts speak of.
use crate::direct::{DirectRooms, DirectView};
use crate::text::{is_generated_room_id, optional_text, texts, ServerName};
use vstd::prelude::*;

verus! {

/// The settings that the announcements logic goes by.
#[derive(Debug)]
pub struct Config {
    /// The name of this server.
    pub server_name: ServerName,
    /// The user ID of the bot that writes the notices.
    pub bot: String,
    /// Whether users get a direct chat with the bot at all.
    pub dm_enabled: bool,
    /// The name that a new direct chat is given.
    pub room_name: String,
    /// The topic that a new direct chat is given.
    pub room_topic: String,
    /// The tags that a direct chat carries for the user and for the bot.
    pub room_tags: Vec<String>,
    /// Whether a direct chat is open to other servers.
    pub federate: bool,
    /// The path of the file with the welcome message, in bytes, if there is to be one.
    pub welcome_path: Option<Vec<u8>>,
}

pub struct ConfigView {
    pub server_name: Seq<char>,
    pub bot: Seq<char>,
    pub dm_enabled: bool,
    pub room_name: Seq<char>,
    pub room_topic: Seq<char>,
    pub room_tags: Seq<Seq<char>>,
    pub federate: bool,
    pub welcome_path: Option<Seq<u8>>,
}

impl View for Config {
    type V = ConfigView;

    open spec fn view(&self) -> ConfigView {
        ConfigView {
            server_name: self.server_name@,
            bot: self.bot@,
            dm_enabled: self.dm_enabled,
            room_name: self.room_name@,
            room_topic: self.room_topic@,
            room_tags: texts(self.room_tags@),
            federate: self.federate,
            welcome_path: match self.welcome_path {
                Some(path) => Some(path@),
                None => None,
            },
        }
    }
}

/// An error of a service.
#[derive(Debug, PartialEq, Eq)]
pub struct Failure<T> {
    /// Whether what was asked for does not exist.
    pub not_found: bool,
    /// The status that a client is answered with over HTTP.
    pub status: u16,
    /// The error code of Matrix that a client is given.
    pub code: T,
    pub message: T,
}

pub type FailureView = Failure<Seq<char>>;

impl View for Failure<String> {
    type V = FailureView;

    open spec fn view(&self) -> FailureView {
        Failure {
            not_found: self.not_found,
            status: self.status,
            code: self.code@,
            message: self.message@,
        }
    }
}

/// What a service replies that has nothing to tell but whether it succeeded.
pub open spec fn outcome(result: Result<(), Failure<String>>) -> Result<(), FailureView> {
    match result {
        Ok(()) => Ok(()),
        Err(failure) => Err(failure@),
    }
}

/// A text message: its plain body, and the same as HTML where it is formatted.
#[derive(Debug, PartialEq, Eq)]
pub struct Message<T> {
    pub body: T,
    pub formatted_body: Option<T>,
}

pub type MessageView = Message<Seq<char>>;

impl View for Message<String> {
    type V = MessageView;

    open spec fn view(&self) -> MessageView {
        Message { body: self.body@, formatted_body: optional_text(self.formatted_body) }
    }
}

/// What is in a message: a text, or any other content, given as JSON.
#[derive(Debug, PartialEq, Eq)]
pub enum Content<T> {
    Text(Message<T>),
    Json(T),
}

pub type ContentView = Content<Seq<char>>;

impl View for Content<String> {
    type V = ContentView;

    open spec fn view(&self) -> ContentView {
        match *self {
            Content::Text(message) => Content::Text(message@),
            Content::Json(json) => Content::Json(json@),
        }
    }
}

/// The room versions of Matrix.
#[derive(Debug, Clone, Copy, PartialEq, Eq, Structural)]
pub enum RoomVersion {
    V1,
    V2,
    V3,
    V4,
    V5,
    V6,
    V7,
    V8,
    V9,
    V10,
    V11,
    V12,
}

#[derive(Debug, Clone, Copy, PartialEq, Eq, Structural)]
pub enum Membership {
    Ban,
    Invite,
    Join,
    Knock,
    Leave,
}

#[derive(Debug, Clone, Copy, PartialEq, Eq, Structural)]
pub enum JoinRule {
    Invite,
    Knock,
    Private,
    Public,
}

#[derive(Debug, Clone, Copy, PartialEq, Eq, Structural)]
pub enum HistoryVisibility {
    Invited,
    Joined,
    Shared,
    WorldReadable,
}

#[derive(Debug, Clone, Copy, PartialEq, Eq, Structural)]
pub enum GuestAccess {
    CanJoin,
    Forbidden,
}

/// Who may do what in a room. What is not named here is left at its default.
#[derive(Debug, PartialEq, Eq)]
pub struct PowerLevels<T> {
    pub ban: i64,
    pub events_default: i64,
    pub invite: i64,
    pub kick: i64,
    pub redact: i64,
    pub state_default: i64,
    /// The one user with a level of its own.
    pub user: T,
    /// That user's level.
    pub user_level: i64,
    /// The level of every other user.
    pub users_default: i64,
}

/// The content of a state event.
#[derive(Debug, PartialEq, Eq)]
pub enum StateContent<T> {
    /// `m.room.create`, with no predecessor.
    Create { creator: Option<T>, federate: bool, room_version: RoomVersion },
    /// `m.room.member`
    Member { membership: Membership },
    /// `m.room.power_levels`
    PowerLevels(PowerLevels<T>),
    /// `m.room.join_rules`
    JoinRules { join_rule: JoinRule },
    /// `m.room.history_visibility`
    HistoryVisibility { history_visibility: HistoryVisibility },
    /// `m.room.guest_access`
    GuestAccess { guest_access: GuestAccess },
    /// `m.room.name`
    Name { name: T },
    /// `m.room.topic`, as plain text and with no other form of it.
    Topic { topic: T },
    /// Whether links in the room are left without a preview.
    PreviewUrls { disabled: bool },
}

/// A state event to be appended to a room.
#[derive(Debug, PartialEq, Eq)]
pub struct StateEvent<T> {
    pub state_key: T,
    pub content: StateContent<T>,
}

pub type StateEventView = StateEvent<Seq<char>>;

impl View for StateEvent<String> {
    type V = StateEventView;

    open spec fn view(&self) -> StateEventView {
        StateEvent {
            state_key: self.state_key@,
            content: match self.content {
                StateContent::Create { creator, federate, room_version } => StateContent::Create {
                    creator: optional_text(creator),
                    federate,
                    room_version,
                },
                StateContent::Member { membership } => StateContent::Member { membership },
                StateContent::PowerLevels(levels) => StateContent::PowerLevels(
                    PowerLevels {
                        ban: levels.ban,
                        events_default: levels.events_default,
                        invite: levels.invite,
                        kick: levels.kick,
                        redact: levels.redact,
                        state_default: levels.state_default,
                        user: levels.user@,
                        user_level: levels.user_level,
                        users_default: levels.users_default,
                    },
                ),
                StateContent::JoinRules { join_rule } => StateContent::JoinRules { join_rule },
                StateContent::HistoryVisibility { history_visibility } => {
                    StateContent::HistoryVisibility { history_visibility }
                },
                StateContent::GuestAccess { guest_access } => {
                    StateContent::GuestAccess { guest_access }
                },
                StateContent::Name { name } => StateContent::Name { name: name@ },
                StateContent::Topic { topic } => StateContent::Topic { topic: topic@ },
                StateContent::PreviewUrls { disabled } => StateContent::PreviewUrls { disabled },
            },
        }
    }
}

/// What a service is asked to tell or to do. `T` is text, `B` bytes, `D` the content of
/// `m.direct`, `L` a list of texts.
#[derive(Debug, PartialEq, Eq)]
pub enum Request<T, B, D, L> {
    /// Is the user one of this server's? Replied to with a `Flag`.
    IsLocal { user: T },
    /// Does the account exist? Replied to with a `Flag`.
    UserExists { user: T },
    /// Create an account, with a password and from an origin if these are given. Replied to with
    /// `Done`.
    CreateUser { user: T, password: Option<T>, origin: Option<T> },
    /// The user's `m.direct` account data. Replied to with `Direct`.
    GetDirect { owner: T },
    /// Replace the user's `m.direct` account data, which goes with no room. Replied to with `Done`.
    UpdateDirect { owner: T, direct: D },
    /// How many users have joined the room? Replied to with a `Count`.
    JoinedCount { room: T },
    /// Has the user joined the room? Replied to with a `Flag`.
    IsJoined { user: T, room: T },
    /// Put a tag on the room, for one user, with information on the tag if it is given. Replied to
    /// with `Done`.
    SetRoomTag { owner: T, room: T, tag: T, info: Option<T> },
    /// A new room ID on the server. A procedure draws it by itself, and asks no service.
    NewRoomId { server: T },
    /// Make the room known under a short ID. Replied to with `Ack`.
    ShortRoomId { room: T },
    /// Take the lock on the room's state. Replied to with `Ack` once it is held.
    LockRoom { room: T },
    /// Give up the lock on the room's state. Replied to with `Ack`.
    UnlockRoom { room: T },
    /// Append a state event, under the lock. Replied to with `Done`.
    AppendState { room: T, sender: T, event: StateEvent<T> },
    /// Append a message, under the lock. Replied to with `Done`.
    AppendMessage { room: T, sender: T, content: Content<T> },
    /// Invite a user, without the lock, for a reason if it is given. Replied to with `Done`.
    Invite { sender: T, user: T, room: T, reason: Option<T>, is_direct: bool },
    /// Join the room for a user, under the lock. Where they are given: the ID or alias that the
    /// room was asked for under, the reason, and the servers to join by. Replied to with `Done`.
    Join {
        user: T,
        room: T,
        asked_for: Option<T>,
        reason: Option<T>,
        servers: L,
        is_appservice: bool,
    },
    /// Is the key in the global table? Replied to with `Done`; a missing key is a failure with
    /// `not_found`.
    GetKey { key: B },
    /// Put the key, with no value, into the global table. Replied to with `Ack`.
    InsertKey { key: B },
    /// The text of a file. Replied to with `Text`.
    ReadFile { path: B },
    /// The user IDs of all local accounts with a password. Replied to with `Users`.
    ListLocalUsers,
    /// Whose access token is this? Replied to with `Token`.
    FindToken { token: T },
    /// The time. Replied to with `Time`.
    Now,
    /// Withdraw the access token of a device. Replied to with `Ack`.
    RemoveToken { user: T, device: T },
    /// Is the user a server administrator? Replied to with a `Flag`.
    IsAdmin { user: T },
    /// Send a message to every local user's direct chat. Replied to with `Done`.
    SendAnnouncement { message: Message<T> },
}

pub type ServiceRequest = Request<String, Vec<u8>, DirectRooms, Vec<String>>;

pub type RequestView = Request<Seq<char>, Seq<u8>, DirectView, Seq<Seq<char>>>;

impl View for ServiceRequest {
    type V = RequestView;

    open spec fn view(&self) -> RequestView {
        match *self {
            Request::IsLocal { user } => Request::IsLocal { user: user@ },
            Request::UserExists { user } => Request::UserExists { user: user@ },
            Request::CreateUser { user, password, origin } => Request::CreateUser {
                user: user@,
                password: optional_text(password),
                origin: optional_text(origin),
            },
            Request::GetDirect { owner } => Request::GetDirect { owner: owner@ },
            Request::UpdateDirect { owner, direct } => {
                Request::UpdateDirect { owner: owner@, direct: direct@ }
            },
            Request::JoinedCount { room } => Request::JoinedCount { room: room@ },
            Request::IsJoined { user, room } => Request::IsJoined { user: user@, room: room@ },
            Request::SetRoomTag { owner, room, tag, info } => Request::SetRoomTag {
                owner: owner@,
                room: room@,
                tag: tag@,
                info: optional_text(info),
            },
            Request::NewRoomId { server } => Request::NewRoomId { server: server@ },
            Request::ShortRoomId { room } => Request::ShortRoomId { room: room@ },
            Request::LockRoom { room } => Request::LockRoom { room: room@ },
            Request::UnlockRoom { room } => Request::UnlockRoom { room: room@ },
            Request::AppendState { room, sender, event } => {
                Request::AppendState { room: room@, sender: sender@, event: event@ }
            },
            Request::AppendMessage { room, sender, content } => {
                Request::AppendMessage { room: room@, sender: sender@, content: content@ }
            },
            Request::Invite { sender, user, room, reason, is_direct } => Request::Invite {
                sender: sender@,
                user: user@,
                room: room@,
                reason: optional_text(reason),
                is_direct,
            },
            Request::Join { user, room, asked_for, reason, servers, is_appservice } => {
                Request::Join {
                    user: user@,
                    room: room@,
                    asked_for: optional_text(asked_for),
                    reason: optional_text(reason),
                    servers: texts(servers@),
                    is_appservice,
                }
            },
            Request::GetKey { key } => Request::GetKey { key: key@ },
            Request::InsertKey { key } => Request::InsertKey { key: key@ },
            Request::ReadFile { path } => Request::ReadFile { path: path@ },
            Request::ListLocalUsers => Request::ListLocalUsers,
            Request::FindToken { token } => Request::FindToken { token: token@ },
            Request::Now => Request::Now,
            Request::RemoveToken { user, device } => {
                Request::RemoveToken { user: user@, device: device@ }
            },
            Request::IsAdmin { user } => Request::IsAdmin { user: user@ },
            Request::SendAnnouncement { message } => Request::SendAnnouncement {
                message: message@,
            },
        }
    }
}

/// Who holds an access token, and until when. A time is in nanoseconds since the start of 1970.
#[derive(Debug, PartialEq, Eq)]
pub struct TokenOwner<T> {
    pub user: T,
    pub device: T,
    pub expires_at: Option<i128>,
}

pub type TokenOwnerView = TokenOwner<Seq<char>>;

impl View for TokenOwner<String> {
    type V = TokenOwnerView;

    open spec fn view(&self) -> TokenOwnerView {
        TokenOwner { user: self.user@, device: self.device@, expires_at: self.expires_at }
    }
}

/// What a service replies. `T` is text, `L` a list of texts, `D` the content of `m.direct`.
#[derive(Debug, PartialEq, Eq)]
pub enum Reply<T, L, D> {
    /// The request was carried out, with nothing to tell.
    Ack,
    /// The request was carried out, or failed.
    Done(Result<(), Failure<T>>),
    Flag(bool),
    /// A number, or nothing where it could not be told.
    Count(Option<u64>),
    /// The content of `m.direct`, or nothing where there is none to be had.
    Direct(Option<D>),
    /// A room ID that was drawn.
    Room(T),
    /// A text, or nothing where it could not be read.
    Text(Option<T>),
    Users(L),
    /// The holder of a token, or nothing where no one holds it.
    Token(Option<TokenOwner<T>>),
    /// Nanoseconds since the start of 1970.
    Time(i128),
}

pub type ServiceReply = Reply<String, Vec<String>, DirectRooms>;

pub type ReplyView = Reply<Seq<char>, Seq<Seq<char>>, DirectView>;

impl View for ServiceReply {
    type V = ReplyView;

    open spec fn view(&self) -> ReplyView {
        match *self {
            Reply::Ack => Reply::Ack,
            Reply::Done(result) => Reply::Done(outcome(result)),
            Reply::Flag(flag) => Reply::Flag(flag),
            Reply::Count(count) => Reply::Count(count),
            Reply::Direct(direct) => Reply::Direct(
                match direct {
                    Some(content) => Some(content@),
                    None => None,
                },
            ),
            Reply::Room(room) => Reply::Room(room@),
            Reply::Text(text) => Reply::Text(optional_text(text)),
            Reply::Users(users) => Reply::Users(texts(users@)),
            Reply::Token(owner) => Reply::Token(
                match owner {
                    Some(held) => Some(held@),
                    None => None,
                },
            ),
            Reply::Time(time) => Reply::Time(time),
        }
    }
}

/// Whether a reply is of the kind that a service replies to the request with.
pub open spec fn answers<T, B, D, L, U, M, E>(
    request: Request<T, B, D, L>,
    reply: Reply<U, M, E>,
) -> bool {
    match request {
        Request::IsLocal { .. } => reply is Flag,
        Request::UserExists { .. } => reply is Flag,
        Request::CreateUser { .. } => reply is Done,
        Request::GetDirect { .. } => reply is Direct,
        Request::UpdateDirect { .. } => reply is Done,
        Request::JoinedCount { .. } => reply is Count,
        Request::IsJoined { .. } => reply is Flag,
        Request::SetRoomTag { .. } => reply is Done,
        Request::NewRoomId { .. } => false,
        Request::ShortRoomId { .. } => reply is Ack,
        Request::LockRoom { .. } => reply is Ack,
        Request::UnlockRoom { .. } => reply is Ack,
        Request::AppendState { .. } => reply is Done,
        Request::AppendMessage { .. } => reply is Done,
        Request::Invite { .. } => reply is Done,
        Request::Join { .. } => reply is Done,
        Request::GetKey { .. } => reply is Done,
        Request::InsertKey { .. } => reply is Ack,
        Request::ReadFile { .. } => reply is Text,
        Request::ListLocalUsers => reply is Users,
        Request::FindToken { .. } => reply is Token,
        Request::Now => reply is Time,
        Request::RemoveToken { .. } => reply is Ack,
        Request::IsAdmin { .. } => reply is Flag,
        Request::SendAnnouncement { .. } => reply is Done,
    }
}

/// Whether a reply is one that a conversation can go on with: of the kind that a service replies
/// with, or a room ID that can have been drawn.
pub open spec fn is_reply(request: RequestView, reply: ReplyView) -> bool {
    match request {
        Request::NewRoomId { server } => reply is Room && is_generated_room_id(
            reply->Room_0,
            server,
        ),
        _ => answers(request, reply),
    }
}

/// Whether a reply is of the kind that a service replies to the request with.
pub fn reply_answers(request: &ServiceRequest, reply: &ServiceReply) -> (fits: bool)
    ensures
        fits == answers(request@, reply@),
{
    match request {
        Request::IsLocal { .. } | Request::UserExists { .. } | Request::IsJoined { .. }
        | Request::IsAdmin { .. } => matches!(reply, Reply::Flag(_)),
        Request::CreateUser { .. } | Request::UpdateDirect { .. } | Request::SetRoomTag { .. }
        | Request::AppendState { .. } | Request::AppendMessage { .. } | Request::Invite { .. }
        | Request::Join { .. } | Request::GetKey { .. } | Request::SendAnnouncement { .. } => {
            matches!(reply, Reply::Done(_))
        },
        Request::GetDirect { .. } => matches!(reply, Reply::Direct(_)),
        Request::JoinedCount { .. } => matches!(reply, Reply::Count(_)),
        Request::NewRoomId { .. } => false,
        Request::ShortRoomId { .. } | Request::LockRoom { .. } | Request::UnlockRoom { .. }
        | Request::InsertKey { .. } | Request::RemoveToken { .. } => matches!(reply, Reply::Ack),
        Request::ReadFile { .. } => matches!(reply, Reply::Text(_)),
        Request::ListLocalUsers => matches!(reply, Reply::Users(_)),
        Request::FindToken { .. } => matches!(reply, Reply::Token(_)),
        Request::Now => matches!(reply, Reply::Time(_)),
    }
}

} // verus!
