//! The HTTP endpoints: who may send an announcement, and what the server tells of itself.
use crate::dialogue::{follows, Dialogue, Progress, Step, Task};
use crate::service::{
    Config, ConfigView, Failure, Message, MessageView, Reply, ReplyView, Request, ServiceReply,
    TokenOwner, TokenOwnerView,
};
use crate::text::{optional_text, strip_prefix, trim, trimmed};
use crate::welcome::{markdown_message, plain_message, text_markdown};
use axum::http::header::{HeaderMap, HeaderValue, ToStrError};
use vstd::prelude::*;
use vstd::utf8::encode_utf8;

verus! {

// ---------------------------------------------------------------------------
// What the server tells of itself

/// The name and the version of the server.
#[derive(Debug, PartialEq, Eq)]
pub struct ServerVersion {
    pub name: String,
    pub version: String,
}

/// `GET /_tuwunel/server_version`
pub fn tuwunel_server_version(name: &str, version: &str) -> (reply: ServerVersion)
    ensures
        reply.name@ == name@,
        reply.version@ == version@,
{
    ServerVersion { name: name.to_owned(), version: version.to_owned() }
}

/// `GET /_tuwunel/local_user_count`: how many users are registered here. Where federation is
/// disabled, so is the endpoint, for privacy.
pub fn tuwunel_local_user_count(allow_federation: bool, local_users: &Vec<String>) -> (count:
    Option<usize>)
    ensures
        count == if allow_federation {
            Some(local_users.len())
        } else {
            None
        },
{
    if allow_federation {
        Some(local_users.len())
    } else {
        None
    }
}

// ---------------------------------------------------------------------------
// The access token

#[verifier::external_type_specification]
#[verifier::external_body]
#[verifier::reject_recursive_types(T)]
pub struct ExHeaderMap<T>(HeaderMap<T>);

#[verifier::external_type_specification]
#[verifier::external_body]
pub struct ExHeaderValue(HeaderValue);

#[verifier::external_type_specification]
#[verifier::external_body]
pub struct ExToStrError(ToStrError);

/// The values of each header that is there, by its name in lower case, in their order.
pub uninterp spec fn header_values(headers: HeaderMap<HeaderValue>) -> Map<
    Seq<char>,
    Seq<Seq<u8>>,
>;

/// The bytes of a header's value.
pub uninterp spec fn header_bytes(value: HeaderValue) -> Seq<u8>;

/// The first value of a header, if it has any.
pub open spec fn first_value(values: Map<Seq<char>, Seq<Seq<u8>>>, name: Seq<char>) -> Option<
    Seq<u8>,
> {
    if values.contains_key(name) && values[name].len() > 0 {
        Some(values[name][0])
    } else {
        None
    }
}

/// `HeaderMap::get` gives the first value of a header, or nothing if it has none; here, of the
/// header `Authorization`.
#[verifier::external_body]
fn authorization(headers: &HeaderMap<HeaderValue>) -> (value: Option<&HeaderValue>)
    ensures
        match value {
            Some(found) => first_value(header_values(*headers), "authorization"@) == Some(
                header_bytes(*found),
            ),
            None => first_value(header_values(*headers), "authorization"@) is None,
        },
{
    headers.get(axum::http::header::AUTHORIZATION)
}

/// Printable ASCII, the space, and the tab.
pub open spec fn is_visible_ascii(bytes: Seq<u8>) -> bool {
    forall|i: int| 0 <= i < bytes.len() ==> (32 <= #[trigger] bytes[i] < 127 || bytes[i] == 9)
}

/// The characters that ASCII bytes stand for.
pub open spec fn ascii_chars(bytes: Seq<u8>) -> Seq<char> {
    Seq::new(bytes.len(), |i: int| bytes[i] as char)
}

/// `HeaderValue::to_str` gives a value as text if it holds nothing but visible ASCII characters,
/// spaces and tabs.
pub assume_specification[ HeaderValue::to_str ](value: &HeaderValue) -> (text: Result<
    &str,
    ToStrError,
>)
    ensures
        match text {
            Ok(chars) => is_visible_ascii(header_bytes(*value)) && chars@ == ascii_chars(
                header_bytes(*value),
            ),
            Err(_) => !is_visible_ascii(header_bytes(*value)),
        },
;

/// The token in the value of an `Authorization` header of the `Bearer` scheme.
pub open spec fn token_in(value: Seq<char>) -> Option<Seq<char>> {
    if "Bearer "@.is_prefix_of(value) {
        Some(trimmed(value.skip("Bearer "@.len() as int)))
    } else if "bearer "@.is_prefix_of(value) {
        Some(trimmed(value.skip("bearer "@.len() as int)))
    } else {
        None
    }
}

/// The token in the value of an `Authorization` header of the `Bearer` scheme.
pub fn bearer_token_in<'a>(value: &'a str) -> (token: Option<&'a str>)
    ensures
        match token {
            Some(text) => token_in(value@) == Some(text@),
            None => token_in(value@) is None,
        },
{
    match strip_prefix(value, "Bearer ") {
        Some(rest) => {
            assert(value@.skip("Bearer "@.len() as int) =~= rest@);
            return Some(trim(rest));
        },
        None => {},
    }
    match strip_prefix(value, "bearer ") {
        Some(rest) => {
            assert(value@.skip("bearer "@.len() as int) =~= rest@);
            Some(trim(rest))
        },
        None => None,
    }
}

/// The token that a request's headers bear.
pub open spec fn bearer_token(headers: HeaderMap<HeaderValue>) -> Option<Seq<char>> {
    match first_value(header_values(headers), "authorization"@) {
        Some(bytes) => if is_visible_ascii(bytes) {
            token_in(ascii_chars(bytes))
        } else {
            None
        },
        None => None,
    }
}

/// The token that a request's headers bear.
pub fn extract_bearer_token(headers: &HeaderMap<HeaderValue>) -> (token: Option<&str>)
    ensures
        match token {
            Some(text) => bearer_token(*headers) == Some(text@),
            None => bearer_token(*headers) is None,
        },
{
    match authorization(headers) {
        Some(value) => {
            match value.to_str() {
                Ok(text) => bearer_token_in(text),
                Err(_) => None,
            }
        },
        None => None,
    }
}

/// The token that a request is judged by: the one in the headers if there is any, or else the one
/// in the query. An empty token is none.
pub open spec fn chosen_token(header: Option<Seq<char>>, query: Option<Seq<char>>) -> Option<
    Seq<char>,
> {
    let token = match header {
        Some(_) => header,
        None => query,
    };
    match token {
        Some(text) => if text.len() > 0 {
            Some(text)
        } else {
            None
        },
        None => None,
    }
}

/// The token that a request is judged by.
pub fn choose_token(header: Option<&str>, query: Option<String>) -> (token: Option<String>)
    ensures
        optional_text(token) == chosen_token(
            match header {
                Some(text) => Some(text@),
                None => None,
            },
            optional_text(query),
        ),
{
    let token: Option<String> = match header {
        Some(text) => Some(text.to_owned()),
        None => query,
    };
    match token {
        Some(text) => {
            if text.as_str().is_empty() {
                None
            } else {
                Some(text)
            }
        },
        None => None,
    }
}

// ---------------------------------------------------------------------------
// Announcements

/// The most bytes that the body of an announcement may have, to keep events small.
pub const ANNOUNCEMENTS_SEND_BODY_MAX_BYTES: usize = 65_000;

/// The query of a request to send an announcement.
#[derive(Debug, Default)]
pub struct AnnouncementsSendQuery {
    pub access_token: Option<String>,
}

/// The JSON body of a request to send an announcement.
#[derive(Debug)]
pub struct AnnouncementsSendBody {
    /// The message, as CommonMark where `markdown` is set.
    pub body: String,
    /// Whether the message is formatted.
    pub markdown: bool,
}

/// Whether a message is formatted when the request does not say.
pub fn announcements_markdown_default() -> (markdown: bool)
    ensures
        markdown,
{
    true
}

/// Why a request is refused.
#[derive(Debug, Clone, Copy, PartialEq, Eq, Structural)]
pub enum Refusal {
    /// There is no token.
    MissingToken,
    /// No one holds the token.
    UnknownToken,
    /// The token has expired.
    ExpiredToken,
    /// The holder of the token is no server administrator.
    NotAdmin,
    /// The message is blank.
    EmptyBody,
    /// The message is too large.
    BodyTooLarge,
}

/// The error codes of the client-server API that a refusal is given under.
#[derive(Debug, Clone, Copy, PartialEq, Eq, Structural)]
pub enum ErrorCode {
    MissingToken,
    UnknownToken { soft_logout: bool },
    Forbidden,
    InvalidParam,
}

impl Refusal {
    pub open spec fn spec_code(self) -> ErrorCode {
        match self {
            Refusal::MissingToken => ErrorCode::MissingToken,
            Refusal::UnknownToken => ErrorCode::UnknownToken { soft_logout: false },
            Refusal::ExpiredToken => ErrorCode::UnknownToken { soft_logout: true },
            Refusal::NotAdmin => ErrorCode::Forbidden,
            Refusal::EmptyBody => ErrorCode::InvalidParam,
            Refusal::BodyTooLarge => ErrorCode::InvalidParam,
        }
    }

    /// The code that the refusal is given under.
    pub fn code(self) -> (code: ErrorCode)
        ensures
            code == self.spec_code(),
    {
        match self {
            Refusal::MissingToken => ErrorCode::MissingToken,
            Refusal::UnknownToken => ErrorCode::UnknownToken { soft_logout: false },
            Refusal::ExpiredToken => ErrorCode::UnknownToken { soft_logout: true },
            Refusal::NotAdmin => ErrorCode::Forbidden,
            Refusal::EmptyBody => ErrorCode::InvalidParam,
            Refusal::BodyTooLarge => ErrorCode::InvalidParam,
        }
    }

    pub open spec fn spec_message(self) -> Seq<char> {
        match self {
            Refusal::MissingToken => "Missing access token."@,
            Refusal::UnknownToken => "Unknown access token."@,
            Refusal::ExpiredToken => "Expired access token."@,
            Refusal::NotAdmin => {
                "Only server administrators may send system announcement messages."@
            },
            Refusal::EmptyBody => "JSON field `body` must be a non-empty string."@,
            Refusal::BodyTooLarge => {
                "JSON field `body` exceeds maximum allowed size for this endpoint."@
            },
        }
    }

    /// What the caller is told.
    pub fn message(self) -> (message: String)
        ensures
            message@ == self.spec_message(),
    {
        let text: &str = match self {
            Refusal::MissingToken => "Missing access token.",
            Refusal::UnknownToken => "Unknown access token.",
            Refusal::ExpiredToken => "Expired access token.",
            Refusal::NotAdmin => {
                "Only server administrators may send system announcement messages."
            },
            Refusal::EmptyBody => "JSON field `body` must be a non-empty string.",
            Refusal::BodyTooLarge => {
                "JSON field `body` exceeds maximum allowed size for this endpoint."
            },
        };
        text.to_owned()
    }
}

/// Why an announcement was not sent.
#[derive(Debug, PartialEq, Eq)]
pub enum SendError<T> {
    Refused(Refusal),
    Failed(Failure<T>),
}

pub type SendErrorView = SendError<Seq<char>>;

impl View for SendError<String> {
    type V = SendErrorView;

    open spec fn view(&self) -> SendErrorView {
        match *self {
            SendError::Refused(refusal) => SendError::Refused(refusal),
            SendError::Failed(failure) => SendError::Failed(failure@),
        }
    }
}

/// What is wrong with the body of an announcement, if anything.
pub open spec fn body_refusal(body: Seq<char>) -> Option<Refusal> {
    if trimmed(body).len() == 0 {
        Some(Refusal::EmptyBody)
    } else if encode_utf8(body).len() > ANNOUNCEMENTS_SEND_BODY_MAX_BYTES {
        Some(Refusal::BodyTooLarge)
    } else {
        None
    }
}

/// What is wrong with the body of an announcement, if anything.
pub fn check_body(body: &String) -> (refusal: Option<Refusal>)
    ensures
        refusal == body_refusal(body@),
{
    if trim(body.as_str()).is_empty() {
        return Some(Refusal::EmptyBody);
    }
    if body.as_str().as_bytes().len() > ANNOUNCEMENTS_SEND_BODY_MAX_BYTES {
        return Some(Refusal::BodyTooLarge);
    }
    None
}

/// The message that is sent for a body.
pub open spec fn announcement(body: Seq<char>, markdown: bool) -> MessageView {
    if markdown {
        markdown_message(body)
    } else {
        plain_message(body)
    }
}

/// Sends a message to every local user, for a server administrator with a valid token.
pub open spec fn send_announcement(
    token: Option<Seq<char>>,
    body: Seq<char>,
    markdown: bool,
) -> Dialogue<Result<(), SendErrorView>> {
    match token {
        None => Dialogue::Return(Err(SendError::Refused(Refusal::MissingToken))),
        Some(text) => Dialogue::Ask(
            Request::FindToken { token: text },
            |reply: ReplyView|
                match reply->Token_0 {
                    None => Dialogue::Return(Err(SendError::Refused(Refusal::UnknownToken))),
                    Some(owner) => check_expiry(owner, body, markdown),
                },
        ),
    }
}

/// A token that has expired is withdrawn, and the request refused.
pub open spec fn check_expiry(owner: TokenOwnerView, body: Seq<char>, markdown: bool) -> Dialogue<
    Result<(), SendErrorView>,
> {
    match owner.expires_at {
        None => check_admin(owner.user, body, markdown),
        Some(expires_at) => Dialogue::Ask(
            Request::Now,
            |reply: ReplyView|
                if expires_at < reply->Time_0 {
                    withdraw(owner)
                } else {
                    check_admin(owner.user, body, markdown)
                },
        ),
    }
}

/// Withdraws a token that has expired, and refuses. Whether the former succeeds does not matter.
pub open spec fn withdraw(owner: TokenOwnerView) -> Dialogue<Result<(), SendErrorView>> {
    Dialogue::Ask(
        Request::RemoveToken { user: owner.user, device: owner.device },
        |reply: ReplyView| Dialogue::Return(Err(SendError::Refused(Refusal::ExpiredToken))),
    )
}

/// Only a server administrator is let through, and only with a body that may be sent.
pub open spec fn check_admin(user: Seq<char>, body: Seq<char>, markdown: bool) -> Dialogue<
    Result<(), SendErrorView>,
> {
    Dialogue::Ask(
        Request::IsAdmin { user },
        |reply: ReplyView|
            if !reply->Flag_0 {
                Dialogue::Return(Err(SendError::Refused(Refusal::NotAdmin)))
            } else {
                match body_refusal(body) {
                    Some(refusal) => Dialogue::Return(Err(SendError::Refused(refusal))),
                    None => deliver(announcement(body, markdown)),
                }
            },
    )
}

/// Sends the message, and comes to what became of that.
pub open spec fn deliver(message: MessageView) -> Dialogue<Result<(), SendErrorView>> {
    Dialogue::Ask(
        Request::SendAnnouncement { message },
        |reply: ReplyView|
            match reply->Done_0 {
                Ok(()) => Dialogue::Return(Ok(())),
                Err(failure) => Dialogue::Return(Err(SendError::Failed(failure))),
            },
    )
}

enum SendingStage {
    Find { token: Ghost<Seq<char>>, payload: AnnouncementsSendBody },
    Expiry { owner: TokenOwner<String>, payload: AnnouncementsSendBody },
    Withdraw { holder: Ghost<TokenOwnerView> },
    Admin { user: Ghost<Seq<char>>, payload: AnnouncementsSendBody },
    Deliver { message: Ghost<MessageView> },
}

/// The sending of an announcement, in progress.
pub struct AnnouncementSending {
    stage: SendingStage,
}

/// `POST /_matrix/client/v3/tuwunel/announcements/send`: sends a message to every local user.
pub fn tuwunel_announcements_send(
    query: AnnouncementsSendQuery,
    headers: &HeaderMap<HeaderValue>,
    payload: AnnouncementsSendBody,
) -> (step: Step<AnnouncementSending, Result<(), SendError<String>>>)
    ensures
        forall|config: ConfigView| #[trigger]
            follows(
                step,
                config,
                send_announcement(
                    chosen_token(bearer_token(*headers), optional_text(query.access_token)),
                    payload.body@,
                    payload.markdown,
                ),
            ),
{
    send_with_token(choose_token(extract_bearer_token(headers), query.access_token), payload)
}

/// Sends a message to every local user, for the holder of `token`.
pub fn send_with_token(token: Option<String>, payload: AnnouncementsSendBody) -> (step: Step<
    AnnouncementSending,
    Result<(), SendError<String>>,
>)
    ensures
        forall|config: ConfigView| #[trigger]
            follows(
                step,
                config,
                send_announcement(optional_text(token), payload.body@, payload.markdown),
            ),
{
    match token {
        None => Step::Return(Err(SendError::Refused(Refusal::MissingToken))),
        Some(token) => {
            let stage = SendingStage::Find { token: Ghost(token@), payload };
            Step::Ask(Request::FindToken { token }, AnnouncementSending { stage })
        },
    }
}

impl Progress for AnnouncementSending {
    type Output = Result<(), SendError<String>>;

    type Result = Result<(), SendErrorView>;

    open spec fn result(output: Self::Output) -> Self::Result {
        match output {
            Ok(()) => Ok(()),
            Err(error) => Err(error@),
        }
    }

    closed spec fn rest(self, config: ConfigView) -> Dialogue<Self::Result> {
        match self.stage {
            SendingStage::Find { token, payload } => send_announcement(
                Some(token@),
                payload.body@,
                payload.markdown,
            ),
            SendingStage::Expiry { owner, payload } => if owner.expires_at is Some {
                check_expiry(owner@, payload.body@, payload.markdown)
            } else {
                Dialogue::Return(Ok(()))
            },
            SendingStage::Withdraw { holder } => withdraw(holder@),
            SendingStage::Admin { user, payload } => check_admin(
                user@,
                payload.body@,
                payload.markdown,
            ),
            SendingStage::Deliver { message } => deliver(message@),
        }
    }
}

impl AnnouncementSending {
    /// Asks whether the user is an administrator.
    fn admin(user: String, payload: AnnouncementsSendBody) -> (step: Step<
        AnnouncementSending,
        Result<(), SendError<String>>,
    >)
        ensures
            forall|config: ConfigView| #[trigger]
                follows(step, config, check_admin(user@, payload.body@, payload.markdown)),
    {
        let stage = SendingStage::Admin { user: Ghost(user@), payload };
        Step::Ask(Request::IsAdmin { user }, AnnouncementSending { stage })
    }
}

impl Task for AnnouncementSending {
    fn resume(self, config: &Config, reply: ServiceReply) -> (step: Step<Self, Self::Output>) {
        match (self.stage, reply) {
            (SendingStage::Find { payload, .. }, Reply::Token(found)) => {
                match found {
                    None => Step::Return(Err(SendError::Refused(Refusal::UnknownToken))),
                    Some(owner) => {
                        if owner.expires_at.is_some() {
                            let stage = SendingStage::Expiry { owner, payload };
                            Step::Ask(Request::Now, AnnouncementSending { stage })
                        } else {
                            Self::admin(owner.user, payload)
                        }
                    },
                }
            },
            (SendingStage::Expiry { owner, payload }, Reply::Time(now)) => {
                match owner.expires_at {
                    Some(expires_at) => {
                        if expires_at < now {
                            let stage = SendingStage::Withdraw { holder: Ghost(owner@) };
                            let request = Request::RemoveToken {
                                user: owner.user,
                                device: owner.device,
                            };
                            Step::Ask(request, AnnouncementSending { stage })
                        } else {
                            Self::admin(owner.user, payload)
                        }
                    },
                    None => vstd::pervasive::unreached(),
                }
            },
            (SendingStage::Withdraw { .. }, _) => {
                Step::Return(Err(SendError::Refused(Refusal::ExpiredToken)))
            },
            (SendingStage::Admin { payload, .. }, Reply::Flag(is_admin)) => {
                if !is_admin {
                    return Step::Return(Err(SendError::Refused(Refusal::NotAdmin)));
                }
                match check_body(&payload.body) {
                    Some(refusal) => Step::Return(Err(SendError::Refused(refusal))),
                    None => {
                        let message = if payload.markdown {
                            text_markdown(payload.body)
                        } else {
                            Message { body: payload.body, formatted_body: None }
                        };
                        let stage = SendingStage::Deliver { message: Ghost(message@) };
                        Step::Ask(
                            Request::SendAnnouncement { message },
                            AnnouncementSending { stage },
                        )
                    },
                }
            },
            (SendingStage::Deliver { .. }, Reply::Done(delivered)) => {
                match delivered {
                    Ok(()) => Step::Return(Ok(())),
                    Err(failure) => Step::Return(Err(SendError::Failed(failure))),
                }
            },
            _ => vstd::pervasive::unreached(),
        }
    }
}

} // verus!
