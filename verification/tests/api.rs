use announcements::api::{
    announcements_markdown_default, bearer_token_in, check_body, choose_token,
    extract_bearer_token, send_with_token, tuwunel_announcements_send, tuwunel_local_user_count,
    tuwunel_server_version, AnnouncementSending, AnnouncementsSendBody, AnnouncementsSendQuery,
    ErrorCode, Refusal, SendError, ServerVersion, ANNOUNCEMENTS_SEND_BODY_MAX_BYTES,
};
use announcements::dialogue::{Step, Task};
use announcements::service::{
    reply_answers, Config, Failure, Message, Reply, Request, ServiceReply, ServiceRequest,
    TokenOwner,
};
use announcements::text::ServerName;
use axum::http::header::{HeaderMap, HeaderName, HeaderValue};

type Sending = Step<AnnouncementSending, Result<(), SendError<String>>>;

fn config() -> Config {
    Config {
        server_name: ServerName::parse("example.org").unwrap(),
        bot: "@system_notices:example.org".to_owned(),
        dm_enabled: true,
        room_name: "Notices".to_owned(),
        room_topic: String::new(),
        room_tags: Vec::new(),
        federate: false,
        welcome_path: None,
    }
}

fn headers(value: &[u8]) -> HeaderMap<HeaderValue> {
    let mut headers = HeaderMap::new();
    headers.insert(
        HeaderName::from_static("authorization"),
        HeaderValue::from_bytes(value).unwrap(),
    );
    headers
}

fn query(token: Option<&str>) -> AnnouncementsSendQuery {
    AnnouncementsSendQuery { access_token: token.map(|text| text.to_owned()) }
}

fn payload(body: &str, markdown: bool) -> AnnouncementsSendBody {
    AnnouncementsSendBody { body: body.to_owned(), markdown }
}

fn owner(expires_at: Option<i128>) -> TokenOwner<String> {
    TokenOwner { user: "@admin:example.org".to_owned(), device: "PHONE".to_owned(), expires_at }
}

/// Hands one reply after the other to a request, and gives the requests that were made, with what
/// it came to.
fn converse(
    mut step: Sending,
    replies: Vec<ServiceReply>,
) -> (Vec<ServiceRequest>, Result<(), SendError<String>>) {
    let config = config();
    let mut asked = Vec::new();
    let mut replies = replies.into_iter();
    loop {
        match step {
            Step::Return(output) => {
                assert!(replies.next().is_none());
                return (asked, output);
            }
            Step::Ask(request, task) => {
                let reply = replies.next().unwrap();
                assert!(reply_answers(&request, &reply));
                asked.push(request);
                step = task.resume(&config, reply);
            }
        }
    }
}

fn find(token: &str) -> ServiceRequest {
    Request::FindToken { token: token.to_owned() }
}

fn is_admin() -> ServiceRequest {
    Request::IsAdmin { user: "@admin:example.org".to_owned() }
}

#[test]
fn markdown_is_the_default() {
    assert!(announcements_markdown_default());
    assert!(AnnouncementsSendQuery::default().access_token.is_none());
}

#[test]
fn the_server_tells_its_version() {
    let expected =
        ServerVersion { name: "Tuwunel".to_owned(), version: "1.4.0 (abcdef)".to_owned() };
    assert_eq!(tuwunel_server_version("Tuwunel", "1.4.0 (abcdef)"), expected);
}

#[test]
fn users_are_counted_where_federation_is_allowed() {
    let users = vec!["@a:example.org".to_owned(), "@b:example.org".to_owned()];
    assert_eq!(tuwunel_local_user_count(true, &users), Some(2));
    assert_eq!(tuwunel_local_user_count(true, &Vec::new()), Some(0));
    assert_eq!(tuwunel_local_user_count(false, &users), None);
}

#[test]
fn the_scheme_is_bearer_in_either_case() {
    assert_eq!(bearer_token_in("Bearer syt_abc"), Some("syt_abc"));
    assert_eq!(bearer_token_in("bearer syt_abc"), Some("syt_abc"));
    assert_eq!(bearer_token_in("BEARER syt_abc"), None);
    assert_eq!(bearer_token_in("Basic syt_abc"), None);
    assert_eq!(bearer_token_in("Bearer"), None);
    assert_eq!(bearer_token_in(""), None);
}

#[test]
fn the_token_is_trimmed() {
    assert_eq!(bearer_token_in("Bearer   syt_abc \t "), Some("syt_abc"));
    assert_eq!(bearer_token_in("Bearer syt abc"), Some("syt abc"));
    assert_eq!(bearer_token_in("Bearer \u{a0}\u{2003}syt_abc\u{3000}"), Some("syt_abc"));
    assert_eq!(bearer_token_in("Bearer    "), Some(""));
}

#[test]
fn the_token_is_in_the_authorization_header() {
    assert_eq!(extract_bearer_token(&headers(b"Bearer syt_abc")), Some("syt_abc"));
    assert_eq!(extract_bearer_token(&headers(b"bearer\tsyt_abc")), None);
    assert_eq!(extract_bearer_token(&HeaderMap::new()), None);
    let mut other = HeaderMap::new();
    other.insert(
        HeaderName::from_static("x-authorization"),
        HeaderValue::from_static("Bearer syt_abc"),
    );
    assert_eq!(extract_bearer_token(&other), None);
}

#[test]
fn a_header_that_is_not_visible_ascii_bears_no_token() {
    assert_eq!(extract_bearer_token(&headers(b"Bearer caf\xc3\xa9")), None);
    assert_eq!(extract_bearer_token(&headers(b"Bearer \xff")), None);
    assert_eq!(extract_bearer_token(&headers(b"Bearer \tsyt_abc")), Some("syt_abc"));
}

#[test]
fn the_first_of_several_headers_counts() {
    let mut several = headers(b"Bearer first");
    several.append(
        HeaderName::from_static("authorization"),
        HeaderValue::from_static("Bearer second"),
    );
    assert_eq!(extract_bearer_token(&several), Some("first"));
}

#[test]
fn the_header_comes_before_the_query() {
    let given = |text: &str| Some(text.to_owned());
    assert_eq!(choose_token(Some("header"), given("query")), given("header"));
    assert_eq!(choose_token(None, given("query")), given("query"));
    assert_eq!(choose_token(Some("header"), None), given("header"));
    assert_eq!(choose_token(None, None), None);
}

#[test]
fn an_empty_header_token_is_not_replaced() {
    assert_eq!(choose_token(Some(""), Some("query".to_owned())), None);
    assert_eq!(choose_token(None, Some(String::new())), None);
}

#[test]
fn a_blank_body_is_refused() {
    for blank in ["", " ", "\n\t\r ", "\u{a0}\u{1680}\u{2028}\u{3000}"] {
        assert_eq!(check_body(&blank.to_owned()), Some(Refusal::EmptyBody));
    }
    // A zero-width space is not white space.
    assert_eq!(check_body(&"\u{200b}".to_owned()), None);
    assert_eq!(check_body(&" x ".to_owned()), None);
}

#[test]
fn the_size_of_a_body_is_counted_in_bytes() {
    assert_eq!(ANNOUNCEMENTS_SEND_BODY_MAX_BYTES, 65_000);
    assert_eq!(check_body(&"x".repeat(65_000)), None);
    assert_eq!(check_body(&"x".repeat(65_001)), Some(Refusal::BodyTooLarge));
    assert_eq!(check_body(&"ж".repeat(32_500)), None);
    assert_eq!(check_body(&"ж".repeat(32_501)), Some(Refusal::BodyTooLarge));
    assert_eq!(check_body(&" ".repeat(65_001)), Some(Refusal::EmptyBody));
}

#[test]
fn refusals_have_codes_and_messages() {
    let expected = [
        (Refusal::MissingToken, ErrorCode::MissingToken, "Missing access token."),
        (
            Refusal::UnknownToken,
            ErrorCode::UnknownToken { soft_logout: false },
            "Unknown access token.",
        ),
        (
            Refusal::ExpiredToken,
            ErrorCode::UnknownToken { soft_logout: true },
            "Expired access token.",
        ),
        (
            Refusal::NotAdmin,
            ErrorCode::Forbidden,
            "Only server administrators may send system announcement messages.",
        ),
        (
            Refusal::EmptyBody,
            ErrorCode::InvalidParam,
            "JSON field `body` must be a non-empty string.",
        ),
        (
            Refusal::BodyTooLarge,
            ErrorCode::InvalidParam,
            "JSON field `body` exceeds maximum allowed size for this endpoint.",
        ),
    ];
    for (refusal, code, message) in expected {
        assert_eq!(refusal.code(), code);
        assert_eq!(refusal.message(), message);
    }
}

#[test]
fn a_request_without_a_token_is_refused() {
    let step = tuwunel_announcements_send(query(None), &HeaderMap::new(), payload("Hi", true));
    let (asked, output) = converse(step, Vec::new());
    assert!(asked.is_empty());
    assert_eq!(output, Err(SendError::Refused(Refusal::MissingToken)));
}

#[test]
fn a_blank_header_hides_the_token_of_the_query() {
    let step =
        tuwunel_announcements_send(query(Some("t")), &headers(b"Bearer  "), payload("Hi", true));
    let (asked, output) = converse(step, Vec::new());
    assert!(asked.is_empty());
    assert_eq!(output, Err(SendError::Refused(Refusal::MissingToken)));
}

#[test]
fn an_unknown_token_is_refused() {
    let step =
        tuwunel_announcements_send(query(Some("t")), &HeaderMap::new(), payload("Hi", true));
    let (asked, output) = converse(step, vec![Reply::Token(None)]);
    assert_eq!(asked, vec![find("t")]);
    assert_eq!(output, Err(SendError::Refused(Refusal::UnknownToken)));
}

#[test]
fn an_expired_token_is_withdrawn_and_refused() {
    let step = tuwunel_announcements_send(query(None), &headers(b"Bearer t"), payload("Hi", true));
    let replies = vec![Reply::Token(Some(owner(Some(99)))), Reply::Time(100), Reply::Ack];
    let (asked, output) = converse(step, replies);
    let withdrawn = Request::RemoveToken {
        user: "@admin:example.org".to_owned(),
        device: "PHONE".to_owned(),
    };
    assert_eq!(asked, vec![find("t"), Request::Now, withdrawn]);
    assert_eq!(output, Err(SendError::Refused(Refusal::ExpiredToken)));
}

#[test]
fn a_token_holds_until_its_time_has_passed() {
    let step = send_with_token(Some("t".to_owned()), payload("Hi", false));
    let replies = vec![
        Reply::Token(Some(owner(Some(100)))),
        Reply::Time(100),
        Reply::Flag(true),
        Reply::Done(Ok(())),
    ];
    let (asked, output) = converse(step, replies);
    let message = Message { body: "Hi".to_owned(), formatted_body: None };
    let sent = Request::SendAnnouncement { message };
    assert_eq!(asked, vec![find("t"), Request::Now, is_admin(), sent]);
    assert_eq!(output, Ok(()));
}

#[test]
fn only_an_administrator_may_send() {
    let step = send_with_token(Some("t".to_owned()), payload("", true));
    let (asked, output) =
        converse(step, vec![Reply::Token(Some(owner(None))), Reply::Flag(false)]);
    assert_eq!(asked, vec![find("t"), is_admin()]);
    assert_eq!(output, Err(SendError::Refused(Refusal::NotAdmin)));
}

#[test]
fn a_body_is_refused_after_the_holder_is_known() {
    let cases =
        [("  ".to_owned(), Refusal::EmptyBody), ("x".repeat(65_001), Refusal::BodyTooLarge)];
    for (body, refusal) in cases {
        let step = send_with_token(Some("t".to_owned()), payload(&body, true));
        let (asked, output) =
            converse(step, vec![Reply::Token(Some(owner(None))), Reply::Flag(true)]);
        assert_eq!(asked, vec![find("t"), is_admin()]);
        assert_eq!(output, Err(SendError::Refused(refusal)));
    }
}

#[test]
fn markdown_is_sent_with_its_html() {
    let step = send_with_token(Some("t".to_owned()), payload("Hello **all**", true));
    let replies = vec![Reply::Token(Some(owner(None))), Reply::Flag(true), Reply::Done(Ok(()))];
    let (mut asked, output) = converse(step, replies);
    let message = Message {
        body: "Hello **all**".to_owned(),
        formatted_body: Some("Hello <strong>all</strong>".to_owned()),
    };
    assert_eq!(asked.pop(), Some(Request::SendAnnouncement { message }));
    assert_eq!(output, Ok(()));
}

#[test]
fn markdown_without_formatting_has_no_html() {
    let step = send_with_token(Some("t".to_owned()), payload("Hello", true));
    let replies = vec![Reply::Token(Some(owner(None))), Reply::Flag(true), Reply::Done(Ok(()))];
    let (mut asked, _) = converse(step, replies);
    let message = Message { body: "Hello".to_owned(), formatted_body: None };
    assert_eq!(asked.pop(), Some(Request::SendAnnouncement { message }));
}

#[test]
fn a_body_is_sent_to_the_letter() {
    let body = "  Line one\n\n  line *two*  \n";
    let step = send_with_token(Some("t".to_owned()), payload(body, false));
    let replies = vec![Reply::Token(Some(owner(None))), Reply::Flag(true), Reply::Done(Ok(()))];
    let (mut asked, _) = converse(step, replies);
    let message = Message { body: body.to_owned(), formatted_body: None };
    assert_eq!(asked.pop(), Some(Request::SendAnnouncement { message }));
}

#[test]
fn a_failure_to_send_is_passed_on() {
    let failure = || Failure {
        not_found: false,
        status: 429,
        code: "M_LIMIT_EXCEEDED".to_owned(),
        message: "Too many requests".to_owned(),
    };
    let step = send_with_token(Some("t".to_owned()), payload("Hi", false));
    let replies = vec![
        Reply::Token(Some(owner(None))),
        Reply::Flag(true),
        Reply::Done(Err(failure())),
    ];
    let (_, output) = converse(step, replies);
    assert_eq!(output, Err(SendError::Failed(failure())));
}
