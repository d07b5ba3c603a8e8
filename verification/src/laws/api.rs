//! Laws on who may send an announcement, and on what is sent.
use crate::api::{
    announcement, ascii_chars, bearer_token, body_refusal, check_admin, check_expiry, chosen_token,
    deliver, header_values, send_announcement, token_in, withdraw, ErrorCode, Refusal, SendError,
    ANNOUNCEMENTS_SEND_BODY_MAX_BYTES,
};
use crate::dialogue::{conclusion, Exchange};
use crate::laws::text::{
    is_blank, is_without_ends, law_blank_text_trims_to_nothing, law_trimming_keeps_solid_text,
    law_trimming_takes_white_space_only, white_space_codes,
};
use crate::service::{ReplyView, RequestView, TokenOwnerView};
use crate::text::{is_white_space, law_trims_to_nothing_iff_blank, trimmed};
use crate::welcome::markdown_html;
use axum::http::header::{HeaderMap, HeaderValue};
use vstd::prelude::*;
use vstd::utf8::encode_utf8;

verus! {

/// A token in the headers counts even where it is empty, whatever the query says; the query counts
/// where the headers bear none. What counts is a token exactly where it is not empty.
pub proof fn law_header_comes_first(header: Seq<char>, query: Option<Seq<char>>)
    ensures
        chosen_token(Some(header), query) == chosen_token(Some(header), None),
        chosen_token(Some(header), query) is Some <==> header.len() > 0,
        chosen_token(Some(header), query) is Some ==> chosen_token(Some(header), query) == Some(
            header,
        ),
        chosen_token(None, Some(header)) == chosen_token(Some(header), None),
        chosen_token(None, None) is None,
{
}

/// The text has no white space at its ends.
pub open spec fn is_solid(text: Seq<char>) -> bool {
    text.len() > 0 ==> {
        &&& !white_space_codes().contains(text[0] as u32)
        &&& !white_space_codes().contains(text[text.len() - 1] as u32)
    }
}

proof fn lemma_token_behind(token: Seq<char>)
    ensures
        token_in("Bearer "@ + token) == Some(trimmed(token)),
        token_in("bearer "@ + token) == Some(trimmed(token)),
{
    reveal_strlit("Bearer ");
    reveal_strlit("bearer ");
    let upper = "Bearer "@ + token;
    let lower = "bearer "@ + token;
    assert(upper.skip(7) =~= token);
    assert(lower.skip(7) =~= token);
    assert("Bearer "@ =~= upper.subrange(0, 7));
    assert("bearer "@ =~= lower.subrange(0, 7));
    assert(lower.subrange(0, 7)[0] == 'b' && "Bearer "@[0] == 'B');
}

/// A value of the scheme `Bearer`, or `bearer`, bears whatever comes behind that and one space,
/// without the white space at its ends, however long it is.
pub proof fn law_token_is_what_follows_the_scheme(token: Seq<char>)
    ensures
        is_solid(token) ==> token_in("Bearer "@ + token) == Some(token),
        is_solid(token) ==> token_in("bearer "@ + token) == Some(token),
        token_in("Bearer "@ + token) is Some,
        token_in("bearer "@ + token) == token_in("Bearer "@ + token),
        exists|i: int, j: int| #[trigger]
            is_without_ends(token, token_in("Bearer "@ + token)->0, i, j),
{
    lemma_token_behind(token);
    if is_solid(token) {
        law_trimming_keeps_solid_text(token);
    }
    law_trimming_takes_white_space_only(token);
    let (i, j) = choose|i: int, j: int| #[trigger] is_without_ends(token, trimmed(token), i, j);
    assert(is_without_ends(token, token_in("Bearer "@ + token)->0, i, j));
}

/// A value bears no token exactly where it begins with neither `Bearer` nor `bearer` and a space.
pub proof fn law_other_schemes_bear_no_token(value: Seq<char>)
    ensures
        token_in(value) is None <==> value.len() < 7 || value.take(7) != seq![
            'B',
            'e',
            'a',
            'r',
            'e',
            'r',
            ' ',
        ] && value.take(7) != seq!['b', 'e', 'a', 'r', 'e', 'r', ' '],
{
    reveal_strlit("Bearer ");
    reveal_strlit("bearer ");
    assert("Bearer "@ =~= seq!['B', 'e', 'a', 'r', 'e', 'r', ' ']);
    assert("bearer "@ =~= seq!['b', 'e', 'a', 'r', 'e', 'r', ' ']);
    if value.len() >= 7 {
        assert(value.take(7) =~= value.subrange(0, 7));
    }
}

/// The bytes that ASCII characters are written in.
pub open spec fn ascii_bytes(text: Seq<char>) -> Seq<u8> {
    Seq::new(text.len(), |i: int| text[i] as u8)
}

/// Every character is one that can be seen, a space, or a tab, and all are ASCII.
pub open spec fn is_header_text(text: Seq<char>) -> bool {
    forall|i: int| 0 <= i < text.len() ==> ' ' <= #[trigger] text[i] <= '~' || text[i] == '\t'
}

/// What the headers bear is what the first value of `Authorization` bears, whatever it is, and
/// whatever other values and headers there are. They bear nothing where there is none, and where it
/// holds anything but visible ASCII, spaces and tabs.
pub proof fn law_headers_bear_their_first_token(
    headers: HeaderMap<HeaderValue>,
    value: Seq<char>,
)
    ensures
        !header_values(headers).contains_key("authorization"@) ==> bearer_token(headers) is None,
        header_values(headers).contains_key("authorization"@) ==> {
            let values = header_values(headers)["authorization"@];
            &&& values.len() == 0 ==> bearer_token(headers) is None
            &&& values.len() > 0 && is_header_text(value) && values[0] == ascii_bytes(value)
                ==> bearer_token(headers) == token_in(value)
            &&& values.len() > 0 && (exists|i: int|
                0 <= i < values[0].len() && #[trigger] values[0][i] != 9 && (values[0][i] < 32
                    || values[0][i] > 126)) ==> bearer_token(headers) is None
        },
{
    if header_values(headers).contains_key("authorization"@) {
        let values = header_values(headers)["authorization"@];
        if values.len() > 0 && is_header_text(value) && values[0] == ascii_bytes(value) {
            let bytes = values[0];
            assert forall|i: int| 0 <= i < bytes.len() implies (32 <= #[trigger] bytes[i] < 127
                || bytes[i] == 9) by {
                assert(bytes[i] == value[i] as u8);
            }
            assert(ascii_chars(bytes) =~= value);
        }
    }
}

/// The code and the words that each refusal is given under.
pub proof fn law_refusals_are_told_apart()
    ensures
        Refusal::MissingToken.spec_code() == ErrorCode::MissingToken,
        Refusal::UnknownToken.spec_code() == (ErrorCode::UnknownToken { soft_logout: false }),
        Refusal::ExpiredToken.spec_code() == (ErrorCode::UnknownToken { soft_logout: true }),
        Refusal::NotAdmin.spec_code() == ErrorCode::Forbidden,
        Refusal::EmptyBody.spec_code() == ErrorCode::InvalidParam,
        Refusal::BodyTooLarge.spec_code() == ErrorCode::InvalidParam,
        Refusal::MissingToken.spec_message() == "Missing access token."@,
        Refusal::UnknownToken.spec_message() == "Unknown access token."@,
        Refusal::ExpiredToken.spec_message() == "Expired access token."@,
        Refusal::NotAdmin.spec_message()
            == "Only server administrators may send system announcement messages."@,
        Refusal::EmptyBody.spec_message() == "JSON field `body` must be a non-empty string."@,
        Refusal::BodyTooLarge.spec_message()
            == "JSON field `body` exceeds maximum allowed size for this endpoint."@,
{
}

/// The body takes more bytes than are allowed.
pub open spec fn is_too_large(body: Seq<char>) -> bool {
    encode_utf8(body).len() > 65_000
}

/// A body is refused as empty exactly where it holds nothing but white space, and else as too large
/// exactly where it takes more bytes than are allowed. Any other body may be sent.
pub proof fn law_body_may_be_sent(body: Seq<char>)
    ensures
        body_refusal(body) == Some(Refusal::EmptyBody) <==> is_blank(body),
        body_refusal(body) == Some(Refusal::BodyTooLarge) <==> !is_blank(body) && is_too_large(
            body,
        ),
        body_refusal(body) is None <==> !is_blank(body) && !is_too_large(body),
        body_refusal(body) is None <==> (exists|i: int|
            0 <= i < body.len() && !is_white_space(#[trigger] body[i])) && encode_utf8(body).len()
            <= ANNOUNCEMENTS_SEND_BODY_MAX_BYTES,
{
    law_trims_to_nothing_iff_blank(body);
    law_blank_text_trims_to_nothing(body);
}

/// Who holds the token, by the reply to the first request.
pub open spec fn holder(talk: Seq<Exchange>) -> TokenOwnerView {
    talk[0].reply->Token_0->0
}

/// The first exchanges find the holder of `token`, and that it has not expired. The next is at
/// `at`.
pub open spec fn token_holds(token: Seq<char>, talk: Seq<Exchange>, at: int) -> bool {
    &&& talk.len() >= at
    &&& talk[0].request == (RequestView::FindToken { token })
    &&& talk[0].reply is Token
    &&& talk[0].reply->Token_0 is Some
    &&& match holder(talk).expires_at {
        None => at == 1,
        Some(expires_at) => {
            &&& at == 2
            &&& talk[1].request is Now
            &&& talk[1].reply is Time
            &&& talk[1].reply->Time_0 <= expires_at
        },
    }
}

/// The token is missing, unknown or expired, its holder is no administrator, or the body may not be
/// sent. An expired token is withdrawn.
pub open spec fn is_refused_for(
    token: Option<Seq<char>>,
    body: Seq<char>,
    talk: Seq<Exchange>,
    refusal: Refusal,
) -> bool {
    match refusal {
        Refusal::MissingToken => token is None && talk.len() == 0,
        Refusal::UnknownToken => {
            &&& token is Some
            &&& talk.len() == 1
            &&& talk[0].request == (RequestView::FindToken { token: token->0 })
            &&& talk[0].reply->Token_0 is None
        },
        Refusal::ExpiredToken => {
            &&& token is Some
            &&& talk.len() == 3
            &&& talk[0].request == (RequestView::FindToken { token: token->0 })
            &&& talk[0].reply->Token_0 is Some
            &&& holder(talk).expires_at is Some
            &&& talk[1].request is Now
            &&& holder(talk).expires_at->0 < talk[1].reply->Time_0
            &&& talk[2].request == (RequestView::RemoveToken {
                user: holder(talk).user,
                device: holder(talk).device,
            })
        },
        Refusal::NotAdmin => {
            let at = talk.len() - 1;
            &&& token is Some
            &&& token_holds(token->0, talk, at)
            &&& talk[at].request == (RequestView::IsAdmin { user: holder(talk).user })
            &&& !talk[at].reply->Flag_0
        },
        Refusal::EmptyBody | Refusal::BodyTooLarge => {
            let at = talk.len() - 1;
            &&& token is Some
            &&& token_holds(token->0, talk, at)
            &&& talk[at].request == (RequestView::IsAdmin { user: holder(talk).user })
            &&& talk[at].reply->Flag_0
            &&& if refusal is EmptyBody {
                is_blank(body)
            } else {
                !is_blank(body) && is_too_large(body)
            }
        },
    }
}

/// The message is sent at the end, for an administrator with a token that has not expired, and with
/// a body that may be sent. Its text is that of the request, to the letter, and with Markdown it
/// has the HTML of that text, whatever the text is.
pub open spec fn is_sent_for(
    token: Option<Seq<char>>,
    body: Seq<char>,
    markdown: bool,
    talk: Seq<Exchange>,
) -> bool {
    let at = talk.len() - 2;
    &&& token is Some
    &&& token_holds(token->0, talk, at)
    &&& talk[at].request == (RequestView::IsAdmin { user: holder(talk).user })
    &&& talk[at].reply->Flag_0
    &&& !is_blank(body)
    &&& !is_too_large(body)
    &&& talk[at + 1].request is SendAnnouncement
    &&& talk[at + 1].request->SendAnnouncement_message.body == body
    &&& markdown ==> talk[at + 1].request->SendAnnouncement_message.formatted_body == markdown_html(
        body,
    )
    &&& !markdown ==> talk[at + 1].request->SendAnnouncement_message.formatted_body is None
}

/// No announcement is sent in the course of `talk`.
pub open spec fn sends_nothing(talk: Seq<Exchange>) -> bool {
    forall|i: int| 0 <= i < talk.len() ==> !((#[trigger] talk[i].request) is SendAnnouncement)
}

/// A request that is refused sends nothing, and is refused for the reason that it is told. One that
/// is not refused is sent once, for an administrator, and comes to what became of that.
pub proof fn law_only_administrators_send(
    token: Option<Seq<char>>,
    body: Seq<char>,
    markdown: bool,
    talk: Seq<Exchange>,
)
    requires
        conclusion(send_announcement(token, body, markdown), talk) is Some,
    ensures
        match conclusion(send_announcement(token, body, markdown), talk)->0 {
            Err(SendError::Refused(refusal)) => is_refused_for(token, body, talk, refusal)
                && sends_nothing(talk),
            Err(SendError::Failed(failure)) => is_sent_for(token, body, markdown, talk)
                && sends_nothing(talk.drop_last()) && talk.last().reply == ReplyView::Done(
                Err(failure),
            ),
            Ok(()) => is_sent_for(token, body, markdown, talk) && sends_nothing(talk.drop_last())
                && talk.last().reply == ReplyView::Done(Ok(())),
        },
{
    law_body_may_be_sent(body);
    if token is Some {
        reveal_with_fuel(conclusion, 2);
        let talk1 = talk.drop_first();
        if talk[0].reply->Token_0 is Some {
            let owner = holder(talk);
            assert(conclusion(check_expiry(owner, body, markdown), talk1) is Some);
            match owner.expires_at {
                None => {
                    lemma_admin_shape(owner.user, body, markdown, talk1);
                    assert(talk1.len() == talk.len() - 1);
                    assert forall|i: int| 0 < i < talk.len() implies talk1[i - 1]
                        == #[trigger] talk[i] by {}
                },
                Some(expires_at) => {
                    assert(talk1[0] == talk[1]);
                    let talk2 = talk1.drop_first();
                    assert forall|i: int| 1 < i < talk.len() implies talk2[i - 2]
                        == #[trigger] talk[i] by {}
                    if expires_at < talk1[0].reply->Time_0 {
                        assert(conclusion(withdraw(owner), talk2) is Some);
                        assert(talk2[0] == talk[2]);
                    } else {
                        assert(conclusion(check_admin(owner.user, body, markdown), talk2) is Some);
                        lemma_admin_shape(owner.user, body, markdown, talk2);
                    }
                },
            }
        }
    }
}

proof fn lemma_admin_shape(
    user: Seq<char>,
    body: Seq<char>,
    markdown: bool,
    talk: Seq<Exchange>,
)
    requires
        conclusion(check_admin(user, body, markdown), talk) is Some,
    ensures
        talk.len() >= 1,
        talk[0].request == (RequestView::IsAdmin { user }),
        match conclusion(check_admin(user, body, markdown), talk)->0 {
            Err(SendError::Refused(refusal)) => talk.len() == 1 && if talk[0].reply->Flag_0 {
                body_refusal(body) == Some(refusal)
            } else {
                refusal is NotAdmin
            },
            Err(SendError::Failed(failure)) => talk.len() == 2 && talk[0].reply->Flag_0
                && body_refusal(body) is None && talk[1].request == (
            RequestView::SendAnnouncement { message: announcement(body, markdown) })
                && talk[1].reply == ReplyView::Done(Err(failure)),
            Ok(()) => talk.len() == 2 && talk[0].reply->Flag_0 && body_refusal(body) is None
                && talk[1].request == (RequestView::SendAnnouncement {
                message: announcement(body, markdown),
            }) && talk[1].reply == ReplyView::Done(Ok(())),
        },
{
    reveal_with_fuel(conclusion, 3);
    if talk[0].reply->Flag_0 && body_refusal(body) is None {
        let talk1 = talk.drop_first();
        assert(conclusion(deliver(announcement(body, markdown)), talk1) is Some);
        assert(talk1[0] == talk[1]);
        let result = talk[1].reply->Done_0;
        assert(result is Ok ==> result->Ok_0 == ());
    }
}

} // verus!
