//! Laws on what single functions give back, stated over their calls.
use crate::api::{
    announcements_markdown_default, bearer_token_in, check_body, choose_token, token_in,
    tuwunel_local_user_count, tuwunel_server_version, ErrorCode, Refusal, ServerVersion,
};
use crate::direct::{DirectEntry, DirectRooms};
use crate::laws::api::{is_too_large, law_body_may_be_sent, law_token_is_what_follows_the_scheme};
use crate::laws::direct::{
    law_entries_are_what_is_listed, law_listing_changes_one_entry, law_users_have_what_is_listed,
};
use crate::laws::service::{law_replies_go_with_their_requests, shows_all};
use crate::laws::text::{
    is_blank, is_without_ends, law_drawn_room_id_has_its_form, law_texts_are_those_of_the_strings,
    law_trimming_takes_white_space_only,
};
use crate::laws::welcome::law_welcome_key_spells_the_user;
use crate::service::{reply_answers, ServiceReply, ServiceRequest};
use crate::text::{is_server_name, is_user_id, new_room_id, strip_prefix, trim, ServerName};
use crate::welcome::{law_welcome_keys_differ, welcome_sent_key};
use vstd::prelude::*;
use vstd::utf8::encode_utf8;

verus! {

/// The server tells its name and its version as they are.
pub proof fn law_server_tells_its_version(name: &str, version: &str, reply: ServerVersion)
    requires
        call_ensures(tuwunel_server_version, (name, version), reply),
    ensures
        reply.name@ == name@,
        reply.version@ == version@,
{
}

/// The users are counted, each of them, where federation is allowed; nothing is told where it is
/// not.
pub proof fn law_users_are_counted(allowed: bool, users: &Vec<String>, count: Option<usize>)
    requires
        call_ensures(tuwunel_local_user_count, (allowed, users), count),
    ensures
        allowed ==> count is Some && count->0 == users@.len(),
        !allowed ==> count is None,
{
}

/// A message is formatted unless the request says otherwise.
pub proof fn law_markdown_is_the_default(markdown: bool)
    requires
        call_ensures(announcements_markdown_default, (), markdown),
    ensures
        markdown,
{
}

/// Trimming takes the white space at the ends, and nothing else.
pub proof fn law_trim_gives_the_middle(text: &str, rest: &str)
    requires
        call_ensures(trim, (text,), rest),
    ensures
        exists|i: int, j: int| #[trigger] is_without_ends(text@, rest@, i, j),
{
    law_trimming_takes_white_space_only(text@);
}

/// A prefix is taken off where it is there, and then it and the rest are the whole again.
pub proof fn law_prefix_comes_off(value: &str, prefix: &str, rest: Option<&str>)
    requires
        call_ensures(strip_prefix, (value, prefix), rest),
    ensures
        rest is Some <==> prefix@.len() <= value@.len() && value@.take(prefix@.len() as int)
            == prefix@,
        rest is Some ==> prefix@ + rest->0@ == value@,
{
    if rest is Some {
        assert(value@.take(prefix@.len() as int) =~= prefix@);
    }
}

/// The token in a header's value is what stands behind `Bearer` or `bearer` and a space, without
/// the white space at its ends, however long it is.
pub proof fn law_header_value_bears_its_token(value: &str, rest: Seq<char>, token: Option<&str>)
    requires
        call_ensures(bearer_token_in, (value,), token),
    ensures
        value@ == "Bearer "@ + rest || value@ == "bearer "@ + rest ==> token is Some && exists|
            i: int,
            j: int,
        | #[trigger]
            is_without_ends(rest, token->0@, i, j),
        token is None ==> !"Bearer "@.is_prefix_of(value@) && !"bearer "@.is_prefix_of(value@),
        token is Some ==> "Bearer "@.is_prefix_of(value@) || "bearer "@.is_prefix_of(value@),
{
    law_token_is_what_follows_the_scheme(rest);
    if value@ == "Bearer "@ + rest || value@ == "bearer "@ + rest {
        let (i, j) = choose|i: int, j: int| #[trigger]
            is_without_ends(rest, token_in("Bearer "@ + rest)->0, i, j);
        assert(is_without_ends(rest, token->0@, i, j));
    }
}

/// The token in the headers is taken over the one in the query, and an empty one is none.
pub proof fn law_token_is_chosen(
    header: Option<&str>,
    query: Option<String>,
    token: Option<String>,
)
    requires
        call_ensures(choose_token, (header, query), token),
    ensures
        header is Some && header->0@.len() > 0 ==> token is Some && token->0@ == header->0@,
        header is Some && header->0@.len() == 0 ==> token is None,
        header is None && query is Some && query->0@.len() > 0 ==> token is Some && token->0@
            == query->0@,
        header is None && query is Some && query->0@.len() == 0 ==> token is None,
        header is None && query is None ==> token is None,
{
}

/// A body is refused as empty where it holds nothing but white space, and else as too large where
/// it takes more bytes than are allowed.
pub proof fn law_body_is_checked(body: &String, refusal: Option<Refusal>)
    requires
        call_ensures(check_body, (body,), refusal),
    ensures
        is_blank(body@) ==> refusal == Some(Refusal::EmptyBody),
        !is_blank(body@) && is_too_large(body@) ==> refusal == Some(Refusal::BodyTooLarge),
        !is_blank(body@) && !is_too_large(body@) ==> refusal is None,
{
    law_body_may_be_sent(body@);
}

/// A refusal is given under its code, and in its words.
pub proof fn law_refusal_is_told(refusal: Refusal, code: ErrorCode, message: String)
    requires
        call_ensures(Refusal::code, (refusal,), code),
        call_ensures(Refusal::message, (refusal,), message),
    ensures
        code == match refusal {
            Refusal::MissingToken => ErrorCode::MissingToken,
            Refusal::UnknownToken => ErrorCode::UnknownToken { soft_logout: false },
            Refusal::ExpiredToken => ErrorCode::UnknownToken { soft_logout: true },
            Refusal::NotAdmin => ErrorCode::Forbidden,
            Refusal::EmptyBody | Refusal::BodyTooLarge => ErrorCode::InvalidParam,
        },
        refusal is MissingToken ==> message@ == "Missing access token."@,
        refusal is UnknownToken ==> message@ == "Unknown access token."@,
        refusal is ExpiredToken ==> message@ == "Expired access token."@,
        refusal is NotAdmin ==> message@
            == "Only server administrators may send system announcement messages."@,
        refusal is EmptyBody ==> message@ == "JSON field `body` must be a non-empty string."@,
        refusal is BodyTooLarge ==> message@
            == "JSON field `body` exceeds maximum allowed size for this endpoint."@,
{
}

/// The key of a user has a fixed beginning of twenty-five bytes, the same for all, and then the
/// bytes of the user ID.
pub proof fn law_key_is_written_out(
    user: &String,
    key: Vec<u8>,
    other: &String,
    other_key: Vec<u8>,
)
    requires
        call_ensures(welcome_sent_key, (user,), key),
        call_ensures(welcome_sent_key, (other,), other_key),
    ensures
        key@.skip(25) == encode_utf8(user@),
        key@.take(25) == other_key@.take(25),
        key@ == other_key@ <==> user@ == other@,
{
    law_welcome_key_spells_the_user(user@);
    law_welcome_key_spells_the_user(other@);
    law_welcome_keys_differ(user@, other@);
}

/// A server name is kept as it is, whatever it is.
pub proof fn law_server_name_is_kept(name: &str, parsed: Option<ServerName>, kept: &str)
    requires
        call_ensures(ServerName::parse, (name,), parsed),
        parsed is Some ==> call_ensures(ServerName::as_str, (&parsed->0,), kept),
    ensures
        parsed is Some <==> is_server_name(name@),
        parsed is Some ==> kept@ == name@,
{
}

/// A room ID that is drawn is on the server that it was drawn for.
pub proof fn law_drawn_room_is_on_the_server(server: &ServerName, room: String)
    requires
        call_ensures(new_room_id, (server,), room),
    ensures
        room@ == seq!['!'] + room@.subrange(1, 19) + seq![':'] + server@,
        forall|i: int|
            1 <= i < 19 ==> ('0' <= #[trigger] room@[i] <= '9' || 'A' <= room@[i] <= 'Z' || 'a'
                <= room@[i] <= 'z'),
{
    law_drawn_room_id_has_its_form(room@, server@);
}

/// To list rooms for a peer is to replace that peer's, and no one else's. To list one room is to
/// put it behind that peer's, unless it is among them.
pub proof fn law_directory_is_changed_in_one_place(
    direct: DirectRooms,
    peer: String,
    room: &String,
    rooms: Vec<String>,
    replaced: DirectRooms,
    longer: DirectRooms,
    other: Seq<char>,
)
    requires
        call_ensures(DirectRooms::with_rooms, (direct, peer, rooms), replaced),
        call_ensures(DirectRooms::with_room, (direct, &peer, room), longer),
    ensures
        replaced@.contains_key(peer@) && shows_all(replaced@[peer@], rooms@),
        longer@.contains_key(peer@) && longer@[peer@].contains(room@),
        direct@.contains_key(peer@) && direct@[peer@].contains(room@) ==> longer@[peer@]
            == direct@[peer@],
        direct@.contains_key(peer@) && !direct@[peer@].contains(room@) ==> longer@[peer@]
            == direct@[peer@] + seq![room@],
        !direct@.contains_key(peer@) ==> longer@[peer@] == seq![room@],
        other != peer@ ==> replaced@.contains_key(other) == direct@.contains_key(other)
            && longer@.contains_key(other) == direct@.contains_key(other),
        other != peer@ && direct@.contains_key(other) ==> replaced@[other] == direct@[other]
            && longer@[other] == direct@[other],
{
    let before: Seq<Seq<char>> = if direct@.contains_key(peer@) {
        direct@[peer@]
    } else {
        Seq::empty()
    };
    law_listing_changes_one_entry(direct@, peer@, room@, before);
    assert((before + seq![room@])[before.len() as int] == room@);
    assert(!direct@.contains_key(peer@) ==> before + seq![room@] =~= seq![room@]);
}

/// The rooms of a user are those listed for it, all of them and in their order, where it is a user
/// ID, and none where it is not. A new list has none, and the entries of a list tell all that is in
/// it.
pub proof fn law_directory_is_read_whole(
    direct: DirectRooms,
    user: &String,
    rooms: Vec<String>,
    entries: &Vec<DirectEntry>,
    fresh: DirectRooms,
    i: int,
)
    requires
        call_ensures(DirectRooms::rooms_of_user, (&direct, user), rooms),
        call_ensures(DirectRooms::entries, (&direct,), entries),
        call_ensures(DirectRooms::new, (), fresh),
    ensures
        is_user_id(user@) && direct@.contains_key(user@) ==> shows_all(direct@[user@], rooms@),
        !is_user_id(user@) || !direct@.contains_key(user@) ==> rooms@.len() == 0,
        fresh@ == Map::<Seq<char>, Seq<Seq<char>>>::empty(),
        0 <= i < entries@.len() ==> direct@.contains_key(entries@[i].peer@) && shows_all(
            direct@[entries@[i].peer@],
            entries@[i].rooms@,
        ),
        direct@.contains_key(user@) ==> exists|k: int|
            0 <= k < entries@.len() && #[trigger] entries@[k].peer@ == user@,
{
    law_users_have_what_is_listed(direct@, user@);
    law_texts_are_those_of_the_strings(rooms@, None);
    law_entries_are_what_is_listed(entries@, i, user@);
}

/// A reply is found to be of the right kind exactly where it is.
pub proof fn law_replies_are_told_apart(
    request: &ServiceRequest,
    reply: &ServiceReply,
    fits: bool,
)
    requires
        call_ensures(reply_answers, (request, reply), fits),
    ensures
        fits ==> !(request is NewRoomId) && !(reply is Room),
        reply is Ack ==> (fits <==> request is ShortRoomId || request is LockRoom || request
            is UnlockRoom || request is InsertKey || request is RemoveToken),
        reply is Done ==> (fits <==> request is CreateUser || request is UpdateDirect || request
            is SetRoomTag || request is AppendState || request is AppendMessage || request is Invite
            || request is Join || request is GetKey || request is SendAnnouncement),
        reply is Flag ==> (fits <==> request is IsLocal || request is UserExists || request
            is IsJoined || request is IsAdmin),
        reply is Count ==> (fits <==> request is JoinedCount),
        reply is Direct ==> (fits <==> request is GetDirect),
        reply is Text ==> (fits <==> request is ReadFile),
        reply is Users ==> (fits <==> request is ListLocalUsers),
        reply is Token ==> (fits <==> request is FindToken),
        reply is Time ==> (fits <==> request is Now),
{
    law_replies_go_with_their_requests(request@, reply@);
}

} // verus!
