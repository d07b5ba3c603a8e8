//! Laws on how procedures begin: each with the dialogue of its arguments, under the settings that
//! it is given.
use crate::api::{
    bearer_token, chosen_token, send_announcement, send_with_token, tuwunel_announcements_send,
    AnnouncementSending, AnnouncementsSendBody, AnnouncementsSendQuery, Refusal, SendError,
};
use crate::backfill::{
    backfill_announcements_dm_room_tags, backfill_announcements_dms_for_all_local_users, failures,
    provide, retag, Backfill, Retag, UserFailure,
};
use crate::creation::{create_announcements_dm_room, create_room, RoomCreation};
use crate::dialogue::{follows, Step};
use crate::provision::{
    ensure_announcements_bot_user, ensure_announcements_dm_for_user, ensure_bot, ensure_dm,
    BotCreation, Provision,
};
use crate::rooms::{
    apply_announcements_dm_room_tags, check_room, find_announcements_dm_room, find_room, list_room,
    merge_m_direct, room_is_announcements_dm_for_user, tag_room, DirectMerge, RoomCheck, RoomSearch,
    RoomTagging,
};
use crate::service::{Config, ConfigView, Content, Failure, RequestView};
use crate::text::{is_generated_room_id, optional_text};
use crate::welcome::{
    append_room_message, send_message, send_welcome_once_if_configured, welcome_user,
    MessageSending, Welcome,
};
use axum::http::header::{HeaderMap, HeaderValue};
use vstd::prelude::*;

verus! {

/// The check of a room, the search for one, and the tagging of one are those of the bot that is
/// configured, and of the user and the room that are given.
pub proof fn law_rooms_are_looked_after(
    config: &Config,
    user: &String,
    room: &String,
    check: Step<RoomCheck, bool>,
    search: Step<RoomSearch, Option<String>>,
    tagging: Step<RoomTagging, ()>,
)
    requires
        call_ensures(room_is_announcements_dm_for_user, (config, user, room), check),
        call_ensures(find_announcements_dm_room, (config, user), search),
        call_ensures(apply_announcements_dm_room_tags, (config, room, user), tagging),
    ensures
        follows(check, config@, check_room(config.bot@, user@, room@)),
        follows(search, config@, find_room(config.bot@, user@)),
        follows(tagging, config@, tag_room(config.bot@, user@, room@, config@.room_tags)),
        search is Ask,
        search->Ask_0@ == (RequestView::GetDirect { owner: config.bot@ }),
        user@ == config.bot@ ==> check == Step::<RoomCheck, bool>::Return(false),
        user@ != config.bot@ ==> check is Ask && check->Ask_0@ == (RequestView::JoinedCount {
            room: room@,
        }),
{
}

/// Listing a room reads the `m.direct` of the owner that is given. A message is sent from the
/// sender, to the room, and with the content that are given.
pub proof fn law_writing_is_as_asked_for(
    config: &Config,
    owner: &String,
    peer: &String,
    room: &String,
    content: Content<String>,
    listing: Step<DirectMerge, Result<(), Failure<String>>>,
    sending: Step<MessageSending, Result<(), Failure<String>>>,
)
    requires
        call_ensures(merge_m_direct, (config, owner, peer, room), listing),
        call_ensures(append_room_message, (config, owner, room, content), sending),
    ensures
        follows(listing, config@, list_room(owner@, peer@, room@)),
        follows(sending, config@, send_message(owner@, room@, content@)),
        listing is Ask,
        listing->Ask_0@ == (RequestView::GetDirect { owner: owner@ }),
        sending is Ask,
        sending->Ask_0@ == (RequestView::LockRoom { room: room@ }),
{
}

/// The bot that is seen to is the one that is configured. A chat is made, a user is provided for
/// and is welcomed under the settings that are given, and so are all users. A room that is made has
/// an ID on the server that is configured.
pub proof fn law_users_are_served_as_configured(
    config: &Config,
    user: &String,
    ensuring: Step<BotCreation, Result<(), Failure<String>>>,
    creation: Step<RoomCreation, Result<(), Failure<String>>>,
    provision: Step<Provision, Result<(), Failure<String>>>,
    welcome: Step<Welcome, Result<(), Failure<String>>>,
    backfill: Step<Backfill, Result<Vec<UserFailure<String>>, Failure<String>>>,
    retagging: Step<Retag, Result<(), Failure<String>>>,
)
    requires
        call_ensures(ensure_announcements_bot_user, (config,), ensuring),
        call_ensures(create_announcements_dm_room, (config, user), creation),
        call_ensures(ensure_announcements_dm_for_user, (config, user), provision),
        call_ensures(send_welcome_once_if_configured, (config, user), welcome),
        call_ensures(backfill_announcements_dms_for_all_local_users, (config,), backfill),
        call_ensures(backfill_announcements_dm_room_tags, (config,), retagging),
    ensures
        follows(ensuring, config@, ensure_bot(config.bot@)),
        follows(creation, config@, create_room(config@, user@)),
        follows(provision, config@, ensure_dm(config@, user@)),
        follows(welcome, config@, welcome_user(config@, user@)),
        follows(backfill, config@, provide(config@)),
        follows(retagging, config@, retag(config@)),
        ensuring is Ask,
        ensuring->Ask_0@ == (RequestView::UserExists { user: config.bot@ }),
        creation is Ask,
        creation->Ask_0@ is ShortRoomId,
        is_generated_room_id(creation->Ask_0@->ShortRoomId_room, config.server_name@),
        config.dm_enabled && user@ != config.bot@ ==> provision is Ask && provision->Ask_0@ == (
        RequestView::IsLocal { user: user@ }),
        !config.dm_enabled || user@ == config.bot@ ==> provision is Return
            && provision->Return_0 is Ok,
        config.welcome_path is Some ==> welcome is Ask && welcome->Ask_0@ is GetKey,
        config.welcome_path is None ==> welcome is Return && welcome->Return_0 is Ok,
        config.dm_enabled ==> backfill is Ask && backfill->Ask_0@ == (RequestView::UserExists {
            user: config.bot@,
        }),
        !config.dm_enabled ==> backfill is Return && backfill->Return_0 is Ok
            && backfill->Return_0->Ok_0@.len() == 0,
        config.dm_enabled && config.room_tags@.len() > 0 ==> retagging is Ask
            && retagging->Ask_0@ == (RequestView::UserExists { user: config.bot@ }),
        !config.dm_enabled || config.room_tags@.len() == 0 ==> retagging is Return
            && retagging->Return_0 is Ok,
{
    if !config.dm_enabled {
        assert(failures(backfill->Return_0->Ok_0@).len() == 0);
    }
}

/// An announcement is sent for the holder of the token that is given, with the body and the format
/// that are given. Without a token, it is refused at once.
pub proof fn law_announcement_is_as_asked_for(
    config: ConfigView,
    token: Option<String>,
    payload: AnnouncementsSendBody,
    step: Step<AnnouncementSending, Result<(), SendError<String>>>,
)
    requires
        call_ensures(send_with_token, (token, payload), step),
    ensures
        token is Some ==> follows(
            step,
            config,
            send_announcement(Some(token->0@), payload.body@, payload.markdown),
        ),
        token is Some ==> step is Ask && step->Ask_0@ == (RequestView::FindToken {
            token: token->0@,
        }),
        token is None ==> step is Return && step->Return_0 is Err && step->Return_0->Err_0@
            == SendError::<Seq<char>>::Refused(Refusal::MissingToken),
{
    assert(follows(
        step,
        config,
        send_announcement(optional_text(token), payload.body@, payload.markdown),
    ));
}

/// A request is judged by the token in its headers where they bear one, and else by the one in its
/// query. An empty token is none, and then the request is refused at once.
pub proof fn law_request_is_judged_by_its_token(
    config: ConfigView,
    query: AnnouncementsSendQuery,
    headers: &HeaderMap<HeaderValue>,
    payload: AnnouncementsSendBody,
    step: Step<AnnouncementSending, Result<(), SendError<String>>>,
    token: Seq<char>,
)
    requires
        call_ensures(tuwunel_announcements_send, (query, headers, payload), step),
    ensures
        bearer_token(*headers) == Some(token) || bearer_token(*headers) is None
            && query.access_token is Some && query.access_token->0@ == token ==> {
            &&& token.len() > 0 ==> step is Ask && step->Ask_0@ == (RequestView::FindToken {
                token,
            })
            &&& token.len() > 0 ==> follows(
                step,
                config,
                send_announcement(Some(token), payload.body@, payload.markdown),
            )
            &&& token.len() == 0 ==> step is Return && step->Return_0 is Err
                && step->Return_0->Err_0@ == SendError::<Seq<char>>::Refused(Refusal::MissingToken)
        },
        bearer_token(*headers) is None && query.access_token is None ==> step is Return
            && step->Return_0 is Err && step->Return_0->Err_0@ == SendError::<Seq<char>>::Refused(
            Refusal::MissingToken,
        ),
{
    let chosen = chosen_token(bearer_token(*headers), optional_text(query.access_token));
    assert(follows(step, config, send_announcement(chosen, payload.body@, payload.markdown)));
}

} // verus!
