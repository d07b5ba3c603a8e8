//! Laws on requests, replies and results: what contracts say of one is what it holds.
use crate::api::{AnnouncementSending, SendError};
use crate::backfill::{failures, Backfill, Retag, UserFailure};
use crate::creation::RoomCreation;
use crate::dialogue::Progress;
use crate::provision::{BotCreation, Provision};
use crate::rooms::{DirectMerge, RoomCheck, RoomSearch, RoomTagging};
use crate::service::{
    answers, is_reply, outcome, Config, Content, Failure, FailureView, Message, Reply, ReplyView,
    Request, RequestView, ServiceReply, ServiceRequest, StateContent, StateEvent, TokenOwner,
};
use crate::text::is_generated_room_id;
use crate::welcome::{MessageSending, Welcome};
use vstd::prelude::*;

verus! {

/// `seen` is the text, or nothing where there is none.
pub open spec fn shows(seen: Option<Seq<char>>, text: Option<String>) -> bool {
    match text {
        Some(string) => seen == Some(string@),
        None => seen is None,
    }
}

/// `seen` is the texts, all of them and in their order.
pub open spec fn shows_all(seen: Seq<Seq<char>>, strings: Seq<String>) -> bool {
    seen.len() == strings.len() && forall|i: int|
        0 <= i < strings.len() ==> #[trigger] seen[i] == strings[i]@
}

/// Settings are seen as they are.
pub proof fn law_settings_are_seen_whole(config: Config)
    ensures
        config@.server_name == config.server_name@,
        config@.bot == config.bot@,
        config@.dm_enabled == config.dm_enabled,
        config@.room_name == config.room_name@,
        config@.room_topic == config.room_topic@,
        shows_all(config@.room_tags, config.room_tags@),
        config@.federate == config.federate,
        config.welcome_path is None ==> config@.welcome_path is None,
        config.welcome_path is Some ==> config@.welcome_path == Some(config.welcome_path->0@),
{
}

/// Failures, messages and whatever else requests and replies hold are seen as they are.
pub proof fn law_contents_are_seen_whole(
    failure: Failure<String>,
    message: Message<String>,
    content: Content<String>,
    owner: TokenOwner<String>,
    error: SendError<String>,
    user_failure: UserFailure<String>,
)
    ensures
        failure@.not_found == failure.not_found,
        failure@.status == failure.status,
        failure@.code == failure.code@,
        failure@.message == failure.message@,
        message@.body == message.body@,
        shows(message@.formatted_body, message.formatted_body),
        content is Text ==> content@ is Text && content@->Text_0 == content->Text_0@,
        content is Json ==> content@ is Json && content@->Json_0 == content->Json_0@,
        owner@.user == owner.user@,
        owner@.device == owner.device@,
        owner@.expires_at == owner.expires_at,
        error is Refused ==> error@ is Refused && error@->Refused_0 == error->Refused_0,
        error is Failed ==> error@ is Failed && error@->Failed_0 == error->Failed_0@,
        user_failure@.user == user_failure.user@,
        user_failure@.failure == user_failure.failure@,
{
}

/// State events are seen as they are.
pub proof fn law_events_are_seen_whole(event: StateEvent<String>)
    ensures
        event@.state_key == event.state_key@,
        ({
            let seen = event@.content;
            match event.content {
                StateContent::Create { creator, federate, room_version } => {
                    &&& seen is Create
                    &&& shows(seen->Create_creator, creator)
                    &&& seen->Create_federate == federate
                    &&& seen->Create_room_version == room_version
                },
                StateContent::Member { membership } => seen is Member && seen->membership
                    == membership,
                StateContent::PowerLevels(levels) => {
                    let told = seen->PowerLevels_0;
                    &&& seen is PowerLevels
                    &&& told.ban == levels.ban
                    &&& told.events_default == levels.events_default
                    &&& told.invite == levels.invite
                    &&& told.kick == levels.kick
                    &&& told.redact == levels.redact
                    &&& told.state_default == levels.state_default
                    &&& told.user == levels.user@
                    &&& told.user_level == levels.user_level
                    &&& told.users_default == levels.users_default
                },
                StateContent::JoinRules { join_rule } => seen is JoinRules && seen->join_rule
                    == join_rule,
                StateContent::HistoryVisibility { history_visibility } => seen is HistoryVisibility
                    && seen->history_visibility == history_visibility,
                StateContent::GuestAccess { guest_access } => seen is GuestAccess
                    && seen->guest_access == guest_access,
                StateContent::Name { name } => seen is Name && seen->name == name@,
                StateContent::Topic { topic } => seen is Topic && seen->topic == topic@,
                StateContent::PreviewUrls { disabled } => seen is PreviewUrls && seen->disabled
                    == disabled,
            }
        }),
{
}

/// Requests are seen as they are.
pub proof fn law_requests_are_seen_whole(request: ServiceRequest)
    ensures
        match request {
            Request::IsLocal { user } => request@ == (RequestView::IsLocal { user: user@ }),
            Request::UserExists { user } => request@ == (RequestView::UserExists { user: user@ }),
            Request::CreateUser { user, password, origin } => {
                &&& request@ is CreateUser
                &&& request@->CreateUser_user == user@
                &&& shows(request@->password, password)
                &&& shows(request@->origin, origin)
            },
            Request::GetDirect { owner } => request@ == (RequestView::GetDirect { owner: owner@ }),
            Request::UpdateDirect { owner, direct } => request@ == (RequestView::UpdateDirect {
                owner: owner@,
                direct: direct@,
            }),
            Request::JoinedCount { room } => request@ == (RequestView::JoinedCount { room: room@ }),
            Request::IsJoined { user, room } => request@ == (RequestView::IsJoined {
                user: user@,
                room: room@,
            }),
            Request::SetRoomTag { owner, room, tag, info } => {
                &&& request@ is SetRoomTag
                &&& request@->SetRoomTag_owner == owner@
                &&& request@->SetRoomTag_room == room@
                &&& request@->SetRoomTag_tag == tag@
                &&& shows(request@->SetRoomTag_info, info)
            },
            Request::NewRoomId { server } => request@ == (RequestView::NewRoomId {
                server: server@,
            }),
            Request::ShortRoomId { room } => request@ == (RequestView::ShortRoomId { room: room@ }),
            Request::LockRoom { room } => request@ == (RequestView::LockRoom { room: room@ }),
            Request::UnlockRoom { room } => request@ == (RequestView::UnlockRoom { room: room@ }),
            Request::AppendState { room, sender, event } => request@ == (RequestView::AppendState {
                room: room@,
                sender: sender@,
                event: event@,
            }),
            Request::AppendMessage { room, sender, content } => request@ == (
            RequestView::AppendMessage { room: room@, sender: sender@, content: content@ }),
            Request::Invite { sender, user, room, reason, is_direct } => {
                &&& request@ is Invite
                &&& request@->Invite_sender == sender@
                &&& request@->Invite_user == user@
                &&& request@->Invite_room == room@
                &&& shows(request@->Invite_reason, reason)
                &&& request@->is_direct == is_direct
            },
            Request::Join { user, room, asked_for, reason, servers, is_appservice } => {
                &&& request@ is Join
                &&& request@->Join_user == user@
                &&& request@->Join_room == room@
                &&& shows(request@->asked_for, asked_for)
                &&& shows(request@->Join_reason, reason)
                &&& shows_all(request@->servers, servers@)
                &&& request@->is_appservice == is_appservice
            },
            Request::GetKey { key } => request@ == (RequestView::GetKey { key: key@ }),
            Request::InsertKey { key } => request@ == (RequestView::InsertKey { key: key@ }),
            Request::ReadFile { path } => request@ == (RequestView::ReadFile { path: path@ }),
            Request::ListLocalUsers => request@ is ListLocalUsers,
            Request::FindToken { token } => request@ == (RequestView::FindToken { token: token@ }),
            Request::Now => request@ is Now,
            Request::RemoveToken { user, device } => request@ == (RequestView::RemoveToken {
                user: user@,
                device: device@,
            }),
            Request::IsAdmin { user } => request@ == (RequestView::IsAdmin { user: user@ }),
            Request::SendAnnouncement { message } => request@ == (RequestView::SendAnnouncement {
                message: message@,
            }),
        },
{
}

/// Replies are seen as they are.
pub proof fn law_replies_are_seen_whole(reply: ServiceReply)
    ensures
        match reply {
            Reply::Ack => reply@ is Ack,
            Reply::Done(result) => {
                &&& reply@ is Done
                &&& result is Ok ==> reply@->Done_0 is Ok
                &&& result is Err ==> reply@->Done_0 == Err::<(), FailureView>(result->Err_0@)
            },
            Reply::Flag(flag) => reply@ == ReplyView::Flag(flag),
            Reply::Count(count) => reply@ == ReplyView::Count(count),
            Reply::Direct(direct) => {
                &&& reply@ is Direct
                &&& direct is Some ==> reply@->Direct_0 == Some(direct->0@)
                &&& direct is None ==> reply@->Direct_0 is None
            },
            Reply::Room(room) => reply@ == ReplyView::Room(room@),
            Reply::Text(text) => reply@ is Text && shows(reply@->Text_0, text),
            Reply::Users(users) => reply@ is Users && shows_all(reply@->Users_0, users@),
            Reply::Token(owner) => {
                &&& reply@ is Token
                &&& owner is Some ==> reply@->Token_0 == Some(owner->0@)
                &&& owner is None ==> reply@->Token_0 is None
            },
            Reply::Time(time) => reply@ == ReplyView::Time(time),
        },
{
}

/// Each kind of reply goes with certain requests, and with no others. A room ID that is drawn goes
/// with the request for one, if it is on the server that was asked for.
pub proof fn law_replies_go_with_their_requests(request: RequestView, reply: ReplyView)
    ensures
        reply is Ack ==> (answers(request, reply) <==> request is ShortRoomId || request is LockRoom
            || request is UnlockRoom || request is InsertKey || request is RemoveToken),
        reply is Done ==> (answers(request, reply) <==> request is CreateUser || request
            is UpdateDirect || request is SetRoomTag || request is AppendState || request
            is AppendMessage || request is Invite || request is Join || request is GetKey || request
            is SendAnnouncement),
        reply is Flag ==> (answers(request, reply) <==> request is IsLocal || request is UserExists
            || request is IsJoined || request is IsAdmin),
        reply is Count ==> (answers(request, reply) <==> request is JoinedCount),
        reply is Direct ==> (answers(request, reply) <==> request is GetDirect),
        reply is Room ==> !answers(request, reply),
        reply is Text ==> (answers(request, reply) <==> request is ReadFile),
        reply is Users ==> (answers(request, reply) <==> request is ListLocalUsers),
        reply is Token ==> (answers(request, reply) <==> request is FindToken),
        reply is Time ==> (answers(request, reply) <==> request is Now),
        !(reply is Room) ==> is_reply(request, reply) == answers(request, reply),
        reply is Room ==> (is_reply(request, reply) <==> request is NewRoomId
            && is_generated_room_id(reply->Room_0, request->server)),
{
}

/// What contracts say of the outcome of each procedure is that outcome, with the failure, if there
/// is one, as it is.
pub proof fn law_outcomes_are_seen_whole(
    done: Result<(), Failure<String>>,
    sent: Result<(), SendError<String>>,
    provided: Result<Vec<UserFailure<String>>, Failure<String>>,
    found: Option<String>,
    is_dm: bool,
)
    ensures
        done is Ok ==> outcome(done) is Ok,
        done is Err ==> outcome(done) == Err::<(), FailureView>(done->Err_0@),
        MessageSending::result(done) == outcome(done),
        Welcome::result(done) == outcome(done),
        DirectMerge::result(done) == outcome(done),
        RoomCreation::result(done) == outcome(done),
        BotCreation::result(done) == outcome(done),
        Provision::result(done) == outcome(done),
        Retag::result(done) == outcome(done),
        sent is Ok ==> AnnouncementSending::result(sent) is Ok,
        sent is Err ==> AnnouncementSending::result(sent) is Err && AnnouncementSending::result(
            sent,
        )->Err_0 == sent->Err_0@,
        provided is Err ==> Backfill::result(provided) is Err && Backfill::result(provided)->Err_0
            == provided->Err_0@,
        provided is Ok ==> Backfill::result(provided) is Ok && {
            let seen = Backfill::result(provided)->Ok_0;
            let failed = provided->Ok_0@;
            &&& seen.len() == failed.len()
            &&& forall|i: int| 0 <= i < failed.len() ==> #[trigger] seen[i] == failed[i]@
            &&& seen == failures(failed)
        },
        shows(RoomSearch::result(found), found),
        RoomCheck::result(is_dm) == is_dm,
        RoomTagging::result(()) == (),
{
}

} // verus!
