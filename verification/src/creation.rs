//! The making of a direct chat between a user and the bot.
use crate::dialogue::{draws, follows, group_then_do, stands_at, Dialogue, Progress, Step, Task};
use crate::rooms::{
    apply_announcements_dm_room_tags, list_room, merge_m_direct, tag_room, DirectMerge, RoomTagging,
};
use crate::service::{
    outcome, Config, ConfigView, Failure, FailureView, GuestAccess, HistoryVisibility, JoinRule,
    Membership, PowerLevels, Reply, ReplyView, Request, RequestView, RoomVersion, ServiceReply,
    StateContent, StateEvent, StateEventView,
};
use crate::text::{is_generated_room_id, new_room_id, texts};
use vstd::prelude::*;

verus! {

broadcast use group_then_do;

/// The version that a direct chat is made in.
pub const DM_ROOM_VERSION: RoomVersion = RoomVersion::V11;

/// Up to version 10 the event that makes a room says who made it.
pub open spec fn stated_creator(version: RoomVersion, creator: Seq<char>) -> Option<Seq<char>> {
    match version {
        RoomVersion::V11 | RoomVersion::V12 => None,
        _ => Some(creator),
    }
}

/// Who may do what in a direct chat: the bot everything, everyone else nothing but read.
pub open spec fn dm_power_levels(bot: Seq<char>) -> PowerLevels<Seq<char>> {
    PowerLevels {
        ban: 50,
        events_default: 50,
        invite: 50,
        kick: 50,
        redact: 50,
        state_default: 50,
        user: bot,
        user_level: 100,
        users_default: 0,
    }
}

/// The state that a direct chat begins with, in the order in which it is built up.
pub open spec fn initial_state(config: ConfigView) -> Seq<StateEventView> {
    let none = Seq::<char>::empty();
    seq![
        StateEvent {
            state_key: none,
            content: StateContent::Create {
                creator: stated_creator(DM_ROOM_VERSION, config.bot),
                federate: config.federate,
                room_version: DM_ROOM_VERSION,
            },
        },
        StateEvent {
            state_key: config.bot,
            content: StateContent::Member { membership: Membership::Join },
        },
        StateEvent {
            state_key: none,
            content: StateContent::PowerLevels(dm_power_levels(config.bot)),
        },
        StateEvent {
            state_key: none,
            content: StateContent::JoinRules { join_rule: JoinRule::Invite },
        },
        StateEvent {
            state_key: none,
            content: StateContent::HistoryVisibility {
                history_visibility: HistoryVisibility::Shared,
            },
        },
        StateEvent {
            state_key: none,
            content: StateContent::GuestAccess { guest_access: GuestAccess::Forbidden },
        },
        StateEvent { state_key: none, content: StateContent::Name { name: config.room_name } },
        StateEvent { state_key: none, content: StateContent::Topic { topic: config.room_topic } },
        StateEvent { state_key: none, content: StateContent::PreviewUrls { disabled: true } },
    ]
}

/// The reason that is given for a user's joining.
pub open spec fn join_reason() -> Seq<char> {
    "Подключение к каналу системных уведомлений"@
}

/// Joins the user, asked for under no other name and by no other server.
pub open spec fn join_request(user: Seq<char>, room: Seq<char>) -> RequestView {
    Request::Join {
        user,
        room,
        asked_for: None,
        reason: Some(join_reason()),
        servers: Seq::empty(),
        is_appservice: false,
    }
}

/// `next`, unless what came before it failed.
pub open spec fn if_done<R>(
    result: Result<(), FailureView>,
    next: Dialogue<Result<R, FailureView>>,
) -> Dialogue<Result<R, FailureView>> {
    match result {
        Ok(()) => next,
        Err(failure) => Dialogue::Return(Err(failure)),
    }
}

/// Makes a room, gives it its state, brings the user in, lists it for both, and tags it. A failure
/// ends it, except that a tag may fail.
pub open spec fn create_room(config: ConfigView, user: Seq<char>) -> Dialogue<
    Result<(), FailureView>,
> {
    Dialogue::Ask(
        Request::NewRoomId { server: config.server_name },
        |reply: ReplyView| register_room(config, user, reply->Room_0),
    )
}

pub open spec fn register_room(config: ConfigView, user: Seq<char>, room: Seq<char>) -> Dialogue<
    Result<(), FailureView>,
> {
    Dialogue::Ask(
        Request::ShortRoomId { room },
        |reply: ReplyView| lock_to_build(config, user, room),
    )
}

pub open spec fn lock_to_build(config: ConfigView, user: Seq<char>, room: Seq<char>) -> Dialogue<
    Result<(), FailureView>,
> {
    Dialogue::Ask(
        Request::LockRoom { room },
        |reply: ReplyView| append_state(config, user, room, 0),
    )
}

/// Appends the initial state from its event `i` on, and goes on from there.
pub open spec fn append_state(
    config: ConfigView,
    user: Seq<char>,
    room: Seq<char>,
    i: nat,
) -> Dialogue<Result<(), FailureView>>
    decreases initial_state(config).len() - i,
{
    if i >= initial_state(config).len() {
        unlock_built(config, user, room)
    } else {
        Dialogue::Ask(
            Request::AppendState {
                room,
                sender: config.bot,
                event: initial_state(config)[i as int],
            },
            |reply: ReplyView|
                match reply->Done_0 {
                    Ok(()) => append_state(config, user, room, i + 1),
                    Err(failure) => unlock_failed(room, failure),
                },
        )
    }
}

/// Gives up the lock, and fails.
pub open spec fn unlock_failed(room: Seq<char>, failure: FailureView) -> Dialogue<
    Result<(), FailureView>,
> {
    Dialogue::Ask(
        Request::UnlockRoom { room },
        |reply: ReplyView| Dialogue::Return(Err(failure)),
    )
}

pub open spec fn unlock_built(config: ConfigView, user: Seq<char>, room: Seq<char>) -> Dialogue<
    Result<(), FailureView>,
> {
    Dialogue::Ask(
        Request::UnlockRoom { room },
        |reply: ReplyView| invite_user(config, user, room),
    )
}

pub open spec fn invite_user(config: ConfigView, user: Seq<char>, room: Seq<char>) -> Dialogue<
    Result<(), FailureView>,
> {
    Dialogue::Ask(
        Request::Invite { sender: config.bot, user, room, reason: None, is_direct: true },
        |reply: ReplyView| if_done(reply->Done_0, lock_to_join(config, user, room)),
    )
}

pub open spec fn lock_to_join(config: ConfigView, user: Seq<char>, room: Seq<char>) -> Dialogue<
    Result<(), FailureView>,
> {
    Dialogue::Ask(
        Request::LockRoom { room },
        |reply: ReplyView| join_user(config, user, room),
    )
}

pub open spec fn join_user(config: ConfigView, user: Seq<char>, room: Seq<char>) -> Dialogue<
    Result<(), FailureView>,
> {
    Dialogue::Ask(
        join_request(user, room),
        |reply: ReplyView| unlock_joined(config, user, room, reply->Done_0),
    )
}

pub open spec fn unlock_joined(
    config: ConfigView,
    user: Seq<char>,
    room: Seq<char>,
    joined: Result<(), FailureView>,
) -> Dialogue<Result<(), FailureView>> {
    Dialogue::Ask(
        Request::UnlockRoom { room },
        |reply: ReplyView|
            if_done(
                joined,
                list_for_bot(list_room(config.bot, user, room), config, user, room),
            ),
    )
}

/// Once the room is listed for the bot, lists it for the user.
pub open spec fn list_for_bot(
    listing: Dialogue<Result<(), FailureView>>,
    config: ConfigView,
    user: Seq<char>,
    room: Seq<char>,
) -> Dialogue<Result<(), FailureView>> {
    listing.then_do(
        |listed: Result<(), FailureView>|
            if_done(
                listed,
                list_for_user(list_room(user, config.bot, room), config, user, room),
            ),
    )
}

/// Once the room is listed for the user, tags it.
pub open spec fn list_for_user(
    listing: Dialogue<Result<(), FailureView>>,
    config: ConfigView,
    user: Seq<char>,
    room: Seq<char>,
) -> Dialogue<Result<(), FailureView>> {
    listing.then_do(
        |listed: Result<(), FailureView>|
            if_done(listed, tag_new(tag_room(config.bot, user, room, config.room_tags))),
    )
}

/// Once the room is tagged, it is made.
pub open spec fn tag_new(tagging: Dialogue<()>) -> Dialogue<Result<(), FailureView>> {
    tagging.then_do(|tagged: ()| Dialogue::Return(Ok(())))
}

// ---------------------------------------------------------------------------
// The running counterpart

/// The creator that the event which makes a room is to state.
fn creator_to_state(version: RoomVersion, creator: &String) -> (stated: Option<String>)
    ensures
        crate::text::optional_text(stated) == stated_creator(version, creator@),
{
    match version {
        RoomVersion::V1
        | RoomVersion::V2
        | RoomVersion::V3
        | RoomVersion::V4
        | RoomVersion::V5
        | RoomVersion::V6
        | RoomVersion::V7
        | RoomVersion::V8
        | RoomVersion::V9
        | RoomVersion::V10 => Some(creator.clone()),
        _ => None,
    }
}

/// How many events the initial state has.
const INITIAL_EVENTS: usize = 9;

/// One event of the initial state.
fn initial_event(config: &Config, i: usize) -> (event: StateEvent<String>)
    requires
        i < INITIAL_EVENTS,
    ensures
        event@ == initial_state(config@)[i as int],
{
    let content = if i == 0 {
        StateContent::Create {
            creator: creator_to_state(DM_ROOM_VERSION, &config.bot),
            federate: config.federate,
            room_version: DM_ROOM_VERSION,
        }
    } else if i == 1 {
        StateContent::Member { membership: Membership::Join }
    } else if i == 2 {
        StateContent::PowerLevels(
            PowerLevels {
                ban: 50,
                events_default: 50,
                invite: 50,
                kick: 50,
                redact: 50,
                state_default: 50,
                user: config.bot.clone(),
                user_level: 100,
                users_default: 0,
            },
        )
    } else if i == 3 {
        StateContent::JoinRules { join_rule: JoinRule::Invite }
    } else if i == 4 {
        StateContent::HistoryVisibility { history_visibility: HistoryVisibility::Shared }
    } else if i == 5 {
        StateContent::GuestAccess { guest_access: GuestAccess::Forbidden }
    } else if i == 6 {
        StateContent::Name { name: config.room_name.clone() }
    } else if i == 7 {
        StateContent::Topic { topic: config.room_topic.clone() }
    } else {
        StateContent::PreviewUrls { disabled: true }
    };
    let state_key = if i == 1 {
        config.bot.clone()
    } else {
        String::new()
    };
    StateEvent { state_key, content }
}

enum Building {
    Register,
    LockToBuild,
    /// The event that is being appended.
    Append(usize),
    UnlockFailed(Failure<String>),
    UnlockBuilt,
    Invite,
    LockToJoin,
    Join,
    UnlockJoined(Result<(), Failure<String>>),
    ListForBot(DirectMerge),
    ListForUser(DirectMerge),
    Tag(RoomTagging),
}

/// The making of a direct chat, in progress.
pub struct RoomCreation {
    user: String,
    room: String,
    building: Building,
}

/// Makes a direct chat between `user_id` and the bot, in a room with a new ID on this server.
pub fn create_announcements_dm_room(config: &Config, user_id: &String) -> (step: Step<
    RoomCreation,
    Result<(), Failure<String>>,
>)
    ensures
        follows(step, config@, create_room(config@, user_id@)),
        exists|room: Seq<char>| #[trigger]
            is_generated_room_id(room, config@.server_name) && follows(
                step,
                config@,
                register_room(config@, user_id@, room),
            ),
{
    let room = new_room_id(&config.server_name);
    let ghost creation = create_room(config@, user_id@);
    let ghost drawn = room@;
    assert(creation.after(Reply::Room(drawn)) == register_room(config@, user_id@, drawn));
    let step = Step::Ask(
        Request::ShortRoomId { room: room.clone() },
        RoomCreation::at(user_id.clone(), room, Building::Register),
    );
    assert(stands_at(step, config@, register_room(config@, user_id@, drawn)));
    assert(draws(creation));
    assert(is_generated_room_id(drawn, creation->Ask_0->NewRoomId_server));
    step
}

impl Progress for RoomCreation {
    type Output = Result<(), Failure<String>>;

    type Result = Result<(), FailureView>;

    open spec fn result(output: Self::Output) -> Self::Result {
        outcome(output)
    }

    closed spec fn rest(self, config: ConfigView) -> Dialogue<Self::Result> {
        building_rest(self.building, config, self.user@, self.room@)
    }
}

/// What is left to do at a stage of building.
spec fn building_rest(
    building: Building,
    config: ConfigView,
    user: Seq<char>,
    room: Seq<char>,
) -> Dialogue<Result<(), FailureView>> {
    match building {
        Building::Register => register_room(config, user, room),
        Building::LockToBuild => lock_to_build(config, user, room),
        Building::Append(i) => {
            if i < INITIAL_EVENTS {
                append_state(config, user, room, i as nat)
            } else {
                Dialogue::Return(Ok(()))
            }
        },
        Building::UnlockFailed(failure) => unlock_failed(room, failure@),
        Building::UnlockBuilt => unlock_built(config, user, room),
        Building::Invite => invite_user(config, user, room),
        Building::LockToJoin => lock_to_join(config, user, room),
        Building::Join => join_user(config, user, room),
        Building::UnlockJoined(joined) => unlock_joined(config, user, room, outcome(joined)),
        Building::ListForBot(merge) => {
            if merge.rest(config) is Ask {
                list_for_bot(merge.rest(config), config, user, room)
            } else {
                Dialogue::Return(Ok(()))
            }
        },
        Building::ListForUser(merge) => {
            if merge.rest(config) is Ask {
                list_for_user(merge.rest(config), config, user, room)
            } else {
                Dialogue::Return(Ok(()))
            }
        },
        Building::Tag(tagging) => {
            if tagging.rest(config) is Ask {
                tag_new(tagging.rest(config))
            } else {
                Dialogue::Return(Ok(()))
            }
        },
    }
}

impl RoomCreation {
    fn at(user: String, room: String, building: Building) -> (creation: RoomCreation)
        ensures
            forall|config: ConfigView| #[trigger]
                creation.rest(config) == building_rest(building, config, user@, room@),
    {
        RoomCreation { user, room, building }
    }

    /// Lists the room for the bot.
    fn list(config: &Config, user: String, room: String) -> (step: Step<
        RoomCreation,
        Result<(), Failure<String>>,
    >)
        ensures
            follows(
                step,
                config@,
                list_for_bot(list_room(config@.bot, user@, room@), config@, user@, room@),
            ),
    {
        match merge_m_direct(config, &config.bot, &user, &room) {
            Step::Ask(request, merge) => {
                Step::Ask(request, Self::at(user, room, Building::ListForBot(merge)))
            },
            Step::Return(listed) => Self::listed_for_bot(config, user, room, listed),
        }
    }

    /// Lists the room for the user, if it could be listed for the bot.
    fn listed_for_bot(
        config: &Config,
        user: String,
        room: String,
        listed: Result<(), Failure<String>>,
    ) -> (step: Step<RoomCreation, Result<(), Failure<String>>>)
        ensures
            follows(
                step,
                config@,
                if_done(
                    outcome(listed),
                    list_for_user(list_room(user@, config@.bot, room@), config@, user@, room@),
                ),
            ),
    {
        if listed.is_err() {
            return Step::Return(listed);
        }
        match merge_m_direct(config, &user, &config.bot, &room) {
            Step::Ask(request, merge) => {
                Step::Ask(request, Self::at(user, room, Building::ListForUser(merge)))
            },
            Step::Return(listed) => Self::listed_for_user(config, user, room, listed),
        }
    }

    /// Tags the room, if it could be listed for the user.
    fn listed_for_user(
        config: &Config,
        user: String,
        room: String,
        listed: Result<(), Failure<String>>,
    ) -> (step: Step<RoomCreation, Result<(), Failure<String>>>)
        ensures
            follows(
                step,
                config@,
                if_done(
                    outcome(listed),
                    tag_new(tag_room(config@.bot, user@, room@, config@.room_tags)),
                ),
            ),
    {
        if listed.is_err() {
            return Step::Return(listed);
        }
        match apply_announcements_dm_room_tags(config, &room, &user) {
            Step::Ask(request, tagging) => {
                Step::Ask(request, Self::at(user, room, Building::Tag(tagging)))
            },
            Step::Return(_) => Step::Return(Ok(())),
        }
    }
}

impl Task for RoomCreation {
    fn resume(self, config: &Config, reply: ServiceReply) -> (step: Step<Self, Self::Output>) {
        let user = self.user;
        let room = self.room;
        match (self.building, reply) {
            (Building::Register, Reply::Ack) => {
                Step::Ask(
                    Request::LockRoom { room: room.clone() },
                    Self::at(user, room, Building::LockToBuild),
                )
            },
            (Building::LockToBuild, Reply::Ack) => {
                let request = Request::AppendState {
                    room: room.clone(),
                    sender: config.bot.clone(),
                    event: initial_event(config, 0),
                };
                Step::Ask(request, Self::at(user, room, Building::Append(0)))
            },
            (Building::Append(i), Reply::Done(appended)) => {
                let ghost next = append_state(config@, user@, room@, (i + 1) as nat);
                assert(next is Ask);
                match appended {
                    Err(failure) => {
                        return Step::Ask(
                            Request::UnlockRoom { room: room.clone() },
                            Self::at(user, room, Building::UnlockFailed(failure)),
                        );
                    },
                    Ok(()) => {},
                }
                if i + 1 < INITIAL_EVENTS {
                    let request = Request::AppendState {
                        room: room.clone(),
                        sender: config.bot.clone(),
                        event: initial_event(config, i + 1),
                    };
                    Step::Ask(request, Self::at(user, room, Building::Append(i + 1)))
                } else {
                    Step::Ask(
                        Request::UnlockRoom { room: room.clone() },
                        Self::at(user, room, Building::UnlockBuilt),
                    )
                }
            },
            (Building::UnlockFailed(failure), Reply::Ack) => Step::Return(Err(failure)),
            (Building::UnlockBuilt, Reply::Ack) => {
                let request = Request::Invite {
                    sender: config.bot.clone(),
                    user: user.clone(),
                    room: room.clone(),
                    reason: None,
                    is_direct: true,
                };
                Step::Ask(request, Self::at(user, room, Building::Invite))
            },
            (Building::Invite, Reply::Done(invited)) => {
                if invited.is_err() {
                    return Step::Return(invited);
                }
                Step::Ask(
                    Request::LockRoom { room: room.clone() },
                    Self::at(user, room, Building::LockToJoin),
                )
            },
            (Building::LockToJoin, Reply::Ack) => {
                let servers: Vec<String> = Vec::new();
                assert(texts(servers@) =~= Seq::<Seq<char>>::empty());
                let request = Request::Join {
                    user: user.clone(),
                    room: room.clone(),
                    asked_for: None,
                    reason: Some("Подключение к каналу системных уведомлений".to_owned()),
                    servers,
                    is_appservice: false,
                };
                Step::Ask(request, Self::at(user, room, Building::Join))
            },
            (Building::Join, Reply::Done(joined)) => {
                Step::Ask(
                    Request::UnlockRoom { room: room.clone() },
                    Self::at(user, room, Building::UnlockJoined(joined)),
                )
            },
            (Building::UnlockJoined(joined), Reply::Ack) => {
                if joined.is_err() {
                    return Step::Return(joined);
                }
                Self::list(config, user, room)
            },
            (Building::ListForBot(merge), reply) => {
                match merge.resume(config, reply) {
                    Step::Ask(request, next) => {
                        Step::Ask(request, Self::at(user, room, Building::ListForBot(next)))
                    },
                    Step::Return(listed) => Self::listed_for_bot(config, user, room, listed),
                }
            },
            (Building::ListForUser(merge), reply) => {
                match merge.resume(config, reply) {
                    Step::Ask(request, next) => {
                        Step::Ask(request, Self::at(user, room, Building::ListForUser(next)))
                    },
                    Step::Return(listed) => Self::listed_for_user(config, user, room, listed),
                }
            },
            (Building::Tag(tagging), reply) => {
                match tagging.resume(config, reply) {
                    Step::Ask(request, next) => {
                        Step::Ask(request, Self::at(user, room, Building::Tag(next)))
                    },
                    Step::Return(_) => Step::Return(Ok(())),
                }
            },
            _ => vstd::pervasive::unreached(),
        }
    }
}

} // verus!
