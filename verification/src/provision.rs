//! Giving users their direct chat with the bot.
use crate::creation::{create_announcements_dm_room, create_room, if_done, RoomCreation};
use crate::dialogue::{follows, group_then_do, Dialogue, Progress, Step, Task};
use crate::rooms::{
    apply_announcements_dm_room_tags, check_room, find_announcements_dm_room, find_room,
    room_is_announcements_dm_for_user, tag_room, RoomCheck, RoomSearch, RoomTagging,
};
use crate::service::{
    outcome, Config, ConfigView, Failure, FailureView, Reply, ReplyView, Request, RequestView,
    ServiceReply,
};
use crate::text::optional_text;
use crate::welcome::{send_welcome_once_if_configured, welcome_user, Welcome};
use vstd::prelude::*;

verus! {

broadcast use group_then_do;

// ---------------------------------------------------------------------------
// The bot's account

/// Creates the bot's account if it does not exist.
pub open spec fn ensure_bot(bot: Seq<char>) -> Dialogue<Result<(), FailureView>> {
    Dialogue::Ask(
        Request::UserExists { user: bot },
        |reply: ReplyView|
            if reply->Flag_0 {
                Dialogue::Return(Ok(()))
            } else {
                create_bot(bot)
            },
    )
}

/// Creates the bot's account, without a password and from no origin.
pub open spec fn create_bot_request(bot: Seq<char>) -> RequestView {
    Request::CreateUser { user: bot, password: None, origin: None }
}

pub open spec fn create_bot(bot: Seq<char>) -> Dialogue<Result<(), FailureView>> {
    Dialogue::Ask(
        create_bot_request(bot),
        |reply: ReplyView| Dialogue::Return(reply->Done_0),
    )
}

/// The creation of the bot's account, in progress.
pub struct BotCreation {
    creating: bool,
}

/// Creates the bot's account if it does not exist.
pub fn ensure_announcements_bot_user(config: &Config) -> (step: Step<
    BotCreation,
    Result<(), Failure<String>>,
>)
    ensures
        follows(step, config@, ensure_bot(config@.bot)),
{
    Step::Ask(
        Request::UserExists { user: config.bot.clone() },
        BotCreation { creating: false },
    )
}

impl Progress for BotCreation {
    type Output = Result<(), Failure<String>>;

    type Result = Result<(), FailureView>;

    open spec fn result(output: Self::Output) -> Self::Result {
        outcome(output)
    }

    closed spec fn rest(self, config: ConfigView) -> Dialogue<Self::Result> {
        if self.creating {
            create_bot(config.bot)
        } else {
            ensure_bot(config.bot)
        }
    }
}

impl Task for BotCreation {
    fn resume(self, config: &Config, reply: ServiceReply) -> (step: Step<Self, Self::Output>) {
        match reply {
            Reply::Flag(exists) => {
                if exists {
                    return Step::Return(Ok(()));
                }
                Step::Ask(
                    Request::CreateUser {
                        user: config.bot.clone(),
                        password: None,
                        origin: None,
                    },
                    BotCreation { creating: true },
                )
            },
            Reply::Done(created) => Step::Return(created),
            _ => vstd::pervasive::unreached(),
        }
    }
}

// ---------------------------------------------------------------------------
// A user's direct chat

/// Sees to it that a local user has a direct chat with the bot, tagged as configured, and has been
/// welcomed there. Nothing is done where chats are disabled, for the bot itself, and for a user of
/// another server.
pub open spec fn ensure_dm(config: ConfigView, user: Seq<char>) -> Dialogue<
    Result<(), FailureView>,
> {
    if !config.dm_enabled || user == config.bot {
        Dialogue::Return(Ok(()))
    } else {
        Dialogue::Ask(
            Request::IsLocal { user },
            |reply: ReplyView|
                if reply->Flag_0 {
                    with_bot(ensure_bot(config.bot), config, user)
                } else {
                    Dialogue::Return(Ok(()))
                },
        )
    }
}

/// Once the bot exists, looks for the chat.
pub open spec fn with_bot(
    ensuring: Dialogue<Result<(), FailureView>>,
    config: ConfigView,
    user: Seq<char>,
) -> Dialogue<Result<(), FailureView>> {
    ensuring.then_do(
        |ensured: Result<(), FailureView>|
            if_done(ensured, with_search(find_room(config.bot, user), config, user)),
    )
}

/// Once the search is over, checks the room that was found, or makes one.
pub open spec fn with_search(
    search: Dialogue<Option<Seq<char>>>,
    config: ConfigView,
    user: Seq<char>,
) -> Dialogue<Result<(), FailureView>> {
    search.then_do(
        |found: Option<Seq<char>>|
            match found {
                Some(room) => with_check(check_room(config.bot, user, room), config, user, room),
                None => with_creation(create_room(config, user), config, user),
            },
    )
}

/// Once the room is checked, tags it, or makes another.
pub open spec fn with_check(
    check: Dialogue<bool>,
    config: ConfigView,
    user: Seq<char>,
    room: Seq<char>,
) -> Dialogue<Result<(), FailureView>> {
    check.then_do(
        |is_dm: bool|
            if is_dm {
                with_tags(tag_room(config.bot, user, room, config.room_tags), config, user)
            } else {
                with_creation(create_room(config, user), config, user)
            },
    )
}

/// Once the room is tagged, welcomes the user.
pub open spec fn with_tags(
    tagging: Dialogue<()>,
    config: ConfigView,
    user: Seq<char>,
) -> Dialogue<Result<(), FailureView>> {
    tagging.then_do(|tagged: ()| welcome_user(config, user))
}

/// Once a room is made, welcomes the user.
pub open spec fn with_creation(
    creation: Dialogue<Result<(), FailureView>>,
    config: ConfigView,
    user: Seq<char>,
) -> Dialogue<Result<(), FailureView>> {
    creation.then_do(
        |created: Result<(), FailureView>| if_done(created, welcome_user(config, user)),
    )
}

enum ProvisionStage {
    Local,
    Bot(BotCreation),
    Search(RoomSearch),
    Check { room: String, check: RoomCheck },
    Tag(RoomTagging),
    Create(RoomCreation),
    Welcome(Welcome),
}

/// The provision of a user's direct chat, in progress.
pub struct Provision {
    user: String,
    stage: ProvisionStage,
}

/// Sees to it that `user_id` has a direct chat with the bot.
pub fn ensure_announcements_dm_for_user(config: &Config, user_id: &String) -> (step: Step<
    Provision,
    Result<(), Failure<String>>,
>)
    ensures
        follows(step, config@, ensure_dm(config@, user_id@)),
{
    if !config.dm_enabled || *user_id == config.bot {
        return Step::Return(Ok(()));
    }
    Step::Ask(
        Request::IsLocal { user: user_id.clone() },
        Provision { user: user_id.clone(), stage: ProvisionStage::Local },
    )
}

impl Progress for Provision {
    type Output = Result<(), Failure<String>>;

    type Result = Result<(), FailureView>;

    open spec fn result(output: Self::Output) -> Self::Result {
        outcome(output)
    }

    closed spec fn rest(self, config: ConfigView) -> Dialogue<Self::Result> {
        let over = Dialogue::Return(Ok(()));
        match self.stage {
            ProvisionStage::Local => ensure_dm(config, self.user@),
            ProvisionStage::Bot(ensuring) => if ensuring.rest(config) is Ask {
                with_bot(ensuring.rest(config), config, self.user@)
            } else {
                over
            },
            ProvisionStage::Search(search) => if search.rest(config) is Ask {
                with_search(search.rest(config), config, self.user@)
            } else {
                over
            },
            ProvisionStage::Check { room, check } => if check.rest(config) is Ask {
                with_check(check.rest(config), config, self.user@, room@)
            } else {
                over
            },
            ProvisionStage::Tag(tagging) => if tagging.rest(config) is Ask {
                with_tags(tagging.rest(config), config, self.user@)
            } else {
                over
            },
            ProvisionStage::Create(creation) => if creation.rest(config) is Ask {
                with_creation(creation.rest(config), config, self.user@)
            } else {
                over
            },
            ProvisionStage::Welcome(welcome) => welcome.rest(config),
        }
    }
}

impl Provision {
    fn search(config: &Config, user: String) -> (step: Step<Provision, Result<(), Failure<String>>>)
        ensures
            follows(
                step,
                config@,
                with_search(find_room(config@.bot, user@), config@, user@),
            ),
    {
        match find_announcements_dm_room(config, &user) {
            Step::Ask(request, search) => {
                Step::Ask(request, Provision { user, stage: ProvisionStage::Search(search) })
            },
            Step::Return(found) => Self::found(config, user, found),
        }
    }

    /// Goes on with the room that was found, if any.
    fn found(config: &Config, user: String, found: Option<String>) -> (step: Step<
        Provision,
        Result<(), Failure<String>>,
    >)
        ensures
            follows(
                step,
                config@,
                match optional_text(found) {
                    Some(room) => with_check(
                        check_room(config@.bot, user@, room),
                        config@,
                        user@,
                        room,
                    ),
                    None => with_creation(create_room(config@, user@), config@, user@),
                },
            ),
    {
        match found {
            Some(room) => {
                match room_is_announcements_dm_for_user(config, &user, &room) {
                    Step::Ask(request, check) => {
                        let stage = ProvisionStage::Check { room, check };
                        Step::Ask(request, Provision { user, stage })
                    },
                    Step::Return(is_dm) => Self::checked(config, user, room, is_dm),
                }
            },
            None => Self::create(config, user),
        }
    }

    /// Goes on with a room that was checked.
    fn checked(config: &Config, user: String, room: String, is_dm: bool) -> (step: Step<
        Provision,
        Result<(), Failure<String>>,
    >)
        ensures
            follows(
                step,
                config@,
                if is_dm {
                    with_tags(
                        tag_room(config@.bot, user@, room@, config@.room_tags),
                        config@,
                        user@,
                    )
                } else {
                    with_creation(create_room(config@, user@), config@, user@)
                },
            ),
    {
        if !is_dm {
            return Self::create(config, user);
        }
        match apply_announcements_dm_room_tags(config, &room, &user) {
            Step::Ask(request, tagging) => {
                Step::Ask(request, Provision { user, stage: ProvisionStage::Tag(tagging) })
            },
            Step::Return(_) => Self::welcome(config, user),
        }
    }

    fn create(config: &Config, user: String) -> (step: Step<Provision, Result<(), Failure<String>>>)
        ensures
            follows(
                step,
                config@,
                with_creation(create_room(config@, user@), config@, user@),
            ),
    {
        match create_announcements_dm_room(config, &user) {
            Step::Ask(request, creation) => {
                Step::Ask(request, Provision { user, stage: ProvisionStage::Create(creation) })
            },
            Step::Return(created) => {
                if created.is_err() {
                    return Step::Return(created);
                }
                Self::welcome(config, user)
            },
        }
    }

    fn welcome(config: &Config, user: String) -> (step: Step<
        Provision,
        Result<(), Failure<String>>,
    >)
        ensures
            follows(step, config@, welcome_user(config@, user@)),
    {
        match send_welcome_once_if_configured(config, &user) {
            Step::Ask(request, welcome) => {
                Step::Ask(request, Provision { user, stage: ProvisionStage::Welcome(welcome) })
            },
            Step::Return(welcomed) => Step::Return(welcomed),
        }
    }
}

impl Task for Provision {
    fn resume(self, config: &Config, reply: ServiceReply) -> (step: Step<Self, Self::Output>) {
        let user = self.user;
        match self.stage {
            ProvisionStage::Local => {
                match reply {
                    Reply::Flag(is_local) => {
                        if !is_local {
                            return Step::Return(Ok(()));
                        }
                    },
                    _ => {
                        return vstd::pervasive::unreached();
                    },
                }
                match ensure_announcements_bot_user(config) {
                    Step::Ask(request, ensuring) => {
                        Step::Ask(request, Provision { user, stage: ProvisionStage::Bot(ensuring) })
                    },
                    Step::Return(ensured) => {
                        if ensured.is_err() {
                            return Step::Return(ensured);
                        }
                        Self::search(config, user)
                    },
                }
            },
            ProvisionStage::Bot(ensuring) => {
                match ensuring.resume(config, reply) {
                    Step::Ask(request, next) => {
                        Step::Ask(request, Provision { user, stage: ProvisionStage::Bot(next) })
                    },
                    Step::Return(ensured) => {
                        if ensured.is_err() {
                            return Step::Return(ensured);
                        }
                        Self::search(config, user)
                    },
                }
            },
            ProvisionStage::Search(search) => {
                match search.resume(config, reply) {
                    Step::Ask(request, next) => {
                        Step::Ask(request, Provision { user, stage: ProvisionStage::Search(next) })
                    },
                    Step::Return(found) => Self::found(config, user, found),
                }
            },
            ProvisionStage::Check { room, check } => {
                match check.resume(config, reply) {
                    Step::Ask(request, next) => {
                        let stage = ProvisionStage::Check { room, check: next };
                        Step::Ask(request, Provision { user, stage })
                    },
                    Step::Return(is_dm) => Self::checked(config, user, room, is_dm),
                }
            },
            ProvisionStage::Tag(tagging) => {
                match tagging.resume(config, reply) {
                    Step::Ask(request, next) => {
                        Step::Ask(request, Provision { user, stage: ProvisionStage::Tag(next) })
                    },
                    Step::Return(_) => Self::welcome(config, user),
                }
            },
            ProvisionStage::Create(creation) => {
                match creation.resume(config, reply) {
                    Step::Ask(request, next) => {
                        Step::Ask(request, Provision { user, stage: ProvisionStage::Create(next) })
                    },
                    Step::Return(created) => {
                        if created.is_err() {
                            return Step::Return(created);
                        }
                        Self::welcome(config, user)
                    },
                }
            },
            ProvisionStage::Welcome(welcome) => {
                match welcome.resume(config, reply) {
                    Step::Ask(request, next) => {
                        Step::Ask(request, Provision { user, stage: ProvisionStage::Welcome(next) })
                    },
                    Step::Return(welcomed) => Step::Return(welcomed),
                }
            },
        }
    }
}

} // verus!
