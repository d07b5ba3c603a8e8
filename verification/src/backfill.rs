//! Going over all local users.
use crate::creation::if_done;
use crate::dialogue::{follows, group_then_do, Dialogue, Progress, Step, Task};
use crate::provision::{
    ensure_announcements_bot_user, ensure_announcements_dm_for_user, ensure_bot, ensure_dm,
    BotCreation, Provision,
};
use crate::rooms::{
    apply_announcements_dm_room_tags, check_room, find_announcements_dm_room, find_room,
    room_is_announcements_dm_for_user, tag_room, RoomCheck, RoomSearch, RoomTagging,
};
use crate::service::{
    outcome, Config, ConfigView, Failure, FailureView, Reply, ReplyView, Request, ServiceReply,
};
use crate::text::{optional_text, texts};
use vstd::prelude::*;

verus! {

broadcast use group_then_do;

/// Every user but the bot.
pub open spec fn other_than(bot: Seq<char>) -> spec_fn(Seq<char>) -> bool {
    |user: Seq<char>| user != bot
}

/// All of `users` but the bot, in their order.
pub open spec fn all_but(users: Seq<Seq<char>>, bot: Seq<char>) -> Seq<Seq<char>> {
    users.filter(other_than(bot))
}

/// All of `users` but the bot, in their order.
fn without_bot(users: &Vec<String>, bot: &String) -> (others: Vec<String>)
    ensures
        texts(others@) == all_but(texts(users@), bot@),
{
    let mut others: Vec<String> = Vec::new();
    let mut i: usize = 0;
    proof {
        reveal(Seq::filter);
        assert(texts(others@) =~= all_but(texts(users@).take(0), bot@));
    }
    while i < users.len()
        invariant
            i <= users.len(),
            texts(others@) == all_but(texts(users@).take(i as int), bot@),
        decreases users.len() - i,
    {
        let ghost before = others@;
        proof {
            reveal(Seq::filter);
            assert(texts(users@).take(i + 1).drop_last() =~= texts(users@).take(i as int));
            assert(texts(users@).take(i + 1).last() == users@[i as int]@);
        }
        if users[i] != *bot {
            others.push(users[i].clone());
            assert(texts(others@) =~= texts(before).push(users@[i as int]@));
        }
        i = i + 1;
    }
    assert(texts(users@).take(i as int) =~= texts(users@));
    others
}

// ---------------------------------------------------------------------------
// Tags

/// Puts the configured tags on the direct chat of every local user who has one.
pub open spec fn retag(config: ConfigView) -> Dialogue<Result<(), FailureView>> {
    if !config.dm_enabled || config.room_tags.len() == 0 {
        Dialogue::Return(Ok(()))
    } else {
        retag_with_bot(ensure_bot(config.bot), config)
    }
}

/// Once the bot exists, lists the users.
pub open spec fn retag_with_bot(
    ensuring: Dialogue<Result<(), FailureView>>,
    config: ConfigView,
) -> Dialogue<Result<(), FailureView>> {
    ensuring.then_do(
        |ensured: Result<(), FailureView>| if_done(ensured, retag_listed(config)),
    )
}

pub open spec fn retag_listed(config: ConfigView) -> Dialogue<Result<(), FailureView>> {
    Dialogue::Ask(
        Request::ListLocalUsers,
        |reply: ReplyView| retag_users(config, all_but(reply->Users_0, config.bot)),
    )
}

/// Puts the tags on the direct chat of each of `users` who has one.
pub open spec fn retag_users(config: ConfigView, users: Seq<Seq<char>>) -> Dialogue<
    Result<(), FailureView>,
>
    decreases users.len(), 3int,
{
    if users.len() == 0 {
        Dialogue::Return(Ok(()))
    } else {
        retag_found(find_room(config.bot, users[0]), config, users)
    }
}

/// The same, where `search` is the search for the chat of `users[0]`.
pub open spec fn retag_found(
    search: Dialogue<Option<Seq<char>>>,
    config: ConfigView,
    users: Seq<Seq<char>>,
) -> Dialogue<Result<(), FailureView>>
    decreases users.len(), 2int,
    when users.len() > 0
{
    search.then_do(
        |found: Option<Seq<char>>|
            match found {
                Some(room) => retag_checked(
                    check_room(config.bot, users[0], room),
                    config,
                    users,
                    room,
                ),
                None => retag_users(config, users.drop_first()),
            },
    )
}

/// The same, where `check` is the check of the chat of `users[0]`.
pub open spec fn retag_checked(
    check: Dialogue<bool>,
    config: ConfigView,
    users: Seq<Seq<char>>,
    room: Seq<char>,
) -> Dialogue<Result<(), FailureView>>
    decreases users.len(), 1int,
    when users.len() > 0
{
    check.then_do(
        |is_dm: bool|
            if is_dm {
                retag_tagged(
                    tag_room(config.bot, users[0], room, config.room_tags),
                    config,
                    users,
                )
            } else {
                retag_users(config, users.drop_first())
            },
    )
}

/// The same, where `tagging` is the tagging of the chat of `users[0]`.
pub open spec fn retag_tagged(
    tagging: Dialogue<()>,
    config: ConfigView,
    users: Seq<Seq<char>>,
) -> Dialogue<Result<(), FailureView>>
    decreases users.len(), 0int,
    when users.len() > 0
{
    tagging.then_do(|tagged: ()| retag_users(config, users.drop_first()))
}

enum UserRetag {
    Search(RoomSearch),
    Check { room: String, check: RoomCheck },
    Tag(RoomTagging),
}

enum RetagStage {
    Bot(BotCreation),
    List,
    /// The user whose chat is being tagged.
    Users { users: Vec<String>, index: usize, user: UserRetag },
}

/// The tagging of all direct chats, in progress.
pub struct Retag {
    stage: RetagStage,
}

/// Puts the configured tags on the direct chat of every local user who has one.
pub fn backfill_announcements_dm_room_tags(config: &Config) -> (step: Step<
    Retag,
    Result<(), Failure<String>>,
>)
    ensures
        follows(step, config@, retag(config@)),
{
    if !config.dm_enabled {
        return Step::Return(Ok(()));
    }
    if config.room_tags.len() == 0 {
        return Step::Return(Ok(()));
    }
    match ensure_announcements_bot_user(config) {
        Step::Ask(request, ensuring) => {
            Step::Ask(request, Retag { stage: RetagStage::Bot(ensuring) })
        },
        Step::Return(ensured) => Retag::list(config, ensured),
    }
}

impl Progress for Retag {
    type Output = Result<(), Failure<String>>;

    type Result = Result<(), FailureView>;

    open spec fn result(output: Self::Output) -> Self::Result {
        outcome(output)
    }

    closed spec fn rest(self, config: ConfigView) -> Dialogue<Self::Result> {
        let over = Dialogue::Return(Ok(()));
        match self.stage {
            RetagStage::Bot(ensuring) => if ensuring.rest(config) is Ask {
                retag_with_bot(ensuring.rest(config), config)
            } else {
                over
            },
            RetagStage::List => retag_listed(config),
            RetagStage::Users { users, index, user } => if index >= users.len() {
                over
            } else {
                let left = texts(users@).skip(index as int);
                match user {
                    UserRetag::Search(search) => if search.rest(config) is Ask {
                        retag_found(search.rest(config), config, left)
                    } else {
                        over
                    },
                    UserRetag::Check { room, check } => if check.rest(config) is Ask {
                        retag_checked(check.rest(config), config, left, room@)
                    } else {
                        over
                    },
                    UserRetag::Tag(tagging) => if tagging.rest(config) is Ask {
                        retag_tagged(tagging.rest(config), config, left)
                    } else {
                        over
                    },
                }
            },
        }
    }
}

impl Retag {
    /// Lists the users, if the bot exists.
    fn list(config: &Config, ensured: Result<(), Failure<String>>) -> (step: Step<
        Retag,
        Result<(), Failure<String>>,
    >)
        ensures
            follows(step, config@, if_done(outcome(ensured), retag_listed(config@))),
    {
        if ensured.is_err() {
            return Step::Return(ensured);
        }
        Step::Ask(Request::ListLocalUsers, Retag { stage: RetagStage::List })
    }

    /// Goes on with `users[index]`.
    fn retag_from(config: &Config, users: Vec<String>, index: usize) -> (step: Step<
        Retag,
        Result<(), Failure<String>>,
    >)
        requires
            index <= users.len(),
        ensures
            follows(
                step,
                config@,
                retag_users(config@, texts(users@).skip(index as int)),
            ),
        decreases users.len() - index, 3int,
    {
        if index >= users.len() {
            return Step::Return(Ok(()));
        }
        assert(texts(users@).skip(index as int)[0] == users@[index as int]@);
        match find_announcements_dm_room(config, &users[index]) {
            Step::Ask(request, search) => {
                let user = UserRetag::Search(search);
                Step::Ask(request, Retag { stage: RetagStage::Users { users, index, user } })
            },
            Step::Return(found) => Self::found(config, users, index, found),
        }
    }

    /// Goes on with the chat that was found for `users[index]`, if any.
    fn found(config: &Config, users: Vec<String>, index: usize, found: Option<String>) -> (step:
        Step<Retag, Result<(), Failure<String>>>)
        requires
            index < users.len(),
        ensures
            follows(
                step,
                config@,
                match optional_text(found) {
                    Some(room) => retag_checked(
                        check_room(config@.bot, users@[index as int]@, room),
                        config@,
                        texts(users@).skip(index as int),
                        room,
                    ),
                    None => retag_users(config@, texts(users@).skip(index + 1)),
                },
            ),
        decreases users.len() - index, 2int,
    {
        match found {
            None => Self::retag_from(config, users, index + 1),
            Some(room) => {
                match room_is_announcements_dm_for_user(config, &users[index], &room) {
                    Step::Ask(request, check) => {
                        let user = UserRetag::Check { room, check };
                        let stage = RetagStage::Users { users, index, user };
                        Step::Ask(request, Retag { stage })
                    },
                    Step::Return(is_dm) => {
                        assert(texts(users@).skip(index as int).drop_first() =~= texts(
                            users@,
                        ).skip(index + 1));
                        Self::checked(config, users, index, room, is_dm)
                    },
                }
            },
        }
    }

    /// Goes on with the chat of `users[index]`, which was checked.
    fn checked(
        config: &Config,
        users: Vec<String>,
        index: usize,
        room: String,
        is_dm: bool,
    ) -> (step: Step<Retag, Result<(), Failure<String>>>)
        requires
            index < users.len(),
        ensures
            follows(
                step,
                config@,
                if is_dm {
                    retag_tagged(
                        tag_room(config@.bot, users@[index as int]@, room@, config@.room_tags),
                        config@,
                        texts(users@).skip(index as int),
                    )
                } else {
                    retag_users(config@, texts(users@).skip(index + 1))
                },
            ),
        decreases users.len() - index, 1int,
    {
        if !is_dm {
            return Self::retag_from(config, users, index + 1);
        }
        match apply_announcements_dm_room_tags(config, &room, &users[index]) {
            Step::Ask(request, tagging) => {
                let user = UserRetag::Tag(tagging);
                Step::Ask(request, Retag { stage: RetagStage::Users { users, index, user } })
            },
            Step::Return(_) => {
                assert(texts(users@).skip(index as int).drop_first() =~= texts(users@).skip(
                    index + 1,
                ));
                Self::retag_from(config, users, index + 1)
            },
        }
    }
}

impl Task for Retag {
    fn resume(self, config: &Config, reply: ServiceReply) -> (step: Step<Self, Self::Output>) {
        match self.stage {
            RetagStage::Bot(ensuring) => {
                match ensuring.resume(config, reply) {
                    Step::Ask(request, next) => {
                        Step::Ask(request, Retag { stage: RetagStage::Bot(next) })
                    },
                    Step::Return(ensured) => Self::list(config, ensured),
                }
            },
            RetagStage::List => {
                match reply {
                    Reply::Users(listed) => {
                        let users = without_bot(&listed, &config.bot);
                        assert(texts(users@).skip(0) =~= texts(users@));
                        Self::retag_from(config, users, 0)
                    },
                    _ => vstd::pervasive::unreached(),
                }
            },
            RetagStage::Users { users, index, user } => {
                let ghost left = texts(users@).skip(index as int);
                assert(left[0] == users@[index as int]@);
                assert(left.drop_first() =~= texts(users@).skip(index + 1));
                match user {
                    UserRetag::Search(search) => {
                        match search.resume(config, reply) {
                            Step::Ask(request, next) => {
                                let user = UserRetag::Search(next);
                                let stage = RetagStage::Users { users, index, user };
                                Step::Ask(request, Retag { stage })
                            },
                            Step::Return(found) => Self::found(config, users, index, found),
                        }
                    },
                    UserRetag::Check { room, check } => {
                        match check.resume(config, reply) {
                            Step::Ask(request, next) => {
                                let user = UserRetag::Check { room, check: next };
                                let stage = RetagStage::Users { users, index, user };
                                Step::Ask(request, Retag { stage })
                            },
                            Step::Return(is_dm) => {
                                Self::checked(config, users, index, room, is_dm)
                            },
                        }
                    },
                    UserRetag::Tag(tagging) => {
                        match tagging.resume(config, reply) {
                            Step::Ask(request, next) => {
                                let user = UserRetag::Tag(next);
                                let stage = RetagStage::Users { users, index, user };
                                Step::Ask(request, Retag { stage })
                            },
                            Step::Return(_) => Self::retag_from(config, users, index + 1),
                        }
                    },
                }
            },
        }
    }
}

// ---------------------------------------------------------------------------
// Direct chats

/// A user who could not be provided for, and why.
#[derive(Debug, PartialEq, Eq)]
pub struct UserFailure<T> {
    pub user: T,
    pub failure: Failure<T>,
}

pub type UserFailureView = UserFailure<Seq<char>>;

impl View for UserFailure<String> {
    type V = UserFailureView;

    open spec fn view(&self) -> UserFailureView {
        UserFailure { user: self.user@, failure: self.failure@ }
    }
}

/// Who could not be provided for, in order.
pub open spec fn failures(failed: Seq<UserFailure<String>>) -> Seq<UserFailureView> {
    Seq::new(failed.len(), |i: int| failed[i]@)
}

/// Who could not be provided for, once it is known of `user` too.
pub open spec fn failed_after(
    failed: Seq<UserFailureView>,
    user: Seq<char>,
    provided: Result<(), FailureView>,
) -> Seq<UserFailureView> {
    match provided {
        Ok(()) => failed,
        Err(failure) => failed.push(UserFailure { user, failure }),
    }
}

/// Who could not be provided for, once it is known of `user` too.
fn recorded(
    failed: Vec<UserFailure<String>>,
    user: &String,
    provided: Result<(), Failure<String>>,
) -> (all: Vec<UserFailure<String>>)
    ensures
        failures(all@) == failed_after(failures(failed@), user@, outcome(provided)),
{
    let mut all = failed;
    match provided {
        Ok(()) => {},
        Err(failure) => {
            all.push(UserFailure { user: user.clone(), failure });
            assert(failures(all@) =~= failed_after(
                failures(failed@),
                user@,
                Err(all@.last().failure@),
            ));
        },
    }
    all
}

/// Sees to it that every local user has a direct chat with the bot. What fails for one user is
/// not held against the others; it comes to who could not be provided for.
pub open spec fn provide(config: ConfigView) -> Dialogue<
    Result<Seq<UserFailureView>, FailureView>,
> {
    if !config.dm_enabled {
        Dialogue::Return(Ok(Seq::empty()))
    } else {
        provide_with_bot(ensure_bot(config.bot), config)
    }
}

/// Once the bot exists, lists the users.
pub open spec fn provide_with_bot(
    ensuring: Dialogue<Result<(), FailureView>>,
    config: ConfigView,
) -> Dialogue<Result<Seq<UserFailureView>, FailureView>> {
    ensuring.then_do(
        |ensured: Result<(), FailureView>| if_done(ensured, provide_listed(config)),
    )
}

pub open spec fn provide_listed(config: ConfigView) -> Dialogue<
    Result<Seq<UserFailureView>, FailureView>,
> {
    Dialogue::Ask(
        Request::ListLocalUsers,
        |reply: ReplyView|
            provide_users(config, all_but(reply->Users_0, config.bot), Seq::empty()),
    )
}

/// Sees to it that each of `users` has a direct chat, where `failed` could not be provided for
/// before them.
pub open spec fn provide_users(
    config: ConfigView,
    users: Seq<Seq<char>>,
    failed: Seq<UserFailureView>,
) -> Dialogue<Result<Seq<UserFailureView>, FailureView>>
    decreases users.len(), 1int,
{
    if users.len() == 0 {
        Dialogue::Return(Ok(failed))
    } else {
        provide_users_from(ensure_dm(config, users[0]), config, users, failed)
    }
}

/// The same, where `provision` is the provision for `users[0]`.
pub open spec fn provide_users_from(
    provision: Dialogue<Result<(), FailureView>>,
    config: ConfigView,
    users: Seq<Seq<char>>,
    failed: Seq<UserFailureView>,
) -> Dialogue<Result<Seq<UserFailureView>, FailureView>>
    decreases users.len(), 0int,
    when users.len() > 0
{
    provision.then_do(
        |provided: Result<(), FailureView>|
            provide_users(config, users.drop_first(), failed_after(failed, users[0], provided)),
    )
}

/// How the provision for several users goes on after that for the first.
pub proof fn lemma_provision_of_the_others(
    config: ConfigView,
    users: Seq<Seq<char>>,
    failed: Seq<UserFailureView>,
) -> (next: spec_fn(Result<(), FailureView>) -> Dialogue<
    Result<Seq<UserFailureView>, FailureView>,
>)
    requires
        users.len() > 0,
    ensures
        provide_users(config, users, failed) == ensure_dm(config, users[0]).then_do(next),
        forall|provided: Result<(), FailureView>| #[trigger]
            next(provided) == provide_users(
                config,
                users.drop_first(),
                failed_after(failed, users[0], provided),
            ),
{
    let provision = ensure_dm(config, users[0]);
    choose|
        next: spec_fn(Result<(), FailureView>) -> Dialogue<
            Result<Seq<UserFailureView>, FailureView>,
        >,
    |
        provide_users_from(provision, config, users, failed) == #[trigger] provision.then_do(next)
            && (forall|provided: Result<(), FailureView>| #[trigger]
            next(provided) == provide_users(
                config,
                users.drop_first(),
                failed_after(failed, users[0], provided),
            ))
}

enum BackfillStage {
    Bot(BotCreation),
    List,
    /// The user who is being provided for, and who could not be before.
    Users {
        users: Vec<String>,
        index: usize,
        provision: Provision,
        failed: Vec<UserFailure<String>>,
    },
}

/// The provision for all local users, in progress.
pub struct Backfill {
    stage: BackfillStage,
}

/// Makes the direct chats that are missing, for every local user but the bot. Comes to the users
/// who could not be provided for.
pub fn backfill_announcements_dms_for_all_local_users(config: &Config) -> (step: Step<
    Backfill,
    Result<Vec<UserFailure<String>>, Failure<String>>,
>)
    ensures
        follows(step, config@, provide(config@)),
{
    if !config.dm_enabled {
        let failed: Vec<UserFailure<String>> = Vec::new();
        assert(failures(failed@) =~= Seq::<UserFailureView>::empty());
        return Step::Return(Ok(failed));
    }
    match ensure_announcements_bot_user(config) {
        Step::Ask(request, ensuring) => {
            Step::Ask(request, Backfill { stage: BackfillStage::Bot(ensuring) })
        },
        Step::Return(ensured) => Backfill::list(config, ensured),
    }
}

impl Progress for Backfill {
    type Output = Result<Vec<UserFailure<String>>, Failure<String>>;

    type Result = Result<Seq<UserFailureView>, FailureView>;

    open spec fn result(output: Self::Output) -> Self::Result {
        match output {
            Ok(failed) => Ok(failures(failed@)),
            Err(failure) => Err(failure@),
        }
    }

    closed spec fn rest(self, config: ConfigView) -> Dialogue<Self::Result> {
        let over = Dialogue::Return(Ok(Seq::empty()));
        match self.stage {
            BackfillStage::Bot(ensuring) => if ensuring.rest(config) is Ask {
                provide_with_bot(ensuring.rest(config), config)
            } else {
                over
            },
            BackfillStage::List => provide_listed(config),
            BackfillStage::Users { users, index, provision, failed } => if index < users.len()
                && provision.rest(config) is Ask {
                provide_users_from(
                    provision.rest(config),
                    config,
                    texts(users@).skip(index as int),
                    failures(failed@),
                )
            } else {
                over
            },
        }
    }
}

impl Backfill {
    /// Lists the users, if the bot exists.
    fn list(config: &Config, ensured: Result<(), Failure<String>>) -> (step: Step<
        Backfill,
        Result<Vec<UserFailure<String>>, Failure<String>>,
    >)
        ensures
            follows(step, config@, if_done(outcome(ensured), provide_listed(config@))),
    {
        match ensured {
            Ok(()) => Step::Ask(Request::ListLocalUsers, Backfill { stage: BackfillStage::List }),
            Err(failure) => Step::Return(Err(failure)),
        }
    }

    /// Provides for `users[index]` and those behind, where `failed` could not be provided for
    /// before them.
    fn provide_from(
        config: &Config,
        users: Vec<String>,
        index: usize,
        failed: Vec<UserFailure<String>>,
    ) -> (step: Step<Backfill, Result<Vec<UserFailure<String>>, Failure<String>>>)
        requires
            index <= users.len(),
        ensures
            follows(
                step,
                config@,
                provide_users(config@, texts(users@).skip(index as int), failures(failed@)),
            ),
    {
        let mut i: usize = index;
        let mut so_far: Vec<UserFailure<String>> = failed;
        while i < users.len()
            invariant
                index <= i <= users.len(),
                provide_users(config@, texts(users@).skip(index as int), failures(failed@))
                    == provide_users(
                    config@,
                    texts(users@).skip(i as int),
                    failures(so_far@),
                ),
            decreases users.len() - i,
        {
            let ghost here = texts(users@).skip(i as int);
            assert(here[0] == users@[i as int]@);
            assert(here.drop_first() =~= texts(users@).skip(i + 1));
            match ensure_announcements_dm_for_user(config, &users[i]) {
                Step::Ask(request, provision) => {
                    let stage = BackfillStage::Users {
                        users,
                        index: i,
                        provision,
                        failed: so_far,
                    };
                    return Step::Ask(request, Backfill { stage });
                },
                Step::Return(provided) => {
                    so_far = recorded(so_far, &users[i], provided);
                },
            }
            i = i + 1;
        }
        Step::Return(Ok(so_far))
    }
}

impl Task for Backfill {
    fn resume(self, config: &Config, reply: ServiceReply) -> (step: Step<Self, Self::Output>) {
        match self.stage {
            BackfillStage::Bot(ensuring) => {
                match ensuring.resume(config, reply) {
                    Step::Ask(request, next) => {
                        Step::Ask(request, Backfill { stage: BackfillStage::Bot(next) })
                    },
                    Step::Return(ensured) => Self::list(config, ensured),
                }
            },
            BackfillStage::List => {
                match reply {
                    Reply::Users(listed) => {
                        let users = without_bot(&listed, &config.bot);
                        let failed: Vec<UserFailure<String>> = Vec::new();
                        assert(texts(users@).skip(0) =~= texts(users@));
                        assert(failures(failed@) =~= Seq::<UserFailureView>::empty());
                        Self::provide_from(config, users, 0, failed)
                    },
                    _ => vstd::pervasive::unreached(),
                }
            },
            BackfillStage::Users { users, index, provision, failed } => {
                let ghost left = texts(users@).skip(index as int);
                assert(left.drop_first() =~= texts(users@).skip(index + 1));
                assert(left[0] == users@[index as int]@);
                match provision.resume(config, reply) {
                    Step::Ask(request, next) => {
                        let stage = BackfillStage::Users {
                            users,
                            index,
                            provision: next,
                            failed,
                        };
                        Step::Ask(request, Backfill { stage })
                    },
                    Step::Return(provided) => {
                        let all = recorded(failed, &users[index], provided);
                        Self::provide_from(config, users, index + 1, all)
                    },
                }
            },
        }
    }
}

} // verus!
