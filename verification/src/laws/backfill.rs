//! Laws on going over all local users.
use crate::backfill::{
    all_but, failed_after, lemma_provision_of_the_others, other_than, provide, provide_listed,
    provide_users, retag, retag_checked, retag_found, retag_listed, retag_tagged, retag_users,
    UserFailure, UserFailureView,
};
use crate::creation::if_done;
use crate::dialogue::{conclusion, lemma_conversation_parts, Dialogue, Exchange};
use crate::laws::creation::{grows, lemma_growing_keeps_dms, lemma_grows_on};
use crate::laws::provision::{
    builds_nothing, is_building, is_served_chat, law_bot_has_an_account, law_ensure_gives_a_dm,
    law_ensure_keeps_all_dms, law_ensure_leaves_others_alone, law_ensure_makes_no_second_dm,
    lemma_bot_shape, lemma_same_chats_find, stops_without_bot,
};
use crate::laws::requests::{
    asks_only, lemma_bot_asks, lemma_ensure_asks, lemma_talk_asks_only, lemma_then_asks_only,
};
use crate::laws::rooms::{
    asked, finds, is_first_chat, is_read, law_check_tells_the_chat, law_find_finds_the_first_chat,
    law_tagging_covers_every_tag, lemma_check_reads, lemma_find_reads, lemma_tagged_in_part,
    lemma_tags_keep, requests, tag_requests,
};
use crate::provision::{create_bot_request, ensure_bot, ensure_dm};
use crate::rooms::{check_room, find_room, tag_room};
use crate::service::{ConfigView, FailureView, ReplyView, Request, RequestView};
use crate::text::is_user_id;
use crate::world::{is_history, lemma_history_parts, serves, World};
use vstd::prelude::*;

verus! {

/// Where the bot is seen to and the users are listed, and then more is done.
pub open spec fn over_users<R>(
    bot: Seq<char>,
    listed: Dialogue<Result<R, FailureView>>,
) -> Dialogue<Result<R, FailureView>> {
    ensure_bot(bot).then_do(|ensured: Result<(), FailureView>| if_done(ensured, listed))
}

/// The bot is seen to in the first `at` exchanges, and the users are listed then.
pub open spec fn lists_at(bot: Seq<char>, talk: Seq<Exchange>, at: int) -> bool {
    &&& 1 <= at <= 2
    &&& at < talk.len()
    &&& conclusion(ensure_bot(bot), talk.take(at)) == Some(Ok::<(), FailureView>(()))
    &&& talk[at].request is ListLocalUsers
    &&& talk[at].reply is Users
}

proof fn lemma_over_users<R>(
    bot: Seq<char>,
    listed: Dialogue<Result<R, FailureView>>,
    talk: Seq<Exchange>,
) -> (at: int)
    requires
        listed is Ask,
        listed->Ask_0 is ListLocalUsers,
        conclusion(over_users(bot, listed), talk) is Some,
    ensures
        at == -1 ==> conclusion(over_users(bot, listed), talk)->0 is Err && stops_without_bot(
            bot,
            talk,
            conclusion(over_users(bot, listed), talk)->0->Err_0,
        ),
        at != -1 ==> lists_at(bot, talk, at) && conclusion(
            listed.after(talk[at].reply),
            talk.skip(at + 1),
        ) == conclusion(over_users(bot, listed), talk),
{
    let next = |ensured: Result<(), FailureView>| if_done(ensured, listed);
    let cut = lemma_conversation_parts(ensure_bot(bot), next, talk);
    let early = talk.take(cut);
    let late = talk.skip(cut);
    lemma_bot_shape(bot, early);
    if conclusion(ensure_bot(bot), early)->0 is Ok {
        let result = conclusion(ensure_bot(bot), early)->0;
        assert(result->Ok_0 == ());
        assert(late[0] == talk[cut]);
        assert(late.drop_first() =~= talk.skip(cut + 1));
        cut
    } else {
        assert(late.len() == 0);
        assert(early =~= talk);
        -1
    }
}

/// Everyone on the list but the bot is among those who are meant, and no one else is.
pub proof fn law_everyone_but_the_bot_is_meant(
    users: Seq<Seq<char>>,
    bot: Seq<char>,
    user: Seq<char>,
)
    ensures
        all_but(users, bot).contains(user) <==> users.contains(user) && user != bot,
{
    broadcast use vstd::seq_lib::group_filter_ensures;

    let others = other_than(bot);
    if users.contains(user) && user != bot {
        let i = choose|i: int| 0 <= i < users.len() && users[i] == user;
        assert(others(users[i]));
        assert(users.filter(others).contains(users[i]));
    }
    if all_but(users, bot).contains(user) {
        let i = choose|i: int|
            0 <= i < all_but(users, bot).len() && all_but(users, bot)[i] == user;
        assert(others(users.filter(others)[i]));
        lemma_filtered_was_there(users, others, user);
    }
}

proof fn lemma_filtered_was_there(
    users: Seq<Seq<char>>,
    others: spec_fn(Seq<char>) -> bool,
    user: Seq<char>,
)
    requires
        users.filter(others).contains(user),
    ensures
        users.contains(user),
    decreases users.len(),
{
    reveal(Seq::filter);
    if users.len() > 0 {
        let rest = users.drop_last();
        if rest.filter(others).contains(user) {
            lemma_filtered_was_there(rest, others, user);
            let i = choose|i: int| 0 <= i < rest.len() && rest[i] == user;
            assert(users[i] == user);
        } else {
            let kept = users.filter(others);
            let i = choose|i: int| 0 <= i < kept.len() && kept[i] == user;
            if others(users.last()) {
                if i < rest.filter(others).len() {
                    assert(rest.filter(others)[i] == user);
                }
                assert(users[users.len() - 1] == user);
            }
        }
    }
}

/// Who is meant is told user by user: the bot is left out wherever it stands, and everyone else is
/// kept, as often as listed and in the order of the list.
pub proof fn law_the_meant_keep_their_order(
    users: Seq<Seq<char>>,
    others: Seq<Seq<char>>,
    user: Seq<char>,
    bot: Seq<char>,
)
    ensures
        all_but(Seq::empty(), bot) == Seq::<Seq<char>>::empty(),
        all_but(seq![bot], bot) == Seq::<Seq<char>>::empty(),
        user != bot ==> all_but(seq![user], bot) == seq![user],
        all_but(users + others, bot) == all_but(users, bot) + all_but(others, bot),
{
    reveal(Seq::filter);
    reveal_with_fuel(Seq::filter, 2);
    Seq::filter_distributes_over_add(users, others, other_than(bot));
    assert(seq![bot].drop_last() =~= Seq::<Seq<char>>::empty());
    assert(seq![user].drop_last() =~= Seq::<Seq<char>>::empty());
    assert(user != bot ==> all_but(seq![user], bot) =~= seq![user]);
}

// ---------------------------------------------------------------------------
// Direct chats for all

/// The provision for `user` is the part of `talk` from `from` to `to`.
pub open spec fn is_part(
    config: ConfigView,
    user: Seq<char>,
    talk: Seq<Exchange>,
    from: int,
    to: int,
) -> bool {
    0 <= from <= to <= talk.len() && conclusion(
        ensure_dm(config, user),
        talk.subrange(from, to),
    ) is Some
}

/// The user is provided for in a part of `talk`. Where that part succeeds, the user has a direct
/// chat in the end, whatever became of the others. Where the user had one, none is made.
pub open spec fn is_provision(
    config: ConfigView,
    user: Seq<char>,
    talk: Seq<Exchange>,
    from: int,
    to: int,
    before: World,
    after: World,
) -> bool {
    let part = talk.subrange(from, to);
    &&& is_part(config, user, talk, from, to)
    &&& conclusion(ensure_dm(config, user), part)->0 is Ok && before.local.contains(user)
        ==> after.has_dm(config.bot, user)
    &&& is_user_id(user) && before.has_dm(config.bot, user) ==> builds_nothing(part)
}

/// From `cuts[0]` on, `talk` is the provision for each of `users`, one after the other and nothing
/// else: that for `users[k]` is the part from `cuts[k]` to `cuts[k + 1]`.
pub open spec fn are_provisions(
    config: ConfigView,
    users: Seq<Seq<char>>,
    talk: Seq<Exchange>,
    cuts: Seq<int>,
    before: World,
    after: World,
) -> bool {
    &&& cuts.len() == users.len() + 1
    &&& cuts.last() == talk.len()
    &&& forall|k: int|
        0 <= k < users.len() ==> is_provision(
            config,
            #[trigger] users[k],
            talk,
            cuts[k],
            cuts[k + 1],
            before,
            after,
        )
}

/// Who could not be provided for in these parts, in order, behind those of `failed`.
pub open spec fn failed_in(
    config: ConfigView,
    users: Seq<Seq<char>>,
    talk: Seq<Exchange>,
    cuts: Seq<int>,
    failed: Seq<UserFailureView>,
) -> Seq<UserFailureView>
    decreases users.len(),
{
    if users.len() == 0 {
        failed
    } else {
        let part = talk.subrange(cuts[0], cuts[1]);
        failed_in(
            config,
            users.drop_first(),
            talk,
            cuts.drop_first(),
            match conclusion(ensure_dm(config, users[0]), part)->0 {
                Ok(()) => failed,
                Err(failure) => failed + seq![UserFailure { user: users[0], failure }],
            },
        )
    }
}

/// A user whose provision fails is put behind those who failed before, with the failure. One whose
/// provision succeeds is not.
pub proof fn law_failures_are_kept(
    failed: Seq<UserFailureView>,
    user: Seq<char>,
    failure: FailureView,
)
    ensures
        failed_after(failed, user, Ok(())) == failed,
        failed_after(failed, user, Err(failure)) == failed + seq![UserFailure { user, failure }],
{
    assert(failed + seq![UserFailure { user, failure }] =~= failed.push(
        UserFailure { user, failure },
    ));
}

proof fn lemma_not_the_bot(users: Seq<Seq<char>>, bot: Seq<char>)
    requires
        users.len() > 0,
        !users.contains(bot),
    ensures
        users[0] != bot,
        !users.drop_first().contains(bot),
{
    assert(users.contains(users[0]));
    let rest = users.drop_first();
    if rest.contains(bot) {
        let i = choose|i: int| 0 <= i < rest.len() && rest[i] == bot;
        assert(users[i + 1] == bot);
    }
}

proof fn lemma_provide_users(
    config: ConfigView,
    users: Seq<Seq<char>>,
    failed: Seq<UserFailureView>,
    talk: Seq<Exchange>,
    worlds: Seq<World>,
    from: int,
) -> (cuts: Seq<int>)
    requires
        config.dm_enabled,
        0 <= from <= talk.len(),
        conclusion(provide_users(config, users, failed), talk.skip(from)) is Some,
        is_history(worlds, talk),
        !users.contains(config.bot),
    ensures
        cuts.len() > 0,
        cuts[0] == from,
        are_provisions(config, users, talk, cuts, worlds[from], worlds.last()),
        conclusion(provide_users(config, users, failed), talk.skip(from)) == Some(
            Ok::<Seq<UserFailureView>, FailureView>(
                failed_in(config, users, talk, cuts, failed),
            ),
        ),
        grows(worlds[from], worlds.last()),
    decreases users.len(),
{
    let last = worlds.last();
    let first = worlds[from];
    if users.len() == 0 {
        lemma_grows_reflexive(last);
        assert(talk.skip(from).len() == 0);
        seq![from]
    } else {
        let user = users[0];
        let provision = ensure_dm(config, user);
        let rest = users.drop_first();
        let next = lemma_provision_of_the_others(config, users, failed);
        let part_talk = talk.skip(from);
        let cut = lemma_conversation_parts(provision, next, part_talk);
        let to = from + cut;
        let part = talk.subrange(from, to);
        assert(part_talk.take(cut) =~= part);
        assert(part_talk.skip(cut) =~= talk.skip(to));
        lemma_history_parts(worlds, talk, from);
        lemma_history_parts(worlds.skip(from), part_talk, cut);
        let part_worlds = worlds.skip(from).take(cut + 1);
        let mid = worlds[to];
        let provided = conclusion(provision, part)->0;
        law_ensure_keeps_all_dms(config, user, part, part_worlds);
        lemma_not_the_bot(users, config.bot);
        let later = lemma_provide_users(
            config,
            rest,
            failed_after(failed, user, provided),
            talk,
            worlds,
            to,
        );
        lemma_grows_on(first, mid, last);
        if provided is Err {
            law_failures_are_kept(failed, user, provided->Err_0);
        }
        let cuts = seq![from] + later;
        assert(cuts.drop_first() =~= later);
        assert(cuts[1] == to);
        if provided is Ok && first.local.contains(user) {
            assert(provided->Ok_0 == ());
            law_ensure_gives_a_dm(config, user, part, part_worlds);
            lemma_growing_keeps_dms(mid, last, config.bot, user);
        }
        if first.has_dm(config.bot, user) {
            law_ensure_makes_no_second_dm(config, user, part, part_worlds);
        }
        assert forall|k: int| 0 <= k < users.len() implies is_provision(
            config,
            #[trigger] users[k],
            talk,
            cuts[k],
            cuts[k + 1],
            first,
            last,
        ) by {
            if k > 0 {
                assert(rest[k - 1] == users[k]);
                assert(is_provision(
                    config,
                    rest[k - 1],
                    talk,
                    later[k - 1],
                    later[k],
                    mid,
                    last,
                ));
                if first.has_dm(config.bot, users[k]) {
                    lemma_growing_keeps_dms(first, mid, config.bot, users[k]);
                }
            }
        }
        cuts
    }
}

/// A world that stays as it is grows.
proof fn lemma_grows_reflexive(world: World)
    ensures
        grows(world, world),
{
    assert forall|owner: Seq<char>, peer: Seq<char>| #[trigger]
        world.rooms_with(owner, peer).is_prefix_of(world.rooms_with(owner, peer)) by {
        let rooms = world.rooms_with(owner, peer);
        assert(rooms =~= rooms.subrange(0, rooms.len() as int));
    }
}

/// Where direct chats are disabled, nothing is asked, and it succeeds.
pub proof fn law_backfill_is_off_where_disabled(config: ConfigView, talk: Seq<Exchange>)
    requires
        !config.dm_enabled,
        conclusion(provide(config), talk) is Some,
    ensures
        talk.len() == 0,
        conclusion(provide(config), talk) == Some(
            Ok::<Seq<UserFailureView>, FailureView>(Seq::empty()),
        ),
{
}

/// Once the users are listed, every one of them but the bot is provided for, in their order, each
/// in one conversation of its own, and nothing else is done. What fails for one keeps no other from
/// a direct chat, who had one is made none, and it comes to who could not be provided for. It fails
/// only where the bot's account cannot be created, and then does nothing.
pub proof fn law_backfill_provides_for_everyone(
    config: ConfigView,
    talk: Seq<Exchange>,
    worlds: Seq<World>,
) -> (course: (int, Seq<int>))
    requires
        config.dm_enabled,
        conclusion(provide(config), talk) is Some,
        is_history(worlds, talk),
    ensures
        match conclusion(provide(config), talk)->0 {
            Err(failure) => stops_without_bot(config.bot, talk, failure) && worlds.last()
                == worlds[0],
            Ok(failed) => {
                let (at, cuts) = course;
                let others = all_but(talk[at].reply->Users_0, config.bot);
                &&& lists_at(config.bot, talk, at)
                &&& cuts.len() > 0
                &&& cuts[0] == at + 1
                &&& are_provisions(config, others, talk, cuts, worlds[0], worlds.last())
                &&& failed == failed_in(config, others, talk, cuts, Seq::empty())
            },
        },
        forall|user: Seq<char>| #[trigger]
            worlds[0].has_dm(config.bot, user) ==> worlds.last().has_dm(config.bot, user),
{
    let bot = config.bot;
    let first = worlds[0];
    let last = worlds.last();
    let listed = provide_listed(config);
    assert(provide(config) == over_users(bot, listed));
    let at = lemma_over_users(bot, listed, talk);
    if at == -1 {
        assert(serves(worlds[0], talk[0], worlds[1]));
        assert(serves(worlds[1], talk[1], worlds[2]));
        (at, Seq::empty())
    } else {
        let users = talk[at].reply->Users_0;
        let others = all_but(users, bot);
        lemma_history_parts(worlds, talk, at);
        law_bot_has_an_account(bot, talk.take(at), worlds.take(at + 1));
        let mid = worlds[at + 1];
        assert(serves(worlds[at], talk[at], worlds[at + 1]));
        law_everyone_but_the_bot_is_meant(users, bot, bot);
        let cuts = lemma_provide_users(config, others, Seq::empty(), talk, worlds, at + 1);
        assert(grows(first, mid)) by {
            lemma_grows_reflexive(first);
            assert forall|owner: Seq<char>, peer: Seq<char>| #[trigger]
                first.rooms_with(owner, peer).is_prefix_of(mid.rooms_with(owner, peer)) by {
                assert(first.rooms_with(owner, peer) == mid.rooms_with(owner, peer));
                assert(first.rooms_with(owner, peer).is_prefix_of(first.rooms_with(owner, peer)));
            }
        }
        lemma_grows_on(first, mid, last);
        assert forall|k: int| 0 <= k < others.len() implies is_provision(
            config,
            #[trigger] others[k],
            talk,
            cuts[k],
            cuts[k + 1],
            first,
            last,
        ) by {
            if first.has_dm(bot, others[k]) {
                lemma_growing_keeps_dms(first, mid, bot, others[k]);
            }
        }
        assert forall|user: Seq<char>| #[trigger] first.has_dm(bot, user) implies last.has_dm(
            bot,
            user,
        ) by {
            lemma_growing_keeps_dms(first, last, bot, user);
        }
        (at, cuts)
    }
}

/// From `cuts[0]` on, `talk` is the provision for each of `users`, one after the other and nothing
/// else.
pub open spec fn are_parts(
    config: ConfigView,
    users: Seq<Seq<char>>,
    talk: Seq<Exchange>,
    cuts: Seq<int>,
) -> bool {
    &&& cuts.len() == users.len() + 1
    &&& cuts.last() == talk.len()
    &&& forall|k: int|
        0 <= k < users.len() ==> is_part(
            config,
            #[trigger] users[k],
            talk,
            cuts[k],
            cuts[k + 1],
        )
}

proof fn lemma_provide_parts(
    config: ConfigView,
    users: Seq<Seq<char>>,
    failed: Seq<UserFailureView>,
    talk: Seq<Exchange>,
    from: int,
) -> (cuts: Seq<int>)
    requires
        0 <= from <= talk.len(),
        conclusion(provide_users(config, users, failed), talk.skip(from)) is Some,
    ensures
        cuts.len() > 0,
        cuts[0] == from,
        are_parts(config, users, talk, cuts),
        conclusion(provide_users(config, users, failed), talk.skip(from)) == Some(
            Ok::<Seq<UserFailureView>, FailureView>(
                failed_in(config, users, talk, cuts, failed),
            ),
        ),
    decreases users.len(),
{
    if users.len() == 0 {
        assert(talk.skip(from).len() == 0);
        seq![from]
    } else {
        let user = users[0];
        let provision = ensure_dm(config, user);
        let rest = users.drop_first();
        let next = lemma_provision_of_the_others(config, users, failed);
        let late = talk.skip(from);
        let cut = lemma_conversation_parts(provision, next, late);
        let to = from + cut;
        assert(late.take(cut) =~= talk.subrange(from, to));
        assert(late.skip(cut) =~= talk.skip(to));
        let provided = conclusion(provision, talk.subrange(from, to))->0;
        let later = lemma_provide_parts(
            config,
            rest,
            failed_after(failed, user, provided),
            talk,
            to,
        );
        if provided is Err {
            law_failures_are_kept(failed, user, provided->Err_0);
        }
        let cuts = seq![from] + later;
        assert(cuts.drop_first() =~= later);
        assert(cuts[1] == to);
        assert forall|k: int| 0 <= k < users.len() implies is_part(
            config,
            #[trigger] users[k],
            talk,
            cuts[k],
            cuts[k + 1],
        ) by {
            if k > 0 {
                assert(rest[k - 1] == users[k]);
                assert(is_part(config, rest[k - 1], talk, later[k - 1], later[k]));
            }
        }
        cuts
    }
}

/// Going over all users goes by what is replied, whatever that is: the bot is seen to, the users
/// are listed, and everyone on the list but the bot is provided for, one after the other. It comes
/// to who could not be, each with the failure and in their order. Where the bot cannot be seen to,
/// it comes to that, and nothing more is asked.
pub proof fn law_backfill_goes_user_by_user(
    config: ConfigView,
    talk: Seq<Exchange>,
) -> (course: (int, Seq<int>))
    requires
        config.dm_enabled,
        conclusion(provide(config), talk) is Some,
    ensures
        match conclusion(provide(config), talk)->0 {
            Err(failure) => stops_without_bot(config.bot, talk, failure),
            Ok(failed) => {
                let (at, cuts) = course;
                let others = all_but(talk[at].reply->Users_0, config.bot);
                &&& lists_at(config.bot, talk, at)
                &&& cuts.len() > 0
                &&& cuts[0] == at + 1
                &&& are_parts(config, others, talk, cuts)
                &&& failed == failed_in(config, others, talk, cuts, Seq::empty())
            },
        },
{
    let listed = provide_listed(config);
    assert(provide(config) == over_users(config.bot, listed));
    let at = lemma_over_users(config.bot, listed, talk);
    if at == -1 {
        (at, Seq::empty())
    } else {
        let others = all_but(talk[at].reply->Users_0, config.bot);
        (at, lemma_provide_parts(config, others, Seq::empty(), talk, at + 1))
    }
}

proof fn lemma_users_asks(
    config: ConfigView,
    users: Seq<Seq<char>>,
    failed: Seq<UserFailureView>,
    allowed: spec_fn(RequestView) -> bool,
)
    requires
        forall|request: RequestView|
            request != (RequestView::IsLocal { user: config.bot }) && !(request is ListLocalUsers)
                ==> #[trigger] allowed(request),
        !users.contains(config.bot),
    ensures
        asks_only(provide_users(config, users, failed), allowed),
    decreases users.len(),
{
    if users.len() > 0 {
        let provision = ensure_dm(config, users[0]);
        let rest = users.drop_first();
        let next = lemma_provision_of_the_others(config, users, failed);
        lemma_not_the_bot(users, config.bot);
        lemma_ensure_asks(config, users[0], allowed);
        assert forall|provided: Result<(), FailureView>| asks_only(
            #[trigger] next(provided),
            allowed,
        ) by {
            lemma_users_asks(config, rest, failed_after(failed, users[0], provided), allowed);
        }
        lemma_then_asks_only(provision, next, allowed);
    }
}

/// The bot is passed over.
pub proof fn law_backfill_passes_over_the_bot(config: ConfigView, talk: Seq<Exchange>)
    requires
        conclusion(provide(config), talk) is Some,
    ensures
        !asked(talk, Request::IsLocal { user: config.bot }),
{
    let bot = config.bot;
    let allowed = |request: RequestView| request != (RequestView::IsLocal { user: bot });
    if config.dm_enabled {
        let listed = provide_listed(config);
        let next = |ensured: Result<(), FailureView>| if_done(ensured, listed);
        assert forall|reply: ReplyView| asks_only(#[trigger] (listed->Ask_1)(reply), allowed) by {
            law_everyone_but_the_bot_is_meant(reply->Users_0, bot, bot);
            lemma_users_asks(config, all_but(reply->Users_0, bot), Seq::empty(), allowed);
        }
        lemma_bot_asks(bot, allowed);
        assert(asks_only(listed, allowed));
        lemma_then_asks_only(ensure_bot(bot), next, allowed);
        assert(provide(config) == over_users(bot, listed));
        lemma_talk_asks_only(provide(config), allowed, talk);
    }
    assert forall|i: int| 0 <= i < talk.len() implies #[trigger] talk[i].request != (
    RequestView::IsLocal { user: bot }) by {
        assert(allowed(talk[i].request));
    }
}

/// Everyone who is to have a direct chat has one, and under a user ID.
pub open spec fn all_have_dms(world: World, bot: Seq<char>, users: Seq<Seq<char>>) -> bool {
    forall|user: Seq<char>| #[trigger]
        users.contains(user) && user != bot && world.local.contains(user) ==> is_user_id(user)
            && world.has_dm(bot, user)
}

proof fn lemma_users_build_nothing(
    config: ConfigView,
    users: Seq<Seq<char>>,
    failed: Seq<UserFailureView>,
    talk: Seq<Exchange>,
    worlds: Seq<World>,
)
    requires
        conclusion(provide_users(config, users, failed), talk) is Some,
        is_history(worlds, talk),
        all_have_dms(worlds[0], config.bot, users),
    ensures
        builds_nothing(talk),
        worlds.last().same_chats(worlds[0]),
    decreases users.len(),
{
    if users.len() > 0 {
        let user = users[0];
        let provision = ensure_dm(config, user);
        let rest = users.drop_first();
        let next = lemma_provision_of_the_others(config, users, failed);
        let cut = lemma_conversation_parts(provision, next, talk);
        lemma_history_parts(worlds, talk, cut);
        let early = talk.take(cut);
        let late = talk.skip(cut);
        let mid = worlds[cut];
        assert(users.contains(users[0]));
        if user != config.bot && worlds[0].local.contains(user) {
            law_ensure_makes_no_second_dm(config, user, early, worlds.take(cut + 1));
        } else {
            law_ensure_leaves_others_alone(config, user, early, worlds.take(cut + 1));
            assert forall|i: int| 0 <= i < early.len() implies !is_building(
                #[trigger] early[i].request,
            ) by {
                assert(is_read(early[i].request));
            }
        }
        law_ensure_keeps_all_dms(config, user, early, worlds.take(cut + 1));
        assert(all_have_dms(mid, config.bot, rest)) by {
            assert forall|other: Seq<char>| #[trigger]
                rest.contains(other) && other != config.bot && mid.local.contains(
                    other,
                ) implies is_user_id(other) && mid.has_dm(config.bot, other) by {
                let i = choose|i: int| 0 <= i < rest.len() && rest[i] == other;
                assert(users[i + 1] == other);
                assert(users.contains(other));
            }
        }
        let provided = conclusion(provision, early)->0;
        lemma_users_build_nothing(
            config,
            rest,
            failed_after(failed, user, provided),
            late,
            worlds.skip(cut),
        );
        assert forall|i: int| 0 <= i < talk.len() implies !is_building(
            #[trigger] talk[i].request,
        ) by {
            if i < cut {
                assert(early[i] == talk[i]);
            } else {
                assert(late[i - cut] == talk[i]);
            }
        }
    }
}

/// Where everyone has a direct chat, going over the users makes and lists none.
pub proof fn law_backfill_makes_only_what_is_missing(
    config: ConfigView,
    talk: Seq<Exchange>,
    worlds: Seq<World>,
    at: int,
)
    requires
        config.dm_enabled,
        conclusion(provide(config), talk) is Some,
        is_history(worlds, talk),
        lists_at(config.bot, talk, at),
    ensures
        all_have_dms(worlds[0], config.bot, talk[at].reply->Users_0) ==> builds_nothing(talk)
            && worlds.last().same_chats(worlds[0]),
{
    let bot = config.bot;
    let users = talk[at].reply->Users_0;
    let listed = provide_listed(config);
    assert(provide(config) == over_users(bot, listed));
    let found = lemma_over_users(bot, listed, talk);
    if found == -1 {
        assert(talk[1].request is CreateUser);
        lemma_bot_shape(bot, talk.take(at));
        assert(at == 1);
    }
    assert(found == at) by {
        if found != at {
            lemma_listing_position(bot, talk, found, at);
        }
    }
    if all_have_dms(worlds[0], bot, users) {
        let others = all_but(users, bot);
        lemma_history_parts(worlds, talk, at);
        law_bot_has_an_account(bot, talk.take(at), worlds.take(at + 1));
        assert(serves(worlds[at], talk[at], worlds[at + 1]));
        lemma_history_parts(worlds, talk, at + 1);
        let mid = worlds[at + 1];
        let late = talk.skip(at + 1);
        assert(all_have_dms(mid, bot, others)) by {
            assert forall|user: Seq<char>| #[trigger]
                others.contains(user) && user != bot && mid.local.contains(user) implies is_user_id(
                user,
            ) && mid.has_dm(bot, user) by {
                law_everyone_but_the_bot_is_meant(users, bot, user);
                assert(users.contains(user));
                let i = choose|i: int| #[trigger] worlds[0].is_listed_dm(bot, user, i);
                assert(mid.is_listed_dm(bot, user, i));
            }
        }
        lemma_users_build_nothing(config, others, Seq::empty(), late, worlds.skip(at + 1));
        let early = talk.take(at);
        assert forall|i: int| 0 <= i < talk.len() implies !is_building(
            #[trigger] talk[i].request,
        ) by {
            if i < at {
                assert(early[i] == talk[i]);
            } else if i > at {
                assert(late[i - at - 1] == talk[i]);
            }
        }
    }
}

proof fn lemma_listing_position(bot: Seq<char>, talk: Seq<Exchange>, one: int, other: int)
    requires
        lists_at(bot, talk, one),
        lists_at(bot, talk, other),
    ensures
        one == other,
{
    if one < other {
        lemma_bot_requests(bot, talk.take(other));
        assert(talk.take(other)[one] == talk[one]);
    } else if other < one {
        lemma_bot_requests(bot, talk.take(one));
        assert(talk.take(one)[other] == talk[other]);
    }
}

proof fn lemma_bot_requests(bot: Seq<char>, talk: Seq<Exchange>)
    requires
        conclusion(ensure_bot(bot), talk) is Some,
    ensures
        forall|i: int|
            0 <= i < talk.len() ==> !((#[trigger] talk[i].request) is ListLocalUsers),
{
    let allowed = |request: RequestView| request is UserExists || request is CreateUser;
    lemma_bot_asks(bot, allowed);
    lemma_talk_asks_only(ensure_bot(bot), allowed, talk);
    assert forall|i: int| 0 <= i < talk.len() implies !((#[trigger] talk[i].request)
        is ListLocalUsers) by {
        assert(allowed(talk[i].request));
    }
}

// ---------------------------------------------------------------------------
// Tags for all

/// Whether a request puts a configured tag on the room that a search comes to for the user, for the
/// user or for the bot.
pub open spec fn is_tag_for(
    config: ConfigView,
    world: World,
    user: Seq<char>,
    request: RequestView,
) -> bool {
    match request {
        Request::SetRoomTag { owner, room, tag, info } => {
            &&& is_user_id(user)
            &&& finds(world, config.bot, user, room)
            &&& owner == user || owner == config.bot
            &&& config.room_tags.contains(tag)
            &&& tag.len() > 0
            &&& info is None
        },
        _ => false,
    }
}

/// Whether a request puts such a tag for one of `users`.
pub open spec fn is_tag_for_some(
    config: ConfigView,
    world: World,
    users: Seq<Seq<char>>,
    request: RequestView,
) -> bool {
    exists|user: Seq<char>| #[trigger]
        users.contains(user) && is_tag_for(config, world, user, request)
}

/// Retagging the chat of one user changes no chat, and covers it where the user has one.
proof fn lemma_retag_one(
    config: ConfigView,
    users: Seq<Seq<char>>,
    talk: Seq<Exchange>,
    worlds: Seq<World>,
) -> (cut: int)
    requires
        users.len() > 0,
        conclusion(retag_users(config, users), talk) is Some,
        is_history(worlds, talk),
    ensures
        0 <= cut <= talk.len(),
        conclusion(retag_users(config, users.drop_first()), talk.skip(cut)) == conclusion(
            retag_users(config, users),
            talk,
        ),
        worlds[cut].same_chats(worlds[0]),
        worlds[cut].keys == worlds[0].keys,
        worlds[cut].local == worlds[0].local,
        is_user_id(users[0]) && worlds[0].has_dm(config.bot, users[0]) ==> exists|room: Seq<char>|
            is_served_chat(config, users[0], talk.take(cut), worlds[0], room),
        forall|i: int|
            0 <= i < cut ==> is_read(#[trigger] talk[i].request) || is_tag_for(
                config,
                worlds[0],
                users[0],
                talk[i].request,
            ),
{
    let bot = config.bot;
    let user = users[0];
    let rest = users.drop_first();
    let search = find_room(bot, user);
    // How `retag_found` goes on after the search.
    let after_search = choose|next: spec_fn(Option<Seq<char>>) -> Dialogue<Result<(), FailureView>>|
        retag_found(search, config, users) == #[trigger] search.then_do(next) && (forall|
            found: Option<Seq<char>>,
        | #[trigger]
            next(found) == match found {
                Some(room) => retag_checked(check_room(bot, user, room), config, users, room),
                None => retag_users(config, rest),
            });
    assert(retag_found(search, config, users) == search.then_do(after_search));
    let cut1 = lemma_conversation_parts(search, after_search, talk);
    lemma_history_parts(worlds, talk, cut1);
    law_find_finds_the_first_chat(bot, user, talk.take(cut1), worlds.take(cut1 + 1));
    lemma_find_reads(bot, user, talk.take(cut1));
    assert forall|i: int| 0 <= i < cut1 implies is_read(#[trigger] talk[i].request) by {
        assert(talk.take(cut1)[i] == talk[i]);
    }
    match conclusion(search, talk.take(cut1))->0 {
        None => cut1,
        Some(room) => {
            let rooms = worlds[0].rooms_with(bot, user);
            let i = choose|i: int| #[trigger]
                is_first_chat(worlds[0], bot, user, rooms, i) && rooms[i] == room;
            assert(rooms.contains(room));
            let talk1 = talk.skip(cut1);
            let worlds1 = worlds.skip(cut1);
            let check = check_room(bot, user, room);
            let after_check = |is_dm: bool|
                if is_dm {
                    retag_tagged(
                        tag_room(config.bot, users[0], room, config.room_tags),
                        config,
                        users,
                    )
                } else {
                    retag_users(config, users.drop_first())
                };
            assert(retag_checked(check, config, users, room) == check.then_do(after_check));
            let cut2 = lemma_conversation_parts(check, after_check, talk1);
            lemma_history_parts(worlds1, talk1, cut2);
            law_check_tells_the_chat(bot, user, room, talk1.take(cut2), worlds1.take(cut2 + 1));
            let talk2 = talk1.skip(cut2);
            let worlds2 = worlds1.skip(cut2);
            let tagging = tag_room(bot, user, room, config.room_tags);
            let after_tags = |tagged: ()| retag_users(config, users.drop_first());
            assert(retag_tagged(tagging, config, users) == tagging.then_do(after_tags));
            let cut3 = lemma_conversation_parts(tagging, after_tags, talk2);
            lemma_history_parts(worlds2, talk2, cut3);
            let tags_talk = talk2.take(cut3);
            law_tagging_covers_every_tag(bot, user, room, config.room_tags, tags_talk);
            lemma_tags_keep(worlds2.take(cut3 + 1), tags_talk, bot, user, room);
            let cut = cut1 + cut2 + cut3;
            assert(talk.skip(cut) =~= talk2.skip(cut3));
            assert(talk.take(cut).skip(cut1 + cut2) =~= tags_talk);
            lemma_tagged_in_part(config, user, talk.take(cut), cut1 + cut2, room);
            assert(is_served_chat(config, user, talk.take(cut), worlds[0], room));
            assert(worlds[cut] == worlds2[cut3]);
            assert(finds(worlds[0], bot, user, room));
            lemma_check_reads(bot, user, room, talk1.take(cut2));
            assert forall|i: int| 0 <= i < cut implies is_read(#[trigger] talk[i].request)
                || is_tag_for(config, worlds[0], user, talk[i].request) by {
                if cut1 <= i < cut1 + cut2 {
                    assert(talk1.take(cut2)[i - cut1] == talk[i]);
                } else if i >= cut1 + cut2 {
                    assert(tags_talk[i - cut1 - cut2] == talk[i]);
                    assert(talk[i].request is SetRoomTag);
                }
            }
            cut
        },
    }
}

proof fn lemma_retag_users(
    config: ConfigView,
    users: Seq<Seq<char>>,
    talk: Seq<Exchange>,
    worlds: Seq<World>,
)
    requires
        conclusion(retag_users(config, users), talk) is Some,
        is_history(worlds, talk),
    ensures
        conclusion(retag_users(config, users), talk) == Some(Ok::<(), FailureView>(())),
        worlds.last().same_chats(worlds[0]),
        worlds.last().keys == worlds[0].keys,
        forall|i: int|
            0 <= i < talk.len() ==> is_read(#[trigger] talk[i].request) || is_tag_for_some(
                config,
                worlds[0],
                users,
                talk[i].request,
            ),
        forall|user: Seq<char>| #[trigger]
            users.contains(user) && is_user_id(user) && worlds[0].has_dm(config.bot, user)
                ==> exists|room: Seq<char>| is_served_chat(config, user, talk, worlds[0], room),
    decreases users.len(),
{
    if users.len() > 0 {
        let first = worlds[0];
        let rest = users.drop_first();
        let cut = lemma_retag_one(config, users, talk, worlds);
        lemma_history_parts(worlds, talk, cut);
        let late = talk.skip(cut);
        let mid = worlds[cut];
        lemma_retag_users(config, rest, late, worlds.skip(cut));
        assert forall|i: int| 0 <= i < talk.len() implies is_read(#[trigger] talk[i].request)
            || is_tag_for_some(config, first, users, talk[i].request) by {
            if i < cut {
                assert(users.contains(users[0]));
            } else {
                assert(late[i - cut] == talk[i]);
                if !is_read(talk[i].request) {
                    let user = choose|user: Seq<char>| #[trigger]
                        rest.contains(user) && is_tag_for(config, mid, user, talk[i].request);
                    let k = choose|k: int| 0 <= k < rest.len() && rest[k] == user;
                    assert(users[k + 1] == user);
                    assert(users.contains(user));
                    lemma_same_chats_find(
                        first,
                        mid,
                        config.bot,
                        user,
                        talk[i].request->SetRoomTag_room,
                    );
                }
            }
        }
        assert forall|user: Seq<char>| #[trigger]
            users.contains(user) && is_user_id(user) && first.has_dm(
                config.bot,
                user,
            ) implies exists|room: Seq<char>| is_served_chat(config, user, talk, first, room) by {
            let i = choose|i: int| 0 <= i < users.len() && users[i] == user;
            if i == 0 {
                let room = choose|room: Seq<char>|
                    is_served_chat(config, user, talk.take(cut), first, room);
                lemma_tagged_in_part(config, user, talk, cut, room);
                assert(is_served_chat(config, user, talk, first, room));
            } else {
                assert(rest[i - 1] == user);
                assert(rest.contains(user));
                let k = choose|k: int| #[trigger] first.is_listed_dm(config.bot, user, k);
                assert(mid.is_listed_dm(config.bot, user, k));
                let room = choose|room: Seq<char>| is_served_chat(config, user, late, mid, room);
                lemma_tagged_in_part(config, user, talk, cut, room);
                lemma_same_chats_find(first, mid, config.bot, user, room);
                assert(is_served_chat(config, user, talk, first, room));
            }
        }
    }
}

/// `part` is the tagging of one user's chat. A search is made, and a room that it comes to is
/// checked once more. If it checks out, it gets its tags; in any other case it ends there. The
/// search takes the exchanges up to `searched`, and the check those up to `checked`.
pub open spec fn is_retag(
    config: ConfigView,
    user: Seq<char>,
    part: Seq<Exchange>,
    searched: int,
    checked: int,
) -> bool {
    let found = conclusion(find_room(config.bot, user), part.take(searched));
    &&& 0 <= searched <= part.len()
    &&& found is Some
    &&& found->0 is None ==> part.len() == searched
    &&& found->0 is Some ==> {
        let is_dm = conclusion(
            check_room(config.bot, user, found->0->0),
            part.subrange(searched, checked),
        );
        &&& searched <= checked <= part.len()
        &&& is_dm is Some
        &&& !is_dm->0 ==> part.len() == checked
        &&& is_dm->0 ==> requests(part.skip(checked)) == tag_requests(
            config.bot,
            user,
            found->0->0,
            config.room_tags,
        )
    }
}

/// The part of `talk` from `from` to `to` is the tagging of the user's chat.
pub open spec fn is_retag_part(
    config: ConfigView,
    user: Seq<char>,
    talk: Seq<Exchange>,
    from: int,
    to: int,
) -> bool {
    0 <= from <= to <= talk.len() && exists|searched: int, checked: int| #[trigger]
        is_retag(config, user, talk.subrange(from, to), searched, checked)
}

/// From `cuts[0]` on, `talk` is the tagging of the chat of each of `users`, one after the other and
/// nothing else.
pub open spec fn are_retags(
    config: ConfigView,
    users: Seq<Seq<char>>,
    talk: Seq<Exchange>,
    cuts: Seq<int>,
) -> bool {
    &&& cuts.len() == users.len() + 1
    &&& cuts.last() == talk.len()
    &&& forall|k: int|
        0 <= k < users.len() ==> is_retag_part(
            config,
            #[trigger] users[k],
            talk,
            cuts[k],
            cuts[k + 1],
        )
}

proof fn lemma_retag_part(
    config: ConfigView,
    users: Seq<Seq<char>>,
    talk: Seq<Exchange>,
) -> (cut: int)
    requires
        users.len() > 0,
        conclusion(retag_users(config, users), talk) is Some,
    ensures
        0 <= cut <= talk.len(),
        exists|searched: int, checked: int| #[trigger]
            is_retag(config, users[0], talk.take(cut), searched, checked),
        conclusion(retag_users(config, users.drop_first()), talk.skip(cut)) == conclusion(
            retag_users(config, users),
            talk,
        ),
{
    let bot = config.bot;
    let user = users[0];
    let rest = users.drop_first();
    let search = find_room(bot, user);
    let after_search = choose|next: spec_fn(Option<Seq<char>>) -> Dialogue<Result<(), FailureView>>|
        retag_found(search, config, users) == #[trigger] search.then_do(next) && (forall|
            found: Option<Seq<char>>,
        | #[trigger]
            next(found) == match found {
                Some(room) => retag_checked(check_room(bot, user, room), config, users, room),
                None => retag_users(config, rest),
            });
    assert(retag_found(search, config, users) == search.then_do(after_search));
    let cut1 = lemma_conversation_parts(search, after_search, talk);
    match conclusion(search, talk.take(cut1))->0 {
        None => {
            assert(talk.take(cut1).take(cut1) =~= talk.take(cut1));
            assert(is_retag(config, user, talk.take(cut1), cut1, cut1));
            cut1
        },
        Some(room) => {
            let talk1 = talk.skip(cut1);
            let check = check_room(bot, user, room);
            let tagging = tag_room(bot, user, room, config.room_tags);
            let after_check = |is_dm: bool|
                if is_dm {
                    retag_tagged(
                        tag_room(config.bot, users[0], room, config.room_tags),
                        config,
                        users,
                    )
                } else {
                    retag_users(config, users.drop_first())
                };
            assert(retag_checked(check, config, users, room) == check.then_do(after_check));
            let cut2 = lemma_conversation_parts(check, after_check, talk1);
            let checked = cut1 + cut2;
            let talk2 = talk1.skip(cut2);
            assert(talk2 =~= talk.skip(checked));
            if conclusion(check, talk1.take(cut2))->0 {
                let after_tags = |tagged: ()| retag_users(config, users.drop_first());
                assert(retag_tagged(tagging, config, users) == tagging.then_do(after_tags));
                let cut3 = lemma_conversation_parts(tagging, after_tags, talk2);
                law_tagging_covers_every_tag(bot, user, room, config.room_tags, talk2.take(cut3));
                let cut = checked + cut3;
                let part = talk.take(cut);
                assert(part.take(cut1) =~= talk.take(cut1));
                assert(part.subrange(cut1, checked) =~= talk1.take(cut2));
                assert(part.skip(checked) =~= talk2.take(cut3));
                assert(talk.skip(cut) =~= talk2.skip(cut3));
                assert(is_retag(config, user, part, cut1, checked));
                cut
            } else {
                let part = talk.take(checked);
                assert(part.take(cut1) =~= talk.take(cut1));
                assert(part.subrange(cut1, checked) =~= talk1.take(cut2));
                assert(is_retag(config, user, part, cut1, checked));
                checked
            }
        },
    }
}

proof fn lemma_retag_parts(
    config: ConfigView,
    users: Seq<Seq<char>>,
    talk: Seq<Exchange>,
    from: int,
) -> (cuts: Seq<int>)
    requires
        0 <= from <= talk.len(),
        conclusion(retag_users(config, users), talk.skip(from)) is Some,
    ensures
        cuts.len() > 0,
        cuts[0] == from,
        are_retags(config, users, talk, cuts),
        conclusion(retag_users(config, users), talk.skip(from))->0 is Ok,
    decreases users.len(),
{
    if users.len() == 0 {
        seq![from]
    } else {
        let rest = users.drop_first();
        let late = talk.skip(from);
        let cut = lemma_retag_part(config, users, late);
        let to = from + cut;
        assert(late.take(cut) =~= talk.subrange(from, to));
        assert(late.skip(cut) =~= talk.skip(to));
        let later = lemma_retag_parts(config, rest, talk, to);
        let cuts = seq![from] + later;
        assert(cuts[1] == to);
        assert(is_retag_part(config, users[0], talk, from, to));
        assert forall|k: int| 0 <= k < users.len() implies is_retag_part(
            config,
            #[trigger] users[k],
            talk,
            cuts[k],
            cuts[k + 1],
        ) by {
            if k > 0 {
                assert(rest[k - 1] == users[k]);
                assert(is_retag_part(config, rest[k - 1], talk, later[k - 1], later[k]));
            }
        }
        cuts
    }
}

/// Tagging all chats goes by what is replied, whatever that is: the bot is seen to, the users are
/// listed, and the chat of everyone on the list but the bot is tagged, one after the other. It
/// fails only where the bot cannot be seen to, and then nothing more is asked.
pub proof fn law_retag_goes_user_by_user(
    config: ConfigView,
    talk: Seq<Exchange>,
) -> (course: (int, Seq<int>))
    requires
        config.dm_enabled,
        config.room_tags.len() > 0,
        conclusion(retag(config), talk) is Some,
    ensures
        match conclusion(retag(config), talk)->0 {
            Err(failure) => stops_without_bot(config.bot, talk, failure),
            Ok(()) => {
                let (at, cuts) = course;
                let others = all_but(talk[at].reply->Users_0, config.bot);
                &&& lists_at(config.bot, talk, at)
                &&& cuts.len() > 0
                &&& cuts[0] == at + 1
                &&& are_retags(config, others, talk, cuts)
            },
        },
{
    let listed = retag_listed(config);
    assert(retag(config) == over_users(config.bot, listed));
    let at = lemma_over_users(config.bot, listed, talk);
    if at == -1 {
        (at, Seq::empty())
    } else {
        let others = all_but(talk[at].reply->Users_0, config.bot);
        (at, lemma_retag_parts(config, others, talk, at + 1))
    }
}

/// Where direct chats are disabled, or no tags are configured, nothing is asked, and it succeeds.
pub proof fn law_retag_is_off_where_disabled(config: ConfigView, talk: Seq<Exchange>)
    requires
        !config.dm_enabled || config.room_tags.len() == 0,
        conclusion(retag(config), talk) is Some,
    ensures
        talk.len() == 0,
        conclusion(retag(config), talk) == Some(Ok::<(), FailureView>(())),
{
}

/// The direct chat of every local user but the bot is to get every configured tag, for the user and
/// for the bot; no chat is made, listed or left. Apart from what is read, and the creation of the
/// bot's account, nothing is asked but to put these tags on the rooms that a search comes to for
/// these users. It fails only where the bot's account cannot be
/// created, and then does nothing.
pub proof fn law_retag_reaches_every_dm(
    config: ConfigView,
    talk: Seq<Exchange>,
    worlds: Seq<World>,
) -> (at: int)
    requires
        config.dm_enabled,
        config.room_tags.len() > 0,
        conclusion(retag(config), talk) is Some,
        is_history(worlds, talk),
    ensures
        match conclusion(retag(config), talk)->0 {
            Err(failure) => stops_without_bot(config.bot, talk, failure),
            Ok(()) => lists_at(config.bot, talk, at) && forall|user: Seq<char>| #[trigger]
                talk[at].reply->Users_0.contains(user) && user != config.bot && is_user_id(user)
                    && worlds[0].has_dm(config.bot, user) ==> exists|room: Seq<char>|
                    is_served_chat(config, user, talk, worlds[0], room),
        },
        forall|i: int|
            0 <= i < talk.len() ==> is_read(#[trigger] talk[i].request) || talk[i].request == (
            RequestView::CreateUser { user: config.bot, password: None, origin: None })
                || is_tag_for_some(
                config,
                worlds[0],
                all_but(talk[at].reply->Users_0, config.bot),
                talk[i].request,
            ),
        worlds.last().same_chats(worlds[0]),
        worlds.last().keys == worlds[0].keys,
{
    let bot = config.bot;
    let first = worlds[0];
    let listed = retag_listed(config);
    assert(retag(config) == over_users(bot, listed));
    let at = lemma_over_users(bot, listed, talk);
    if at == -1 {
        assert(serves(worlds[0], talk[0], worlds[1]));
        assert(serves(worlds[1], talk[1], worlds[2]));
        at
    } else {
        let users = talk[at].reply->Users_0;
        let others = all_but(users, bot);
        lemma_history_parts(worlds, talk, at);
        law_bot_has_an_account(bot, talk.take(at), worlds.take(at + 1));
        let mid = worlds[at + 1];
        assert(serves(worlds[at], talk[at], worlds[at + 1]));
        lemma_history_parts(worlds, talk, at + 1);
        let late = talk.skip(at + 1);
        lemma_retag_users(config, others, late, worlds.skip(at + 1));
        lemma_bot_requests(bot, talk.take(at));
        assert forall|i: int| 0 <= i < talk.len() implies is_read(#[trigger] talk[i].request)
            || talk[i].request == create_bot_request(bot) || is_tag_for_some(
            config,
            first,
            others,
            talk[i].request,
        ) by {
            if i < at {
                assert(talk.take(at)[i] == talk[i]);
            } else if i > at {
                assert(late[i - at - 1] == talk[i]);
                if !is_read(talk[i].request) {
                    let user = choose|user: Seq<char>| #[trigger]
                        others.contains(user) && is_tag_for(config, mid, user, talk[i].request);
                    lemma_same_chats_find(
                        first,
                        mid,
                        bot,
                        user,
                        talk[i].request->SetRoomTag_room,
                    );
                }
            }
        }
        assert forall|user: Seq<char>| #[trigger]
            users.contains(user) && user != bot && is_user_id(user) && first.has_dm(
                bot,
                user,
            ) implies exists|room: Seq<char>| is_served_chat(config, user, talk, first, room) by {
            law_everyone_but_the_bot_is_meant(users, bot, user);
            assert(others.contains(user));
            let k = choose|k: int| #[trigger] first.is_listed_dm(bot, user, k);
            assert(mid.is_listed_dm(bot, user, k));
            let room = choose|room: Seq<char>| is_served_chat(config, user, late, mid, room);
            lemma_tagged_in_part(config, user, talk, at + 1, room);
            lemma_same_chats_find(first, mid, config.bot, user, room);
            assert(is_served_chat(config, user, talk, first, room));
        }
        at
    }
}

} // verus!
