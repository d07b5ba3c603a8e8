//! The direct chats between users and the bot: which rooms they are, how one is found, tagged, and
//! listed in `m.direct`.
use crate::dialogue::{follows, group_then_do, Dialogue, Progress, Step, Task};
use crate::direct::{rooms_of_user, with_room, DirectRooms, DirectView};
use crate::service::{
    outcome, Config, ConfigView, Failure, FailureView, Reply, ReplyView, Request, ServiceReply,
};
use crate::text::{optional_text, texts};
use vstd::prelude::*;

verus! {

broadcast use group_then_do;

// ---------------------------------------------------------------------------
// Is a room the direct chat of a user and the bot?

/// The room is joined by two users, and these are `user` and the bot.
pub open spec fn check_room(bot: Seq<char>, user: Seq<char>, room: Seq<char>) -> Dialogue<bool> {
    if user == bot {
        Dialogue::Return(false)
    } else {
        Dialogue::Ask(
            Request::JoinedCount { room },
            |reply: ReplyView|
                if reply->Count_0 == Some(2u64) {
                    check_user(bot, user, room)
                } else {
                    Dialogue::Return(false)
                },
        )
    }
}

/// Both `user` and the bot have joined the room.
pub open spec fn check_user(bot: Seq<char>, user: Seq<char>, room: Seq<char>) -> Dialogue<bool> {
    Dialogue::Ask(
        Request::IsJoined { user, room },
        |reply: ReplyView|
            if reply->Flag_0 {
                check_bot(bot, room)
            } else {
                Dialogue::Return(false)
            },
    )
}

/// The bot has joined the room.
pub open spec fn check_bot(bot: Seq<char>, room: Seq<char>) -> Dialogue<bool> {
    Dialogue::Ask(
        Request::IsJoined { user: bot, room },
        |reply: ReplyView| Dialogue::Return(reply->Flag_0),
    )
}

enum RoomCheckStage {
    Count,
    User,
    Bot,
}

/// The check of one room, in progress.
pub struct RoomCheck {
    user: String,
    room: String,
    stage: RoomCheckStage,
}

/// Whether a room is joined by two users, `user_id` and the bot.
pub fn room_is_announcements_dm_for_user(
    config: &Config,
    user_id: &String,
    room_id: &String,
) -> (step: Step<RoomCheck, bool>)
    ensures
        follows(step, config@, check_room(config@.bot, user_id@, room_id@)),
{
    if *user_id == config.bot {
        return Step::Return(false);
    }
    Step::Ask(
        Request::JoinedCount { room: room_id.clone() },
        RoomCheck { user: user_id.clone(), room: room_id.clone(), stage: RoomCheckStage::Count },
    )
}

impl Progress for RoomCheck {
    type Output = bool;

    type Result = bool;

    open spec fn result(output: bool) -> bool {
        output
    }

    closed spec fn rest(self, config: ConfigView) -> Dialogue<bool> {
        match self.stage {
            RoomCheckStage::Count => check_room(config.bot, self.user@, self.room@),
            RoomCheckStage::User => check_user(config.bot, self.user@, self.room@),
            RoomCheckStage::Bot => check_bot(config.bot, self.room@),
        }
    }
}

impl Task for RoomCheck {
    fn resume(self, config: &Config, reply: ServiceReply) -> (step: Step<Self, bool>) {
        match (self.stage, reply) {
            (RoomCheckStage::Count, Reply::Count(count)) => {
                match count {
                    Some(joined) => {
                        if joined != 2 {
                            return Step::Return(false);
                        }
                    },
                    None => {
                        return Step::Return(false);
                    },
                }
                Step::Ask(
                    Request::IsJoined { user: self.user.clone(), room: self.room.clone() },
                    RoomCheck { user: self.user, room: self.room, stage: RoomCheckStage::User },
                )
            },
            (RoomCheckStage::User, Reply::Flag(joined)) => {
                if !joined {
                    return Step::Return(false);
                }
                Step::Ask(
                    Request::IsJoined { user: config.bot.clone(), room: self.room.clone() },
                    RoomCheck { user: self.user, room: self.room, stage: RoomCheckStage::Bot },
                )
            },
            (RoomCheckStage::Bot, Reply::Flag(joined)) => Step::Return(joined),
            _ => vstd::pervasive::unreached(),
        }
    }
}

// ---------------------------------------------------------------------------
// Which room is the direct chat of a user?

/// The first of the rooms that the bot's `m.direct` lists for `user` and that checks out.
pub open spec fn find_room(bot: Seq<char>, user: Seq<char>) -> Dialogue<Option<Seq<char>>> {
    Dialogue::Ask(
        Request::GetDirect { owner: bot },
        |reply: ReplyView|
            match reply->Direct_0 {
                Some(direct) => first_checked(bot, user, rooms_of_user(direct, user)),
                None => Dialogue::Return(None),
            },
    )
}

/// The first of `rooms` that checks out.
pub open spec fn first_checked(
    bot: Seq<char>,
    user: Seq<char>,
    rooms: Seq<Seq<char>>,
) -> Dialogue<Option<Seq<char>>>
    decreases rooms.len(), 1int,
{
    if rooms.len() == 0 {
        Dialogue::Return(None)
    } else {
        first_checked_from(check_room(bot, user, rooms[0]), bot, user, rooms)
    }
}

/// The first of `rooms` that checks out, where `check` is the check of `rooms[0]`.
pub open spec fn first_checked_from(
    check: Dialogue<bool>,
    bot: Seq<char>,
    user: Seq<char>,
    rooms: Seq<Seq<char>>,
) -> Dialogue<Option<Seq<char>>>
    decreases rooms.len(), 0int,
    when rooms.len() > 0
{
    check.then_do(
        |is_dm: bool|
            if is_dm {
                Dialogue::Return(Some(rooms[0]))
            } else {
                first_checked(bot, user, rooms.drop_first())
            },
    )
}

enum RoomSearchStage {
    Direct,
    Check { rooms: Vec<String>, index: usize, check: RoomCheck },
}

/// The search for a user's direct chat, in progress.
pub struct RoomSearch {
    user: String,
    stage: RoomSearchStage,
}

/// Finds the direct chat of `user_id` and the bot, if there is one and it is valid.
pub fn find_announcements_dm_room(config: &Config, user_id: &String) -> (step: Step<
    RoomSearch,
    Option<String>,
>)
    ensures
        follows(step, config@, find_room(config@.bot, user_id@)),
{
    Step::Ask(
        Request::GetDirect { owner: config.bot.clone() },
        RoomSearch { user: user_id.clone(), stage: RoomSearchStage::Direct },
    )
}

impl RoomSearch {
    /// Checks `rooms[index]` and those behind it.
    fn check_from(config: &Config, user: String, rooms: Vec<String>, index: usize) -> (step: Step<
        RoomSearch,
        Option<String>,
    >)
        requires
            index <= rooms.len(),
        ensures
            follows(
                step,
                config@,
                first_checked(config@.bot, user@, texts(rooms@).skip(index as int)),
            ),
    {
        let ghost left = texts(rooms@).skip(index as int);
        let mut i: usize = index;
        while i < rooms.len()
            invariant
                index <= i <= rooms.len(),
                left == texts(rooms@).skip(index as int),
                first_checked(config@.bot, user@, left) == first_checked(
                    config@.bot,
                    user@,
                    texts(rooms@).skip(i as int),
                ),
            decreases rooms.len() - i,
        {
            let ghost here = texts(rooms@).skip(i as int);
            assert(here[0] == rooms@[i as int]@);
            assert(here.drop_first() =~= texts(rooms@).skip(i + 1));
            match room_is_announcements_dm_for_user(config, &user, &rooms[i]) {
                Step::Ask(request, check) => {
                    let stage = RoomSearchStage::Check { rooms, index: i, check };
                    return Step::Ask(request, RoomSearch { user, stage });
                },
                Step::Return(is_dm) => {
                    if is_dm {
                        return Step::Return(Some(rooms[i].clone()));
                    }
                },
            }
            i = i + 1;
        }
        Step::Return(None)
    }
}

impl Progress for RoomSearch {
    type Output = Option<String>;

    type Result = Option<Seq<char>>;

    open spec fn result(output: Option<String>) -> Option<Seq<char>> {
        optional_text(output)
    }

    closed spec fn rest(self, config: ConfigView) -> Dialogue<Option<Seq<char>>> {
        match self.stage {
            RoomSearchStage::Direct => find_room(config.bot, self.user@),
            RoomSearchStage::Check { rooms, index, check } => {
                if index < rooms.len() && check.rest(config) is Ask {
                    first_checked_from(
                        check.rest(config),
                        config.bot,
                        self.user@,
                        texts(rooms@).skip(index as int),
                    )
                } else {
                    Dialogue::Return(None)
                }
            },
        }
    }
}

impl Task for RoomSearch {
    fn resume(self, config: &Config, reply: ServiceReply) -> (step: Step<Self, Option<String>>) {
        match self.stage {
            RoomSearchStage::Direct => {
                match reply {
                    Reply::Direct(Some(direct)) => {
                        let rooms = direct.rooms_of_user(&self.user);
                        assert(texts(rooms@).skip(0) =~= texts(rooms@));
                        Self::check_from(config, self.user, rooms, 0)
                    },
                    Reply::Direct(None) => Step::Return(None),
                    _ => vstd::pervasive::unreached(),
                }
            },
            RoomSearchStage::Check { rooms, index, check } => {
                let ghost left = texts(rooms@).skip(index as int);
                match check.resume(config, reply) {
                    Step::Ask(request, next) => {
                        let stage = RoomSearchStage::Check { rooms, index, check: next };
                        Step::Ask(request, RoomSearch { user: self.user, stage })
                    },
                    Step::Return(is_dm) => {
                        if is_dm {
                            Step::Return(Some(rooms[index].clone()))
                        } else {
                            assert(left.drop_first() =~= texts(rooms@).skip(index + 1));
                            Self::check_from(config, self.user, rooms, index + 1)
                        }
                    },
                }
            },
        }
    }
}

// ---------------------------------------------------------------------------
// The tags of a direct chat

/// Puts each tag that is not empty on the room, for the user and then for the bot, whether or not
/// the one before could be put.
pub open spec fn tag_room(
    bot: Seq<char>,
    user: Seq<char>,
    room: Seq<char>,
    tags: Seq<Seq<char>>,
) -> Dialogue<()>
    decreases tags.len(), 1int,
{
    if tags.len() == 0 {
        Dialogue::Return(())
    } else if tags[0].len() == 0 {
        tag_room(bot, user, room, tags.drop_first())
    } else {
        Dialogue::Ask(
            Request::SetRoomTag { owner: user, room, tag: tags[0], info: None },
            |reply: ReplyView| tag_room_for_bot(bot, user, room, tags),
        )
    }
}

/// The same, once `tags[0]` has been put for the user.
pub open spec fn tag_room_for_bot(
    bot: Seq<char>,
    user: Seq<char>,
    room: Seq<char>,
    tags: Seq<Seq<char>>,
) -> Dialogue<()>
    decreases tags.len(), 0int,
    when tags.len() > 0
{
    Dialogue::Ask(
        Request::SetRoomTag { owner: bot, room, tag: tags[0], info: None },
        |reply: ReplyView| tag_room(bot, user, room, tags.drop_first()),
    )
}

/// The tagging of a room, in progress.
pub struct RoomTagging {
    user: String,
    room: String,
    index: usize,
    for_bot: bool,
}

/// Puts the configured tags on a room, for `user_id` and for the bot.
pub fn apply_announcements_dm_room_tags(
    config: &Config,
    room_id: &String,
    user_id: &String,
) -> (step: Step<RoomTagging, ()>)
    ensures
        follows(step, config@, tag_room(config@.bot, user_id@, room_id@, config@.room_tags)),
{
    assert(config@.room_tags.skip(0) =~= config@.room_tags);
    RoomTagging::tag_from(config, user_id.clone(), room_id.clone(), 0)
}

impl RoomTagging {
    /// Goes on with the first tag from `index` on that is not empty.
    fn tag_from(config: &Config, user: String, room: String, index: usize) -> (step: Step<
        RoomTagging,
        (),
    >)
        requires
            index <= config.room_tags.len(),
        ensures
            follows(
                step,
                config@,
                tag_room(config@.bot, user@, room@, config@.room_tags.skip(index as int)),
            ),
    {
        let mut i: usize = index;
        while i < config.room_tags.len()
            invariant
                index <= i <= config.room_tags.len(),
                tag_room(config@.bot, user@, room@, config@.room_tags.skip(index as int))
                    == tag_room(config@.bot, user@, room@, config@.room_tags.skip(i as int)),
            decreases config.room_tags.len() - i,
        {
            let ghost here = config@.room_tags.skip(i as int);
            assert(here[0] == config.room_tags@[i as int]@);
            assert(here.drop_first() =~= config@.room_tags.skip(i + 1));
            if !config.room_tags[i].as_str().is_empty() {
                let request = Request::SetRoomTag {
                    owner: user.clone(),
                    room: room.clone(),
                    tag: config.room_tags[i].clone(),
                    info: None,
                };
                return Step::Ask(request, RoomTagging { user, room, index: i, for_bot: false });
            }
            i = i + 1;
        }
        Step::Return(())
    }
}

impl Progress for RoomTagging {
    type Output = ();

    type Result = ();

    open spec fn result(output: ()) -> () {
        output
    }

    closed spec fn rest(self, config: ConfigView) -> Dialogue<()> {
        let tags = config.room_tags.skip(self.index as int);
        if self.index >= config.room_tags.len() || tags[0].len() == 0 {
            Dialogue::Return(())
        } else if self.for_bot {
            tag_room_for_bot(config.bot, self.user@, self.room@, tags)
        } else {
            tag_room(config.bot, self.user@, self.room@, tags)
        }
    }
}

impl Task for RoomTagging {
    fn resume(self, config: &Config, reply: ServiceReply) -> (step: Step<Self, ()>) {
        let ghost tags = config@.room_tags.skip(self.index as int);
        assert(self.index < config.room_tags.len());
        if self.for_bot {
            assert(tags.drop_first() =~= config@.room_tags.skip(self.index + 1));
            return Self::tag_from(config, self.user, self.room, self.index + 1);
        }
        let request = Request::SetRoomTag {
            owner: config.bot.clone(),
            room: self.room.clone(),
            tag: config.room_tags[self.index].clone(),
            info: None,
        };
        Step::Ask(request, RoomTagging { for_bot: true, ..self })
    }
}

// ---------------------------------------------------------------------------
// The list of direct chats in a user's account data

/// Lists `room` among the rooms of `peer` in the `m.direct` of `owner`. Where that cannot be had,
/// a new one is begun.
pub open spec fn list_room(
    owner: Seq<char>,
    peer: Seq<char>,
    room: Seq<char>,
) -> Dialogue<Result<(), FailureView>> {
    Dialogue::Ask(
        Request::GetDirect { owner },
        |reply: ReplyView| store_direct(
            owner,
            with_room(
                match reply->Direct_0 {
                    Some(direct) => direct,
                    None => Map::empty(),
                },
                peer,
                room,
            ),
        ),
    )
}

/// Replaces the `m.direct` of `owner`.
pub open spec fn store_direct(owner: Seq<char>, direct: DirectView) -> Dialogue<
    Result<(), FailureView>,
> {
    Dialogue::Ask(
        Request::UpdateDirect { owner, direct },
        |reply: ReplyView| Dialogue::Return(reply->Done_0),
    )
}

enum DirectMergeStage {
    Read { owner: String, peer: String, room: String },
    /// The content that is being stored.
    Store { owner: String, direct: Ghost<DirectView> },
}

/// The listing of a room, in progress.
pub struct DirectMerge {
    stage: DirectMergeStage,
}

/// Lists a room among the direct chats of `owner` with `peer`.
pub fn merge_m_direct(
    config: &Config,
    owner: &String,
    peer: &String,
    room_id: &String,
) -> (step: Step<DirectMerge, Result<(), Failure<String>>>)
    ensures
        follows(step, config@, list_room(owner@, peer@, room_id@)),
{
    let stage = DirectMergeStage::Read {
        owner: owner.clone(),
        peer: peer.clone(),
        room: room_id.clone(),
    };
    Step::Ask(Request::GetDirect { owner: owner.clone() }, DirectMerge { stage })
}

impl Progress for DirectMerge {
    type Output = Result<(), Failure<String>>;

    type Result = Result<(), FailureView>;

    open spec fn result(output: Self::Output) -> Self::Result {
        outcome(output)
    }

    closed spec fn rest(self, config: ConfigView) -> Dialogue<Self::Result> {
        match self.stage {
            DirectMergeStage::Read { owner, peer, room } => list_room(owner@, peer@, room@),
            DirectMergeStage::Store { owner, direct } => store_direct(owner@, direct@),
        }
    }
}

impl Task for DirectMerge {
    fn resume(self, config: &Config, reply: ServiceReply) -> (step: Step<Self, Self::Output>) {
        match (self.stage, reply) {
            (DirectMergeStage::Read { owner, peer, room }, Reply::Direct(found)) => {
                let before = match found {
                    Some(direct) => direct,
                    None => DirectRooms::new(),
                };
                let after = before.with_room(&peer, &room);
                let stage = DirectMergeStage::Store { owner: owner.clone(), direct: Ghost(after@) };
                Step::Ask(Request::UpdateDirect { owner, direct: after }, DirectMerge { stage })
            },
            (DirectMergeStage::Store { .. }, Reply::Done(result)) => Step::Return(result),
            _ => vstd::pervasive::unreached(),
        }
    }
}

} // verus!
