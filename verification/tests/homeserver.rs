use announcements::backfill::{
    backfill_announcements_dm_room_tags, backfill_announcements_dms_for_all_local_users,
    UserFailure,
};
use announcements::creation::{create_announcements_dm_room, DM_ROOM_VERSION};
use announcements::dialogue::{Step, Task};
use announcements::direct::DirectRooms;
use announcements::provision::{ensure_announcements_bot_user, ensure_announcements_dm_for_user};
use announcements::rooms::{
    apply_announcements_dm_room_tags, find_announcements_dm_room, merge_m_direct,
    room_is_announcements_dm_for_user,
};
use announcements::service::{
    reply_answers, Config, Content, Failure, GuestAccess, HistoryVisibility, JoinRule, Membership,
    Message, PowerLevels, Reply, Request, RoomVersion, ServiceReply, ServiceRequest, StateContent,
    StateEvent,
};
use announcements::text::ServerName;
use announcements::welcome::{
    append_room_message, send_welcome_once_if_configured, welcome_sent_key,
};
use std::collections::{BTreeMap, BTreeSet};

const BOT: &str = "@system_notices:example.org";
const ALICE: &str = "@alice:example.org";
const BORIS: &str = "@boris:example.org";
const WELCOME: &str = "/etc/welcome.md";

/// A homeserver that does as it is asked, but for what is set to fail.
struct Server {
    local: BTreeSet<String>,
    accounts: BTreeSet<String>,
    direct: BTreeMap<String, BTreeMap<String, Vec<String>>>,
    members: BTreeMap<String, BTreeSet<String>>,
    states: BTreeMap<String, Vec<StateEvent<String>>>,
    messages: Vec<(String, String, Content<String>)>,
    tags: BTreeSet<(String, String, String)>,
    keys: BTreeSet<Vec<u8>>,
    files: BTreeMap<Vec<u8>, String>,
    locked: Option<String>,
    /// The rooms that were given a short ID, in order.
    made: Vec<String>,
    fails: fn(&ServiceRequest) -> bool,
    asked: Vec<ServiceRequest>,
}

fn text(of: &str) -> String {
    of.to_owned()
}

fn failure() -> Failure<String> {
    Failure {
        not_found: false,
        status: 500,
        code: text("M_UNKNOWN"),
        message: text("out of order"),
    }
}

fn nothing_fails(_: &ServiceRequest) -> bool {
    false
}

fn config() -> Config {
    Config {
        server_name: ServerName::parse("example.org").unwrap(),
        bot: text(BOT),
        dm_enabled: true,
        room_name: text("Notices"),
        room_topic: text("What the server has to say"),
        room_tags: vec![text("m.server_notice"), String::new(), text("u.notices")],
        federate: false,
        welcome_path: Some(WELCOME.as_bytes().to_vec()),
    }
}

impl Server {
    fn new() -> Server {
        let users = [text(ALICE), text(BORIS)];
        Server {
            local: users.iter().cloned().chain([text(BOT)]).collect(),
            accounts: users.iter().cloned().collect(),
            direct: BTreeMap::new(),
            members: BTreeMap::new(),
            states: BTreeMap::new(),
            messages: Vec::new(),
            tags: BTreeSet::new(),
            keys: BTreeSet::new(),
            files: [(WELCOME.as_bytes().to_vec(), text("\n  Welcome, **friend**!  \n"))]
                .into_iter()
                .collect(),
            locked: None,
            made: Vec::new(),
            fails: nothing_fails,
            asked: Vec::new(),
        }
    }

    /// A room that the given users have joined, listed by the bot for `user`.
    fn with_listed_room(mut self, user: &str, room: &str, joined: &[&str]) -> Server {
        self.members.insert(text(room), joined.iter().map(|id| text(id)).collect());
        let lists = self.direct.entry(text(BOT)).or_default();
        lists.entry(text(user)).or_default().push(text(room));
        self
    }

    fn failing(mut self, fails: fn(&ServiceRequest) -> bool) -> Server {
        self.fails = fails;
        self
    }

    fn is_joined(&self, user: &str, room: &str) -> bool {
        self.members.get(room).is_some_and(|joined| joined.contains(user))
    }

    fn rooms_with(&self, owner: &str, peer: &str) -> Vec<String> {
        let lists = self.direct.get(owner);
        lists.and_then(|lists| lists.get(peer)).cloned().unwrap_or_default()
    }

    fn done(&mut self, fails: bool, act: impl FnOnce(&mut Server)) -> ServiceReply {
        if fails {
            return Reply::Done(Err(failure()));
        }
        act(self);
        Reply::Done(Ok(()))
    }

    fn reply(&mut self, request: &ServiceRequest) -> ServiceReply {
        let fails = (self.fails)(request);
        match request {
            Request::IsLocal { user } => Reply::Flag(self.local.contains(user)),
            Request::UserExists { user } => Reply::Flag(self.accounts.contains(user)),
            Request::CreateUser { user, password: None, origin: None } => {
                self.done(fails, |server| {
                    server.accounts.insert(user.clone());
                })
            }
            Request::GetDirect { owner } => Reply::Direct(self.direct.get(owner).map(|lists| {
                lists.iter().fold(DirectRooms::new(), |direct, (peer, rooms)| {
                    direct.with_rooms(peer.clone(), rooms.clone())
                })
            })),
            Request::UpdateDirect { owner, direct } => {
                let copy = lists_of(direct);
                self.done(fails, |server| {
                    server.direct.insert(owner.clone(), copy);
                })
            }
            Request::JoinedCount { room } => {
                Reply::Count(self.members.get(room).map(|joined| joined.len() as u64))
            }
            Request::IsJoined { user, room } => Reply::Flag(self.is_joined(user, room)),
            Request::SetRoomTag { owner, room, tag, info: None } => self.done(fails, |server| {
                server.tags.insert((owner.clone(), room.clone(), tag.clone()));
            }),
            Request::ShortRoomId { room } => {
                assert!(!self.members.contains_key(room));
                self.made.push(room.clone());
                Reply::Ack
            }
            Request::LockRoom { room } => {
                assert_eq!(self.locked, None);
                self.locked = Some(room.clone());
                Reply::Ack
            }
            Request::UnlockRoom { room } => {
                assert_eq!(self.locked.as_ref(), Some(room));
                self.locked = None;
                Reply::Ack
            }
            Request::AppendState { room, sender, event } => {
                assert_eq!(self.locked.as_ref(), Some(room));
                assert_eq!(sender, BOT);
                let copy = copy_of(event);
                self.done(fails, |server| {
                    if copy.content == (StateContent::Member { membership: Membership::Join }) {
                        let joined = server.members.entry(room.clone()).or_default();
                        joined.insert(copy.state_key.clone());
                    }
                    server.states.entry(room.clone()).or_default().push(copy);
                })
            }
            Request::AppendMessage { room, sender, content } => {
                assert_eq!(self.locked.as_ref(), Some(room));
                let copy = match content {
                    Content::Text(message) => Content::Text(Message {
                        body: message.body.clone(),
                        formatted_body: message.formatted_body.clone(),
                    }),
                    Content::Json(json) => Content::Json(json.clone()),
                };
                self.done(fails, |server| {
                    server.messages.push((room.clone(), sender.clone(), copy));
                })
            }
            Request::Invite { sender, reason: None, is_direct, .. } => {
                assert_eq!(self.locked, None);
                assert_eq!(sender, BOT);
                assert!(is_direct);
                self.done(fails, |_| {})
            }
            Request::Join { user, room, .. } => {
                assert_eq!(self.locked.as_ref(), Some(room));
                self.done(fails, |server| {
                    let joined = server.members.entry(room.clone()).or_default();
                    joined.insert(user.clone());
                })
            }
            Request::GetKey { key } => {
                if fails {
                    Reply::Done(Err(failure()))
                } else if self.keys.contains(key) {
                    Reply::Done(Ok(()))
                } else {
                    Reply::Done(Err(Failure {
                        not_found: true,
                        status: 404,
                        code: text("M_NOT_FOUND"),
                        message: text("no such key"),
                    }))
                }
            }
            Request::InsertKey { key } => {
                self.keys.insert(key.clone());
                Reply::Ack
            }
            Request::ReadFile { path } => {
                Reply::Text(if fails { None } else { self.files.get(path).cloned() })
            }
            Request::ListLocalUsers => Reply::Users(self.accounts.iter().cloned().collect()),
            _ => unreachable!(),
        }
    }

    fn run<P: Task>(&mut self, config: &Config, step: Step<P, P::Output>) -> P::Output {
        let mut step = step;
        loop {
            match step {
                Step::Return(output) => {
                    assert_eq!(self.locked, None);
                    return output;
                }
                Step::Ask(request, task) => {
                    let reply = self.reply(&request);
                    assert!(reply_answers(&request, &reply));
                    self.asked.push(request);
                    step = task.resume(config, reply);
                }
            }
        }
    }

    fn ensure(&mut self, config: &Config, user: &str) -> Result<(), Failure<String>> {
        self.asked.clear();
        self.run(config, ensure_announcements_dm_for_user(config, &text(user)))
    }

    fn welcome(&mut self, config: &Config, user: &str) -> Result<(), Failure<String>> {
        self.asked.clear();
        self.run(config, send_welcome_once_if_configured(config, &text(user)))
    }
}

fn lists_of(direct: &DirectRooms) -> BTreeMap<String, Vec<String>> {
    direct.entries().iter().map(|entry| (entry.peer.clone(), entry.rooms.clone())).collect()
}

fn copy_of(event: &StateEvent<String>) -> StateEvent<String> {
    let content = match &event.content {
        StateContent::Create { creator, federate, room_version } => StateContent::Create {
            creator: creator.clone(),
            federate: *federate,
            room_version: *room_version,
        },
        StateContent::Member { membership } => StateContent::Member { membership: *membership },
        StateContent::PowerLevels(levels) => {
            StateContent::PowerLevels(PowerLevels { user: levels.user.clone(), ..*levels })
        }
        StateContent::JoinRules { join_rule } => StateContent::JoinRules { join_rule: *join_rule },
        StateContent::HistoryVisibility { history_visibility } => {
            StateContent::HistoryVisibility { history_visibility: *history_visibility }
        }
        StateContent::GuestAccess { guest_access } => {
            StateContent::GuestAccess { guest_access: *guest_access }
        }
        StateContent::Name { name } => StateContent::Name { name: name.clone() },
        StateContent::Topic { topic } => StateContent::Topic { topic: topic.clone() },
        StateContent::PreviewUrls { disabled } => {
            StateContent::PreviewUrls { disabled: *disabled }
        }
    };
    StateEvent { state_key: event.state_key.clone(), content }
}

fn is_building(request: &ServiceRequest) -> bool {
    matches!(
        request,
        Request::ShortRoomId { .. }
            | Request::AppendState { .. }
            | Request::Invite { .. }
            | Request::Join { .. }
            | Request::UpdateDirect { .. }
    )
}

// The check and the search

#[test]
fn a_room_of_the_two_is_a_direct_chat() {
    let config = config();
    let mut server = Server::new().with_listed_room(ALICE, "!1:example.org", &[ALICE, BOT]);
    let step = room_is_announcements_dm_for_user(&config, &text(ALICE), &text("!1:example.org"));
    assert!(server.run(&config, step));
    assert_eq!(
        server.asked,
        vec![
            Request::JoinedCount { room: text("!1:example.org") },
            Request::IsJoined { user: text(ALICE), room: text("!1:example.org") },
            Request::IsJoined { user: text(BOT), room: text("!1:example.org") },
        ]
    );
}

#[test]
fn a_room_of_others_is_no_direct_chat() {
    let config = config();
    let cases: [&[&str]; 5] =
        [&[ALICE], &[ALICE, BORIS], &[BORIS, BOT], &[ALICE, BORIS, BOT], &[]];
    for joined in cases {
        let mut server = Server::new().with_listed_room(ALICE, "!1:example.org", joined);
        let step =
            room_is_announcements_dm_for_user(&config, &text(ALICE), &text("!1:example.org"));
        assert!(!server.run(&config, step));
    }
    let step = room_is_announcements_dm_for_user(&config, &text(ALICE), &text("!2:example.org"));
    assert!(!Server::new().run(&config, step));
}

#[test]
fn the_bot_has_no_direct_chat_with_itself() {
    let config = config();
    let mut server = Server::new();
    let step = room_is_announcements_dm_for_user(&config, &text(BOT), &text("!1:example.org"));
    assert!(!server.run(&config, step));
    assert!(server.asked.is_empty());
}

#[test]
fn the_search_comes_to_the_first_chat() {
    let config = config();
    let mut server = Server::new()
        .with_listed_room(ALICE, "!1:example.org", &[BOT])
        .with_listed_room(ALICE, "!2:example.org", &[ALICE, BOT])
        .with_listed_room(ALICE, "!3:example.org", &[ALICE, BOT])
        .with_listed_room(BORIS, "!4:example.org", &[BORIS, BOT]);
    let found = server.run(&config, find_announcements_dm_room(&config, &text(ALICE)));
    assert_eq!(found, Some(text("!2:example.org")));
    let found = server.run(&config, find_announcements_dm_room(&config, &text(BORIS)));
    assert_eq!(found, Some(text("!4:example.org")));
}

#[test]
fn the_search_may_come_to_nothing() {
    let config = config();
    let mut server = Server::new();
    assert_eq!(server.run(&config, find_announcements_dm_room(&config, &text(ALICE))), None);
    let mut server = Server::new().with_listed_room(ALICE, "!1:example.org", &[ALICE]);
    assert_eq!(server.run(&config, find_announcements_dm_room(&config, &text(ALICE))), None);
    assert_eq!(server.run(&config, find_announcements_dm_room(&config, &text(BORIS))), None);
}

// Tags and lists

#[test]
fn every_tag_is_put_for_both() {
    let config = config();
    let mut server = Server::new();
    let step = apply_announcements_dm_room_tags(&config, &text("!1:example.org"), &text(ALICE));
    server.run(&config, step);
    let set = |owner: &str, tag: &str| Request::SetRoomTag {
        owner: text(owner),
        room: text("!1:example.org"),
        tag: text(tag),
        info: None,
    };
    assert_eq!(
        server.asked,
        vec![
            set(ALICE, "m.server_notice"),
            set(BOT, "m.server_notice"),
            set(ALICE, "u.notices"),
            set(BOT, "u.notices"),
        ]
    );
}

#[test]
fn a_tag_that_fails_keeps_no_other_back() {
    let config = config();
    let mut server = Server::new()
        .failing(|request| matches!(request, Request::SetRoomTag { owner, .. } if owner == ALICE));
    let step = apply_announcements_dm_room_tags(&config, &text("!1:example.org"), &text(ALICE));
    server.run(&config, step);
    assert_eq!(server.asked.len(), 4);
    assert_eq!(server.tags.len(), 2);
}

#[test]
fn without_tags_nothing_is_asked() {
    let config = Config { room_tags: Vec::new(), ..config() };
    let mut server = Server::new();
    let step = apply_announcements_dm_room_tags(&config, &text("!1:example.org"), &text(ALICE));
    server.run(&config, step);
    assert!(server.asked.is_empty());
}

#[test]
fn a_room_is_listed_once() {
    let config = config();
    let mut server = Server::new();
    for room in ["!1:example.org", "!2:example.org", "!1:example.org"] {
        let step = merge_m_direct(&config, &text(BOT), &text(ALICE), &text(room));
        assert_eq!(server.run(&config, step), Ok(()));
    }
    assert_eq!(
        server.rooms_with(BOT, ALICE),
        vec![text("!1:example.org"), text("!2:example.org")]
    );
    assert!(server.rooms_with(ALICE, BOT).is_empty());
}

#[test]
fn a_failure_to_list_is_told() {
    let config = config();
    let mut server =
        Server::new().failing(|request| matches!(request, Request::UpdateDirect { .. }));
    let step = merge_m_direct(&config, &text(BOT), &text(ALICE), &text("!1:example.org"));
    assert_eq!(server.run(&config, step), Err(failure()));
    assert!(server.rooms_with(BOT, ALICE).is_empty());
}

// The making of a chat

#[test]
fn a_new_chat_has_its_initial_state() {
    let config = config();
    let mut server = Server::new();
    assert_eq!(
        server.run(&config, create_announcements_dm_room(&config, &text(ALICE))),
        Ok(())
    );
    let none = String::new;
    let event = |content: StateContent<String>| StateEvent { state_key: none(), content };
    let expected = vec![
        event(StateContent::Create {
            creator: None,
            federate: false,
            room_version: RoomVersion::V11,
        }),
        StateEvent {
            state_key: text(BOT),
            content: StateContent::Member { membership: Membership::Join },
        },
        event(StateContent::PowerLevels(PowerLevels {
            ban: 50,
            events_default: 50,
            invite: 50,
            kick: 50,
            redact: 50,
            state_default: 50,
            user: text(BOT),
            user_level: 100,
            users_default: 0,
        })),
        event(StateContent::JoinRules { join_rule: JoinRule::Invite }),
        event(StateContent::HistoryVisibility {
            history_visibility: HistoryVisibility::Shared,
        }),
        event(StateContent::GuestAccess { guest_access: GuestAccess::Forbidden }),
        event(StateContent::Name { name: text("Notices") }),
        event(StateContent::Topic { topic: text("What the server has to say") }),
        event(StateContent::PreviewUrls { disabled: true }),
    ];
    assert_eq!(DM_ROOM_VERSION, RoomVersion::V11);
    assert_eq!(server.states[&server.made[0]], expected);
}

#[test]
fn a_new_chat_is_built_in_order() {
    let config = config();
    let mut server = Server::new();
    server.run(&config, create_announcements_dm_room(&config, &text(ALICE))).unwrap();
    let room = || server.made[0].clone();
    assert!(room().starts_with('!') && room().ends_with(":example.org"));
    let asked = &server.asked;
    assert_eq!(asked[0], Request::ShortRoomId { room: room() });
    assert_eq!(asked[1], Request::LockRoom { room: room() });
    assert!(asked[2..11].iter().all(|r| matches!(r, Request::AppendState { .. })));
    assert_eq!(asked[11], Request::UnlockRoom { room: room() });
    assert_eq!(
        asked[12],
        Request::Invite {
            sender: text(BOT),
            user: text(ALICE),
            room: room(),
            reason: None,
            is_direct: true,
        }
    );
    assert_eq!(asked[13], Request::LockRoom { room: room() });
    assert_eq!(
        asked[14],
        Request::Join {
            user: text(ALICE),
            room: room(),
            asked_for: None,
            reason: Some(text("Подключение к каналу системных уведомлений")),
            servers: Vec::new(),
            is_appservice: false,
        }
    );
    assert_eq!(asked[15], Request::UnlockRoom { room: room() });
    assert_eq!(asked[16], Request::GetDirect { owner: text(BOT) });
    assert_eq!(asked[18], Request::GetDirect { owner: text(ALICE) });
    assert_eq!(asked.len(), 24);
    assert_eq!(server.rooms_with(BOT, ALICE), vec![room()]);
    assert_eq!(server.rooms_with(ALICE, BOT), vec![room()]);
    assert!(server.is_joined(ALICE, &room()) && server.is_joined(BOT, &room()));
    assert_eq!(server.tags.len(), 4);
}

#[test]
fn the_making_of_a_chat_stops_at_a_failure() {
    let config = config();
    let cases: [(fn(&ServiceRequest) -> bool, usize); 5] = [
        (
            |r| {
                matches!(r, Request::AppendState { event, .. }
                    if matches!(event.content, StateContent::Create { .. }))
            },
            4,
        ),
        (
            |r| {
                matches!(r, Request::AppendState { event, .. }
                    if matches!(event.content, StateContent::PreviewUrls { .. }))
            },
            12,
        ),
        (|r| matches!(r, Request::Invite { .. }), 13),
        (|r| matches!(r, Request::Join { .. }), 16),
        (|r| matches!(r, Request::UpdateDirect { owner, .. } if owner == ALICE), 20),
    ];
    for (fails, asked) in cases {
        let mut server = Server::new().failing(fails);
        let step = create_announcements_dm_room(&config, &text(ALICE));
        assert_eq!(server.run(&config, step), Err(failure()));
        assert_eq!(server.asked.len(), asked);
        assert_eq!(server.locked, None);
        assert!(server.rooms_with(ALICE, BOT).is_empty());
        assert_eq!(server.rooms_with(BOT, ALICE).is_empty(), asked < 20);
    }
}

#[test]
fn a_tag_that_fails_does_not_fail_the_chat() {
    let config = config();
    let mut server =
        Server::new().failing(|request| matches!(request, Request::SetRoomTag { .. }));
    let step = create_announcements_dm_room(&config, &text(ALICE));
    assert_eq!(server.run(&config, step), Ok(()));
    assert!(server.tags.is_empty());
}

// Messages and the welcome

#[test]
fn a_message_is_appended_under_the_lock() {
    let config = config();
    let mut server = Server::new();
    let message = || Content::Json(text(r#"{"msgtype":"m.notice","body":"Hi"}"#));
    let step = append_room_message(&config, &text(BOT), &text("!1:example.org"), message());
    assert_eq!(server.run(&config, step), Ok(()));
    assert_eq!(server.messages, vec![(text("!1:example.org"), text(BOT), message())]);
    assert_eq!(server.asked.len(), 3);
    let mut server =
        Server::new().failing(|request| matches!(request, Request::AppendMessage { .. }));
    let step = append_room_message(&config, &text(BOT), &text("!1:example.org"), message());
    assert_eq!(server.run(&config, step), Err(failure()));
    assert_eq!(server.asked.len(), 3);
}

#[test]
fn the_record_of_a_welcome_is_per_user() {
    assert_eq!(
        welcome_sent_key(&text(ALICE)),
        b"announcements_welcome_v1\0@alice:example.org".to_vec()
    );
    assert_ne!(welcome_sent_key(&text(ALICE)), welcome_sent_key(&text(BORIS)));
}

#[test]
fn a_user_is_welcomed_once() {
    let config = config();
    let mut server = Server::new().with_listed_room(ALICE, "!1:example.org", &[ALICE, BOT]);
    assert_eq!(server.welcome(&config, ALICE), Ok(()));
    let message = Content::Text(Message {
        body: text("Welcome, **friend**!"),
        formatted_body: Some(text("Welcome, <strong>friend</strong>!")),
    });
    assert_eq!(server.messages, vec![(text("!1:example.org"), text(BOT), message)]);
    assert!(server.keys.contains(&welcome_sent_key(&text(ALICE))));
    assert_eq!(server.welcome(&config, ALICE), Ok(()));
    assert_eq!(server.messages.len(), 1);
    assert_eq!(server.asked, vec![Request::GetKey { key: welcome_sent_key(&text(ALICE)) }]);
}

#[test]
fn there_is_no_welcome_without_a_file() {
    let off = Config { welcome_path: None, ..config() };
    let mut server = Server::new().with_listed_room(ALICE, "!1:example.org", &[ALICE, BOT]);
    assert_eq!(server.welcome(&off, ALICE), Ok(()));
    assert!(server.asked.is_empty());
    server.files.clear();
    assert_eq!(server.welcome(&config(), ALICE), Ok(()));
    server.files.insert(WELCOME.as_bytes().to_vec(), text(" \n\t\u{3000}"));
    assert_eq!(server.welcome(&config(), ALICE), Ok(()));
    assert_eq!(server.asked.len(), 2);
    assert!(server.messages.is_empty());
    assert!(server.keys.is_empty());
}

#[test]
fn there_is_no_welcome_without_a_chat() {
    let config = config();
    let mut server = Server::new();
    assert_eq!(server.welcome(&config, ALICE), Ok(()));
    assert!(server.messages.is_empty());
    assert!(server.keys.is_empty());
}

#[test]
fn a_welcome_that_fails_is_not_recorded() {
    let config = config();
    let mut server = Server::new()
        .with_listed_room(ALICE, "!1:example.org", &[ALICE, BOT])
        .failing(|request| matches!(request, Request::AppendMessage { .. }));
    assert_eq!(server.welcome(&config, ALICE), Ok(()));
    assert!(server.keys.is_empty());
    server.fails = nothing_fails;
    assert_eq!(server.welcome(&config, ALICE), Ok(()));
    assert_eq!(server.messages.len(), 1);
}

#[test]
fn a_record_that_cannot_be_read_fails_the_welcome() {
    let config = config();
    let mut server = Server::new()
        .with_listed_room(ALICE, "!1:example.org", &[ALICE, BOT])
        .failing(|request| matches!(request, Request::GetKey { .. }));
    assert_eq!(server.welcome(&config, ALICE), Err(failure()));
    assert_eq!(server.asked.len(), 1);
}

// The provision

#[test]
fn the_bot_is_created_if_it_is_missing() {
    let config = config();
    let mut server = Server::new();
    assert_eq!(server.run(&config, ensure_announcements_bot_user(&config)), Ok(()));
    assert!(server.accounts.contains(BOT));
    server.asked.clear();
    assert_eq!(server.run(&config, ensure_announcements_bot_user(&config)), Ok(()));
    assert_eq!(server.asked, vec![Request::UserExists { user: text(BOT) }]);
    let mut server =
        Server::new().failing(|request| matches!(request, Request::CreateUser { .. }));
    assert_eq!(server.run(&config, ensure_announcements_bot_user(&config)), Err(failure()));
}

#[test]
fn a_local_user_gets_a_chat_and_a_welcome() {
    let config = config();
    let mut server = Server::new();
    assert_eq!(server.ensure(&config, ALICE), Ok(()));
    assert_eq!(server.rooms_with(BOT, ALICE), vec![server.made[0].clone()]);
    assert_eq!(server.messages.len(), 1);
    assert_eq!(server.messages[0].0, server.made[0]);
}

#[test]
fn a_second_provision_makes_nothing() {
    let config = config();
    let mut server = Server::new();
    server.ensure(&config, ALICE).unwrap();
    assert_eq!(server.ensure(&config, ALICE), Ok(()));
    assert!(!server.asked.iter().any(is_building));
    assert_eq!(server.made.len(), 1);
    assert_eq!(server.messages.len(), 1);
    assert_eq!(server.asked.iter().filter(|r| matches!(r, Request::SetRoomTag { .. })).count(), 4);
}

#[test]
fn the_chat_that_is_found_is_tagged_and_stays() {
    let config = config();
    let mut server = Server::new()
        .with_listed_room(ALICE, "!1:example.org", &[ALICE])
        .with_listed_room(ALICE, "!2:example.org", &[ALICE, BOT])
        .with_listed_room(ALICE, "!3:example.org", &[ALICE, BOT]);
    assert_eq!(server.ensure(&config, ALICE), Ok(()));
    assert!(server.accounts.contains(BOT));
    assert_eq!(server.tags.len(), 4);
    assert!(server.tags.iter().all(|(_, room, _)| room == "!2:example.org"));
    let found = server.run(&config, find_announcements_dm_room(&config, &text(ALICE)));
    assert_eq!(found, Some(text("!2:example.org")));
}

#[test]
fn a_chat_is_tagged_though_the_welcome_fails() {
    let config = config();
    let mut server = Server::new()
        .with_listed_room(ALICE, "!1:example.org", &[ALICE, BOT])
        .failing(|request| matches!(request, Request::GetKey { .. }));
    assert_eq!(server.ensure(&config, ALICE), Err(failure()));
    assert_eq!(server.tags.len(), 4);
    assert_eq!(
        server.asked.last(),
        Some(&Request::GetKey { key: welcome_sent_key(&text(ALICE)) })
    );
}

#[test]
fn a_path_need_not_be_text() {
    let path = b"/etc/\xff".to_vec();
    let config = Config { welcome_path: Some(path.clone()), ..config() };
    let mut server = Server::new().with_listed_room(ALICE, "!1:example.org", &[ALICE, BOT]);
    server.files.insert(path.clone(), text("Hello"));
    assert_eq!(server.welcome(&config, ALICE), Ok(()));
    assert_eq!(server.asked[1], Request::ReadFile { path });
    assert_eq!(server.messages.len(), 1);
}

#[test]
fn a_chat_that_someone_left_is_replaced() {
    let config = config();
    let mut server = Server::new().with_listed_room(ALICE, "!1:example.org", &[BOT]);
    assert_eq!(server.ensure(&config, ALICE), Ok(()));
    assert_eq!(
        server.rooms_with(BOT, ALICE),
        vec![text("!1:example.org"), server.made[0].clone()]
    );
    let found = server.run(&config, find_announcements_dm_room(&config, &text(ALICE)));
    assert_eq!(found, Some(server.made[0].clone()));
}

#[test]
fn some_are_not_provided_for() {
    let off = Config { dm_enabled: false, ..config() };
    let mut server = Server::new();
    assert_eq!(server.ensure(&off, ALICE), Ok(()));
    assert!(server.asked.is_empty());
    assert_eq!(server.ensure(&config(), BOT), Ok(()));
    assert!(server.asked.is_empty());
    assert_eq!(server.ensure(&config(), "@carol:elsewhere.org"), Ok(()));
    assert_eq!(server.asked, vec![Request::IsLocal { user: text("@carol:elsewhere.org") }]);
}

#[test]
fn without_a_bot_nothing_is_provided() {
    let config = config();
    let mut server =
        Server::new().failing(|request| matches!(request, Request::CreateUser { .. }));
    assert_eq!(server.ensure(&config, ALICE), Err(failure()));
    assert_eq!(server.asked.len(), 3);
}

#[test]
fn a_chat_that_cannot_be_made_fails_the_provision() {
    let config = config();
    let mut server = Server::new().failing(|request| matches!(request, Request::Join { .. }));
    assert_eq!(server.ensure(&config, ALICE), Err(failure()));
    assert!(server.messages.is_empty());
}

#[test]
fn a_provision_that_fails_takes_no_chat_away() {
    let config = config();
    let mut server = Server::new().with_listed_room(ALICE, "!1:example.org", &[ALICE, BOT]);
    for fails in [
        |request: &ServiceRequest| matches!(request, Request::AppendState { .. }),
        |request: &ServiceRequest| matches!(request, Request::Invite { .. }),
        |request: &ServiceRequest| matches!(request, Request::UpdateDirect { .. }),
    ] {
        server.fails = fails;
        assert_eq!(server.ensure(&config, BORIS), Err(failure()));
        let found = server.run(&config, find_announcements_dm_room(&config, &text(ALICE)));
        assert_eq!(found, Some(text("!1:example.org")));
    }
}

// All users

#[test]
fn everyone_but_the_bot_gets_a_chat() {
    let config = config();
    let mut server = Server::new();
    server.accounts.insert(text(BOT));
    let step = backfill_announcements_dms_for_all_local_users(&config);
    assert_eq!(server.run(&config, step), Ok(Vec::new()));
    assert_eq!(server.rooms_with(BOT, ALICE), vec![server.made[0].clone()]);
    assert_eq!(server.rooms_with(BOT, BORIS), vec![server.made[1].clone()]);
    assert_eq!(server.made.len(), 2);
    assert_eq!(server.messages.len(), 2);
    assert!(!server.asked.contains(&Request::IsLocal { user: text(BOT) }));
}

#[test]
fn going_over_the_users_again_makes_nothing() {
    let config = config();
    let mut server = Server::new();
    let step = backfill_announcements_dms_for_all_local_users(&config);
    server.run(&config, step).unwrap();
    server.asked.clear();
    let step = backfill_announcements_dms_for_all_local_users(&config);
    assert_eq!(server.run(&config, step), Ok(Vec::new()));
    assert!(!server.asked.iter().any(is_building));
    assert_eq!(server.messages.len(), 2);
}

#[test]
fn what_fails_for_one_user_does_not_stop_the_others() {
    let config = config();
    let mut server = Server::new()
        .failing(|request| matches!(request, Request::Join { user, .. } if user == ALICE));
    let step = backfill_announcements_dms_for_all_local_users(&config);
    let failed = vec![UserFailure { user: text(ALICE), failure: failure() }];
    assert_eq!(server.run(&config, step), Ok(failed));
    assert!(server.rooms_with(BOT, ALICE).is_empty());
    assert_eq!(server.rooms_with(BOT, BORIS), vec![server.made[1].clone()]);
}

#[test]
fn going_over_the_users_needs_the_bot() {
    let config = config();
    let mut server =
        Server::new().failing(|request| matches!(request, Request::CreateUser { .. }));
    let step = backfill_announcements_dms_for_all_local_users(&config);
    assert_eq!(server.run(&config, step), Err(failure()));
    let step = backfill_announcements_dm_room_tags(&config);
    assert_eq!(server.run(&config, step), Err(failure()));
    assert_eq!(server.asked.len(), 4);
}

#[test]
fn going_over_the_users_can_be_off() {
    let off = Config { dm_enabled: false, ..config() };
    let mut server = Server::new();
    let step = backfill_announcements_dms_for_all_local_users(&off);
    assert_eq!(server.run(&off, step), Ok(Vec::new()));
    let step = backfill_announcements_dm_room_tags(&off);
    assert_eq!(server.run(&off, step), Ok(()));
    let untagged = Config { room_tags: Vec::new(), ..config() };
    let step = backfill_announcements_dm_room_tags(&untagged);
    assert_eq!(server.run(&untagged, step), Ok(()));
    assert!(server.asked.is_empty());
}

#[test]
fn every_chat_is_tagged_anew() {
    let config = config();
    let mut server = Server::new()
        .with_listed_room(ALICE, "!1:example.org", &[ALICE])
        .with_listed_room(ALICE, "!2:example.org", &[ALICE, BOT])
        .with_listed_room(BORIS, "!3:example.org", &[BORIS, BOT]);
    let step = backfill_announcements_dm_room_tags(&config);
    assert_eq!(server.run(&config, step), Ok(()));
    let mut expected = BTreeSet::new();
    for (user, room) in [(ALICE, "!2:example.org"), (BORIS, "!3:example.org")] {
        for owner in [user, BOT] {
            for tag in ["m.server_notice", "u.notices"] {
                expected.insert((text(owner), text(room), text(tag)));
            }
        }
    }
    assert_eq!(server.tags, expected);
    assert!(!server.asked.iter().any(is_building));
    assert!(server.messages.is_empty());
}

#[test]
fn who_has_no_chat_is_not_tagged() {
    let config = config();
    let mut server = Server::new().with_listed_room(BORIS, "!3:example.org", &[BORIS, BOT]);
    let step = backfill_announcements_dm_room_tags(&config);
    assert_eq!(server.run(&config, step), Ok(()));
    assert_eq!(server.tags.len(), 4);
    assert!(server.rooms_with(BOT, ALICE).is_empty());
}
