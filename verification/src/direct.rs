//! The content of `m.direct`: for each peer of a user, the rooms held to be direct chats.
use crate::text::{as_user_id, is_user_id, texts};
use vstd::prelude::*;

verus! {

/// For each peer, the rooms listed for it, in their order.
pub type DirectView = Map<Seq<char>, Seq<Seq<char>>>;

/// The rooms listed for one peer.
#[derive(Debug, PartialEq, Eq)]
pub struct DirectEntry {
    pub peer: String,
    pub rooms: Vec<String>,
}

/// The content of an `m.direct` event. No peer is listed twice.
#[derive(Debug, PartialEq, Eq)]
pub struct DirectRooms {
    entries: Vec<DirectEntry>,
}

/// Whether entry `i` is the one of `peer`.
pub open spec fn entry_of(entries: Seq<DirectEntry>, peer: Seq<char>, i: int) -> bool {
    0 <= i < entries.len() && entries[i].peer@ == peer
}

/// No two entries are of the same peer.
pub open spec fn distinct_peers(entries: Seq<DirectEntry>) -> bool {
    forall|i: int, j: int|
        0 <= i < j < entries.len() ==> #[trigger] entries[i].peer@
            != #[trigger] entries[j].peer@
}

/// What a list of entries says of each peer.
pub open spec fn directory(entries: Seq<DirectEntry>) -> DirectView {
    Map::new(
        |peer: Seq<char>| exists|i: int| entry_of(entries, peer, i),
        |peer: Seq<char>| texts(entries[choose|i: int| entry_of(entries, peer, i)].rooms@),
    )
}

/// The rooms listed for `peer`.
pub open spec fn listed(direct: DirectView, peer: Seq<char>) -> Seq<Seq<char>> {
    if direct.contains_key(peer) {
        direct[peer]
    } else {
        Seq::empty()
    }
}

/// The rooms listed for a user: an entry counts where its peer is a user ID, and that user's.
pub open spec fn rooms_of_user(direct: DirectView, user_id: Seq<char>) -> Seq<Seq<char>> {
    if is_user_id(user_id) {
        listed(direct, user_id)
    } else {
        Seq::empty()
    }
}

/// `direct` with `room_id` among the rooms of `peer`, at the end of the list if it is new there.
pub open spec fn with_room(
    direct: DirectView,
    peer: Seq<char>,
    room_id: Seq<char>,
) -> DirectView {
    let rooms = listed(direct, peer);
    direct.insert(
        peer,
        if rooms.contains(room_id) {
            rooms
        } else {
            rooms.push(room_id)
        },
    )
}

/// What an entry says of its peer.
pub proof fn lemma_directory_entry(entries: Seq<DirectEntry>, i: int)
    requires
        0 <= i < entries.len(),
        distinct_peers(entries),
    ensures
        directory(entries).contains_key(entries[i].peer@),
        directory(entries)[entries[i].peer@] == texts(entries[i].rooms@),
{
    let peer = entries[i].peer@;
    assert(entry_of(entries, peer, i));
    let j = choose|j: int| entry_of(entries, peer, j);
    if j < i {
        assert(entries[j].peer@ != entries[i].peer@);
    } else if i < j {
        assert(entries[i].peer@ != entries[j].peer@);
    }
}

proof fn lemma_directory_update(before: Seq<DirectEntry>, after: Seq<DirectEntry>, place: int)
    requires
        distinct_peers(before),
        distinct_peers(after),
        0 <= place <= before.len(),
        after.len() == before.len() || after.len() == before.len() + 1 && place == before.len(),
        place < after.len(),
        place < before.len() ==> before[place].peer@ == after[place].peer@,
        forall|i: int| 0 <= i < before.len() && i != place ==> after[i] == before[i],
    ensures
        directory(after) == directory(before).insert(
            after[place].peer@,
            texts(after[place].rooms@),
        ),
{
    let expected = directory(before).insert(after[place].peer@, texts(after[place].rooms@));
    lemma_directory_entry(after, place);
    assert forall|peer: Seq<char>| #[trigger]
        directory(after).contains_key(peer) <==> expected.contains_key(peer) by {
        if directory(before).contains_key(peer) {
            let i = choose|i: int| entry_of(before, peer, i);
            assert(entry_of(after, peer, i));
        }
        if directory(after).contains_key(peer) && peer != after[place].peer@ {
            let i = choose|i: int| entry_of(after, peer, i);
            assert(entry_of(before, peer, i));
        }
    }
    assert forall|peer: Seq<char>| #[trigger] directory(after).contains_key(peer) implies directory(
        after,
    )[peer] == expected[peer] by {
        if peer != after[place].peer@ {
            let i = choose|i: int| entry_of(after, peer, i);
            lemma_directory_entry(after, i);
            lemma_directory_entry(before, i);
        }
    }
    assert(directory(after).dom() =~= expected.dom());
    assert(directory(after) =~= expected);
}

impl View for DirectRooms {
    type V = DirectView;

    closed spec fn view(&self) -> DirectView {
        directory(self.entries@)
    }
}

/// Whether `room_id` is among `rooms`.
fn lists(rooms: &Vec<String>, room_id: &String) -> (found: bool)
    ensures
        found == texts(rooms@).contains(room_id@),
{
    let mut i: usize = 0;
    while i < rooms.len()
        invariant
            i <= rooms.len(),
            forall|j: int| 0 <= j < i ==> rooms@[j]@ != room_id@,
        decreases rooms.len() - i,
    {
        if rooms[i] == *room_id {
            assert(texts(rooms@)[i as int] == room_id@);
            return true;
        }
        i = i + 1;
    }
    false
}

impl DirectRooms {
    #[verifier::type_invariant]
    spec fn inv(self) -> bool {
        distinct_peers(self.entries@)
    }

    /// No peer, no room.
    pub fn new() -> (direct: DirectRooms)
        ensures
            direct@ == Map::<Seq<char>, Seq<Seq<char>>>::empty(),
    {
        let direct = DirectRooms { entries: Vec::new() };
        assert(direct@ =~= Map::<Seq<char>, Seq<Seq<char>>>::empty());
        direct
    }

    /// The entry of `peer`, or nothing.
    fn find(entries: &Vec<DirectEntry>, peer: &String) -> (index: Option<usize>)
        ensures
            match index {
                Some(i) => i < entries.len() && entries@[i as int].peer@ == peer@,
                None => forall|i: int| 0 <= i < entries.len() ==> entries@[i].peer@ != peer@,
            },
    {
        let mut i: usize = 0;
        while i < entries.len()
            invariant
                i <= entries.len(),
                forall|j: int| 0 <= j < i ==> entries@[j].peer@ != peer@,
            decreases entries.len() - i,
        {
            if entries[i].peer == *peer {
                return Some(i);
            }
            i = i + 1;
        }
        None
    }

    /// The same content, with `rooms` as the rooms of `peer`.
    pub fn with_rooms(self, peer: String, rooms: Vec<String>) -> (direct: DirectRooms)
        ensures
            direct@ == self@.insert(peer@, texts(rooms@)),
    {
        proof {
            use_type_invariant(&self);
        }
        let ghost before = self.entries@;
        let ghost peer_text = peer@;
        let ghost room_texts = texts(rooms@);
        let ghost mut place: int = before.len() as int;
        let mut entries = self.entries;
        match Self::find(&entries, &peer) {
            Some(i) => {
                proof {
                    place = i as int;
                }
                entries.set(i, DirectEntry { peer, rooms });
            },
            None => {
                entries.push(DirectEntry { peer, rooms });
            },
        }
        assert(entry_of(entries@, peer_text, place));
        assert(distinct_peers(entries@));
        proof {
            lemma_directory_update(before, entries@, place);
        }
        DirectRooms { entries }
    }

    /// The same content, with `room_id` among the rooms of `peer`.
    pub fn with_room(self, peer: &String, room_id: &String) -> (direct: DirectRooms)
        ensures
            direct@ == with_room(self@, peer@, room_id@),
    {
        proof {
            use_type_invariant(&self);
        }
        let rooms: Vec<String> = match Self::find(&self.entries, peer) {
            Some(i) => {
                proof {
                    lemma_directory_entry(self.entries@, i as int);
                }
                copied(&self.entries[i].rooms)
            },
            None => {
                Vec::new()
            },
        };
        assert(texts(rooms@) =~= listed(self@, peer@)) by {
            if self@.contains_key(peer@) {
                let i = choose|i: int| entry_of(self.entries@, peer@, i);
                lemma_directory_entry(self.entries@, i);
            }
        }
        if lists(&rooms, room_id) {
            self.with_rooms(peer.clone(), rooms)
        } else {
            let mut longer = rooms;
            longer.push(room_id.clone());
            assert(texts(longer@) =~= texts(rooms@).push(room_id@));
            self.with_rooms(peer.clone(), longer)
        }
    }

    /// The rooms listed for a user.
    pub fn rooms_of_user(&self, user_id: &String) -> (rooms: Vec<String>)
        ensures
            texts(rooms@) == rooms_of_user(self@, user_id@),
    {
        proof {
            use_type_invariant(&self);
        }
        let mut i: usize = 0;
        while i < self.entries.len()
            invariant
                i <= self.entries.len(),
                distinct_peers(self.entries@),
                is_user_id(user_id@) ==> forall|j: int|
                    0 <= j < i ==> self.entries@[j].peer@ != user_id@,
            decreases self.entries.len() - i,
        {
            match as_user_id(self.entries[i].peer.as_str()) {
                Some(peer) => {
                    if peer == *user_id {
                        proof {
                            lemma_directory_entry(self.entries@, i as int);
                        }
                        return copied(&self.entries[i].rooms);
                    }
                },
                None => {},
            }
            i = i + 1;
        }
        let rooms: Vec<String> = Vec::new();
        assert(texts(rooms@) =~= Seq::<Seq<char>>::empty());
        rooms
    }

    /// The entries, one for each peer.
    pub fn entries(&self) -> (entries: &Vec<DirectEntry>)
        ensures
            distinct_peers(entries@),
            directory(entries@) == self@,
    {
        proof {
            use_type_invariant(&self);
        }
        &self.entries
    }
}

/// A copy of a list of texts.
pub(crate) fn copied(strings: &Vec<String>) -> (copy: Vec<String>)
    ensures
        texts(copy@) == texts(strings@),
{
    let mut copy: Vec<String> = Vec::new();
    let mut i: usize = 0;
    while i < strings.len()
        invariant
            i <= strings.len(),
            copy.len() == i,
            forall|j: int| 0 <= j < i ==> #[trigger] copy@[j]@ == strings@[j]@,
        decreases strings.len() - i,
    {
        copy.push(strings[i].clone());
        i = i + 1;
    }
    assert(texts(copy@) =~= texts(strings@));
    copy
}

/// Listing a room twice is listing it once.
pub proof fn law_listing_is_idempotent(direct: DirectView, peer: Seq<char>, room_id: Seq<char>)
    ensures
        with_room(with_room(direct, peer, room_id), peer, room_id) == with_room(
            direct,
            peer,
            room_id,
        ),
{
    let once = with_room(direct, peer, room_id);
    law_listing_adds_the_room(direct, peer, room_id, peer);
    assert(with_room(once, peer, room_id) =~= once);
}

/// A listed room is among the rooms of its peer, those listed before keep their places, and the
/// rooms of every other peer stay as they are.
pub proof fn law_listing_adds_the_room(
    direct: DirectView,
    peer: Seq<char>,
    room_id: Seq<char>,
    other: Seq<char>,
)
    ensures
        listed(with_room(direct, peer, room_id), peer).contains(room_id),
        listed(direct, peer).is_prefix_of(listed(with_room(direct, peer, room_id), peer)),
        other != peer ==> listed(with_room(direct, peer, room_id), other) == listed(
            direct,
            other,
        ),
{
    let rooms = listed(direct, peer);
    if !rooms.contains(room_id) {
        assert(rooms.push(room_id)[rooms.len() as int] == room_id);
    }
}

/// A peer's rooms stay free of repetition when a room is listed.
pub proof fn law_listing_repeats_no_room(direct: DirectView, peer: Seq<char>, room_id: Seq<char>)
    requires
        listed(direct, peer).no_duplicates(),
    ensures
        listed(with_room(direct, peer, room_id), peer).no_duplicates(),
{
}

} // verus!
