//! Laws on the content of `m.direct`.
use crate::direct::{
    directory, distinct_peers, entry_of, lemma_directory_entry, listed, rooms_of_user, with_room,
    DirectEntry, DirectView,
};
use crate::text::is_user_id;
use vstd::prelude::*;

verus! {

/// Listing a room puts it behind those of its peer, unless it is among them. Nothing else changes:
/// no other room comes or goes, and no other peer's rooms do.
pub proof fn law_listing_changes_one_entry(
    direct: DirectView,
    peer: Seq<char>,
    room: Seq<char>,
    rooms: Seq<Seq<char>>,
)
    requires
        direct.contains_key(peer) ==> rooms == direct[peer],
        !direct.contains_key(peer) ==> rooms.len() == 0,
    ensures
        rooms.contains(room) ==> with_room(direct, peer, room) == direct.insert(peer, rooms),
        !rooms.contains(room) ==> with_room(direct, peer, room) == direct.insert(
            peer,
            rooms + seq![room],
        ),
        listed(direct, peer) == rooms,
{
    assert(listed(direct, peer) =~= rooms);
    assert(rooms + seq![room] =~= rooms.push(room));
}

/// A user who is known by a user ID has the rooms listed for it, all of them and in their order.
/// Under any other name no rooms are had.
pub proof fn law_users_have_what_is_listed(direct: DirectView, user: Seq<char>)
    ensures
        is_user_id(user) && direct.contains_key(user) ==> rooms_of_user(direct, user)
            == direct[user],
        !is_user_id(user) || !direct.contains_key(user) ==> rooms_of_user(direct, user)
            == Seq::<Seq<char>>::empty(),
{
}

/// A room that is listed for a user is had by that user, and so is every room from before. Every
/// other user has what they had.
pub proof fn law_listed_rooms_are_had(
    direct: DirectView,
    user: Seq<char>,
    room: Seq<char>,
    other: Seq<char>,
)
    ensures
        is_user_id(user) ==> rooms_of_user(with_room(direct, user, room), user).contains(room),
        is_user_id(user) ==> rooms_of_user(direct, user).is_prefix_of(
            rooms_of_user(with_room(direct, user, room), user),
        ),
        other != user ==> rooms_of_user(with_room(direct, user, room), other) == rooms_of_user(
            direct,
            other,
        ),
{
    let rooms = listed(direct, user);
    if !rooms.contains(room) {
        assert(rooms.push(room)[rooms.len() as int] == room);
    }
}

/// The entries say of each peer who has one the rooms in it, all of them and in their order, and
/// nothing of anyone else.
pub proof fn law_entries_are_what_is_listed(entries: Seq<DirectEntry>, i: int, peer: Seq<char>)
    requires
        distinct_peers(entries),
    ensures
        0 <= i < entries.len() ==> {
            let rooms = directory(entries)[entries[i].peer@];
            &&& directory(entries).contains_key(entries[i].peer@)
            &&& rooms.len() == entries[i].rooms@.len()
            &&& forall|k: int| 0 <= k < rooms.len() ==> #[trigger] rooms[k] == entries[i].rooms@[k]@
        },
        directory(entries).contains_key(peer) ==> exists|k: int|
            0 <= k < entries.len() && #[trigger] entries[k].peer@ == peer,
{
    if 0 <= i < entries.len() {
        lemma_directory_entry(entries, i);
    }
    if directory(entries).contains_key(peer) {
        let k = choose|k: int| entry_of(entries, peer, k);
        assert(entries[k].peer@ == peer);
    }
}

} // verus!
