//! The maps of the `dashmap` crate that hold the rooms.
//!
//! A room maps the users in it to the numbers of their channels; the rooms are
//! themselves in a map. `members_of` and `rooms_of` name what the two kinds of
//! map hold. A map is changed through an exclusive reference only, so what the
//! crate documents of one call on its own is what a caller sees.

use dashmap::mapref::one::Ref;
use dashmap::DashMap;
use vstd::prelude::*;

verus! {

/// `dashmap::DashMap`: a concurrent hash map.
#[verifier::external_type_specification]
#[verifier::external_body]
#[verifier::reject_recursive_types(K)]
#[verifier::reject_recursive_types(V)]
#[verifier::reject_recursive_types(S)]
pub struct ExDashMap<K, V, S>(dashmap::DashMap<K, V, S>);

/// `dashmap::mapref::one::Ref`: a shared reference to one entry of a map.
#[verifier::external_type_specification]
#[verifier::external_body]
#[verifier::reject_recursive_types(K)]
#[verifier::reject_recursive_types(V)]
pub struct ExRef<'a, K, V>(dashmap::mapref::one::Ref<'a, K, V>);

/// The users in a room, each with the number of its channel.
pub uninterp spec fn members_of(room: DashMap<String, u64>) -> Map<Seq<char>, u64>;

/// The rooms, each with the users in it.
pub uninterp spec fn rooms_of(rooms: DashMap<String, DashMap<String, u64>>) -> Map<
    Seq<char>,
    Map<Seq<char>, u64>,
>;

/// The users in the room that an entry refers to.
pub uninterp spec fn members_behind(entry: Ref<'_, String, DashMap<String, u64>>) -> Map<
    Seq<char>,
    u64,
>;

/// `list` holds each entry of `map` once, in any order.
pub open spec fn lists_entries<V>(list: Seq<(String, V)>, map: Map<Seq<char>, V>) -> bool {
    &&& forall|i: int|
        #![trigger list[i]]
        0 <= i < list.len() ==> map.contains_key(list[i].0@) && map[list[i].0@] == list[i].1
    &&& forall|i: int, j: int|
        #![trigger list[i], list[j]]
        0 <= i < j < list.len() ==> list[i].0@ != list[j].0@
    &&& forall|k: Seq<char>| #[trigger]
        map.contains_key(k) ==> exists|i: int|
            #![trigger list[i]]
            0 <= i < list.len() && list[i].0@ == k
}

/// A list of the entries of a map is as long as the map is large.
pub proof fn lemma_lists_entries_len<V>(list: Seq<(String, V)>, map: Map<Seq<char>, V>)
    requires
        lists_entries(list, map),
    ensures
        has_size(map, list.len()),
{
    let keys = list.map_values(|e: (String, V)| e.0@);
    assert(keys.no_duplicates()) by {
        assert forall|i: int, j: int|
            0 <= i < keys.len() && 0 <= j < keys.len() && i != j implies keys[i] != keys[j] by {
            if i < j {
                assert(list[i].0@ != list[j].0@);
            } else {
                assert(list[j].0@ != list[i].0@);
            }
        }
    }
    assert(keys.to_set() =~= map.dom()) by {
        assert forall|k: Seq<char>| keys.to_set().contains(k) <==> map.dom().contains(k) by {
            if keys.to_set().contains(k) {
                let i = choose|i: int| 0 <= i < keys.len() && keys[i] == k;
                assert(list[i].0@ == k);
            }
            if map.contains_key(k) {
                let i = choose|i: int| #![trigger list[i]] 0 <= i < list.len() && list[i].0@ == k;
                assert(keys[i] == k);
            }
        }
    }
    keys.unique_seq_to_set();
}

/// A room with nobody in it.
pub open spec fn nobody() -> Map<Seq<char>, u64> {
    Map::empty()
}

/// No rooms.
pub open spec fn no_rooms() -> Map<Seq<char>, Map<Seq<char>, u64>> {
    Map::empty()
}

/// `map` has `n` entries.
pub open spec fn has_size<V>(map: Map<Seq<char>, V>, n: nat) -> bool {
    map.dom().finite() && map.dom().len() == n
}

/// `DashMap::new` makes a map without entries.
#[verifier::external_body]
pub(crate) fn new_rooms() -> (rooms: DashMap<String, DashMap<String, u64>>)
    ensures
        rooms_of(rooms) == no_rooms(),
{
    DashMap::new()
}

/// `DashMap::new` makes a map without entries.
#[verifier::external_body]
pub(crate) fn new_room() -> (room: DashMap<String, u64>)
    ensures
        members_of(room) == nobody(),
{
    DashMap::new()
}

/// `DashMap::get` refers to the entry of a key, if it has one.
#[verifier::external_body]
pub(crate) fn get_room<'a>(
    rooms: &'a DashMap<String, DashMap<String, u64>>,
    room_id: &str,
) -> (entry: Option<Ref<'a, String, DashMap<String, u64>>>)
    ensures
        entry is Some <==> rooms_of(*rooms).contains_key(room_id@),
        entry matches Some(e) ==> members_behind(e) == rooms_of(*rooms)[room_id@],
{
    rooms.get(room_id)
}

/// `Ref::value` lends the value of the entry.
#[verifier::external_body]
pub(crate) fn entry_room<'a>(
    entry: &'a Ref<'_, String, DashMap<String, u64>>,
) -> (room: &'a DashMap<String, u64>)
    ensures
        members_of(*room) == members_behind(*entry),
{
    entry.value()
}

/// `DashMap::remove` takes the entry of a key out of the map and hands it over.
#[verifier::external_body]
pub(crate) fn take_room(
    rooms: &mut DashMap<String, DashMap<String, u64>>,
    room_id: &str,
) -> (room: Option<DashMap<String, u64>>)
    ensures
        rooms_of(*final(rooms)) == rooms_of(*old(rooms)).remove(room_id@),
        room is Some <==> rooms_of(*old(rooms)).contains_key(room_id@),
        room matches Some(r) ==> members_of(r) == rooms_of(*old(rooms))[room_id@],
{
    rooms.remove(room_id).map(|(_, room)| room)
}

/// `DashMap::insert` sets the value of a key and hands over the value that it
/// had before.
#[verifier::external_body]
pub(crate) fn put_room(
    rooms: &mut DashMap<String, DashMap<String, u64>>,
    room_id: String,
    room: DashMap<String, u64>,
) -> (replaced: Option<DashMap<String, u64>>)
    ensures
        rooms_of(*final(rooms)) == rooms_of(*old(rooms)).insert(room_id@, members_of(room)),
        replaced is Some <==> rooms_of(*old(rooms)).contains_key(room_id@),
        replaced matches Some(r) ==> members_of(r) == rooms_of(*old(rooms))[room_id@],
{
    rooms.insert(room_id, room)
}

/// `DashMap::get` refers to the entry of a key, if it has one.
#[verifier::external_body]
pub(crate) fn get_member(room: &DashMap<String, u64>, user_id: &str) -> (channel: Option<u64>)
    ensures
        channel is Some <==> members_of(*room).contains_key(user_id@),
        channel matches Some(c) ==> c == members_of(*room)[user_id@],
{
    room.get(user_id).map(|entry| *entry.value())
}

/// `DashMap::insert` sets the value of a key and hands over the value that it
/// had before.
#[verifier::external_body]
pub(crate) fn put_member(
    room: &mut DashMap<String, u64>,
    user_id: String,
    channel: u64,
) -> (replaced: Option<u64>)
    ensures
        members_of(*final(room)) == members_of(*old(room)).insert(user_id@, channel),
        replaced is Some <==> members_of(*old(room)).contains_key(user_id@),
        replaced matches Some(c) ==> c == members_of(*old(room))[user_id@],
{
    room.insert(user_id, channel)
}

/// `DashMap::remove` takes the entry of a key out of the map and hands it over.
#[verifier::external_body]
pub(crate) fn take_member(room: &mut DashMap<String, u64>, user_id: &str) -> (channel: Option<u64>)
    ensures
        members_of(*final(room)) == members_of(*old(room)).remove(user_id@),
        channel is Some <==> members_of(*old(room)).contains_key(user_id@),
        channel matches Some(c) ==> c == members_of(*old(room))[user_id@],
{
    room.remove(user_id).map(|(_, channel)| channel)
}

/// `DashMap::is_empty` says whether the map has no entries.
#[verifier::external_body]
pub(crate) fn is_empty_room(room: &DashMap<String, u64>) -> (empty: bool)
    ensures
        empty == (members_of(*room) == nobody()),
{
    room.is_empty()
}

/// `DashMap::iter` yields each entry once, in an order that is not specified.
#[verifier::external_body]
pub(crate) fn list_members(room: &DashMap<String, u64>) -> (list: Vec<(String, u64)>)
    ensures
        lists_entries(list@, members_of(*room)),
{
    room.iter().map(|entry| (entry.key().clone(), *entry.value())).collect()
}

/// `DashMap::len` counts the entries.
#[verifier::external_body]
pub(crate) fn count_rooms(rooms: &DashMap<String, DashMap<String, u64>>) -> (n: usize)
    ensures
        has_size(rooms_of(*rooms), n as nat),
{
    rooms.len()
}

/// `DashMap::len` counts the entries.
#[verifier::external_body]
pub(crate) fn count_members(room: &DashMap<String, u64>) -> (n: usize)
    ensures
        has_size(members_of(*room), n as nat),
{
    room.len()
}

/// `DashMap::iter` yields each entry once, in an order that is not specified.
#[verifier::external_body]
pub(crate) fn list_rooms(rooms: &DashMap<String, DashMap<String, u64>>) -> (list: Vec<String>)
    ensures
        forall|i: int|
            #![trigger list@[i]]
            0 <= i < list@.len() ==> rooms_of(*rooms).contains_key(list@[i]@),
        forall|i: int, j: int|
            #![trigger list@[i], list@[j]]
            0 <= i < j < list@.len() ==> list@[i]@ != list@[j]@,
        forall|k: Seq<char>| #[trigger]
            rooms_of(*rooms).contains_key(k) ==> exists|i: int|
                #![trigger list@[i]]
                0 <= i < list@.len() && list@[i]@ == k,
{
    rooms.iter().map(|entry| entry.key().clone()).collect()
}

} // verus!
