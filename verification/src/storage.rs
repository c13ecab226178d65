//! Stored rooms.
//!
//! The daemon keeps each room (id, name, password) in a key-value store
//! under the room id's 16 bytes.  Encoding a room for the store and the
//! store itself live with the daemon; this module holds the room record and
//! what is decided about it.

use vstd::prelude::*;

use crate::protocol::message::text_is;
use crate::protocol::outside::random_uuid_bytes;

verus! {

/// A stored room.
#[derive(Debug, Clone)]
pub struct RoomModel {
    /// Room UUID (16 bytes).
    pub id: [u8; 16],
    /// Room name.
    pub name: String,
    /// Room password.
    pub password: String,
}

impl RoomModel {
    /// A new room with a fresh random (version 4) UUID.
    pub fn new(name: String, password: String) -> (r: Self)
        ensures
            r.name@ == name@,
            r.password@ == password@,
            r.id@[6] & 0xf0 == 0x40,
            r.id@[8] & 0xc0 == 0x80,
    {
        RoomModel { id: random_uuid_bytes(), name, password }
    }

    /// The store key: the room id's 16 bytes.
    pub fn key(&self) -> (r: [u8; 16])
        ensures
            r@ == self.id@,
    {
        self.id
    }

    /// Copies of the id, name and password.
    pub fn get_info(&self) -> (r: ([u8; 16], String, String))
        ensures
            r.0@ == self.id@,
            r.1@ == self.name@,
            r.2@ == self.password@,
    {
        (self.id, self.name.clone(), self.password.clone())
    }

    /// Whether `input` is the room's password.
    pub fn verify_password(&self, input: &str) -> (r: bool)
        ensures
            r == (self.password@ == input@),
    {
        text_is(self.password.as_str(), input)
    }
}

/// The rooms of `rooms` named `name`, in order.
pub open spec fn rooms_named(rooms: Seq<RoomModel>, name: Seq<char>) -> Seq<RoomModel> {
    rooms.filter(|r: RoomModel| r.name@ == name)
}

/// How many rooms of `rooms` are named `name`.
pub open spec fn count_named(rooms: Seq<RoomModel>, name: Seq<char>) -> nat
    decreases rooms.len(),
{
    if rooms.len() == 0 {
        0
    } else {
        count_named(rooms.drop_last(), name) + if rooms.last().name@ == name {
            1nat
        } else {
            0nat
        }
    }
}

/// The name search is exact: every room it returns has exactly the name
/// asked for, every room with exactly that name is returned, and there are
/// as many results as rooms with that name.
pub proof fn lemma_rooms_named_exact(rooms: Seq<RoomModel>, name: Seq<char>)
    ensures
        forall|i: int| 0 <= i < rooms_named(rooms, name).len() ==> (#[trigger] rooms_named(rooms, name)[i]).name@ == name,
        forall|i: int| 0 <= i < rooms.len() && (#[trigger] rooms[i]).name@ == name ==> rooms_named(rooms, name).contains(rooms[i]),
        rooms_named(rooms, name).len() == count_named(rooms, name),
    decreases rooms.len(),
{
    if rooms.len() > 0 {
        let init = rooms.drop_last();
        let last = rooms.last();
        lemma_rooms_named_exact(init, name);
        reveal_with_fuel(Seq::<RoomModel>::filter, 1);
        let sub = rooms_named(init, name);
        assert(rooms_named(rooms, name) == if last.name@ == name {
            sub.push(last)
        } else {
            sub
        });
        let res = rooms_named(rooms, name);
        assert forall|i: int| 0 <= i < res.len() implies (#[trigger] res[i]).name@ == name by {
            if i < sub.len() {
                assert(res[i] == sub[i]);
            }
        }
        assert forall|i: int| 0 <= i < rooms.len() && (#[trigger] rooms[i]).name@ == name implies res.contains(rooms[i]) by {
            if i < rooms.len() - 1 {
                assert(rooms[i] == init[i]);
                let k = choose|k: int| 0 <= k < sub.len() && sub[k] == init[i];
                if last.name@ == name {
                    assert(res[k] == sub[k]);
                }
            } else {
                assert(res[res.len() - 1] == last);
            }
        }
    } else {
        reveal_with_fuel(Seq::<RoomModel>::filter, 1);
        assert(rooms_named(rooms, name).len() == 0);
    }
}

/// The rooms named `name`, in their order in `rooms` (what the store's
/// name search returns once every stored room is read): exactly the rooms
/// with that name.
pub fn select_rooms_by_name(rooms: Vec<RoomModel>, name: &str) -> (r: Vec<RoomModel>)
    ensures
        r@ == rooms_named(rooms@, name@),
        forall|i: int| 0 <= i < r@.len() ==> (#[trigger] r@[i]).name@ == name@,
        r@.len() == count_named(rooms@, name@),
{
    proof {
        lemma_rooms_named_exact(rooms@, name@);
    }
    let ghost all = rooms@;
    let mut result: Vec<RoomModel> = Vec::new();
    let mut rest = rooms;
    let mut taken: usize = 0;
    let n = rest.len();
    while taken < n
        invariant
            taken <= n == all.len(),
            rest@ == all.skip(taken as int),
            result@ == rooms_named(all.take(taken as int), name@),
        decreases n - taken,
    {
        let room = rest.remove(0);
        proof {
            assert(room == all[taken as int]);
            assert(all.take(taken + 1).drop_last() =~= all.take(taken as int));
            assert(all.take(taken + 1).last() == room);
            assert(rest@ =~= all.skip(taken + 1));
            reveal_with_fuel(Seq::<RoomModel>::filter, 1);
        }
        if text_is(room.name.as_str(), name) {
            result.push(room);
        }
        taken = taken + 1;
    }
    assert(all.take(n as int) =~= all);
    result
}

} // verus!
