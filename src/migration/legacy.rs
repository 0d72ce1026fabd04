//! Records of the legacy store, as read by the application shell.
use vstd::prelude::*;
use crate::app::user::UserStatus;
use crate::migration::table::{ListTable, append_entry};
use crate::text::str_eq;

verus! {

/// Legacy user record.
#[derive(Clone, Debug)]
pub struct LegacyUser {
    pub id: String,
    pub name: String,
    pub status: Option<String>,
    pub created_at: Option<String>,
    pub updated_at: Option<String>,
}

/// Legacy room record.
#[derive(Clone, Debug)]
pub struct LegacyRoom {
    pub id: String,
    pub name: String,
    pub description: Option<String>,
    pub is_public: Option<bool>,
    pub created_at: Option<String>,
    pub updated_at: Option<String>,
}

/// Legacy message record.
#[derive(Clone, Debug)]
pub struct LegacyMessage {
    pub id: String,
    pub content: String,
    pub message_type: Option<String>,
    pub sender_id: String,
    pub room_id: Option<String>,
    pub target_user_id: Option<String>,
    pub created_at: Option<String>,
}

/// Legacy room membership record.
#[derive(Clone, Debug)]
pub struct LegacyRoomMembership {
    pub user_id: String,
    pub room_id: String,
    pub joined_at: Option<String>,
}

/// Index of the first user with the given id, or -1.
pub open spec fn first_user_index(users: Seq<LegacyUser>, id: Seq<char>) -> int
    decreases users.len(),
{
    if users.len() == 0 {
        -1
    } else if users[0].id@ == id {
        0
    } else {
        let r = first_user_index(users.drop_first(), id);
        if r < 0 {
            -1
        } else {
            r + 1
        }
    }
}

/// Index of the first room with the given id, or -1.
pub open spec fn first_room_index(rooms: Seq<LegacyRoom>, id: Seq<char>) -> int
    decreases rooms.len(),
{
    if rooms.len() == 0 {
        -1
    } else if rooms[0].id@ == id {
        0
    } else {
        let r = first_room_index(rooms.drop_first(), id);
        if r < 0 {
            -1
        } else {
            r + 1
        }
    }
}

/// The presence that a legacy status string stands for.
pub open spec fn status_from_legacy(status: Option<Seq<char>>) -> UserStatus {
    match status {
        Some(s) => if s == "online"@ {
            UserStatus::Online
        } else if s == "away"@ {
            UserStatus::Away
        } else if s == "busy"@ {
            UserStatus::Busy
        } else {
            UserStatus::Offline
        },
        None => UserStatus::Offline,
    }
}

pub open spec fn opt_view(o: Option<String>) -> Option<Seq<char>> {
    match o {
        Some(s) => Some(s@),
        None => None,
    }
}

/// For each user id, the room ids of its memberships in record order.
pub open spec fn user_room_index(ms: Seq<LegacyRoomMembership>) -> Seq<(Seq<char>, Seq<Seq<char>>)>
    decreases ms.len(),
{
    if ms.len() == 0 {
        Seq::empty()
    } else {
        append_entry(user_room_index(ms.drop_last()), ms.last().user_id@, ms.last().room_id@)
    }
}

/// For each room id, the user ids of its memberships in record order.
pub open spec fn room_member_index(ms: Seq<LegacyRoomMembership>) -> Seq<(Seq<char>, Seq<Seq<char>>)>
    decreases ms.len(),
{
    if ms.len() == 0 {
        Seq::empty()
    } else {
        append_entry(room_member_index(ms.drop_last()), ms.last().room_id@, ms.last().user_id@)
    }
}

/// A snapshot of the legacy store with its membership lookups.
#[derive(Debug)]
pub struct LegacyData {
    pub users: Vec<LegacyUser>,
    pub rooms: Vec<LegacyRoom>,
    pub messages: Vec<LegacyMessage>,
    pub room_memberships: Vec<LegacyRoomMembership>,
    /// User id to the ids of its rooms.
    pub user_rooms: ListTable,
    /// Room id to the ids of its members.
    pub room_members: ListTable,
}

impl LegacyData {
    /// The snapshot of the given records, with the lookups built from the memberships.
    pub fn from_records(
        users: Vec<LegacyUser>,
        rooms: Vec<LegacyRoom>,
        messages: Vec<LegacyMessage>,
        room_memberships: Vec<LegacyRoomMembership>,
    ) -> (r: LegacyData)
        ensures
            r.users == users,
            r.rooms == rooms,
            r.messages == messages,
            r.room_memberships == room_memberships,
            r.user_rooms@ == user_room_index(room_memberships@),
            r.room_members@ == room_member_index(room_memberships@),
    {
        let loader = LegacyDataLoader { db_path: String::new() };
        let (user_rooms, room_members) = loader.build_membership_maps(room_memberships.as_slice());
        LegacyData { users, rooms, messages, room_memberships, user_rooms, room_members }
    }
}

/// Reads legacy records from the store at `db_path`; the reading itself is
/// done by the application shell.
pub struct LegacyDataLoader {
    pub db_path: String,
}

impl LegacyDataLoader {
    pub fn new(db_path: &str) -> (r: LegacyDataLoader)
        ensures
            r.db_path@ == db_path@,
    {
        LegacyDataLoader { db_path: db_path.to_owned() }
    }

    /// The first user whose id is `user_id`.
    pub fn get_user_by_id<'a>(&self, users: &'a [LegacyUser], user_id: &str) -> (r: Option<
        &'a LegacyUser,
    >)
        ensures
            first_user_index(users@, user_id@) < 0 <==> r is None,
            r matches Some(u) ==> *u == users@[first_user_index(users@, user_id@)],
    {
        let n = users.len();
        let mut i: usize = 0;
        assert(users@.subrange(0, n as int) =~= users@);
        while i < n
            invariant
                n == users@.len(),
                i <= n,
                first_user_index(users@, user_id@) == (if first_user_index(users@.subrange(i as int, n as int), user_id@) < 0 {
                    -1
                } else {
                    first_user_index(users@.subrange(i as int, n as int), user_id@) + i
                }),
            decreases n - i,
        {
            let ghost rest = users@.subrange(i as int, n as int);
            assert(rest[0] == users@[i as int]);
            assert(rest.drop_first() =~= users@.subrange(i + 1, n as int));
            if str_eq(users[i].id.as_str(), user_id) {
                return Some(&users[i]);
            }
            i = i + 1;
        }
        None
    }

    /// The first room whose id is `room_id`.
    pub fn get_room_by_id<'a>(&self, rooms: &'a [LegacyRoom], room_id: &str) -> (r: Option<
        &'a LegacyRoom,
    >)
        ensures
            first_room_index(rooms@, room_id@) < 0 <==> r is None,
            r matches Some(u) ==> *u == rooms@[first_room_index(rooms@, room_id@)],
    {
        let n = rooms.len();
        let mut i: usize = 0;
        assert(rooms@.subrange(0, n as int) =~= rooms@);
        while i < n
            invariant
                n == rooms@.len(),
                i <= n,
                first_room_index(rooms@, room_id@) == (if first_room_index(rooms@.subrange(i as int, n as int), room_id@) < 0 {
                    -1
                } else {
                    first_room_index(rooms@.subrange(i as int, n as int), room_id@) + i
                }),
            decreases n - i,
        {
            let ghost rest = rooms@.subrange(i as int, n as int);
            assert(rest[0] == rooms@[i as int]);
            assert(rest.drop_first() =~= rooms@.subrange(i + 1, n as int));
            if str_eq(rooms[i].id.as_str(), room_id) {
                return Some(&rooms[i]);
            }
            i = i + 1;
        }
        None
    }

    /// `online`, `away` and `busy` keep their meaning; anything else is offline.
    pub fn legacy_status_to_matrix_presence(status: &Option<String>) -> (r: UserStatus)
        ensures
            r == status_from_legacy(opt_view(*status)),
    {
        match status {
            Some(s) => {
                if str_eq(s.as_str(), "online") {
                    UserStatus::Online
                } else if str_eq(s.as_str(), "away") {
                    UserStatus::Away
                } else if str_eq(s.as_str(), "busy") {
                    UserStatus::Busy
                } else {
                    UserStatus::Offline
                }
            },
            None => UserStatus::Offline,
        }
    }

    /// Groups the memberships by user and by room, keeping record order.
    pub fn build_membership_maps(&self, memberships: &[LegacyRoomMembership]) -> (r: (
        ListTable,
        ListTable,
    ))
        ensures
            r.0.wf(),
            r.1.wf(),
            r.0@ == user_room_index(memberships@),
            r.1@ == room_member_index(memberships@),
    {
        let mut user_rooms = ListTable::new();
        let mut room_members = ListTable::new();
        let n = memberships.len();
        let mut i: usize = 0;
        while i < n
            invariant
                n == memberships@.len(),
                i <= n,
                user_rooms.wf(),
                room_members.wf(),
                user_rooms@ == user_room_index(memberships@.subrange(0, i as int)),
                room_members@ == room_member_index(memberships@.subrange(0, i as int)),
            decreases n - i,
        {
            let m = &memberships[i];
            user_rooms.append(m.user_id.clone(), m.room_id.clone());
            room_members.append(m.room_id.clone(), m.user_id.clone());
            assert(memberships@.subrange(0, i + 1).drop_last() =~= memberships@.subrange(0, i as int));
            i = i + 1;
        }
        assert(memberships@.subrange(0, n as int) =~= memberships@);
        (user_rooms, room_members)
    }
}

} // verus!
