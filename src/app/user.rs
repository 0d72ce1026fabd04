//! Chat users as the client shows them.
use vstd::prelude::*;
use crate::app::room::Room;
use crate::text::{push_char, push_str};
use crate::util::clock::unix_now_secs;

verus! {

/// A chat user.
#[derive(Clone)]
pub struct User {
    /// Internal id of the legacy system.
    pub id: Option<String>,
    /// Target-protocol user id (`@localpart:domain`).
    pub matrix_id: Option<String>,
    pub name: String,
    pub status: UserStatus,
    pub last_active: u64,
    /// Ids of the rooms the user belongs to.
    pub rooms: Vec<String>,
}

#[derive(Clone, Copy, PartialEq, Eq, Structural, Debug)]
pub enum UserStatus {
    Online,
    Away,
    Busy,
    Offline,
}

/// Index of the first occurrence of `c`, or -1.
pub open spec fn index_of(s: Seq<char>, c: char) -> int
    decreases s.len(),
{
    if s.len() == 0 {
        -1
    } else if s[0] == c {
        0
    } else {
        let r = index_of(s.drop_first(), c);
        if r < 0 {
            -1
        } else {
            r + 1
        }
    }
}

pub open spec fn trim_leading_ats(s: Seq<char>) -> Seq<char>
    decreases s.len(),
{
    if s.len() > 0 && s[0] == '@' {
        trim_leading_ats(s.drop_first())
    } else {
        s
    }
}

/// The localpart of `@localpart:domain`; otherwise the text without leading `@`s.
pub open spec fn username_of_matrix_id(id: Seq<char>) -> Seq<char> {
    if id.len() > 0 && id[0] == '@' && index_of(id, ':') >= 0 {
        id.subrange(1, index_of(id, ':'))
    } else {
        trim_leading_ats(id)
    }
}

pub open spec fn opt_str_view(o: Option<String>) -> Option<Seq<char>> {
    match o {
        Some(s) => Some(s@),
        None => None,
    }
}

/// Index of the first room whose id is `id`, or -1.
pub open spec fn room_index_by_id(rooms: Seq<Room>, id: Seq<char>) -> int
    decreases rooms.len(),
{
    if rooms.len() == 0 {
        -1
    } else if opt_str_view(rooms[0].id) == Some(id) {
        0
    } else {
        let r = room_index_by_id(rooms.drop_first(), id);
        if r < 0 {
            -1
        } else {
            r + 1
        }
    }
}

/// Names of the rooms, among `rooms`, whose ids are listed in `ids`, in the
/// order of `ids`; ids without a room are skipped.
pub open spec fn room_names(ids: Seq<String>, rooms: Seq<Room>) -> Seq<Seq<char>>
    decreases ids.len(),
{
    if ids.len() == 0 {
        seq![]
    } else {
        let rest = room_names(ids.drop_last(), rooms);
        let k = room_index_by_id(rooms, ids.last()@);
        if k >= 0 {
            rest.push(rooms[k].name@)
        } else {
            rest
        }
    }
}

pub open spec fn string_views(v: Seq<String>) -> Seq<Seq<char>> {
    v.map_values(|s: String| s@)
}

/// Index of the first `c` in `s`.
fn find_char(s: &str, c: char) -> (r: Option<usize>)
    ensures
        match r {
            Some(i) => i as int == index_of(s@, c),
            None => index_of(s@, c) == -1,
        },
{
    let n = s.unicode_len();
    let mut i: usize = 0;
    assert(s@.subrange(0, n as int) =~= s@);
    while i < n
        invariant
            n == s@.len(),
            i <= n,
            index_of(s@, c) == (if index_of(s@.subrange(i as int, n as int), c) < 0 {
                -1
            } else {
                index_of(s@.subrange(i as int, n as int), c) + i
            }),
        decreases n - i,
    {
        let ghost rest = s@.subrange(i as int, n as int);
        assert(rest[0] == s@[i as int]);
        assert(rest.drop_first() =~= s@.subrange(i + 1, n as int));
        if s.get_char(i) == c {
            return Some(i);
        }
        i = i + 1;
    }
    None
}

/// `@username:domain` gives `username`; otherwise the text without leading `@`s.
pub fn extract_username_from_matrix_id(matrix_id: &str) -> (r: String)
    ensures
        r@ == username_of_matrix_id(matrix_id@),
{
    let n = matrix_id.unicode_len();
    if n > 0 && matrix_id.get_char(0) == '@' {
        match find_char(matrix_id, ':') {
            Some(p) => {
                proof {
                    lemma_index_of_bounds(matrix_id@, ':');
                }
                return matrix_id.substring_char(1, p).to_owned();
            },
            None => {},
        }
    }
    let mut start: usize = 0;
    assert(matrix_id@.subrange(0, n as int) =~= matrix_id@);
    while start < n && matrix_id.get_char(start) == '@'
        invariant
            n == matrix_id@.len(),
            start <= n,
            trim_leading_ats(matrix_id@) == trim_leading_ats(matrix_id@.subrange(start as int, n as int)),
        decreases n - start,
    {
        assert(matrix_id@.subrange(start as int, n as int).drop_first() =~= matrix_id@.subrange(start + 1, n as int));
        start = start + 1;
    }
    matrix_id.substring_char(start, n).to_owned()
}

proof fn lemma_index_of_bounds(s: Seq<char>, c: char)
    ensures
        -1 <= index_of(s, c) < s.len(),
        index_of(s, c) >= 0 ==> s[index_of(s, c)] == c,
    decreases s.len(),
{
    if s.len() > 0 && s[0] != c {
        lemma_index_of_bounds(s.drop_first(), c);
    }
}

impl User {
    /// A new online user named `name`, active now.
    pub fn new(name: String) -> (r: User)
        ensures
            r.name@ == name@,
            r.id is None,
            r.matrix_id is None,
            r.status == UserStatus::Online,
            r.rooms@.len() == 0,
    {
        let now = unix_now_secs();
        User { id: None, matrix_id: None, name, status: UserStatus::Online, last_active: now, rooms: Vec::new() }
    }

    /// A new user named after the localpart of a target-protocol user id.
    pub fn from_matrix_id(matrix_id: String) -> (r: User)
        ensures
            r.name@ == username_of_matrix_id(matrix_id@),
            opt_str_view(r.matrix_id) == Some(matrix_id@),
            r.id is None,
            r.status == UserStatus::Online,
            r.rooms@.len() == 0,
    {
        let username = extract_username_from_matrix_id(matrix_id.as_str());
        let mut user = User::new(username);
        user.matrix_id = Some(matrix_id);
        user
    }

    pub fn set_matrix_id(&mut self, matrix_id: String)
        ensures
            final(self).matrix_id == Some(matrix_id),
            final(self).id == old(self).id,
            final(self).name == old(self).name,
            final(self).status == old(self).status,
            final(self).last_active == old(self).last_active,
            final(self).rooms == old(self).rooms,
    {
        self.matrix_id = Some(matrix_id);
    }

    pub fn matrix_id(&self) -> (r: Option<&str>)
        ensures
            match r {
                Some(s) => opt_str_view(self.matrix_id) == Some(s@),
                None => self.matrix_id is None,
            },
    {
        match &self.matrix_id {
            Some(m) => Some(m.as_str()),
            None => None,
        }
    }

    pub fn display_name(&self) -> (r: &str)
        ensures
            r@ == self.name@,
    {
        self.name.as_str()
    }

    /// The stored target-protocol id, or `@name:server_name`.
    pub fn to_matrix_id(&self, server_name: &str) -> (r: String)
        ensures
            r@ == match self.matrix_id {
                Some(m) => m@,
                None => seq!['@'] + self.name@ + seq![':'] + server_name@,
            },
    {
        match &self.matrix_id {
            Some(m) => m.clone(),
            None => {
                let mut out = String::new();
                push_char(&mut out, '@');
                push_str(&mut out, self.name.as_str());
                push_char(&mut out, ':');
                push_str(&mut out, server_name);
                assert(out@ =~= seq!['@'] + self.name@ + seq![':'] + server_name@);
                out
            },
        }
    }

    /// Sets the status and marks the user active now.
    pub fn update_status(&mut self, status: UserStatus)
        ensures
            final(self).status == status,
            final(self).id == old(self).id,
            final(self).matrix_id == old(self).matrix_id,
            final(self).name == old(self).name,
            final(self).rooms == old(self).rooms,
    {
        self.status = status;
        self.last_active = unix_now_secs();
    }

    /// Online and away users can be reached.
    pub fn is_available(&self) -> (r: bool)
        ensures
            r == (self.status == UserStatus::Online || self.status == UserStatus::Away),
    {
        self.status == UserStatus::Online || self.status == UserStatus::Away
    }

    /// Names of the user's rooms found in `rooms`, in the order of the user's list.
    pub fn get_room_names(&self, rooms: &[Room]) -> (r: Vec<String>)
        ensures
            string_views(r@) == room_names(self.rooms@, rooms@),
    {
        let mut out: Vec<String> = Vec::new();
        let n = self.rooms.len();
        let mut i: usize = 0;
        while i < n
            invariant
                n == self.rooms@.len(),
                i <= n,
                string_views(out@) == room_names(self.rooms@.subrange(0, i as int), rooms@),
            decreases n - i,
        {
            let ghost ids = self.rooms@.subrange(0, i + 1);
            assert(ids.drop_last() =~= self.rooms@.subrange(0, i as int));
            let k = find_room(rooms, self.rooms[i].as_str());
            match k {
                Some(j) => {
                    let name = rooms[j].name.clone();
                    out.push(name);
                    assert(string_views(out@) =~= room_names(self.rooms@.subrange(0, i as int), rooms@).push(rooms@[j as int].name@));
                },
                None => {},
            }
            i = i + 1;
        }
        assert(self.rooms@.subrange(0, n as int) =~= self.rooms@);
        out
    }
}

/// Index of the first room whose id is `id`.
fn find_room(rooms: &[Room], id: &str) -> (r: Option<usize>)
    ensures
        match r {
            Some(i) => i as int == room_index_by_id(rooms@, id@) && i < rooms@.len(),
            None => room_index_by_id(rooms@, id@) == -1,
        },
{
    let n = rooms.len();
    let mut i: usize = 0;
    assert(rooms@.subrange(0, n as int) =~= rooms@);
    while i < n
        invariant
            n == rooms@.len(),
            i <= n,
            room_index_by_id(rooms@, id@) == (if room_index_by_id(rooms@.subrange(i as int, n as int), id@) < 0 {
                -1
            } else {
                room_index_by_id(rooms@.subrange(i as int, n as int), id@) + i
            }),
        decreases n - i,
    {
        let ghost rest = rooms@.subrange(i as int, n as int);
        assert(rest[0] == rooms@[i as int]);
        assert(rest.drop_first() =~= rooms@.subrange(i + 1, n as int));
        let hit = match &rooms[i].id {
            Some(rid) => crate::text::str_eq(rid.as_str(), id),
            None => false,
        };
        if hit {
            return Some(i);
        }
        i = i + 1;
    }
    None
}

} // verus!
