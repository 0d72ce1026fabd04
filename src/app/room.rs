//! Chat rooms as the client shows them.
use vstd::prelude::*;
use crate::text::{push_str, push_decimal, dec_of, str_eq};

verus! {

/// A chat room.
pub struct Room {
    pub id: Option<String>,
    pub matrix_id: Option<String>,
    pub name: String,
    pub description: Option<String>,
    /// Member user names, each at most once.
    pub users: Vec<String>,
    pub topic: Option<String>,
    pub is_encrypted: bool,
    pub member_count: usize,
}

pub open spec fn names_of(v: Seq<String>) -> Seq<Seq<char>> {
    v.map_values(|s: String| s@)
}

/// `s` without any occurrence of `x`, order kept.
pub open spec fn without(s: Seq<Seq<char>>, x: Seq<char>) -> Seq<Seq<char>>
    decreases s.len(),
{
    if s.len() == 0 {
        s
    } else if s.last() == x {
        without(s.drop_last(), x)
    } else {
        without(s.drop_last(), x).push(s.last())
    }
}

/// The one-line description: a lock for encrypted rooms, the name, then the
/// member count when there are members.
pub open spec fn room_info(encrypted: bool, name: Seq<char>, members: nat) -> Seq<char> {
    (if encrypted {
        "\u{1F512}"@
    } else {
        Seq::<char>::empty()
    }) + name + (if members > 0 {
        " ("@ + dec_of(members) + " members)"@
    } else {
        Seq::<char>::empty()
    })
}

impl Room {
    /// An empty, unencrypted room named `name`.
    pub fn new(name: String) -> (r: Room)
        ensures
            r.name@ == name@,
            r.id is None,
            r.matrix_id is None,
            r.description is None,
            r.users@.len() == 0,
            r.topic is None,
            !r.is_encrypted,
            r.member_count == 0,
    {
        Room {
            id: None,
            matrix_id: None,
            name,
            description: None,
            users: Vec::new(),
            topic: None,
            is_encrypted: false,
            member_count: 0,
        }
    }

    /// A new room that carries its target-protocol id.
    pub fn from_matrix_room(matrix_id: String, name: String) -> (r: Room)
        ensures
            r.name@ == name@,
            r.matrix_id == Some(matrix_id),
            r.id is None,
            r.users@.len() == 0,
            !r.is_encrypted,
            r.member_count == 0,
    {
        let mut room = Room::new(name);
        room.matrix_id = Some(matrix_id);
        room
    }

    pub fn set_matrix_id(&mut self, matrix_id: String)
        ensures
            final(self).matrix_id == Some(matrix_id),
            final(self).name == old(self).name,
            final(self).users == old(self).users,
            final(self).member_count == old(self).member_count,
    {
        self.matrix_id = Some(matrix_id);
    }

    pub fn matrix_id(&self) -> (r: Option<&str>)
        ensures
            match r {
                Some(s) => self.matrix_id matches Some(m) && m@ == s@,
                None => self.matrix_id is None,
            },
    {
        match &self.matrix_id {
            Some(m) => Some(m.as_str()),
            None => None,
        }
    }

    pub fn display_name(&self) -> (r: &str)
        ensures
            r@ == self.name@,
    {
        self.name.as_str()
    }

    pub fn set_topic(&mut self, topic: Option<String>)
        ensures
            final(self).topic == topic,
            final(self).name == old(self).name,
            final(self).users == old(self).users,
            final(self).member_count == old(self).member_count,
    {
        self.topic = topic;
    }

    pub fn set_encrypted(&mut self, encrypted: bool)
        ensures
            final(self).is_encrypted == encrypted,
            final(self).name == old(self).name,
            final(self).users == old(self).users,
            final(self).member_count == old(self).member_count,
    {
        self.is_encrypted = encrypted;
    }

    pub fn set_member_count(&mut self, count: usize)
        ensures
            final(self).member_count == count,
            final(self).name == old(self).name,
            final(self).users == old(self).users,
    {
        self.member_count = count;
    }

    /// Whether `username` is a member.
    pub fn has_user(&self, username: &str) -> (r: bool)
        ensures
            r == names_of(self.users@).contains(username@),
    {
        let n = self.users.len();
        let mut i: usize = 0;
        while i < n
            invariant
                n == self.users@.len(),
                i <= n,
                forall|j: int| 0 <= j < i ==> names_of(self.users@)[j] != username@,
            decreases n - i,
        {
            if str_eq(self.users[i].as_str(), username) {
                assert(names_of(self.users@)[i as int] == username@);
                return true;
            }
            i = i + 1;
        }
        false
    }

    /// Adds a member unless present, and sets the member count to the list's length.
    pub fn add_user(&mut self, username: String)
        requires
            old(self).users@.len() < usize::MAX,
        ensures
            names_of(final(self).users@) == (if names_of(old(self).users@).contains(username@) {
                names_of(old(self).users@)
            } else {
                names_of(old(self).users@).push(username@)
            }),
            names_of(old(self).users@).contains(username@) ==> final(self).member_count
                == old(self).member_count,
            !names_of(old(self).users@).contains(username@) ==> final(self).member_count
                == final(self).users@.len(),
            final(self).name == old(self).name,
    {
        if !self.has_user(username.as_str()) {
            self.users.push(username);
            self.member_count = self.users.len();
            assert(names_of(self.users@) =~= names_of(old(self).users@).push(username@));
        }
    }

    /// Removes every occurrence of a member and sets the member count to the list's length.
    pub fn remove_user(&mut self, username: &str)
        ensures
            names_of(final(self).users@) == without(names_of(old(self).users@), username@),
            final(self).member_count == final(self).users@.len(),
            final(self).name == old(self).name,
    {
        let mut kept: Vec<String> = Vec::new();
        let n = self.users.len();
        let mut i: usize = 0;
        while i < n
            invariant
                n == self.users@.len(),
                self.users == old(self).users,
                i <= n,
                names_of(kept@) == without(names_of(self.users@.subrange(0, i as int)), username@),
            decreases n - i,
        {
            let ghost pre = names_of(self.users@.subrange(0, i + 1));
            assert(pre.drop_last() =~= names_of(self.users@.subrange(0, i as int)));
            assert(pre.last() == self.users@[i as int]@);
            if !str_eq(self.users[i].as_str(), username) {
                kept.push(self.users[i].clone());
                assert(names_of(kept@) =~= without(names_of(self.users@.subrange(0, i as int)), username@).push(self.users@[i as int]@));
            }
            i = i + 1;
        }
        assert(self.users@.subrange(0, n as int) =~= self.users@);
        self.users = kept;
        self.member_count = self.users.len();
    }

    /// A lock for encrypted rooms, the name, and ` (N members)` when N > 0.
    pub fn info_string(&self) -> (r: String)
        ensures
            r@ == room_info(self.is_encrypted, self.name@, self.member_count as nat),
    {
        let mut out = String::new();
        if self.is_encrypted {
            push_str(&mut out, "\u{1F512}");
        }
        push_str(&mut out, self.name.as_str());
        if self.member_count > 0 {
            push_str(&mut out, " (");
            push_decimal(&mut out, self.member_count as u64);
            push_str(&mut out, " members)");
        }
        assert(out@ =~= room_info(self.is_encrypted, self.name@, self.member_count as nat));
        out
    }
}

} // verus!
