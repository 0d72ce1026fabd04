//! Migration from the legacy store to the target protocol.
//!
//! The pipeline runs backup, extraction, mapping, provisioning and
//! persistence in that order. The library decides and accounts; the
//! application shell copies files, reads the store and talks to the server.
pub mod config;
pub mod converter;
pub mod legacy;
pub mod mapping_file;
pub mod table;

use vstd::prelude::*;
use crate::migration::converter::{IdMappings, user_entries, room_entries, alias_entries};
use crate::migration::legacy::{LegacyData, LegacyUser, LegacyRoom};
use crate::text::{push_str, push_decimal, dec_of};
use crate::util::error::NokError;

verus! {

/// What a migration run did. Per-entity failures are collected, never fatal.
#[derive(Debug)]
pub struct MigrationResult {
    pub users_migrated: usize,
    pub rooms_migrated: usize,
    pub messages_migrated: usize,
    /// One line per failed entity, in the order the entities were handled.
    pub errors: Vec<String>,
}

pub open spec fn string_views(v: Seq<String>) -> Seq<Seq<char>> {
    v.map_values(|s: String| s@)
}

pub open spec fn count_ok(o: Seq<Result<(), String>>) -> nat
    decreases o.len(),
{
    if o.len() == 0 {
        0
    } else {
        count_ok(o.drop_last()) + if o.last() is Ok {
            1nat
        } else {
            0nat
        }
    }
}

pub open spec fn count_err(o: Seq<Result<(), String>>) -> nat
    decreases o.len(),
{
    if o.len() == 0 {
        0
    } else {
        count_err(o.drop_last()) + if o.last() is Err {
            1nat
        } else {
            0nat
        }
    }
}

pub open spec fn user_failure_text(name: Seq<char>, reason: Seq<char>) -> Seq<char> {
    "Failed to migrate user "@ + name + ": "@ + reason
}

pub open spec fn room_failure_text(name: Seq<char>, reason: Seq<char>) -> Seq<char> {
    "Failed to migrate room "@ + name + ": "@ + reason
}

/// The error lines of the failed users, in order.
pub open spec fn user_failures(users: Seq<LegacyUser>, o: Seq<Result<(), String>>) -> Seq<Seq<char>>
    decreases o.len(),
{
    if o.len() == 0 || users.len() == 0 {
        Seq::empty()
    } else {
        let rest = user_failures(users.drop_last(), o.drop_last());
        match o.last() {
            Ok(()) => rest,
            Err(reason) => rest.push(user_failure_text(users.last().name@, reason@)),
        }
    }
}

/// The error lines of the failed rooms, in order.
pub open spec fn room_failures(rooms: Seq<LegacyRoom>, o: Seq<Result<(), String>>) -> Seq<Seq<char>>
    decreases o.len(),
{
    if o.len() == 0 || rooms.len() == 0 {
        Seq::empty()
    } else {
        let rest = room_failures(rooms.drop_last(), o.drop_last());
        match o.last() {
            Ok(()) => rest,
            Err(reason) => rest.push(room_failure_text(rooms.last().name@, reason@)),
        }
    }
}

/// `path.backup.timestamp`.
pub open spec fn backup_path_of(path: Seq<char>, timestamp: nat) -> Seq<char> {
    path + ".backup."@ + dec_of(timestamp)
}

impl MigrationResult {
    pub fn new() -> (r: MigrationResult)
        ensures
            r.users_migrated == 0,
            r.rooms_migrated == 0,
            r.messages_migrated == 0,
            r.errors@.len() == 0,
    {
        MigrationResult { users_migrated: 0, rooms_migrated: 0, messages_migrated: 0, errors: Vec::new() }
    }

    /// Counts a provisioned user, or records why it failed.
    pub fn record_user(&mut self, user: &LegacyUser, outcome: Result<(), String>)
        requires
            old(self).users_migrated < usize::MAX,
        ensures
            final(self).users_migrated == old(self).users_migrated + if outcome is Ok {
                1int
            } else {
                0int
            },
            string_views(final(self).errors@) == match outcome {
                Ok(()) => string_views(old(self).errors@),
                Err(reason) => string_views(old(self).errors@).push(
                    user_failure_text(user.name@, reason@),
                ),
            },
            final(self).rooms_migrated == old(self).rooms_migrated,
            final(self).messages_migrated == old(self).messages_migrated,
    {
        match outcome {
            Ok(()) => {
                self.users_migrated = self.users_migrated + 1;
            },
            Err(reason) => {
                let mut line = String::from_str("Failed to migrate user ");
                push_str(&mut line, user.name.as_str());
                push_str(&mut line, ": ");
                push_str(&mut line, reason.as_str());
                let ghost before = self.errors@;
                self.errors.push(line);
                assert(string_views(self.errors@) =~= string_views(before).push(
                    user_failure_text(user.name@, reason@),
                ));
            },
        }
    }

    /// Counts a provisioned room, or records why it failed.
    pub fn record_room(&mut self, room: &LegacyRoom, outcome: Result<(), String>)
        requires
            old(self).rooms_migrated < usize::MAX,
        ensures
            final(self).rooms_migrated == old(self).rooms_migrated + if outcome is Ok {
                1int
            } else {
                0int
            },
            string_views(final(self).errors@) == match outcome {
                Ok(()) => string_views(old(self).errors@),
                Err(reason) => string_views(old(self).errors@).push(
                    room_failure_text(room.name@, reason@),
                ),
            },
            final(self).users_migrated == old(self).users_migrated,
            final(self).messages_migrated == old(self).messages_migrated,
    {
        match outcome {
            Ok(()) => {
                self.rooms_migrated = self.rooms_migrated + 1;
            },
            Err(reason) => {
                let mut line = String::from_str("Failed to migrate room ");
                push_str(&mut line, room.name.as_str());
                push_str(&mut line, ": ");
                push_str(&mut line, reason.as_str());
                let ghost before = self.errors@;
                self.errors.push(line);
                assert(string_views(self.errors@) =~= string_views(before).push(
                    room_failure_text(room.name@, reason@),
                ));
            },
        }
    }
}

/// Drives a migration run from a legacy store to a target server.
pub struct MigrationManager {
    pub legacy_db_path: String,
    pub server_name: String,
}

impl MigrationManager {
    pub fn new(legacy_db_path: &str, server_name: &str) -> (r: MigrationManager)
        ensures
            r.legacy_db_path@ == legacy_db_path@,
            r.server_name@ == server_name@,
    {
        MigrationManager { legacy_db_path: legacy_db_path.to_owned(), server_name: server_name.to_owned() }
    }

    /// Where to copy a file before migrating: `path.backup.timestamp`.
    pub fn backup_path(path: &str, timestamp: u64) -> (r: String)
        ensures
            r@ == backup_path_of(path@, timestamp as nat),
    {
        let mut out = path.to_owned();
        push_str(&mut out, ".backup.");
        push_decimal(&mut out, timestamp);
        assert(out@ =~= backup_path_of(path@, timestamp as nat));
        out
    }

    /// The backup step: the path to copy the store to when it exists; nothing
    /// when it is absent and no backup is required; an error when it is
    /// absent and one is.
    pub fn backup_plan(&self, store_exists: bool, required: bool, timestamp: u64) -> (r: Result<
        Option<String>,
        NokError,
    >)
        ensures
            store_exists ==> (r matches Ok(Some(p)) && p@ == backup_path_of(
                self.legacy_db_path@,
                timestamp as nat,
            )),
            !store_exists && !required ==> r matches Ok(None),
            !store_exists && required ==> (r matches Err(NokError::FileNotFound(p)) && p@
                == self.legacy_db_path@),
    {
        if store_exists {
            Ok(Some(Self::backup_path(self.legacy_db_path.as_str(), timestamp)))
        } else if required {
            Err(NokError::FileNotFound(self.legacy_db_path.clone()))
        } else {
            Ok(None)
        }
    }

    /// The mapping step: every identifier of the snapshot, derived for this
    /// run's server.
    pub fn plan_mappings(&self, data: &LegacyData) -> (r: IdMappings)
        ensures
            r.wf(),
            r.user_mappings@ == user_entries(data.users@, self.server_name@),
            r.room_mappings@ == room_entries(data.rooms@, self.server_name@),
            r.room_aliases@ == alias_entries(data.rooms@),
    {
        IdMappings::generate_from_legacy_data(data.users.as_slice(), data.rooms.as_slice(), self.server_name.as_str())
    }

    /// A preview: the mapping, and the counts that a run without failures
    /// would report. It provisions nothing and writes nothing.
    pub fn dry_run(&self, data: &LegacyData) -> (r: (IdMappings, MigrationResult))
        ensures
            r.0.wf(),
            r.0.user_mappings@ == user_entries(data.users@, self.server_name@),
            r.0.room_mappings@ == room_entries(data.rooms@, self.server_name@),
            r.0.room_aliases@ == alias_entries(data.rooms@),
            r.1.users_migrated == data.users@.len(),
            r.1.rooms_migrated == data.rooms@.len(),
            r.1.messages_migrated == data.messages@.len(),
            r.1.errors@.len() == 0,
    {
        let mapping = self.plan_mappings(data);
        let result = MigrationResult {
            users_migrated: data.users.len(),
            rooms_migrated: data.rooms.len(),
            messages_migrated: data.messages.len(),
            errors: Vec::new(),
        };
        (mapping, result)
    }

    /// Accounts for the provisioning step: one outcome per user and per room,
    /// in snapshot order. Every entity is counted or reported; no failure
    /// stops the run.
    pub fn migrate(
        &self,
        data: &LegacyData,
        user_outcomes: &Vec<Result<(), String>>,
        room_outcomes: &Vec<Result<(), String>>,
    ) -> (r: MigrationResult)
        requires
            user_outcomes@.len() == data.users@.len(),
            room_outcomes@.len() == data.rooms@.len(),
        ensures
            r.users_migrated == count_ok(user_outcomes@),
            r.rooms_migrated == count_ok(room_outcomes@),
            r.messages_migrated == data.messages@.len(),
            string_views(r.errors@) == user_failures(data.users@, user_outcomes@) + room_failures(
                data.rooms@,
                room_outcomes@,
            ),
    {
        let mut result = MigrationResult::new();
        let n = user_outcomes.len();
        let mut i: usize = 0;
        while i < n
            invariant
                n == user_outcomes@.len(),
                n == data.users@.len(),
                i <= n,
                result.users_migrated == count_ok(user_outcomes@.subrange(0, i as int)),
                result.users_migrated <= i,
                result.rooms_migrated == 0,
                result.messages_migrated == 0,
                string_views(result.errors@) == user_failures(
                    data.users@.subrange(0, i as int),
                    user_outcomes@.subrange(0, i as int),
                ),
            decreases n - i,
        {
            let outcome = clone_outcome(&user_outcomes[i]);
            result.record_user(&data.users[i], outcome);
            assert(user_outcomes@.subrange(0, i + 1).drop_last() =~= user_outcomes@.subrange(0, i as int));
            assert(data.users@.subrange(0, i + 1).drop_last() =~= data.users@.subrange(0, i as int));
            i = i + 1;
        }
        assert(user_outcomes@.subrange(0, n as int) =~= user_outcomes@);
        assert(data.users@.subrange(0, n as int) =~= data.users@);
        let ghost user_lines = string_views(result.errors@);
        let m = room_outcomes.len();
        let mut j: usize = 0;
        assert(string_views(result.errors@) =~= user_lines + room_failures(
            data.rooms@.subrange(0, 0),
            room_outcomes@.subrange(0, 0),
        ));
        while j < m
            invariant
                m == room_outcomes@.len(),
                m == data.rooms@.len(),
                j <= m,
                result.users_migrated == count_ok(user_outcomes@),
                result.rooms_migrated == count_ok(room_outcomes@.subrange(0, j as int)),
                result.rooms_migrated <= j,
                result.messages_migrated == 0,
                user_lines == user_failures(data.users@, user_outcomes@),
                string_views(result.errors@) == user_lines + room_failures(
                    data.rooms@.subrange(0, j as int),
                    room_outcomes@.subrange(0, j as int),
                ),
            decreases m - j,
        {
            let outcome = clone_outcome(&room_outcomes[j]);
            result.record_room(&data.rooms[j], outcome);
            assert(room_outcomes@.subrange(0, j + 1).drop_last() =~= room_outcomes@.subrange(0, j as int));
            assert(data.rooms@.subrange(0, j + 1).drop_last() =~= data.rooms@.subrange(0, j as int));
            proof {
                let prev = room_failures(data.rooms@.subrange(0, j as int), room_outcomes@.subrange(0, j as int));
                match room_outcomes@[j as int] {
                    Ok(()) => {},
                    Err(reason) => {
                        assert((user_lines + prev).push(room_failure_text(data.rooms@[j as int].name@, reason@))
                            =~= user_lines + prev.push(room_failure_text(data.rooms@[j as int].name@, reason@)));
                    },
                }
            }
            j = j + 1;
        }
        assert(room_outcomes@.subrange(0, m as int) =~= room_outcomes@);
        assert(data.rooms@.subrange(0, m as int) =~= data.rooms@);
        result.messages_migrated = data.messages.len();
        result
    }
}

fn clone_outcome(o: &Result<(), String>) -> (r: Result<(), String>)
    ensures
        r == *o,
{
    match o {
        Ok(u) => Ok(*u),
        Err(reason) => Err(reason.clone()),
    }
}

/// Each provisioning outcome is either counted as migrated or reported as an
/// error: none is lost and none is counted twice.
pub proof fn lemma_outcomes_accounted(o: Seq<Result<(), String>>)
    ensures
        count_ok(o) + count_err(o) == o.len(),
    decreases o.len(),
{
    if o.len() > 0 {
        lemma_outcomes_accounted(o.drop_last());
    }
}

/// One error line per failed user.
pub proof fn lemma_user_failures_len(users: Seq<LegacyUser>, o: Seq<Result<(), String>>)
    requires
        users.len() == o.len(),
    ensures
        user_failures(users, o).len() == count_err(o),
    decreases o.len(),
{
    if o.len() > 0 {
        lemma_user_failures_len(users.drop_last(), o.drop_last());
    }
}

proof fn lemma_all_ok_counted(o: Seq<Result<(), String>>)
    requires
        forall|i: int| 0 <= i < o.len() ==> (#[trigger] o[i]) is Ok,
    ensures
        count_ok(o) == o.len(),
    decreases o.len(),
{
    if o.len() > 0 {
        assert forall|i: int| 0 <= i < o.drop_last().len() implies (#[trigger] o.drop_last()[i]) is Ok by {
            assert(o.drop_last()[i] == o[i]);
        }
        lemma_all_ok_counted(o.drop_last());
        assert(o.last() == o[o.len() - 1]);
    }
}

proof fn lemma_no_user_failures(users: Seq<LegacyUser>, o: Seq<Result<(), String>>)
    requires
        forall|i: int| 0 <= i < o.len() ==> (#[trigger] o[i]) is Ok,
    ensures
        user_failures(users, o).len() == 0,
    decreases o.len(),
{
    if o.len() > 0 && users.len() > 0 {
        assert forall|i: int| 0 <= i < o.drop_last().len() implies (#[trigger] o.drop_last()[i]) is Ok by {
            assert(o.drop_last()[i] == o[i]);
        }
        lemma_no_user_failures(users.drop_last(), o.drop_last());
        assert(o.last() == o[o.len() - 1]);
    }
}

proof fn lemma_no_room_failures(rooms: Seq<LegacyRoom>, o: Seq<Result<(), String>>)
    requires
        forall|i: int| 0 <= i < o.len() ==> (#[trigger] o[i]) is Ok,
    ensures
        room_failures(rooms, o).len() == 0,
    decreases o.len(),
{
    if o.len() > 0 && rooms.len() > 0 {
        assert forall|i: int| 0 <= i < o.drop_last().len() implies (#[trigger] o.drop_last()[i]) is Ok by {
            assert(o.drop_last()[i] == o[i]);
        }
        lemma_no_room_failures(rooms.drop_last(), o.drop_last());
        assert(o.last() == o[o.len() - 1]);
    }
}

/// The dry run's preview is exactly what a full run reports when every
/// account and room is provisioned: the same three counts and no error line.
/// The dry run itself takes the snapshot by shared reference and is handed no
/// target backend, so it can neither change the legacy records nor provision.
pub proof fn lemma_preview_is_clean_run(
    users: Seq<LegacyUser>,
    rooms: Seq<LegacyRoom>,
    user_outcomes: Seq<Result<(), String>>,
    room_outcomes: Seq<Result<(), String>>,
)
    requires
        user_outcomes.len() == users.len(),
        room_outcomes.len() == rooms.len(),
        forall|i: int| 0 <= i < user_outcomes.len() ==> (#[trigger] user_outcomes[i]) is Ok,
        forall|i: int| 0 <= i < room_outcomes.len() ==> (#[trigger] room_outcomes[i]) is Ok,
    ensures
        count_ok(user_outcomes) == users.len(),
        count_ok(room_outcomes) == rooms.len(),
        user_failures(users, user_outcomes) + room_failures(rooms, room_outcomes) == Seq::<
            Seq<char>,
        >::empty(),
{
    lemma_all_ok_counted(user_outcomes);
    lemma_all_ok_counted(room_outcomes);
    lemma_no_user_failures(users, user_outcomes);
    lemma_no_room_failures(rooms, room_outcomes);
    assert(user_failures(users, user_outcomes) + room_failures(rooms, room_outcomes) =~= Seq::<
        Seq<char>,
    >::empty());
}

} // verus!
