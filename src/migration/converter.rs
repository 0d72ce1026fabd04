//! Deterministic derivation of target-protocol identifiers from legacy records.
use vstd::prelude::*;
use vstd::std_specs::hash::DefaultHasherAdditionalSpecFns;
use vstd::utf8::encode_utf8;
use std::collections::hash_map::DefaultHasher;
use std::hash::Hasher;
use crate::migration::legacy::{LegacyUser, LegacyRoom};
use crate::migration::table::{StringTable, Entries, insert_entry, lookup, lemma_key_index, lemma_insert_keeps_unique, lemma_insert_other};
use crate::text::{
    push_char, push_str, push_hex_padded, push_hex_upper_padded, lower_ascii, lower_ascii_char,
    hex_lower_padded, hex_upper_padded, is_lower_hex_char, lemma_hex_lower_padded_chars,
};

verus! {

/// How many characters of the cleaned legacy id enter a user localpart.
pub const LOCALPART_ID_CHARS: usize = 12;

/// Slugs shorter than this fall back to a hash-derived alias.
pub const MIN_ALIAS_CHARS: usize = 3;

/// Width, in hexadecimal digits, of the opaque part of a room id.
pub const ROOM_ID_DIGITS: u64 = 16;

/// The legacy id with separators (`-`) removed and ASCII letters lower-cased.
pub open spec fn clean_id(s: Seq<char>) -> Seq<char>
    decreases s.len(),
{
    if s.len() == 0 {
        seq![]
    } else {
        let rest = clean_id(s.drop_last());
        if s.last() == '-' {
            rest
        } else {
            rest.push(lower_ascii(s.last()))
        }
    }
}

pub open spec fn truncate(s: Seq<char>, n: nat) -> Seq<char> {
    if s.len() <= n {
        s
    } else {
        s.subrange(0, n as int)
    }
}

/// Localpart of the user id derived from a legacy id.
pub open spec fn matrix_username(legacy_id: Seq<char>) -> Seq<char> {
    seq!['u', 's', 'e', 'r'] + truncate(clean_id(legacy_id), LOCALPART_ID_CHARS as nat)
}

/// `@localpart:server` for a legacy user id.
pub open spec fn matrix_user_id(legacy_id: Seq<char>, server_name: Seq<char>) -> Seq<char> {
    seq!['@'] + matrix_username(legacy_id) + seq![':'] + server_name
}

/// The standard library's default hash of a string, as `str::hash` feeds it:
/// the UTF-8 bytes followed by one `0xff` byte.
pub open spec fn str_hash(s: Seq<char>) -> u64 {
    DefaultHasher::spec_finish(seq![encode_utf8(s), seq![0xffu8]])
}

/// `!HASH:server`, where HASH is the upper-case, zero-padded hex of the id's hash.
pub open spec fn matrix_room_id(legacy_id: Seq<char>, server_name: Seq<char>) -> Seq<char> {
    seq!['!'] + hex_upper_padded(str_hash(legacy_id) as nat, ROOM_ID_DIGITS as nat) + seq![':']
        + server_name
}

/// What a room-name character becomes in a slug, if anything.
pub open spec fn alias_char(c: char) -> Option<char> {
    if ('a' <= c && c <= 'z') || ('A' <= c && c <= 'Z') || ('0' <= c && c <= '9') {
        Some(lower_ascii(c))
    } else if c == ' ' || c == '-' || c == '.' || c == '/' || c == '\\' {
        Some('_')
    } else {
        None
    }
}

pub open spec fn alias_chars(s: Seq<char>) -> Seq<char>
    decreases s.len(),
{
    if s.len() == 0 {
        seq![]
    } else {
        let rest = alias_chars(s.drop_last());
        match alias_char(s.last()) {
            Some(d) => rest.push(d),
            None => rest,
        }
    }
}

/// Every maximal run of underscores replaced by a single one.
pub open spec fn collapse_underscores(s: Seq<char>) -> Seq<char>
    decreases s.len(),
{
    if s.len() == 0 {
        s
    } else if s.len() >= 2 && s.last() == '_' && s[s.len() - 2] == '_' {
        collapse_underscores(s.drop_last())
    } else {
        collapse_underscores(s.drop_last()).push(s.last())
    }
}

pub open spec fn trim_leading_underscores(s: Seq<char>) -> Seq<char>
    decreases s.len(),
{
    if s.len() > 0 && s[0] == '_' {
        trim_leading_underscores(s.drop_first())
    } else {
        s
    }
}

pub open spec fn trim_trailing_underscores(s: Seq<char>) -> Seq<char>
    decreases s.len(),
{
    if s.len() > 0 && s.last() == '_' {
        trim_trailing_underscores(s.drop_last())
    } else {
        s
    }
}

/// The normalised slug of a room name, before the length check.
pub open spec fn room_slug(name: Seq<char>) -> Seq<char> {
    trim_trailing_underscores(trim_leading_underscores(collapse_underscores(alias_chars(name))))
}

/// Hex digits of the hash part of a fallback alias.
pub const FALLBACK_HASH_DIGITS: u64 = 8;

/// `room` followed by the low 32 bits of the name's hash as eight lower-case
/// hex digits, zero padded: always twelve characters.
pub open spec fn fallback_alias(name: Seq<char>) -> Seq<char> {
    seq!['r', 'o', 'o', 'm'] + hex_lower_padded(
        (str_hash(name) % 0x1_0000_0000) as nat,
        FALLBACK_HASH_DIGITS as nat,
    )
}

/// The alias of a room name: its slug, or the hash fallback when the slug is too short.
pub open spec fn room_alias(name: Seq<char>) -> Seq<char> {
    if room_slug(name).len() < MIN_ALIAS_CHARS {
        fallback_alias(name)
    } else {
        room_slug(name)
    }
}

pub open spec fn is_alias_char(c: char) -> bool {
    ('a' <= c && c <= 'z') || ('0' <= c && c <= '9') || c == '_'
}

pub open spec fn all_alias_chars(s: Seq<char>) -> bool {
    forall|i: int| 0 <= i < s.len() ==> is_alias_char(#[trigger] s[i])
}

/// A non-empty string over `[a-z0-9_]`.
pub open spec fn valid_alias(s: Seq<char>) -> bool {
    s.len() > 0 && all_alias_chars(s)
}

/// Strips `-` from a legacy id, lower-cases it, keeps its first characters and
/// prefixes `user`.
pub fn uuid_to_matrix_username(uuid: &str) -> (r: String)
    ensures
        r@ == matrix_username(uuid@),
{
    let mut out = String::new();
    push_char(&mut out, 'u');
    push_char(&mut out, 's');
    push_char(&mut out, 'e');
    push_char(&mut out, 'r');
    let ghost prefix = seq!['u', 's', 'e', 'r'];
    assert(out@ =~= prefix + truncate(clean_id(uuid@.subrange(0, 0)), LOCALPART_ID_CHARS as nat));
    let n = uuid.unicode_len();
    let mut taken: usize = 0;
    let mut i: usize = 0;
    while i < n
        invariant
            n == uuid@.len(),
            i <= n,
            taken == truncate(clean_id(uuid@.subrange(0, i as int)), LOCALPART_ID_CHARS as nat).len(),
            out@ == prefix + truncate(clean_id(uuid@.subrange(0, i as int)), LOCALPART_ID_CHARS as nat),
        decreases n - i,
    {
        let c = uuid.get_char(i);
        let ghost before = clean_id(uuid@.subrange(0, i as int));
        assert(uuid@.subrange(0, i + 1).drop_last() =~= uuid@.subrange(0, i as int));
        assert(uuid@.subrange(0, i + 1).last() == c);
        if c != '-' && taken < LOCALPART_ID_CHARS {
            let d = lower_ascii_char(c);
            push_char(&mut out, d);
            taken = taken + 1;
            assert(truncate(before.push(d), LOCALPART_ID_CHARS as nat) =~= truncate(before, LOCALPART_ID_CHARS as nat).push(d));
        } else if c != '-' {
            assert(truncate(before.push(lower_ascii(c)), LOCALPART_ID_CHARS as nat) =~= truncate(before, LOCALPART_ID_CHARS as nat));
        }
        i = i + 1;
    }
    assert(uuid@.subrange(0, n as int) =~= uuid@);
    out
}

/// `@user…:server_name` for a legacy user id.
pub fn legacy_to_matrix_user_id(legacy_id: &str, server_name: &str) -> (r: String)
    ensures
        r@ == matrix_user_id(legacy_id@, server_name@),
{
    let username = uuid_to_matrix_username(legacy_id);
    let mut out = String::new();
    push_char(&mut out, '@');
    push_str(&mut out, username.as_str());
    push_char(&mut out, ':');
    push_str(&mut out, server_name);
    assert(out@ =~= matrix_user_id(legacy_id@, server_name@));
    out
}

/// The default hash of a string, fed as `str::hash` feeds it.
fn hash_str(s: &str) -> (r: u64)
    ensures
        r == str_hash(s@),
{
    let mut hasher = DefaultHasher::new();
    hasher.write(s.as_bytes());
    let tail: [u8; 1] = [0xffu8];
    let tail_bytes = tail.as_slice();
    assert(tail_bytes@ =~= seq![0xffu8]);
    hasher.write(tail_bytes);
    assert(hasher@ =~= seq![encode_utf8(s@), seq![0xffu8]]);
    hasher.finish()
}

/// `!HASH:server_name`, where HASH is sixteen upper-case hex digits of the
/// legacy id's hash.
pub fn legacy_to_matrix_room_id(legacy_id: &str, server_name: &str) -> (r: String)
    ensures
        r@ == matrix_room_id(legacy_id@, server_name@),
{
    let h = hash_str(legacy_id);
    let mut out = String::new();
    push_char(&mut out, '!');
    push_hex_upper_padded(&mut out, h, ROOM_ID_DIGITS);
    push_char(&mut out, ':');
    push_str(&mut out, server_name);
    assert(out@ =~= matrix_room_id(legacy_id@, server_name@));
    out
}

/// `room` followed by eight hex digits of the low 32 bits of the name's hash.
fn generate_fallback_alias(room_name: &str) -> (r: String)
    ensures
        r@ == fallback_alias(room_name@),
        r@.len() == 12,
{
    let h = hash_str(room_name);
    let mut out = String::new();
    push_char(&mut out, 'r');
    push_char(&mut out, 'o');
    push_char(&mut out, 'o');
    push_char(&mut out, 'm');
    push_hex_padded(&mut out, h % 0x1_0000_0000, FALLBACK_HASH_DIGITS);
    assert(out@ =~= fallback_alias(room_name@));
    proof {
        lemma_hex_lower_padded_chars((h % 0x1_0000_0000) as nat, 8);
    }
    out
}

/// Relies on `regex::Regex::replace_all` with the pattern `_+`: each maximal
/// run of underscores is replaced by one underscore, the rest is kept.
#[verifier::external_body]
fn collapse_underscore_runs(s: &str) -> (r: String)
    ensures
        r@ == collapse_underscores(s@),
{
    let re = regex::Regex::new("_+").unwrap();
    re.replace_all(s, "_").into_owned()
}

fn alias_char_exec(c: char) -> (r: Option<char>)
    ensures
        r == alias_char(c),
{
    if ('a' <= c && c <= 'z') || ('A' <= c && c <= 'Z') || ('0' <= c && c <= '9') {
        Some(lower_ascii_char(c))
    } else if c == ' ' || c == '-' || c == '.' || c == '/' || c == '\\' {
        Some('_')
    } else {
        None
    }
}

/// Keeps `[A-Za-z0-9]` lower-cased, maps separators to `_`, drops the rest.
fn map_alias_chars(s: &str) -> (r: String)
    ensures
        r@ == alias_chars(s@),
{
    let mut out = String::new();
    let n = s.unicode_len();
    let mut i: usize = 0;
    while i < n
        invariant
            n == s@.len(),
            i <= n,
            out@ == alias_chars(s@.subrange(0, i as int)),
        decreases n - i,
    {
        let c = s.get_char(i);
        assert(s@.subrange(0, i + 1).drop_last() =~= s@.subrange(0, i as int));
        assert(s@.subrange(0, i + 1).last() == c);
        match alias_char_exec(c) {
            Some(d) => push_char(&mut out, d),
            None => {},
        }
        i = i + 1;
    }
    assert(s@.subrange(0, n as int) =~= s@);
    out
}

/// Removes leading and trailing underscores.
fn trim_underscores(s: &str) -> (r: String)
    ensures
        r@ == trim_trailing_underscores(trim_leading_underscores(s@)),
{
    let n = s.unicode_len();
    let mut start: usize = 0;
    assert(s@.subrange(0, n as int) =~= s@);
    while start < n && s.get_char(start) == '_'
        invariant
            n == s@.len(),
            start <= n,
            trim_leading_underscores(s@) == trim_leading_underscores(s@.subrange(start as int, n as int)),
        decreases n - start,
    {
        assert(s@.subrange(start as int, n as int).drop_first() =~= s@.subrange(start + 1, n as int));
        start = start + 1;
    }
    assert(trim_leading_underscores(s@) == s@.subrange(start as int, n as int));
    let mut end: usize = n;
    while end > start && s.get_char(end - 1) == '_'
        invariant
            n == s@.len(),
            start <= end <= n,
            trim_trailing_underscores(trim_leading_underscores(s@)) == trim_trailing_underscores(
                s@.subrange(start as int, end as int),
            ),
        decreases end,
    {
        assert(s@.subrange(start as int, end as int).drop_last() =~= s@.subrange(start as int, end - 1));
        end = end - 1;
    }
    assert(trim_trailing_underscores(s@.subrange(start as int, end as int)) == s@.subrange(start as int, end as int));
    s.substring_char(start, end).to_owned()
}

proof fn lemma_alias_chars_valid(s: Seq<char>)
    ensures
        all_alias_chars(alias_chars(s)),
    decreases s.len(),
{
    if s.len() > 0 {
        lemma_alias_chars_valid(s.drop_last());
        let rest = alias_chars(s.drop_last());
        match alias_char(s.last()) {
            Some(d) => {
                assert(is_alias_char(d));
                assert forall|i: int| 0 <= i < rest.push(d).len() implies is_alias_char(#[trigger] rest.push(d)[i]) by {
                    if i < rest.len() {
                        assert(rest.push(d)[i] == rest[i]);
                    }
                }
            },
            None => {},
        }
    }
}

proof fn lemma_collapse_valid(s: Seq<char>)
    requires
        all_alias_chars(s),
    ensures
        all_alias_chars(collapse_underscores(s)),
    decreases s.len(),
{
    if s.len() > 0 {
        let p = s.drop_last();
        assert(all_alias_chars(p)) by {
            assert forall|i: int| 0 <= i < p.len() implies is_alias_char(#[trigger] p[i]) by {
                assert(p[i] == s[i]);
            }
        }
        lemma_collapse_valid(p);
        let c = collapse_underscores(p);
        assert(is_alias_char(s[s.len() - 1]));
        assert forall|i: int| 0 <= i < c.push(s.last()).len() implies is_alias_char(#[trigger] c.push(s.last())[i]) by {
            if i < c.len() {
                assert(c.push(s.last())[i] == c[i]);
            }
        }
    }
}

proof fn lemma_trim_valid(s: Seq<char>)
    requires
        all_alias_chars(s),
    ensures
        all_alias_chars(trim_trailing_underscores(trim_leading_underscores(s))),
{
    lemma_trim_leading_valid(s);
    lemma_trim_trailing_valid(trim_leading_underscores(s));
}

proof fn lemma_trim_leading_valid(s: Seq<char>)
    requires
        all_alias_chars(s),
    ensures
        all_alias_chars(trim_leading_underscores(s)),
    decreases s.len(),
{
    if s.len() > 0 && s[0] == '_' {
        let t = s.drop_first();
        assert forall|i: int| 0 <= i < t.len() implies is_alias_char(#[trigger] t[i]) by {
            assert(t[i] == s[i + 1]);
        }
        lemma_trim_leading_valid(t);
    }
}

proof fn lemma_trim_trailing_valid(s: Seq<char>)
    requires
        all_alias_chars(s),
    ensures
        all_alias_chars(trim_trailing_underscores(s)),
    decreases s.len(),
{
    if s.len() > 0 && s.last() == '_' {
        let t = s.drop_last();
        assert forall|i: int| 0 <= i < t.len() implies is_alias_char(#[trigger] t[i]) by {
            assert(t[i] == s[i]);
        }
        lemma_trim_trailing_valid(t);
    }
}

/// A fallback alias is always twelve characters: `room` and eight hex digits.
pub proof fn lemma_fallback_alias_width(name: Seq<char>)
    ensures
        fallback_alias(name).len() == 12,
{
    lemma_hex_lower_padded_chars((str_hash(name) % 0x1_0000_0000) as nat, 8);
}

/// Every room name, whatever its characters or length, yields a non-empty
/// alias over `[a-z0-9_]`.
pub proof fn lemma_room_alias_valid(name: Seq<char>)
    ensures
        valid_alias(room_alias(name)),
{
    if room_slug(name).len() < MIN_ALIAS_CHARS {
        let h = (str_hash(name) % 0x1_0000_0000) as nat;
        lemma_hex_lower_padded_chars(h, 8);
        let hx = hex_lower_padded(h, 8);
        let f = fallback_alias(name);
        assert forall|i: int| 0 <= i < f.len() implies is_alias_char(#[trigger] f[i]) by {
            if i >= 4 {
                assert(f[i] == hx[i - 4]);
                assert(is_lower_hex_char(hx[i - 4]));
            }
        }
    } else {
        lemma_alias_chars_valid(name);
        lemma_collapse_valid(alias_chars(name));
        lemma_trim_valid(collapse_underscores(alias_chars(name)));
    }
}

/// The alias of a room name: lower-case ASCII letters and digits, with spaces
/// and separators turned into single underscores and trimmed at both ends; a
/// hash-derived `room…` alias when fewer than three characters remain.
pub fn room_name_to_matrix_alias(room_name: &str) -> (r: String)
    ensures
        r@ == room_alias(room_name@),
        valid_alias(r@),
{
    proof {
        lemma_room_alias_valid(room_name@);
    }
    let alias = map_alias_chars(room_name);
    let cleaned = collapse_underscore_runs(alias.as_str());
    let trimmed = trim_underscores(cleaned.as_str());
    if trimmed.as_str().unicode_len() < MIN_ALIAS_CHARS {
        generate_fallback_alias(room_name)
    } else {
        trimmed
    }
}

/// The user id depends only on the legacy id and the server name, and two
/// different server names give two different user ids for the same legacy id.
pub proof fn lemma_user_id_determined_by_inputs(id: Seq<char>, server_a: Seq<char>, server_b: Seq<char>)
    ensures
        server_a == server_b ==> matrix_user_id(id, server_a) == matrix_user_id(id, server_b),
        server_a != server_b ==> matrix_user_id(id, server_a) != matrix_user_id(id, server_b),
{
    let p = seq!['@'] + matrix_username(id) + seq![':'];
    assert(matrix_user_id(id, server_a) =~= p + server_a);
    assert(matrix_user_id(id, server_b) =~= p + server_b);
    if server_a != server_b && matrix_user_id(id, server_a) == matrix_user_id(id, server_b) {
        assert((p + server_a).subrange(p.len() as int, (p + server_a).len() as int) =~= server_a);
        assert((p + server_b).subrange(p.len() as int, (p + server_b).len() as int) =~= server_b);
    }
}

/// A user id derived from any legacy id ends in `:server_name`.
pub proof fn lemma_user_id_ends_with_server(id: Seq<char>, server: Seq<char>)
    ensures
        ({
            let u = matrix_user_id(id, server);
            &&& u.len() > server.len()
            &&& u.subrange(u.len() - server.len() - 1, u.len() as int) == seq![':'] + server
            &&& u.subrange(0, 5) == seq!['@', 'u', 's', 'e', 'r']
        }),
{
    let u = matrix_user_id(id, server);
    let p = seq!['@'] + matrix_username(id);
    assert(u =~= p + (seq![':'] + server));
    assert(u.subrange(u.len() - server.len() - 1, u.len() as int) =~= seq![':'] + server);
    assert(u.subrange(0, 5) =~= seq!['@', 'u', 's', 'e', 'r']);
}

/// User mappings generated from `users`, one per id, later records winning.
pub open spec fn user_entries(users: Seq<LegacyUser>, server_name: Seq<char>) -> Entries
    decreases users.len(),
{
    if users.len() == 0 {
        Seq::empty()
    } else {
        let u = users.last();
        insert_entry(user_entries(users.drop_last(), server_name), u.id@, matrix_user_id(u.id@, server_name))
    }
}

/// Room id mappings generated from `rooms`.
pub open spec fn room_entries(rooms: Seq<LegacyRoom>, server_name: Seq<char>) -> Entries
    decreases rooms.len(),
{
    if rooms.len() == 0 {
        Seq::empty()
    } else {
        let r = rooms.last();
        insert_entry(room_entries(rooms.drop_last(), server_name), r.id@, matrix_room_id(r.id@, server_name))
    }
}

/// Room alias mappings generated from `rooms`.
pub open spec fn alias_entries(rooms: Seq<LegacyRoom>) -> Entries
    decreases rooms.len(),
{
    if rooms.len() == 0 {
        Seq::empty()
    } else {
        let r = rooms.last();
        insert_entry(alias_entries(rooms.drop_last()), r.id@, room_alias(r.name@))
    }
}

/// The identity mapping of one migration run: legacy id to user id, to room
/// id, and to room alias. Each legacy id appears at most once per table.
#[derive(Debug)]
pub struct IdMappings {
    pub user_mappings: StringTable,
    pub room_mappings: StringTable,
    pub room_aliases: StringTable,
}

impl IdMappings {
    pub open spec fn wf(&self) -> bool {
        self.user_mappings.wf() && self.room_mappings.wf() && self.room_aliases.wf()
    }

    pub fn new() -> (r: IdMappings)
        ensures
            r.wf(),
            r.user_mappings@.len() == 0,
            r.room_mappings@.len() == 0,
            r.room_aliases@.len() == 0,
    {
        IdMappings { user_mappings: StringTable::new(), room_mappings: StringTable::new(), room_aliases: StringTable::new() }
    }

    /// Maps a legacy user id to a user id, replacing an earlier mapping.
    pub fn add_user_mapping(&mut self, legacy_id: String, matrix_id: String)
        requires
            old(self).wf(),
        ensures
            final(self).wf(),
            final(self).user_mappings@ == insert_entry(old(self).user_mappings@, legacy_id@, matrix_id@),
            final(self).room_mappings@ == old(self).room_mappings@,
            final(self).room_aliases@ == old(self).room_aliases@,
    {
        self.user_mappings.insert(legacy_id, matrix_id);
    }

    /// Maps a legacy room id to a room id and an alias, replacing earlier mappings.
    pub fn add_room_mapping(&mut self, legacy_id: String, matrix_id: String, alias: String)
        requires
            old(self).wf(),
        ensures
            final(self).wf(),
            final(self).room_mappings@ == insert_entry(old(self).room_mappings@, legacy_id@, matrix_id@),
            final(self).room_aliases@ == insert_entry(old(self).room_aliases@, legacy_id@, alias@),
            final(self).user_mappings@ == old(self).user_mappings@,
    {
        let key = legacy_id.clone();
        self.room_mappings.insert(key, matrix_id);
        self.room_aliases.insert(legacy_id, alias);
    }

    pub fn get_matrix_user_id(&self, legacy_id: &str) -> (r: Option<&String>)
        ensures
            match r {
                Some(v) => lookup(self.user_mappings@, legacy_id@) == Some(v@),
                None => lookup(self.user_mappings@, legacy_id@) is None,
            },
    {
        self.user_mappings.get(legacy_id)
    }

    pub fn get_matrix_room_id(&self, legacy_id: &str) -> (r: Option<&String>)
        ensures
            match r {
                Some(v) => lookup(self.room_mappings@, legacy_id@) == Some(v@),
                None => lookup(self.room_mappings@, legacy_id@) is None,
            },
    {
        self.room_mappings.get(legacy_id)
    }

    pub fn get_matrix_room_alias(&self, legacy_id: &str) -> (r: Option<&String>)
        ensures
            match r {
                Some(v) => lookup(self.room_aliases@, legacy_id@) == Some(v@),
                None => lookup(self.room_aliases@, legacy_id@) is None,
            },
    {
        self.room_aliases.get(legacy_id)
    }

    /// Derives every mapping of a legacy snapshot in one pass, without I/O.
    pub fn generate_from_legacy_data(users: &[LegacyUser], rooms: &[LegacyRoom], server_name: &str) -> (r:
        IdMappings)
        ensures
            r.wf(),
            r.user_mappings@ == user_entries(users@, server_name@),
            r.room_mappings@ == room_entries(rooms@, server_name@),
            r.room_aliases@ == alias_entries(rooms@),
    {
        let mut mappings = IdMappings::new();
        let n = users.len();
        let mut i: usize = 0;
        while i < n
            invariant
                n == users@.len(),
                i <= n,
                mappings.wf(),
                mappings.user_mappings@ == user_entries(users@.subrange(0, i as int), server_name@),
                mappings.room_mappings@.len() == 0,
                mappings.room_aliases@.len() == 0,
            decreases n - i,
        {
            let user = &users[i];
            let matrix_id = legacy_to_matrix_user_id(user.id.as_str(), server_name);
            let id = user.id.clone();
            mappings.add_user_mapping(id, matrix_id);
            assert(users@.subrange(0, i + 1).drop_last() =~= users@.subrange(0, i as int));
            i = i + 1;
        }
        assert(users@.subrange(0, n as int) =~= users@);
        let m = rooms.len();
        let mut j: usize = 0;
        assert(mappings.room_mappings@ =~= room_entries(rooms@.subrange(0, 0), server_name@));
        assert(mappings.room_aliases@ =~= alias_entries(rooms@.subrange(0, 0)));
        while j < m
            invariant
                m == rooms@.len(),
                j <= m,
                mappings.wf(),
                mappings.user_mappings@ == user_entries(users@, server_name@),
                mappings.room_mappings@ == room_entries(rooms@.subrange(0, j as int), server_name@),
                mappings.room_aliases@ == alias_entries(rooms@.subrange(0, j as int)),
            decreases m - j,
        {
            let room = &rooms[j];
            let matrix_id = legacy_to_matrix_room_id(room.id.as_str(), server_name);
            let alias = room_name_to_matrix_alias(room.name.as_str());
            let id = room.id.clone();
            mappings.add_room_mapping(id, matrix_id, alias);
            assert(rooms@.subrange(0, j + 1).drop_last() =~= rooms@.subrange(0, j as int));
            j = j + 1;
        }
        assert(rooms@.subrange(0, m as int) =~= rooms@);
        mappings
    }
}

proof fn lemma_user_entries_unique(users: Seq<LegacyUser>, server_name: Seq<char>)
    ensures
        crate::migration::table::keys_unique(user_entries(users, server_name)),
    decreases users.len(),
{
    if users.len() > 0 {
        lemma_user_entries_unique(users.drop_last(), server_name);
        let u = users.last();
        lemma_insert_keeps_unique(user_entries(users.drop_last(), server_name), u.id@, matrix_user_id(u.id@, server_name));
    }
}

/// Every legacy user of a snapshot maps to the user id derived from its own
/// id, whatever else the snapshot holds.
pub proof fn lemma_generated_user_lookup(users: Seq<LegacyUser>, server_name: Seq<char>, i: int)
    requires
        0 <= i < users.len(),
    ensures
        lookup(user_entries(users, server_name), users[i].id@) == Some(
            matrix_user_id(users[i].id@, server_name),
        ),
    decreases users.len(),
{
    let u = users.last();
    let prev = user_entries(users.drop_last(), server_name);
    lemma_user_entries_unique(users.drop_last(), server_name);
    lemma_insert_keeps_unique(prev, u.id@, matrix_user_id(u.id@, server_name));
    if i < users.len() - 1 && users[i].id@ != u.id@ {
        lemma_generated_user_lookup(users.drop_last(), server_name, i);
        assert(users.drop_last()[i] == users[i]);
        lemma_insert_other(prev, u.id@, matrix_user_id(u.id@, server_name), users[i].id@);
    }
}

/// Every alias of a generated mapping is a non-empty string over `[a-z0-9_]`.
pub proof fn lemma_generated_aliases_valid(rooms: Seq<LegacyRoom>)
    ensures
        forall|i: int|
            0 <= i < alias_entries(rooms).len() ==> valid_alias(#[trigger] alias_entries(rooms)[i].1),
    decreases rooms.len(),
{
    if rooms.len() > 0 {
        let prev = alias_entries(rooms.drop_last());
        let r = rooms.last();
        lemma_generated_aliases_valid(rooms.drop_last());
        lemma_room_alias_valid(r.name@);
        lemma_key_index(prev, r.id@);
        let next = alias_entries(rooms);
        assert forall|i: int| 0 <= i < next.len() implies valid_alias(#[trigger] next[i].1) by {
            if i < prev.len() && next[i] == prev[i] {
            } else {
                assert(next[i].1 == room_alias(r.name@));
            }
        }
    }
}

} // verus!
