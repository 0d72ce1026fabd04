//! The mapping file: a JSON object of three string-to-string objects,
//! `user_mappings`, `room_mappings` and `room_aliases`, one entry per line.
//!
//! The file is written in one fixed layout; the reader takes any JSON object
//! of that shape, and reading what was written gives the same mapping.
use vstd::prelude::*;
use crate::migration::converter::IdMappings;
use crate::migration::table::{Entries, StringTable, keys_unique, key_index, insert_entry, lemma_key_index};
use crate::text::{push_char, push_str, hex_digit, hex_digit_char, chars_of, char_from_u32, is_scalar_value, str_eq, lemma_hex_digit_value};
use crate::util::error::NokError;

verus! {

pub open spec fn starts_at(s: Seq<char>, i: int, lit: Seq<char>) -> bool {
    0 <= i && i + lit.len() <= s.len() && s.subrange(i, i + lit.len()) == lit
}

/// A character inside a quoted string.
pub open spec fn enc_char(c: char) -> Seq<char> {
    if c == '"' {
        seq!['\\', '"']
    } else if c == '\\' {
        seq!['\\', '\\']
    } else if (c as u32) < 0x20 {
        seq!['\\', 'u', '0', '0', hex_digit((c as u32 / 16) as nat), hex_digit((c as u32 % 16) as nat)]
    } else {
        seq![c]
    }
}

pub open spec fn enc_body(x: Seq<char>) -> Seq<char>
    decreases x.len(),
{
    if x.len() == 0 {
        Seq::empty()
    } else {
        enc_body(x.drop_last()) + enc_char(x.last())
    }
}

/// A JSON string literal.
pub open spec fn enc_str(x: Seq<char>) -> Seq<char> {
    seq!['"'] + enc_body(x) + seq!['"']
}

/// One `"key": "value"` line of a table, with its line break and indent.
pub open spec fn enc_pair(p: (Seq<char>, Seq<char>)) -> Seq<char> {
    "\n    "@ + enc_str(p.0) + ": "@ + enc_str(p.1)
}

/// The lines of a table, separated by commas.
pub open spec fn enc_pairs(e: Entries) -> Seq<char>
    decreases e.len(),
{
    if e.len() <= 1 {
        if e.len() == 0 {
            Seq::empty()
        } else {
            enc_pair(e[0])
        }
    } else {
        enc_pairs(e.drop_last()) + ","@ + enc_pair(e.last())
    }
}

/// A JSON object of string values.
pub open spec fn enc_object(e: Entries) -> Seq<char> {
    if e.len() == 0 {
        "{}"@
    } else {
        "{"@ + enc_pairs(e) + "\n  }"@
    }
}

/// One table of the file under its key.
pub open spec fn enc_member(k: Seq<char>, e: Entries) -> Seq<char> {
    "\n  "@ + enc_str(k) + ": "@ + enc_object(e)
}

/// The whole file.
pub open spec fn enc_file(users: Entries, rooms: Entries, aliases: Entries) -> Seq<char> {
    "{"@ + enc_member("user_mappings"@, users) + ","@ + enc_member("room_mappings"@, rooms) + ","@
        + enc_member("room_aliases"@, aliases) + "\n}\n"@
}

pub open spec fn hex_value(c: char) -> Option<nat> {
    if '0' <= c && c <= '9' {
        Some((c as u32 - 48) as nat)
    } else if 'a' <= c && c <= 'f' {
        Some((c as u32 - 87) as nat)
    } else if 'A' <= c && c <= 'F' {
        Some((c as u32 - 55) as nat)
    } else {
        None
    }
}

/// The value of four hexadecimal digits starting at `i`.
pub open spec fn hex4(s: Seq<char>, i: int) -> Option<nat> {
    if 0 <= i && i + 3 < s.len() && hex_value(s[i]) is Some && hex_value(s[i + 1]) is Some
        && hex_value(s[i + 2]) is Some && hex_value(s[i + 3]) is Some {
        Some(
            hex_value(s[i])->0 * 4096 + hex_value(s[i + 1])->0 * 256 + hex_value(s[i + 2])->0 * 16
                + hex_value(s[i + 3])->0,
        )
    } else {
        None
    }
}

/// The character of a `\u` escape at `i`: one scalar value, or a surrogate
/// pair written as two escapes; with the escape's length.
pub open spec fn unicode_escape(s: Seq<char>, i: int) -> Option<(char, int)> {
    match hex4(s, i + 2) {
        None => None,
        Some(v) => if 0xD800 <= v && v < 0xDC00 {
            if 0 <= i && i + 7 < s.len() && s[i + 6] == '\\' && s[i + 7] == 'u' {
                match hex4(s, i + 8) {
                    Some(w) => if 0xDC00 <= w && w < 0xE000 {
                        Some(((0x10000 + (v - 0xD800) * 1024 + (w - 0xDC00)) as u32 as char, 12))
                    } else {
                        None
                    },
                    None => None,
                }
            } else {
                None
            }
        } else if is_scalar_value(v) {
            Some(((v as u32) as char, 6))
        } else {
            None
        },
    }
}

/// The character that the escape starting at `i` (a backslash) stands for,
/// and the escape's length.
pub open spec fn unescape(s: Seq<char>, i: int) -> Option<(char, int)> {
    if !(0 <= i && i + 1 < s.len()) {
        None
    } else {
        let e = s[i + 1];
        if e == '"' {
            Some(('"', 2))
        } else if e == '\\' {
            Some(('\\', 2))
        } else if e == '/' {
            Some(('/', 2))
        } else if e == 'n' {
            Some(('\n', 2))
        } else if e == 'r' {
            Some(('\r', 2))
        } else if e == 't' {
            Some(('\t', 2))
        } else if e == 'b' {
            Some(('\u{8}', 2))
        } else if e == 'f' {
            Some(('\u{c}', 2))
        } else if e == 'u' {
            unicode_escape(s, i)
        } else {
            None
        }
    }
}

/// Reads string characters from `i` up to the closing quote.
pub open spec fn str_body(s: Seq<char>, i: int, acc: Seq<char>) -> Option<(Seq<char>, int)>
    decreases s.len() - i,
{
    if !(0 <= i && i < s.len()) {
        None
    } else if s[i] == '"' {
        Some((acc, i + 1))
    } else if s[i] == '\\' {
        match unescape(s, i) {
            Some((c, n)) => str_body(s, i + n, acc.push(c)),
            None => None,
        }
    } else if (s[i] as u32) < 0x20 {
        None
    } else {
        str_body(s, i + 1, acc.push(s[i]))
    }
}

/// A string literal starting at `i`: its text and the position after it.
pub open spec fn parse_str(s: Seq<char>, i: int) -> Option<(Seq<char>, int)> {
    if 0 <= i && i < s.len() && s[i] == '"' {
        str_body(s, i + 1, Seq::empty())
    } else {
        None
    }
}

// ---- Reading back what was written ----

proof fn lemma_subrange_of_concat(a: Seq<char>, b: Seq<char>, c: Seq<char>)
    ensures
        (a + b + c).subrange(a.len() as int, (a.len() + b.len()) as int) == b,
{
    assert((a + b + c).subrange(a.len() as int, (a.len() + b.len()) as int) =~= b);
}

/// The encoding of a character is read back as that character.
proof fn lemma_char_step(s: Seq<char>, i: int, c: char, acc: Seq<char>)
    requires
        starts_at(s, i, enc_char(c)),
    ensures
        str_body(s, i, acc) == str_body(s, i + enc_char(c).len(), acc.push(c)),
{
    let e = enc_char(c);
    assert(s[i] == e[0]) by {
        assert(s.subrange(i, i + e.len())[0] == s[i]);
    }
    if c == '"' || c == '\\' {
        assert(s[i + 1] == e[1]) by {
            assert(s.subrange(i, i + e.len())[1] == s[i + 1]);
        }
    } else if (c as u32) < 0x20 {
        assert forall|k: int| 0 <= k < 6 implies s[i + k] == #[trigger] e[k] by {
            assert(s.subrange(i, i + e.len())[k] == s[i + k]);
        }
        let hi = (c as u32 / 16) as nat;
        let lo = (c as u32 % 16) as nat;
        lemma_hex_digit_value(hi);
        lemma_hex_digit_value(lo);
        assert(hex_value(hex_digit(hi)) == Some(hi));
        assert(hex_value(hex_digit(lo)) == Some(lo));
        assert(hex_value('0') == Some(0nat));
        let v = hi * 16 + lo;
        assert(v == c as u32);
        assert(hex4(s, i + 2) == Some(v));
        assert(is_scalar_value(v));
        assert(((v as u32) as char) == c);
    } else {
        assert((c as u32) >= 0x20);
    }
}

proof fn lemma_enc_body_prefix(x: Seq<char>, k: int)
    requires
        0 <= k <= x.len(),
    ensures
        enc_body(x).subrange(0, enc_body(x.subrange(0, k)).len() as int) == enc_body(x.subrange(0, k)),
        enc_body(x.subrange(0, k)).len() <= enc_body(x).len(),
    decreases x.len() - k,
{
    if k == x.len() {
        assert(x.subrange(0, k) =~= x);
        assert(enc_body(x).subrange(0, enc_body(x).len() as int) =~= enc_body(x));
    } else {
        lemma_enc_body_prefix(x, k + 1);
        let p = x.subrange(0, k + 1);
        assert(p.drop_last() =~= x.subrange(0, k));
        let a = enc_body(x.subrange(0, k));
        let b = enc_body(p);
        assert(b == a + enc_char(p.last()));
        assert(enc_body(x).subrange(0, a.len() as int) =~= b.subrange(0, a.len() as int));
        assert(b.subrange(0, a.len() as int) =~= a);
    }
}

/// Reading the string body from its start reaches, after the encodings of the
/// first `k` characters, the position right after them with those characters read.
proof fn lemma_str_steps(s: Seq<char>, i: int, x: Seq<char>, k: int)
    requires
        0 <= k <= x.len(),
        0 <= i,
        starts_at(s, i, enc_str(x)),
        s.subrange(i + 1, i + 1 + enc_body(x).len()) == enc_body(x),
    ensures
        str_body(s, i + 1, Seq::empty()) == str_body(
            s,
            i + 1 + enc_body(x.subrange(0, k)).len(),
            x.subrange(0, k),
        ),
    decreases k,
{
    if k == 0 {
        assert(x.subrange(0, 0) =~= Seq::<char>::empty());
    } else {
        lemma_str_steps(s, i, x, k - 1);
        let body = enc_body(x);
        let pre = enc_body(x.subrange(0, k - 1));
        let first_k = x.subrange(0, k);
        assert(first_k.drop_last() =~= x.subrange(0, k - 1));
        assert(first_k.last() == x[k - 1]);
        lemma_enc_body_prefix(x, k);
        let next = enc_body(first_k);
        assert(next == pre + enc_char(x[k - 1]));
        let j = i + 1 + pre.len();
        assert(starts_at(s, j, enc_char(x[k - 1]))) by {
            assert(s.subrange(j, j + enc_char(x[k - 1]).len()) =~= body.subrange(pre.len() as int, next.len() as int));
            assert(body.subrange(0, next.len() as int) == next);
            assert(body.subrange(pre.len() as int, next.len() as int) =~= next.subrange(pre.len() as int, next.len() as int));
            assert(next.subrange(pre.len() as int, next.len() as int) =~= enc_char(x[k - 1]));
        }
        lemma_char_step(s, j, x[k - 1], x.subrange(0, k - 1));
        assert(x.subrange(0, k - 1).push(x[k - 1]) =~= first_k);
    }
}

/// A written string literal is read back as its text, ending right after it.
proof fn lemma_str_roundtrip(s: Seq<char>, i: int, x: Seq<char>)
    requires
        starts_at(s, i, enc_str(x)),
    ensures
        parse_str(s, i) == Some((x, i + enc_str(x).len())),
{
    let body = enc_body(x);
    assert(s[i] == '"') by {
        assert(s.subrange(i, i + enc_str(x).len())[0] == s[i]);
    }
    assert(s.subrange(i + 1, i + 1 + body.len()) =~= body) by {
        assert(s.subrange(i + 1, i + 1 + body.len()) =~= s.subrange(i, i + enc_str(x).len()).subrange(1, (1 + body.len()) as int));
        lemma_subrange_of_concat(seq!['"'], body, seq!['"']);
    }
    assert(s[i + 1 + body.len()] == '"') by {
        assert(s.subrange(i, i + enc_str(x).len())[(1 + body.len()) as int] == s[i + 1 + body.len()]);
    }
    lemma_str_steps(s, i, x, x.len() as int);
    assert(x.subrange(0, x.len() as int) =~= x);
}

/// Where the `n`-th pair line starts, after the first `n` pairs and their separators.
pub open spec fn pair_start(i: int, e: Entries, n: int) -> int {
    i + enc_pairs(e.subrange(0, n)).len() - enc_pair(e[n - 1]).len()
}

proof fn lemma_pairs_prefix(e: Entries, n: int)
    requires
        1 <= n <= e.len(),
    ensures
        enc_pairs(e).subrange(0, enc_pairs(e.subrange(0, n)).len() as int) == enc_pairs(e.subrange(0, n)),
        enc_pairs(e.subrange(0, n)).len() <= enc_pairs(e).len(),
        enc_pairs(e.subrange(0, n)).len() >= enc_pair(e[n - 1]).len(),
        enc_pairs(e.subrange(0, n)).subrange(
            enc_pairs(e.subrange(0, n)).len() - enc_pair(e[n - 1]).len(),
            enc_pairs(e.subrange(0, n)).len() as int,
        ) == enc_pair(e[n - 1]),
    decreases e.len() - n,
{
    let p = e.subrange(0, n);
    assert(p.last() == e[n - 1]);
    if n == 1 {
        assert(enc_pairs(p) == enc_pair(p[0]));
        assert(enc_pairs(p).subrange(0, enc_pairs(p).len() as int) =~= enc_pairs(p));
    } else {
        assert(enc_pairs(p) == enc_pairs(p.drop_last()) + ","@ + enc_pair(p.last()));
        assert(enc_pairs(p).subrange(
            enc_pairs(p).len() - enc_pair(e[n - 1]).len(),
            enc_pairs(p).len() as int,
        ) =~= enc_pair(e[n - 1]));
    }
    if n == e.len() {
        assert(p =~= e);
        assert(enc_pairs(e).subrange(0, enc_pairs(e).len() as int) =~= enc_pairs(e));
    } else {
        lemma_pairs_prefix(e, n + 1);
        let q = e.subrange(0, n + 1);
        assert(q.drop_last() =~= p);
        assert(enc_pairs(q) == enc_pairs(p) + ","@ + enc_pair(q.last()));
        assert(enc_pairs(e).subrange(0, enc_pairs(p).len() as int) =~= enc_pairs(q).subrange(0, enc_pairs(p).len() as int));
        assert(enc_pairs(q).subrange(0, enc_pairs(p).len() as int) =~= enc_pairs(p));
    }
}

/// The `n`-th line of a table, with the pairs text starting at `i`, reads as
/// its key and value, with white space skipped where the reader skips it.
#[verifier::rlimit(100)]
#[verifier::spinoff_prover]
proof fn lemma_pair_read(s: Seq<char>, i: int, e: Entries, n: int)
    requires
        1 <= n <= e.len(),
        starts_at(s, i, enc_pairs(e) + "\n  }"@),
    ensures
        ({
            let st = pair_start(i, e, n);
            let kl = enc_str(e[n - 1].0).len() as int;
            let end = i + enc_pairs(e.subrange(0, n)).len();
            &&& i <= st
            &&& end < s.len()
            &&& skip_ws(s, st) == st + 5
            &&& st + 5 < s.len()
            &&& s[st + 5] == '"'
            &&& parse_str(s, st + 5) == Some((e[n - 1].0, st + 5 + kl))
            &&& s[st + 5 + kl] == ':'
            &&& skip_ws(s, st + 5 + kl) == st + 5 + kl
            &&& skip_ws(s, st + 6 + kl) == st + 7 + kl
            &&& parse_str(s, st + 7 + kl) == Some((e[n - 1].1, end))
        }),
{
    reveal_strlit("\n    ");
    reveal_strlit(": ");
    reveal_strlit("\n  }");
    lemma_pairs_prefix(e, n);
    let whole = enc_pairs(e) + "\n  }"@;
    let pl = enc_pairs(e.subrange(0, n)).len() as int;
    let pr = enc_pair(e[n - 1]);
    let st = pair_start(i, e, n);
    assert(s.subrange(i, i + whole.len()) == whole);
    assert(s.subrange(st, st + pr.len()) =~= pr) by {
        assert(s.subrange(st, st + pr.len()) =~= whole.subrange(pl - pr.len(), pl));
        assert(whole.subrange(pl - pr.len(), pl) =~= enc_pairs(e).subrange(pl - pr.len(), pl));
        assert(enc_pairs(e).subrange(pl - pr.len(), pl) =~= enc_pairs(e.subrange(0, n)).subrange(pl - pr.len(), pl));
    }
    let (k, v) = e[n - 1];
    let ks = enc_str(k);
    let vs = enc_str(v);
    let kl = ks.len() as int;
    assert(pr == "\n    "@ + ks + ": "@ + vs);
    assert(pr.subrange(5, 5 + kl) =~= ks);
    assert(pr.subrange((7 + kl) as int, pr.len() as int) =~= vs);
    assert forall|t: int| 0 <= t < pr.len() implies s[st + t] == #[trigger] pr[t] by {
        assert(s.subrange(st, st + pr.len())[t] == s[st + t]);
    }
    assert(pr[0] == '\n' && pr[1] == ' ' && pr[2] == ' ' && pr[3] == ' ' && pr[4] == ' ');
    assert(pr[5] == '"');
    assert(pr[5 + kl] == ':' && pr[6 + kl] == ' ');
    assert(pr[7 + kl] == '"');
    assert(skip_ws(s, st + 5) == st + 5);
    assert(skip_ws(s, st + 4) == st + 5);
    assert(skip_ws(s, st + 3) == st + 5);
    assert(skip_ws(s, st + 2) == st + 5);
    assert(skip_ws(s, st + 1) == st + 5);
    assert(skip_ws(s, st) == st + 5);
    assert(skip_ws(s, st + 5 + kl) == st + 5 + kl);
    assert(skip_ws(s, st + 7 + kl) == st + 7 + kl);
    assert(skip_ws(s, st + 6 + kl) == st + 7 + kl);
    assert(starts_at(s, st + 5, ks)) by {
        assert(s.subrange(st + 5, st + 5 + kl) =~= pr.subrange(5, 5 + kl));
    }
    lemma_str_roundtrip(s, st + 5, k);
    assert(starts_at(s, st + 7 + kl, vs)) by {
        assert(s.subrange(st + 7 + kl, st + 7 + kl + vs.len()) =~= pr.subrange((7 + kl) as int, pr.len() as int));
    }
    lemma_str_roundtrip(s, st + 7 + kl, v);
    assert(whole.len() == enc_pairs(e).len() + 4);
}

/// Reading line `n` of a table leads to line `n + 1`, or closes the table
/// after the last line.
#[verifier::rlimit(100)]
#[verifier::spinoff_prover]
proof fn lemma_table_step(s: Seq<char>, i: int, e: Entries, n: int)
    requires
        1 <= n <= e.len(),
        keys_unique(e),
        starts_at(s, i, enc_pairs(e) + "\n  }"@),
    ensures
        n < e.len() ==> table_members(s, pair_start(i, e, n), e.subrange(0, n - 1), n == 1)
            == table_members(s, pair_start(i, e, n + 1), e.subrange(0, n), false),
        n == e.len() ==> table_members(s, pair_start(i, e, n), e.subrange(0, n - 1), n == 1)
            == Some((e, i + enc_pairs(e).len() + 4)),
{
    reveal_strlit("\n  }");
    reveal_strlit(",");
    lemma_pair_read(s, i, e, n);
    lemma_pairs_prefix(e, n);
    let st = pair_start(i, e, n);
    let end = i + enc_pairs(e.subrange(0, n)).len();
    let whole = enc_pairs(e) + "\n  }"@;
    assert(s.subrange(i, i + whole.len()) == whole);
    let acc = e.subrange(0, n - 1);
    lemma_key_index(acc, e[n - 1].0);
    assert forall|t: int| 0 <= t < acc.len() implies #[trigger] acc[t].0 != e[n - 1].0 by {
        assert(acc[t] == e[t]);
    }
    assert(insert_entry(acc, e[n - 1].0, e[n - 1].1) =~= e.subrange(0, n));
    if n < e.len() {
        lemma_pairs_prefix(e, n + 1);
        let q = e.subrange(0, n + 1);
        assert(q.drop_last() =~= e.subrange(0, n));
        assert(enc_pairs(q) == enc_pairs(e.subrange(0, n)) + ","@ + enc_pair(q.last()));
        let pn = enc_pairs(e.subrange(0, n)).len() as int;
        assert(enc_pairs(q)[pn] == ',');
        assert(enc_pairs(e).subrange(0, enc_pairs(q).len() as int) == enc_pairs(q));
        assert(enc_pairs(e)[pn] == enc_pairs(q)[pn]);
        assert(s[end] == whole[pn]);
        assert(s[end] == ',');
        assert(skip_ws(s, end) == end);
        assert(pair_start(i, e, n + 1) == end + 1);
    } else {
        assert(e.subrange(0, n) =~= e);
        let pe = enc_pairs(e).len() as int;
        assert(s[end] == whole[pe]);
        assert(s[end + 1] == whole[pe + 1]);
        assert(s[end + 2] == whole[pe + 2]);
        assert(s[end + 3] == whole[pe + 3]);
        assert(whole[pe] == '\n' && whole[pe + 1] == ' ' && whole[pe + 2] == ' ' && whole[pe + 3] == '}');
        assert(skip_ws(s, end + 3) == end + 3);
        assert(skip_ws(s, end + 2) == end + 3);
        assert(skip_ws(s, end + 1) == end + 3);
        assert(skip_ws(s, end) == end + 3);
    }
}

proof fn lemma_table_upto(s: Seq<char>, i: int, e: Entries, n: int)
    requires
        1 <= n <= e.len(),
        keys_unique(e),
        starts_at(s, i, enc_pairs(e) + "\n  }"@),
    ensures
        table_members(s, i, Seq::empty(), true) == table_members(
            s,
            pair_start(i, e, n),
            e.subrange(0, n - 1),
            n == 1,
        ),
    decreases n,
{
    if n == 1 {
        assert(e.subrange(0, 1) =~= seq![e[0]]);
        assert(enc_pairs(seq![e[0]]) == enc_pair(e[0]));
        assert(e.subrange(0, 0) =~= Seq::<(Seq<char>, Seq<char>)>::empty());
    } else {
        lemma_table_upto(s, i, e, n - 1);
        lemma_table_step(s, i, e, n - 1);
    }
}

/// A written table is read back as its entries when keys are unique.
proof fn lemma_table_roundtrip(s: Seq<char>, i: int, e: Entries)
    requires
        keys_unique(e),
        starts_at(s, i, enc_object(e)),
    ensures
        parse_table(s, i) == Some((e, i + enc_object(e).len())),
{
    reveal_strlit("{}");
    reveal_strlit("{");
    reveal_strlit("\n  }");
    let o = enc_object(e);
    assert(s.subrange(i, i + o.len()) == o);
    assert(s[i] == o[0]);
    if e.len() == 0 {
        assert(s[i + 1] == o[1]);
        assert(skip_ws(s, i + 1) == i + 1);
        assert(e =~= Seq::<(Seq<char>, Seq<char>)>::empty());
    } else {
        assert(starts_at(s, i + 1, enc_pairs(e) + "\n  }"@)) by {
            assert(s.subrange(i + 1, i + o.len()) =~= o.subrange(1, o.len() as int));
            assert(o.subrange(1, o.len() as int) =~= enc_pairs(e) + "\n  }"@);
        }
        lemma_table_upto(s, i + 1, e, e.len() as int);
        lemma_table_step(s, i + 1, e, e.len() as int);
    }
}

/// A written table under its key reads as the key, then the table.
#[verifier::rlimit(100)]
#[verifier::spinoff_prover]
proof fn lemma_member_read(s: Seq<char>, x: int, k: Seq<char>, e: Entries)
    requires
        keys_unique(e),
        starts_at(s, x, enc_member(k, e)),
    ensures
        ({
            let kl = enc_str(k).len() as int;
            &&& skip_ws(s, x) == x + 3
            &&& x + 3 < s.len()
            &&& s[x + 3] == '"'
            &&& parse_str(s, x + 3) == Some((k, x + 3 + kl))
            &&& s[x + 3 + kl] == ':'
            &&& skip_ws(s, x + 3 + kl) == x + 3 + kl
            &&& skip_ws(s, x + 4 + kl) == x + 5 + kl
            &&& parse_table(s, x + 5 + kl) == Some((e, x + enc_member(k, e).len()))
        }),
{
    reveal_strlit("\n  ");
    reveal_strlit(": ");
    let m = enc_member(k, e);
    let ks = enc_str(k);
    let kl = ks.len() as int;
    let o = enc_object(e);
    assert(m == "\n  "@ + ks + ": "@ + o);
    assert forall|t: int| 0 <= t < m.len() implies s[x + t] == #[trigger] m[t] by {
        assert(s.subrange(x, x + m.len())[t] == s[x + t]);
    }
    assert(m[0] == '\n' && m[1] == ' ' && m[2] == ' ' && m[3] == '"');
    assert(m[3 + kl] == ':' && m[4 + kl] == ' ');
    assert(o.len() > 0 && o[0] == '{') by {
        reveal_strlit("{}");
        reveal_strlit("{");
    }
    assert(m[5 + kl] == o[0]);
    assert(skip_ws(s, x + 3) == x + 3);
    assert(skip_ws(s, x + 2) == x + 3);
    assert(skip_ws(s, x + 1) == x + 3);
    assert(skip_ws(s, x) == x + 3);
    assert(skip_ws(s, x + 3 + kl) == x + 3 + kl);
    assert(skip_ws(s, x + 5 + kl) == x + 5 + kl);
    assert(skip_ws(s, x + 4 + kl) == x + 5 + kl);
    assert(starts_at(s, x + 3, ks)) by {
        assert(s.subrange(x + 3, x + 3 + kl) =~= m.subrange(3, 3 + kl));
        assert(m.subrange(3, 3 + kl) =~= ks);
    }
    lemma_str_roundtrip(s, x + 3, k);
    assert(starts_at(s, x + 5 + kl, o)) by {
        assert(s.subrange(x + 5 + kl, x + 5 + kl + o.len()) =~= m.subrange(5 + kl, m.len() as int));
        assert(m.subrange(5 + kl, m.len() as int) =~= o);
    }
    lemma_table_roundtrip(s, x + 5 + kl, e);
}

/// Which table a key selects, and that the table was not read before.
pub open spec fn member_fills(
    k: Seq<char>,
    e: Entries,
    u: Option<Entries>,
    r: Option<Entries>,
    a: Option<Entries>,
    u2: Option<Entries>,
    r2: Option<Entries>,
    a2: Option<Entries>,
) -> bool {
    ||| (k == "user_mappings"@ && u is None && u2 == Some(e) && r2 == r && a2 == a)
    ||| (k != "user_mappings"@ && k == "room_mappings"@ && r is None && u2 == u && r2 == Some(e)
        && a2 == a)
    ||| (k != "user_mappings"@ && k != "room_mappings"@ && k == "room_aliases"@ && a is None
        && u2 == u && r2 == r && a2 == Some(e))
}

/// One written table of the file, followed by a comma, is read and the
/// reader moves on to the next member.
#[verifier::rlimit(100)]
#[verifier::spinoff_prover]
proof fn lemma_top_step(
    s: Seq<char>,
    i: int,
    k: Seq<char>,
    e: Entries,
    u: Option<Entries>,
    r: Option<Entries>,
    a: Option<Entries>,
    u2: Option<Entries>,
    r2: Option<Entries>,
    a2: Option<Entries>,
    first: bool,
)
    requires
        keys_unique(e),
        0 < i,
        starts_at(s, i, enc_member(k, e)),
        member_fills(k, e, u, r, a, u2, r2, a2),
        i + enc_member(k, e).len() < s.len(),
        s[i + enc_member(k, e).len()] == ',',
    ensures
        top_members(s, i, u, r, a, first) == top_members(
            s,
            i + enc_member(k, e).len() + 1,
            u2,
            r2,
            a2,
            false,
        ),
{
    lemma_member_read(s, i, k, e);
    let q = i + enc_member(k, e).len();
    assert(skip_ws(s, q) == q);
}

/// The last written table of the file, followed by the closing brace, ends
/// the reading with the three tables.
#[verifier::rlimit(100)]
#[verifier::spinoff_prover]
proof fn lemma_top_last(
    s: Seq<char>,
    i: int,
    k: Seq<char>,
    e: Entries,
    u: Option<Entries>,
    r: Option<Entries>,
    a: Option<Entries>,
    u2: Option<Entries>,
    r2: Option<Entries>,
    a2: Option<Entries>,
    first: bool,
)
    requires
        keys_unique(e),
        0 < i,
        starts_at(s, i, enc_member(k, e)),
        member_fills(k, e, u, r, a, u2, r2, a2),
        i + enc_member(k, e).len() + 3 == s.len(),
        s[i + enc_member(k, e).len()] == '\n',
        s[i + enc_member(k, e).len() + 1] == '}',
        s[i + enc_member(k, e).len() + 2] == '\n',
    ensures
        top_members(s, i, u, r, a, first) == Some((or_empty(u2), or_empty(r2), or_empty(a2))),
{
    lemma_member_read(s, i, k, e);
    let q = i + enc_member(k, e).len();
    assert(skip_ws(s, q + 3) == q + 3);
    assert(skip_ws(s, q + 2) == q + 3);
    assert(skip_ws(s, q + 1) == q + 1);
    assert(skip_ws(s, q) == q + 1);
}

/// Where the parts of a written file lie.
#[verifier::rlimit(100)]
#[verifier::spinoff_prover]
proof fn lemma_file_layout(users: Entries, rooms: Entries, aliases: Entries)
    ensures
        ({
            let s = enc_file(users, rooms, aliases);
            let m1 = enc_member("user_mappings"@, users);
            let m2 = enc_member("room_mappings"@, rooms);
            let m3 = enc_member("room_aliases"@, aliases);
            let q1 = 1 + m1.len() as int;
            let q2 = q1 + 1 + m2.len() as int;
            let q3 = q2 + 1 + m3.len() as int;
            &&& s.len() == q3 + 3
            &&& s[0] == '{'
            &&& starts_at(s, 1, m1)
            &&& s[q1] == ','
            &&& starts_at(s, q1 + 1, m2)
            &&& s[q2] == ','
            &&& starts_at(s, q2 + 1, m3)
            &&& s[q3] == '\n' && s[q3 + 1] == '}' && s[q3 + 2] == '\n'
        }),
{
    reveal_strlit("{");
    reveal_strlit(",");
    reveal_strlit("\n}\n");
    let s = enc_file(users, rooms, aliases);
    let m1 = enc_member("user_mappings"@, users);
    let m2 = enc_member("room_mappings"@, rooms);
    let m3 = enc_member("room_aliases"@, aliases);
    let q1 = 1 + m1.len() as int;
    let q2 = q1 + 1 + m2.len() as int;
    let q3 = q2 + 1 + m3.len() as int;
    assert(s =~= "{"@ + m1 + ","@ + m2 + ","@ + m3 + "\n}\n"@);
    assert(s.subrange(1, q1) =~= m1);
    assert(s.subrange(q1 + 1, q2) =~= m2);
    assert(s.subrange(q2 + 1, q3) =~= m3);
}

/// Reading a written mapping file gives back its three tables.
#[verifier::rlimit(100)]
#[verifier::spinoff_prover]
pub proof fn lemma_file_roundtrip(users: Entries, rooms: Entries, aliases: Entries)
    requires
        keys_unique(users),
        keys_unique(rooms),
        keys_unique(aliases),
    ensures
        parse_json(enc_file(users, rooms, aliases)) == Some((users, rooms, aliases)),
{
    reveal_strlit("user_mappings");
    reveal_strlit("room_mappings");
    reveal_strlit("room_aliases");
    let ku = "user_mappings"@;
    let kr = "room_mappings"@;
    let ka = "room_aliases"@;
    assert(ku != kr) by {
        assert(ku[0] != kr[0]);
    }
    assert(ku != ka) by {
        assert(ku[0] != ka[0]);
    }
    assert(kr != ka) by {
        assert(kr[5] != ka[5]);
    }
    lemma_file_layout(users, rooms, aliases);
    let s = enc_file(users, rooms, aliases);
    let q1 = 1 + enc_member(ku, users).len() as int;
    let q2 = q1 + 1 + enc_member(kr, rooms).len() as int;
    assert(skip_ws(s, 0) == 0);
    lemma_top_step(s, 1, ku, users, None, None, None, Some(users), None, None, true);
    lemma_top_step(s, q1 + 1, kr, rooms, Some(users), None, None, Some(users), Some(rooms), None, false);
    lemma_top_last(
        s,
        q2 + 1,
        ka,
        aliases,
        Some(users),
        Some(rooms),
        None,
        Some(users),
        Some(rooms),
        Some(aliases),
        false,
    );
}

/// The text of a mapping as written to its file.
pub open spec fn mapping_text(m: IdMappings) -> Seq<char> {
    enc_file(m.user_mappings@, m.room_mappings@, m.room_aliases@)
}

/// Reading back a written mapping gives the same three tables, entry for
/// entry and in the same order.
pub proof fn lemma_save_load_roundtrip(m: IdMappings)
    requires
        m.wf(),
    ensures
        parse_json(mapping_text(m)) == Some((m.user_mappings@, m.room_mappings@, m.room_aliases@)),
{
    lemma_file_roundtrip(m.user_mappings@, m.room_mappings@, m.room_aliases@);
}

// ---- Writing ----

fn push_enc_char(out: &mut String, c: char)
    ensures
        final(out)@ == old(out)@ + enc_char(c),
{
    if c == '"' {
        push_char(out, '\\');
        push_char(out, '"');
    } else if c == '\\' {
        push_char(out, '\\');
        push_char(out, '\\');
    } else if (c as u32) < 0x20 {
        let v = c as u32;
        push_char(out, '\\');
        push_char(out, 'u');
        push_char(out, '0');
        push_char(out, '0');
        push_char(out, hex_digit_char((v / 16) as u64));
        push_char(out, hex_digit_char((v % 16) as u64));
    } else {
        push_char(out, c);
    }
    assert(out@ =~= old(out)@ + enc_char(c));
}

fn push_enc_str(out: &mut String, x: &str)
    ensures
        final(out)@ == old(out)@ + enc_str(x@),
{
    let cs = chars_of(x);
    push_char(out, '"');
    let ghost start = out@;
    let n = cs.len();
    let mut i: usize = 0;
    assert(enc_body(x@.subrange(0, 0)) =~= Seq::<char>::empty());
    assert(out@ =~= start + enc_body(x@.subrange(0, 0)));
    while i < n
        invariant
            n == x@.len(),
            cs@ == x@,
            i <= n,
            start == old(out)@.push('"'),
            out@ == start + enc_body(x@.subrange(0, i as int)),
        decreases n - i,
    {
        let ghost p = x@.subrange(0, i + 1);
        assert(p.drop_last() =~= x@.subrange(0, i as int));
        assert(p.last() == cs@[i as int]);
        push_enc_char(out, cs[i]);
        assert(out@ =~= start + enc_body(p));
        i = i + 1;
    }
    assert(x@.subrange(0, n as int) =~= x@);
    push_char(out, '"');
    assert(out@ =~= old(out)@ + enc_str(x@));
}

fn push_object(out: &mut String, t: &StringTable)
    ensures
        final(out)@ == old(out)@ + enc_object(t@),
{
    let n = t.len();
    if n == 0 {
        push_str(out, "{}");
        return;
    }
    push_str(out, "{");
    let ghost start = out@;
    let mut i: usize = 0;
    assert(enc_pairs(t@.subrange(0, 0)) =~= Seq::<char>::empty());
    assert(out@ =~= start + enc_pairs(t@.subrange(0, 0)));
    while i < n
        invariant
            n == t@.len(),
            i <= n,
            start == old(out)@ + "{"@,
            out@ == start + enc_pairs(t@.subrange(0, i as int)),
        decreases n - i,
    {
        let ghost p = t@.subrange(0, i + 1);
        assert(p.drop_last() =~= t@.subrange(0, i as int));
        assert(p.last() == t@[i as int]);
        if i > 0 {
            push_str(out, ",");
        }
        push_str(out, "\n    ");
        push_enc_str(out, t.key_at(i).as_str());
        push_str(out, ": ");
        push_enc_str(out, t.value_at(i).as_str());
        proof {
            if i == 0 {
                assert(p =~= seq![t@[0]]);
                assert(out@ =~= start + enc_pairs(p));
            } else {
                assert(out@ =~= start + enc_pairs(p));
            }
        }
        i = i + 1;
    }
    assert(t@.subrange(0, n as int) =~= t@);
    push_str(out, "\n  }");
    assert(out@ =~= old(out)@ + enc_object(t@));
}

fn push_member(out: &mut String, key: &str, t: &StringTable)
    ensures
        final(out)@ == old(out)@ + enc_member(key@, t@),
{
    push_str(out, "\n  ");
    push_enc_str(out, key);
    push_str(out, ": ");
    push_object(out, t);
    assert(out@ =~= old(out)@ + enc_member(key@, t@));
}

impl IdMappings {
    /// The mapping file's text.
    pub fn to_json(&self) -> (r: String)
        ensures
            r@ == mapping_text(*self),
    {
        let mut out = String::new();
        push_str(&mut out, "{");
        push_member(&mut out, "user_mappings", &self.user_mappings);
        push_str(&mut out, ",");
        push_member(&mut out, "room_mappings", &self.room_mappings);
        push_str(&mut out, ",");
        push_member(&mut out, "room_aliases", &self.room_aliases);
        push_str(&mut out, "\n}\n");
        assert(out@ =~= mapping_text(*self));
        out
    }

    /// Reads a mapping file's text: any JSON object with string-valued
    /// objects under `user_mappings`, `room_mappings` and `room_aliases`, in
    /// any order and with any white space. A missing table is empty and other
    /// keys are skipped; a table given twice, or text that is not such an
    /// object, is a mapping error.
    pub fn from_json(text: &str) -> (r: Result<IdMappings, NokError>)
        ensures
            match r {
                Ok(m) => m.wf() && parse_json(text@) == Some(
                    (m.user_mappings@, m.room_mappings@, m.room_aliases@),
                ),
                Err(e) => parse_json(text@) is None && e is MappingError,
            },
    {
        let s = chars_of(text);
        match read_json(&s) {
            Some(m) => Ok(m),
            None => Err(NokError::MappingError(String::from_str("malformed mapping file"))),
        }
    }
}

// ---- Reading ----

fn starts_with_at(s: &Vec<char>, i: usize, lit: &str) -> (r: bool)
    ensures
        r == starts_at(s@, i as int, lit@),
{
    let l = chars_of(lit);
    let n = s.len();
    let m = l.len();
    if i > n || m > n - i {
        return false;
    }
    let mut k: usize = 0;
    while k < m
        invariant
            l@ == lit@,
            n == s@.len(),
            m == l@.len(),
            i + m <= n,
            k <= m,
            forall|t: int| 0 <= t < k ==> s@[i + t] == l@[t],
        decreases m - k,
    {
        if s[i + k] != l[k] {
            assert(s@.subrange(i as int, i + m)[k as int] != lit@[k as int]);
            return false;
        }
        k = k + 1;
    }
    assert(s@.subrange(i as int, i + m) =~= lit@);
    true
}

fn hex_val(c: char) -> (r: Option<u32>)
    ensures
        match r {
            Some(v) => hex_value(c) == Some(v as nat) && v < 16,
            None => hex_value(c) is None,
        },
{
    if '0' <= c && c <= '9' {
        Some(c as u32 - 48)
    } else if 'a' <= c && c <= 'f' {
        Some(c as u32 - 87)
    } else if 'A' <= c && c <= 'F' {
        Some(c as u32 - 55)
    } else {
        None
    }
}

fn hex4_at(s: &Vec<char>, i: usize) -> (r: Option<u32>)
    ensures
        match r {
            Some(v) => hex4(s@, i as int) == Some(v as nat) && v < 0x10000,
            None => hex4(s@, i as int) is None,
        },
{
    let n = s.len();
    if !(i < n && n - i > 3) {
        return None;
    }
    match (hex_val(s[i]), hex_val(s[i + 1]), hex_val(s[i + 2]), hex_val(s[i + 3])) {
        (Some(a), Some(b), Some(c), Some(d)) => Some(a * 4096 + b * 256 + c * 16 + d),
        _ => None,
    }
}

fn unescape_at(s: &Vec<char>, i: usize) -> (r: Option<(char, usize)>)
    ensures
        match r {
            Some((c, n)) => unescape(s@, i as int) == Some((c, n as int)) && n <= 12,
            None => unescape(s@, i as int) is None,
        },
{
    let n = s.len();
    if !(i < n && i + 1 < n) {
        return None;
    }
    let e = s[i + 1];
    if e == '"' {
        Some(('"', 2))
    } else if e == '\\' {
        Some(('\\', 2))
    } else if e == '/' {
        Some(('/', 2))
    } else if e == 'n' {
        Some(('\n', 2))
    } else if e == 'r' {
        Some(('\r', 2))
    } else if e == 't' {
        Some(('\t', 2))
    } else if e == 'b' {
        Some(('\u{8}', 2))
    } else if e == 'f' {
        Some(('\u{c}', 2))
    } else if e == 'u' {
        let v = match hex4_at(s, i + 2) {
            Some(v) => v,
            None => {
                return None;
            },
        };
        if 0xD800 <= v && v < 0xDC00 {
            if n - i > 7 && s[i + 6] == '\\' && s[i + 7] == 'u' {
                match hex4_at(s, i + 8) {
                    Some(w) => if 0xDC00 <= w && w < 0xE000 {
                        let code = 0x10000 + (v - 0xD800) * 1024 + (w - 0xDC00);
                        assert(0x10000 <= code < 0x110000) by (nonlinear_arith)
                            requires
                                code == 0x10000 + (v - 0xD800) * 1024 + (w - 0xDC00),
                                0xD800 <= v < 0xDC00,
                                0xDC00 <= w < 0xE000,
                        ;
                        match char_from_u32(code) {
                            Some(c) => Some((c, 12)),
                            None => None,
                        }
                    } else {
                        None
                    },
                    None => None,
                }
            } else {
                None
            }
        } else {
            match char_from_u32(v) {
                Some(c) => Some((c, 6)),
                None => None,
            }
        }
    } else {
        None
    }
}

#[verifier::rlimit(60)]
fn read_str(s: &Vec<char>, i: usize) -> (r: Option<(String, usize)>)
    ensures
        match r {
            Some((x, j)) => parse_str(s@, i as int) == Some((x@, j as int)) && j <= s@.len(),
            None => parse_str(s@, i as int) is None,
        },
{
    let n = s.len();
    if !(i < n && s[i] == '"') {
        return None;
    }
    let mut pos: usize = i + 1;
    let mut acc = String::new();
    assert(acc@ =~= Seq::<char>::empty());
    loop
        invariant
            n == s@.len(),
            pos <= n + 6,
            parse_str(s@, i as int) == str_body(s@, pos as int, acc@),
        decreases n + 6 - pos,
    {
        if pos >= n {
            return None;
        }
        let c = s[pos];
        if c == '"' {
            return Some((acc, pos + 1));
        }
        if c == '\\' {
            match unescape_at(s, pos) {
                Some((d, len)) => {
                    push_char(&mut acc, d);
                    pos = pos + len;
                },
                None => {
                    return None;
                },
            }
        } else if (c as u32) < 0x20 {
            return None;
        } else {
            push_char(&mut acc, c);
            pos = pos + 1;
        }
    }
}

// ---- Reading any JSON object of the mapping's shape ----

pub open spec fn is_json_ws(c: char) -> bool {
    c == ' ' || c == '\n' || c == '\r' || c == '\t'
}

/// The first position at or after `i` that is not JSON white space.
pub open spec fn skip_ws(s: Seq<char>, i: int) -> int
    decreases s.len() - i,
{
    if 0 <= i && i < s.len() && is_json_ws(s[i]) {
        skip_ws(s, i + 1)
    } else {
        i
    }
}

/// The first position at or after `i` that is not a decimal digit.
pub open spec fn digits_end(s: Seq<char>, i: int) -> int
    decreases s.len() - i,
{
    if 0 <= i && i < s.len() && '0' <= s[i] && s[i] <= '9' {
        digits_end(s, i + 1)
    } else {
        i
    }
}

/// The end of a JSON number starting at `i`:
/// `-? (0 | [1-9][0-9]*) (. [0-9]+)? ([eE] [+-]? [0-9]+)?`.
pub open spec fn scan_number(s: Seq<char>, i: int) -> Option<int> {
    let a = if 0 <= i && i < s.len() && s[i] == '-' {
        i + 1
    } else {
        i
    };
    if !(0 <= a && a < s.len()) {
        None
    } else {
        let b = if s[a] == '0' {
            a + 1
        } else if '1' <= s[a] && s[a] <= '9' {
            digits_end(s, a + 1)
        } else {
            -1
        };
        if b < 0 {
            None
        } else {
            let c = if b < s.len() && s[b] == '.' {
                if digits_end(s, b + 1) == b + 1 {
                    -1
                } else {
                    digits_end(s, b + 1)
                }
            } else {
                b
            };
            if c < 0 {
                None
            } else if c < s.len() && (s[c] == 'e' || s[c] == 'E') {
                let f = if c + 1 < s.len() && (s[c + 1] == '+' || s[c + 1] == '-') {
                    c + 2
                } else {
                    c + 1
                };
                if digits_end(s, f) == f {
                    None
                } else {
                    Some(digits_end(s, f))
                }
            } else {
                Some(c)
            }
        }
    }
}

/// The end of a string, number, `true`, `false` or `null` starting at `i`.
pub open spec fn scan_scalar(s: Seq<char>, i: int) -> Option<int> {
    if !(0 <= i && i < s.len()) {
        None
    } else if s[i] == '"' {
        match parse_str(s, i) {
            Some((_, k)) => Some(k),
            None => None,
        }
    } else if starts_at(s, i, "true"@) {
        Some(i + "true"@.len())
    } else if starts_at(s, i, "false"@) {
        Some(i + "false"@.len())
    } else if starts_at(s, i, "null"@) {
        Some(i + "null"@.len())
    } else {
        scan_number(s, i)
    }
}

/// Where a scan of a JSON value stands.
#[derive(Clone, Copy, PartialEq, Eq, Structural, Debug)]
pub enum ScanState {
    /// A value comes next.
    Value,
    /// Right after `[`: a value or `]`.
    ValueOrClose,
    /// Right after `{`: a key or `}`.
    KeyOrClose,
    /// A key comes next.
    Key,
    /// A `:` comes next.
    Colon,
    /// A value just ended.
    After,
}

/// The end of a well-formed JSON value, read from `i` in state `st` with the
/// brackets `stack` still open.
pub open spec fn scan(s: Seq<char>, i: int, stack: Seq<char>, st: ScanState) -> Option<int>
    decreases s.len() - i,
{
    if st == ScanState::After && stack.len() == 0 {
        Some(i)
    } else {
        let j = skip_ws(s, i);
        if !(0 <= j && j < s.len() && i <= j) {
            None
        } else {
            let c = s[j];
            if st == ScanState::Value || st == ScanState::ValueOrClose {
                if st == ScanState::ValueOrClose && c == ']' && stack.len() > 0 {
                    scan(s, j + 1, stack.drop_last(), ScanState::After)
                } else if c == '{' {
                    scan(s, j + 1, stack.push('{'), ScanState::KeyOrClose)
                } else if c == '[' {
                    scan(s, j + 1, stack.push('['), ScanState::ValueOrClose)
                } else {
                    match scan_scalar(s, j) {
                        Some(k) => if k > j && k <= s.len() {
                            scan(s, k, stack, ScanState::After)
                        } else {
                            None
                        },
                        None => None,
                    }
                }
            } else if st == ScanState::KeyOrClose || st == ScanState::Key {
                if st == ScanState::KeyOrClose && c == '}' && stack.len() > 0 {
                    scan(s, j + 1, stack.drop_last(), ScanState::After)
                } else {
                    match parse_str(s, j) {
                        Some((_, k)) => if k > j && k <= s.len() {
                            scan(s, k, stack, ScanState::Colon)
                        } else {
                            None
                        },
                        None => None,
                    }
                }
            } else if st == ScanState::Colon {
                if c == ':' {
                    scan(s, j + 1, stack, ScanState::Value)
                } else {
                    None
                }
            } else {
                if c == ',' && stack.last() == '{' {
                    scan(s, j + 1, stack, ScanState::Key)
                } else if c == ',' && stack.last() == '[' {
                    scan(s, j + 1, stack, ScanState::Value)
                } else if c == '}' && stack.last() == '{' {
                    scan(s, j + 1, stack.drop_last(), ScanState::After)
                } else if c == ']' && stack.last() == '[' {
                    scan(s, j + 1, stack.drop_last(), ScanState::After)
                } else {
                    None
                }
            }
        }
    }
}

/// Members of a string-valued object from `i` on; later keys replace earlier
/// ones.
pub open spec fn table_members(s: Seq<char>, i: int, acc: Entries, first: bool) -> Option<
    (Entries, int),
>
    decreases s.len() - i,
{
    let j = skip_ws(s, i);
    if !(0 <= j && j < s.len() && i <= j) {
        None
    } else if first && s[j] == '}' {
        Some((acc, j + 1))
    } else {
        match parse_str(s, j) {
            None => None,
            Some((k, a)) => {
                let b = skip_ws(s, a);
                if !(0 <= b && b < s.len() && s[b] == ':') {
                    None
                } else {
                    match parse_str(s, skip_ws(s, b + 1)) {
                        None => None,
                        Some((v, d)) => {
                            let t = skip_ws(s, d);
                            let acc2 = insert_entry(acc, k, v);
                            if !(0 <= t && t < s.len()) {
                                None
                            } else if s[t] == ',' && t + 1 > i {
                                table_members(s, t + 1, acc2, false)
                            } else if s[t] == '}' {
                                Some((acc2, t + 1))
                            } else {
                                None
                            }
                        },
                    }
                }
            },
        }
    }
}

/// A JSON object of string values starting at `i`.
pub open spec fn parse_table(s: Seq<char>, i: int) -> Option<(Entries, int)> {
    if 0 <= i && i < s.len() && s[i] == '{' {
        table_members(s, i + 1, Seq::empty(), true)
    } else {
        None
    }
}

pub open spec fn or_empty(t: Option<Entries>) -> Entries {
    match t {
        Some(e) => e,
        None => Seq::empty(),
    }
}

/// The three tables once the object closed at `i - 1`: only white space may follow.
pub open spec fn finish_tables(
    s: Seq<char>,
    i: int,
    u: Option<Entries>,
    r: Option<Entries>,
    a: Option<Entries>,
) -> Option<(Entries, Entries, Entries)> {
    if skip_ws(s, i) == s.len() {
        Some((or_empty(u), or_empty(r), or_empty(a)))
    } else {
        None
    }
}

/// The tables read by one member whose value starts at `c`: a known key
/// read for the first time fills its table; a repeated known key fails; any
/// other key's value is skipped.
pub open spec fn member_value(
    s: Seq<char>,
    k: Seq<char>,
    c: int,
    u: Option<Entries>,
    r: Option<Entries>,
    a: Option<Entries>,
) -> Option<(Option<Entries>, Option<Entries>, Option<Entries>, int)> {
    if k == "user_mappings"@ {
        if u is Some {
            None
        } else {
            match parse_table(s, c) {
                Some((e, q)) => Some((Some(e), r, a, q)),
                None => None,
            }
        }
    } else if k == "room_mappings"@ {
        if r is Some {
            None
        } else {
            match parse_table(s, c) {
                Some((e, q)) => Some((u, Some(e), a, q)),
                None => None,
            }
        }
    } else if k == "room_aliases"@ {
        if a is Some {
            None
        } else {
            match parse_table(s, c) {
                Some((e, q)) => Some((u, r, Some(e), q)),
                None => None,
            }
        }
    } else {
        match scan(s, c, Seq::empty(), ScanState::Value) {
            Some(q) => Some((u, r, a, q)),
            None => None,
        }
    }
}

/// Members of the top-level object from `i` on.
pub open spec fn top_members(
    s: Seq<char>,
    i: int,
    u: Option<Entries>,
    r: Option<Entries>,
    a: Option<Entries>,
    first: bool,
) -> Option<(Entries, Entries, Entries)>
    decreases s.len() - i,
{
    let j = skip_ws(s, i);
    if !(0 <= j && j < s.len() && i <= j) {
        None
    } else if first && s[j] == '}' {
        finish_tables(s, j + 1, u, r, a)
    } else {
        match parse_str(s, j) {
            None => None,
            Some((k, p)) => {
                let b = skip_ws(s, p);
                if !(0 <= b && b < s.len() && s[b] == ':') {
                    None
                } else {
                    match member_value(s, k, skip_ws(s, b + 1), u, r, a) {
                        None => None,
                        Some((u2, r2, a2, q)) => {
                            let t = skip_ws(s, q);
                            if !(0 <= t && t < s.len()) {
                                None
                            } else if s[t] == ',' && t + 1 > i {
                                top_members(s, t + 1, u2, r2, a2, false)
                            } else if s[t] == '}' {
                                finish_tables(s, t + 1, u2, r2, a2)
                            } else {
                                None
                            }
                        },
                    }
                }
            },
        }
    }
}

/// The three tables of a JSON object, in any key order and with any white
/// space: a missing table is empty, other keys are skipped, and a table
/// given twice, or anything that is not such an object, gives nothing.
pub open spec fn parse_json(s: Seq<char>) -> Option<(Entries, Entries, Entries)> {
    let i = skip_ws(s, 0);
    if 0 <= i && i < s.len() && s[i] == '{' {
        top_members(s, i + 1, None, None, None, true)
    } else {
        None
    }
}

fn skip_ws_at(s: &Vec<char>, i: usize) -> (r: usize)
    requires
        i <= s@.len(),
    ensures
        r == skip_ws(s@, i as int),
        i <= r <= s@.len(),
{
    let n = s.len();
    let mut p = i;
    while p < n && (s[p] == ' ' || s[p] == '\n' || s[p] == '\r' || s[p] == '\t')
        invariant
            n == s@.len(),
            i <= p <= n,
            skip_ws(s@, i as int) == skip_ws(s@, p as int),
        decreases n - p,
    {
        p = p + 1;
    }
    p
}

fn digits_end_at(s: &Vec<char>, i: usize) -> (r: usize)
    requires
        i <= s@.len(),
    ensures
        r == digits_end(s@, i as int),
        i <= r <= s@.len(),
{
    let n = s.len();
    let mut p = i;
    while p < n && '0' <= s[p] && s[p] <= '9'
        invariant
            n == s@.len(),
            i <= p <= n,
            digits_end(s@, i as int) == digits_end(s@, p as int),
        decreases n - p,
    {
        p = p + 1;
    }
    p
}

fn scan_number_at(s: &Vec<char>, i: usize) -> (r: Option<usize>)
    requires
        i <= s@.len(),
    ensures
        match r {
            Some(k) => scan_number(s@, i as int) == Some(k as int) && k <= s@.len(),
            None => scan_number(s@, i as int) is None,
        },
{
    let n = s.len();
    let a = if i < n && s[i] == '-' {
        i + 1
    } else {
        i
    };
    if a >= n {
        return None;
    }
    let b = if s[a] == '0' {
        a + 1
    } else if '1' <= s[a] && s[a] <= '9' {
        digits_end_at(s, a + 1)
    } else {
        return None;
    };
    let c = if b < n && s[b] == '.' {
        let d = digits_end_at(s, b + 1);
        if d == b + 1 {
            return None;
        }
        d
    } else {
        b
    };
    if c < n && (s[c] == 'e' || s[c] == 'E') {
        let f = if c + 1 < n && (s[c + 1] == '+' || s[c + 1] == '-') {
            c + 2
        } else {
            c + 1
        };
        let g = digits_end_at(s, f);
        if g == f {
            None
        } else {
            Some(g)
        }
    } else {
        Some(c)
    }
}

fn scan_scalar_at(s: &Vec<char>, i: usize) -> (r: Option<usize>)
    requires
        i <= s@.len(),
    ensures
        match r {
            Some(k) => scan_scalar(s@, i as int) == Some(k as int) && k <= s@.len(),
            None => scan_scalar(s@, i as int) is None,
        },
{
    let n = s.len();
    if i >= n {
        return None;
    }
    if s[i] == '"' {
        return match read_str(s, i) {
            Some((_, k)) => Some(k),
            None => None,
        };
    }
    if starts_with_at(s, i, "true") {
        return Some(i + "true".unicode_len());
    }
    if starts_with_at(s, i, "false") {
        return Some(i + "false".unicode_len());
    }
    if starts_with_at(s, i, "null") {
        return Some(i + "null".unicode_len());
    }
    scan_number_at(s, i)
}

/// The end of the JSON value starting at `i`.
#[verifier::rlimit(80)]
fn scan_value(s: &Vec<char>, i: usize) -> (r: Option<usize>)
    requires
        i <= s@.len(),
    ensures
        match r {
            Some(k) => scan(s@, i as int, Seq::empty(), ScanState::Value) == Some(k as int)
                && k <= s@.len(),
            None => scan(s@, i as int, Seq::empty(), ScanState::Value) is None,
        },
{
    let n = s.len();
    let mut pos = i;
    let mut stack: Vec<char> = Vec::new();
    let mut st = ScanState::Value;
    loop
        invariant
            n == s@.len(),
            pos <= n,
            scan(s@, i as int, Seq::empty(), ScanState::Value) == scan(s@, pos as int, stack@, st),
        decreases n - pos,
    {
        if st == ScanState::After && stack.len() == 0 {
            return Some(pos);
        }
        let j = skip_ws_at(s, pos);
        if j >= n {
            return None;
        }
        let c = s[j];
        if st == ScanState::Value || st == ScanState::ValueOrClose {
            if st == ScanState::ValueOrClose && c == ']' && stack.len() > 0 {
                stack.pop();
                st = ScanState::After;
                pos = j + 1;
            } else if c == '{' {
                stack.push('{');
                st = ScanState::KeyOrClose;
                pos = j + 1;
            } else if c == '[' {
                stack.push('[');
                st = ScanState::ValueOrClose;
                pos = j + 1;
            } else {
                match scan_scalar_at(s, j) {
                    Some(k) => if k > j {
                        st = ScanState::After;
                        pos = k;
                    } else {
                        return None;
                    },
                    None => {
                        return None;
                    },
                }
            }
        } else if st == ScanState::KeyOrClose || st == ScanState::Key {
            if st == ScanState::KeyOrClose && c == '}' && stack.len() > 0 {
                stack.pop();
                st = ScanState::After;
                pos = j + 1;
            } else {
                match read_str(s, j) {
                    Some((_, k)) => if k > j {
                        st = ScanState::Colon;
                        pos = k;
                    } else {
                        return None;
                    },
                    None => {
                        return None;
                    },
                }
            }
        } else if st == ScanState::Colon {
            if c == ':' {
                st = ScanState::Value;
                pos = j + 1;
            } else {
                return None;
            }
        } else {
            let top = stack[stack.len() - 1];
            if c == ',' && top == '{' {
                st = ScanState::Key;
                pos = j + 1;
            } else if c == ',' && top == '[' {
                st = ScanState::Value;
                pos = j + 1;
            } else if c == '}' && top == '{' {
                stack.pop();
                st = ScanState::After;
                pos = j + 1;
            } else if c == ']' && top == '[' {
                stack.pop();
                st = ScanState::After;
                pos = j + 1;
            } else {
                return None;
            }
        }
    }
}

/// A JSON object of string values starting at `i`.
#[verifier::rlimit(80)]
fn read_table(s: &Vec<char>, i: usize) -> (r: Option<(StringTable, usize)>)
    requires
        i <= s@.len(),
    ensures
        match r {
            Some((t, j)) => t.wf() && parse_table(s@, i as int) == Some((t@, j as int)) && j
                <= s@.len(),
            None => parse_table(s@, i as int) is None,
        },
{
    let n = s.len();
    if !(i < n && s[i] == '{') {
        return None;
    }
    let mut pos = i + 1;
    let mut acc = StringTable::new();
    let mut first = true;
    loop
        invariant
            n == s@.len(),
            pos <= n,
            acc.wf(),
            parse_table(s@, i as int) == table_members(s@, pos as int, acc@, first),
        decreases n - pos,
    {
        let j = skip_ws_at(s, pos);
        if j >= n {
            return None;
        }
        if first && s[j] == '}' {
            return Some((acc, j + 1));
        }
        let (k, a) = match read_str(s, j) {
            Some(x) => x,
            None => {
                return None;
            },
        };
        let b = skip_ws_at(s, a);
        if !(b < n && s[b] == ':') {
            return None;
        }
        let c = skip_ws_at(s, b + 1);
        let (v, d) = match read_str(s, c) {
            Some(x) => x,
            None => {
                return None;
            },
        };
        let t = skip_ws_at(s, d);
        acc.insert(k, v);
        if t >= n {
            return None;
        }
        if s[t] == ',' && t + 1 > pos {
            pos = t + 1;
            first = false;
        } else if s[t] == '}' {
            return Some((acc, t + 1));
        } else {
            return None;
        }
    }
}

pub open spec fn opt_view(t: Option<StringTable>) -> Option<Entries> {
    match t {
        Some(x) => Some(x@),
        None => None,
    }
}

pub open spec fn opt_wf(t: Option<StringTable>) -> bool {
    match t {
        Some(x) => x.wf(),
        None => true,
    }
}

fn take_or_empty(t: Option<StringTable>) -> (r: StringTable)
    requires
        opt_wf(t),
    ensures
        r@ == or_empty(opt_view(t)),
        r.wf(),
{
    match t {
        Some(x) => x,
        None => StringTable::new(),
    }
}

fn finish_at(
    s: &Vec<char>,
    i: usize,
    u: Option<StringTable>,
    r: Option<StringTable>,
    a: Option<StringTable>,
) -> (res: Option<IdMappings>)
    requires
        i <= s@.len(),
        opt_wf(u),
        opt_wf(r),
        opt_wf(a),
    ensures
        match res {
            Some(m) => m.wf() && finish_tables(s@, i as int, opt_view(u), opt_view(r), opt_view(a))
                == Some((m.user_mappings@, m.room_mappings@, m.room_aliases@)),
            None => finish_tables(s@, i as int, opt_view(u), opt_view(r), opt_view(a)) is None,
        },
{
    if skip_ws_at(s, i) == s.len() {
        Some(
            IdMappings {
                user_mappings: take_or_empty(u),
                room_mappings: take_or_empty(r),
                room_aliases: take_or_empty(a),
            },
        )
    } else {
        None
    }
}

/// The three tables of any JSON object of the mapping's shape.
#[verifier::rlimit(100)]
fn read_json(s: &Vec<char>) -> (r: Option<IdMappings>)
    ensures
        match r {
            Some(m) => m.wf() && parse_json(s@) == Some(
                (m.user_mappings@, m.room_mappings@, m.room_aliases@),
            ),
            None => parse_json(s@) is None,
        },
{
    let n = s.len();
    let i = skip_ws_at(s, 0);
    if !(i < n && s[i] == '{') {
        return None;
    }
    let mut pos = i + 1;
    let mut u: Option<StringTable> = None;
    let mut r: Option<StringTable> = None;
    let mut a: Option<StringTable> = None;
    let mut first = true;
    loop
        invariant
            n == s@.len(),
            pos <= n,
            opt_wf(u),
            opt_wf(r),
            opt_wf(a),
            parse_json(s@) == top_members(s@, pos as int, opt_view(u), opt_view(r), opt_view(a), first),
        decreases n - pos,
    {
        let j = skip_ws_at(s, pos);
        if j >= n {
            return None;
        }
        if first && s[j] == '}' {
            return finish_at(s, j + 1, u, r, a);
        }
        let (k, p) = match read_str(s, j) {
            Some(x) => x,
            None => {
                return None;
            },
        };
        let b = skip_ws_at(s, p);
        if !(b < n && s[b] == ':') {
            return None;
        }
        let c = skip_ws_at(s, b + 1);
        let q;
        if str_eq(k.as_str(), "user_mappings") {
            if u.is_some() {
                return None;
            }
            match read_table(s, c) {
                Some((e, q2)) => {
                    u = Some(e);
                    q = q2;
                },
                None => {
                    return None;
                },
            }
        } else if str_eq(k.as_str(), "room_mappings") {
            if r.is_some() {
                return None;
            }
            match read_table(s, c) {
                Some((e, q2)) => {
                    r = Some(e);
                    q = q2;
                },
                None => {
                    return None;
                },
            }
        } else if str_eq(k.as_str(), "room_aliases") {
            if a.is_some() {
                return None;
            }
            match read_table(s, c) {
                Some((e, q2)) => {
                    a = Some(e);
                    q = q2;
                },
                None => {
                    return None;
                },
            }
        } else {
            match scan_value(s, c) {
                Some(q2) => {
                    q = q2;
                },
                None => {
                    return None;
                },
            }
        }
        let t = skip_ws_at(s, q);
        if t >= n {
            return None;
        }
        if s[t] == ',' && t + 1 > pos {
            pos = t + 1;
            first = false;
        } else if s[t] == '}' {
            return finish_at(s, t + 1, u, r, a);
        } else {
            return None;
        }
    }
}

} // verus!
