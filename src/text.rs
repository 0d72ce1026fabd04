//! Small string-building helpers shared by the identifier and formatting code.
use vstd::prelude::*;

verus! {

/// Relies on `String::push`: the character is appended at the end.
#[verifier::external_body]
pub(crate) fn push_char(s: &mut String, c: char)
    ensures
        final(s)@ == old(s)@.push(c),
{
    s.push(c);
}

/// Appends every character of `t` to `s`.
pub fn push_str(s: &mut String, t: &str)
    ensures
        final(s)@ == old(s)@ + t@,
{
    s.append(t);
}

/// The ASCII lower-case form of a character; other characters are unchanged.
pub open spec fn lower_ascii(c: char) -> char {
    if 'A' <= c && c <= 'Z' {
        ((c as u32) + 32) as char
    } else {
        c
    }
}

pub fn lower_ascii_char(c: char) -> (r: char)
    ensures
        r == lower_ascii(c),
{
    if 'A' <= c && c <= 'Z' {
        let b: u8 = c as u8;
        (b + 32) as char
    } else {
        c
    }
}

/// The ASCII upper-case form of a character; other characters are unchanged.
pub open spec fn upper_ascii(c: char) -> char {
    if 'a' <= c && c <= 'z' {
        ((c as u32) - 32) as char
    } else {
        c
    }
}

/// Lower-case hexadecimal digit of a value below sixteen.
pub open spec fn hex_digit(d: nat) -> char {
    if d < 10 {
        ((d + 48) as u32) as char
    } else {
        ((d + 87) as u32) as char
    }
}

/// Decimal digit of a value below ten.
pub open spec fn dec_digit(d: nat) -> char {
    ((d + 48) as u32) as char
}

/// Lower-case hexadecimal rendering without leading zeros (zero is `"0"`).
pub open spec fn hex_of(n: nat) -> Seq<char>
    decreases n,
{
    if n < 16 {
        seq![hex_digit(n)]
    } else {
        hex_of(n / 16).push(hex_digit(n % 16))
    }
}

/// Upper-case hexadecimal rendering of the low `width` digits, zero padded.
pub open spec fn hex_upper_padded(n: nat, width: nat) -> Seq<char>
    decreases width,
{
    if width == 0 {
        seq![]
    } else {
        hex_upper_padded(n / 16, (width - 1) as nat).push(upper_ascii(hex_digit(n % 16)))
    }
}

/// Lower-case hexadecimal rendering of the low `width` digits, zero padded.
pub open spec fn hex_lower_padded(n: nat, width: nat) -> Seq<char>
    decreases width,
{
    if width == 0 {
        seq![]
    } else {
        hex_lower_padded(n / 16, (width - 1) as nat).push(hex_digit(n % 16))
    }
}

/// Decimal rendering without leading zeros (zero is `"0"`).
pub open spec fn dec_of(n: nat) -> Seq<char>
    decreases n,
{
    if n < 10 {
        seq![dec_digit(n)]
    } else {
        dec_of(n / 10).push(dec_digit(n % 10))
    }
}

pub open spec fn is_lower_hex_char(c: char) -> bool {
    ('0' <= c && c <= '9') || ('a' <= c && c <= 'f')
}

pub fn hex_digit_char(d: u64) -> (r: char)
    requires
        d < 16,
    ensures
        r == hex_digit(d as nat),
        is_lower_hex_char(r),
{
    if d < 10 {
        let b: u8 = d as u8 + 48;
        b as char
    } else {
        let b: u8 = d as u8 + 87;
        b as char
    }
}

/// Appends the lower-case hexadecimal rendering of `n`.
pub fn push_hex(s: &mut String, n: u64)
    ensures
        final(s)@ == old(s)@ + hex_of(n as nat),
    decreases n,
{
    if n >= 16 {
        push_hex(s, n / 16);
    }
    let c = hex_digit_char(n % 16);
    let ghost mid = s@;
    push_char(s, c);
    proof {
        if n >= 16 {
            assert(hex_of(n as nat) == hex_of((n / 16) as nat).push(hex_digit((n % 16) as nat)));
            assert(s@ =~= old(s)@ + hex_of(n as nat));
        } else {
            assert(s@ =~= old(s)@ + hex_of(n as nat));
        }
    }
}

/// Appends the upper-case hexadecimal rendering of the low `width` digits of `n`.
pub fn push_hex_upper_padded(s: &mut String, n: u64, width: u64)
    ensures
        final(s)@ == old(s)@ + hex_upper_padded(n as nat, width as nat),
    decreases width,
{
    if width == 0 {
        assert(s@ =~= old(s)@ + hex_upper_padded(n as nat, width as nat));
        return;
    }
    push_hex_upper_padded(s, n / 16, width - 1);
    let d = n % 16;
    let c = hex_digit_char(d);
    let u = if 'a' <= c && c <= 'z' {
        let b: u8 = c as u8;
        (b - 32) as char
    } else {
        c
    };
    assert(u == upper_ascii(hex_digit(d as nat)));
    push_char(s, u);
    assert(s@ =~= old(s)@ + hex_upper_padded(n as nat, width as nat));
}

/// Appends the lower-case hexadecimal rendering of the low `width` digits of `n`.
pub fn push_hex_padded(s: &mut String, n: u64, width: u64)
    ensures
        final(s)@ == old(s)@ + hex_lower_padded(n as nat, width as nat),
    decreases width,
{
    if width == 0 {
        assert(s@ =~= old(s)@ + hex_lower_padded(n as nat, width as nat));
        return;
    }
    push_hex_padded(s, n / 16, width - 1);
    push_char(s, hex_digit_char(n % 16));
    assert(s@ =~= old(s)@ + hex_lower_padded(n as nat, width as nat));
}

/// The padded lower-case rendering has exactly `width` hex digits.
pub proof fn lemma_hex_lower_padded_chars(n: nat, width: nat)
    ensures
        hex_lower_padded(n, width).len() == width,
        forall|i: int|
            0 <= i < width ==> is_lower_hex_char(#[trigger] hex_lower_padded(n, width)[i]),
    decreases width,
{
    if width > 0 {
        lemma_hex_lower_padded_chars(n / 16, (width - 1) as nat);
        let d = n % 16;
        assert(is_lower_hex_char(hex_digit(d))) by {
            if d < 10 {
                assert(48 <= d + 48 <= 57);
            } else {
                assert(97 <= d + 87 <= 102);
            }
        }
        let p = hex_lower_padded(n / 16, (width - 1) as nat);
        assert forall|i: int| 0 <= i < width implies is_lower_hex_char(#[trigger] hex_lower_padded(n, width)[i]) by {
            if i < width - 1 {
                assert(hex_lower_padded(n, width)[i] == p[i]);
            }
        }
    }
}

/// Appends the decimal rendering of `n`.
pub fn push_decimal(s: &mut String, n: u64)
    ensures
        final(s)@ == old(s)@ + dec_of(n as nat),
    decreases n,
{
    if n >= 10 {
        push_decimal(s, n / 10);
    }
    let b: u8 = (n % 10) as u8 + 48;
    push_char(s, b as char);
    assert(s@ =~= old(s)@ + dec_of(n as nat));
}

/// Every character of the lower-case hexadecimal rendering is a hex digit.
pub proof fn lemma_hex_of_chars(n: nat)
    ensures
        forall|i: int| 0 <= i < hex_of(n).len() ==> is_lower_hex_char(#[trigger] hex_of(n)[i]),
        hex_of(n).len() > 0,
    decreases n,
{
    if n >= 16 {
        lemma_hex_of_chars(n / 16);
        assert(is_lower_hex_char(hex_digit(n % 16))) by {
            let d = n % 16;
            if d < 10 {
                assert(48 <= d + 48 <= 57);
            } else {
                assert(97 <= d + 87 <= 102);
            }
        }
    } else {
        assert(is_lower_hex_char(hex_digit(n))) by {
            if n < 10 {
                assert(48 <= n + 48 <= 57);
            } else {
                assert(97 <= n + 87 <= 102);
            }
        }
    }
}

/// Whether two strings hold the same characters.
pub fn str_eq(a: &str, b: &str) -> (r: bool)
    ensures
        r == (a@ == b@),
{
    let n = a.unicode_len();
    if n != b.unicode_len() {
        return false;
    }
    let mut i: usize = 0;
    while i < n
        invariant
            n == a@.len(),
            n == b@.len(),
            i <= n,
            a@.subrange(0, i as int) == b@.subrange(0, i as int),
        decreases n - i,
    {
        if a.get_char(i) != b.get_char(i) {
            assert(a@[i as int] != b@[i as int]);
            return false;
        }
        assert(a@.subrange(0, i + 1) =~= a@.subrange(0, i as int).push(a@[i as int]));
        assert(b@.subrange(0, i + 1) =~= b@.subrange(0, i as int).push(b@[i as int]));
        i = i + 1;
    }
    assert(a@ =~= a@.subrange(0, n as int));
    assert(b@ =~= b@.subrange(0, n as int));
    true
}

/// Whether a string holds the given character.
pub fn contains_char(s: &str, c: char) -> (r: bool)
    ensures
        r == s@.contains(c),
{
    let n = s.unicode_len();
    let mut i: usize = 0;
    while i < n
        invariant
            n == s@.len(),
            i <= n,
            forall|j: int| 0 <= j < i ==> s@[j] != c,
        decreases n - i,
    {
        if s.get_char(i) == c {
            return true;
        }
        i = i + 1;
    }
    false
}

/// The character code of a hexadecimal digit.
pub proof fn lemma_hex_digit_value(d: nat)
    requires
        d < 16,
    ensures
        d < 10 ==> hex_digit(d) as u32 == d + 48,
        d >= 10 ==> hex_digit(d) as u32 == d + 87,
{
}

/// Relies on `str::chars`, collected into a `Vec`: the string's characters in order.
#[verifier::external_body]
pub(crate) fn chars_of(s: &str) -> (r: Vec<char>)
    ensures
        r@ == s@,
{
    s.chars().collect()
}

/// Whether `v` is a Unicode scalar value: not a surrogate, below 0x110000.
pub open spec fn is_scalar_value(v: nat) -> bool {
    v < 0xD800 || (0xE000 <= v && v < 0x110000)
}

/// Relies on `char::from_u32`: the character with code `v`, or `None` when
/// `v` is a surrogate or above 0x10FFFF.
#[verifier::external_body]
pub(crate) fn char_from_u32(v: u32) -> (r: Option<char>)
    ensures
        is_scalar_value(v as nat) ==> r == Some(v as char),
        !is_scalar_value(v as nat) ==> r is None,
{
    char::from_u32(v)
}

} // verus!
