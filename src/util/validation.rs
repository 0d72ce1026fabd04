//! Login form validation.
use vstd::prelude::*;
use vstd::utf8::encode_utf8;
use crate::app::user::index_of;
use crate::text::contains_char;

verus! {

/// Longest user name, and longest localpart or domain, in UTF-8 bytes.
pub const MAX_NAME_BYTES: usize = 255;

/// Shortest accepted password, in UTF-8 bytes.
pub const MIN_PASSWORD_BYTES: usize = 8;

#[derive(Clone, Copy, PartialEq, Eq, Structural, Debug)]
pub enum ValidationError {
    EmptyUsername,
    EmptyPassword,
    UsernameTooLong,
    UsernameTooShort,
    PasswordTooShort,
    InvalidUsernameCharacters,
    InvalidMatrixUsername,
}

pub open spec fn error_text(e: ValidationError) -> Seq<char> {
    match e {
        ValidationError::EmptyUsername => "ユーザー名が空です"@,
        ValidationError::EmptyPassword => "パスワードが空です"@,
        ValidationError::UsernameTooLong => "ユーザー名が長すぎます（最大255文字）"@,
        ValidationError::UsernameTooShort => "ユーザー名が短すぎます（最小1文字）"@,
        ValidationError::PasswordTooShort => "パスワードが短すぎます（最小8文字）"@,
        ValidationError::InvalidUsernameCharacters => "ユーザー名に無効な文字が含まれています"@,
        ValidationError::InvalidMatrixUsername => "Matrix形式のユーザー名ではありません（例: @user:server.com）"@,
    }
}

impl ValidationError {
    /// The message shown to the user.
    pub fn message(&self) -> (r: String)
        ensures
            r@ == error_text(*self),
    {
        match self {
            ValidationError::EmptyUsername => String::from_str("ユーザー名が空です"),
            ValidationError::EmptyPassword => String::from_str("パスワードが空です"),
            ValidationError::UsernameTooLong => String::from_str("ユーザー名が長すぎます（最大255文字）"),
            ValidationError::UsernameTooShort => String::from_str("ユーザー名が短すぎます（最小1文字）"),
            ValidationError::PasswordTooShort => String::from_str("パスワードが短すぎます（最小8文字）"),
            ValidationError::InvalidUsernameCharacters => String::from_str(
                "ユーザー名に無効な文字が含まれています",
            ),
            ValidationError::InvalidMatrixUsername => String::from_str(
                "Matrix形式のユーザー名ではありません（例: @user:server.com）",
            ),
        }
    }
}

/// Unicode `White_Space`, as `char::is_whitespace` tests it.
pub open spec fn is_ws(c: char) -> bool {
    ('\u{9}' <= c && c <= '\u{D}') || c == ' ' || c == '\u{85}' || c == '\u{A0}' || c
        == '\u{1680}' || ('\u{2000}' <= c && c <= '\u{200A}') || c == '\u{2028}' || c
        == '\u{2029}' || c == '\u{202F}' || c == '\u{205F}' || c == '\u{3000}'
}

pub open spec fn trim_start_ws(s: Seq<char>) -> Seq<char>
    decreases s.len(),
{
    if s.len() > 0 && is_ws(s[0]) {
        trim_start_ws(s.drop_first())
    } else {
        s
    }
}

pub open spec fn trim_end_ws(s: Seq<char>) -> Seq<char>
    decreases s.len(),
{
    if s.len() > 0 && is_ws(s.last()) {
        trim_end_ws(s.drop_last())
    } else {
        s
    }
}

/// The text without leading and trailing white space, as `str::trim` gives it.
pub open spec fn trim_ws(s: Seq<char>) -> Seq<char> {
    trim_end_ws(trim_start_ws(s))
}

pub open spec fn byte_len(s: Seq<char>) -> nat {
    encode_utf8(s).len()
}

pub open spec fn count_char(s: Seq<char>, c: char) -> nat
    decreases s.len(),
{
    if s.len() == 0 {
        0
    } else {
        (if s[0] == c {
            1nat
        } else {
            0nat
        }) + count_char(s.drop_first(), c)
    }
}

pub open spec fn is_localpart_char(c: char) -> bool {
    ('a' <= c && c <= 'z') || ('A' <= c && c <= 'Z') || ('0' <= c && c <= '9') || c == '.' || c
        == '_' || c == '-'
}

/// `@localpart:domain` with exactly one `:`, both parts non-empty and at most
/// 255 bytes, and the localpart over `[A-Za-z0-9._-]`.
pub open spec fn valid_matrix_format(s: Seq<char>) -> bool {
    &&& s.len() > 0
    &&& s[0] == '@'
    &&& {
        let rest = s.subrange(1, s.len() as int);
        let p = index_of(rest, ':');
        let local = rest.subrange(0, p);
        let domain = rest.subrange(p + 1, rest.len() as int);
        &&& count_char(rest, ':') == 1
        &&& local.len() > 0
        &&& byte_len(local) <= MAX_NAME_BYTES
        &&& domain.len() > 0
        &&& byte_len(domain) <= MAX_NAME_BYTES
        &&& forall|i: int| 0 <= i < local.len() ==> is_localpart_char(#[trigger] local[i])
    }
}

/// The outcome of validating a user name.
pub open spec fn username_check(u: Seq<char>) -> Result<Seq<char>, ValidationError> {
    let t = trim_ws(u);
    if t.len() == 0 {
        Err(ValidationError::EmptyUsername)
    } else if byte_len(t) > MAX_NAME_BYTES {
        Err(ValidationError::UsernameTooLong)
    } else if t.contains('\n') || t.contains('\r') || t.contains('\0') {
        Err(ValidationError::InvalidUsernameCharacters)
    } else if t[0] == '@' && !valid_matrix_format(t) {
        Err(ValidationError::InvalidMatrixUsername)
    } else {
        Ok(t)
    }
}

/// The outcome of validating a password.
pub open spec fn password_check(p: Seq<char>) -> Result<Seq<char>, ValidationError> {
    if p.len() == 0 {
        Err(ValidationError::EmptyPassword)
    } else if byte_len(p) < MIN_PASSWORD_BYTES {
        Err(ValidationError::PasswordTooShort)
    } else {
        Ok(p)
    }
}

pub open spec fn result_view(r: Result<String, ValidationError>) -> Result<
    Seq<char>,
    ValidationError,
> {
    match r {
        Ok(s) => Ok(s@),
        Err(e) => Err(e),
    }
}

fn is_ws_char(c: char) -> (r: bool)
    ensures
        r == is_ws(c),
{
    ('\u{9}' <= c && c <= '\u{D}') || c == ' ' || c == '\u{85}' || c == '\u{A0}' || c
        == '\u{1680}' || ('\u{2000}' <= c && c <= '\u{200A}') || c == '\u{2028}' || c
        == '\u{2029}' || c == '\u{202F}' || c == '\u{205F}' || c == '\u{3000}'
}

/// The text without leading and trailing white space.
pub fn trim(s: &str) -> (r: &str)
    ensures
        r@ == trim_ws(s@),
{
    let n = s.unicode_len();
    let mut start: usize = 0;
    assert(s@.subrange(0, n as int) =~= s@);
    while start < n && is_ws_char(s.get_char(start))
        invariant
            n == s@.len(),
            start <= n,
            trim_start_ws(s@) == trim_start_ws(s@.subrange(start as int, n as int)),
        decreases n - start,
    {
        assert(s@.subrange(start as int, n as int).drop_first() =~= s@.subrange(start + 1, n as int));
        start = start + 1;
    }
    let mut end: usize = n;
    while end > start && is_ws_char(s.get_char(end - 1))
        invariant
            n == s@.len(),
            start <= end <= n,
            trim_ws(s@) == trim_end_ws(s@.subrange(start as int, end as int)),
        decreases end,
    {
        assert(s@.subrange(start as int, end as int).drop_last() =~= s@.subrange(start as int, end - 1));
        end = end - 1;
    }
    s.substring_char(start, end)
}

fn count_colons(s: &str) -> (r: usize)
    ensures
        r == count_char(s@, ':'),
{
    let n = s.unicode_len();
    let mut count: usize = 0;
    let mut i: usize = n;
    assert(s@.subrange(n as int, n as int).len() == 0);
    while i > 0
        invariant
            n == s@.len(),
            i <= n,
            count == count_char(s@.subrange(i as int, n as int), ':'),
            count <= n - i,
        decreases i,
    {
        let ghost sub = s@.subrange(i - 1, n as int);
        assert(sub.drop_first() =~= s@.subrange(i as int, n as int));
        assert(sub[0] == s@[i - 1]);
        if s.get_char(i - 1) == ':' {
            count = count + 1;
        }
        i = i - 1;
    }
    assert(s@.subrange(0, n as int) =~= s@);
    count
}

fn index_of_colon(s: &str) -> (r: usize)
    requires
        count_char(s@, ':') >= 1,
    ensures
        r as int == index_of(s@, ':'),
        r < s@.len(),
        s@[r as int] == ':',
{
    let n = s.unicode_len();
    let mut i: usize = 0;
    assert(s@.subrange(0, n as int) =~= s@);
    proof {
        lemma_count_positive_has_index(s@, ':');
    }
    while i < n
        invariant
            n == s@.len(),
            i <= n,
            index_of(s@, ':') >= i,
            index_of(s@, ':') == index_of(s@.subrange(i as int, n as int), ':') + i,
            index_of(s@.subrange(i as int, n as int), ':') >= 0,
        decreases n - i,
    {
        let ghost rest = s@.subrange(i as int, n as int);
        assert(rest[0] == s@[i as int]);
        assert(rest.drop_first() =~= s@.subrange(i + 1, n as int));
        if s.get_char(i) == ':' {
            return i;
        }
        i = i + 1;
    }
    i
}

proof fn lemma_count_positive_has_index(s: Seq<char>, c: char)
    requires
        count_char(s, c) >= 1,
    ensures
        0 <= index_of(s, c) < s.len(),
        s[index_of(s, c)] == c,
{
    lemma_index_of_count(s, c);
}

proof fn lemma_index_of_count(s: Seq<char>, c: char)
    ensures
        index_of(s, c) < 0 <==> count_char(s, c) == 0,
        -1 <= index_of(s, c) < s.len(),
        index_of(s, c) >= 0 ==> s[index_of(s, c)] == c,
    decreases s.len(),
{
    if s.len() > 0 {
        lemma_index_of_count(s.drop_first(), c);
    }
}

/// Whether every character of the localpart is allowed.
fn localpart_chars_ok(s: &str) -> (r: bool)
    ensures
        r == (forall|i: int| 0 <= i < s@.len() ==> is_localpart_char(#[trigger] s@[i])),
{
    let n = s.unicode_len();
    let mut i: usize = 0;
    while i < n
        invariant
            n == s@.len(),
            i <= n,
            forall|j: int| 0 <= j < i ==> is_localpart_char(#[trigger] s@[j]),
        decreases n - i,
    {
        let c = s.get_char(i);
        let ok = ('a' <= c && c <= 'z') || ('A' <= c && c <= 'Z') || ('0' <= c && c <= '9') || c
            == '.' || c == '_' || c == '-';
        if !ok {
            assert(!is_localpart_char(s@[i as int]));
            return false;
        }
        i = i + 1;
    }
    true
}

/// Login form checks.
pub struct LoginValidator;

impl LoginValidator {
    /// Trims the name and checks it: non-empty, at most 255 bytes, no line
    /// breaks or NUL, and a well-formed `@localpart:domain` when it starts with `@`.
    pub fn validate_username(username: &str) -> (r: Result<String, ValidationError>)
        ensures
            result_view(r) == username_check(username@),
    {
        let trimmed = trim(username);
        if trimmed.unicode_len() == 0 {
            return Err(ValidationError::EmptyUsername);
        }
        if trimmed.as_bytes().len() > MAX_NAME_BYTES {
            return Err(ValidationError::UsernameTooLong);
        }
        if contains_char(trimmed, '\n') || contains_char(trimmed, '\r') || contains_char(
            trimmed,
            '\0',
        ) {
            return Err(ValidationError::InvalidUsernameCharacters);
        }
        if trimmed.get_char(0) == '@' && !Self::is_valid_matrix_format(trimmed) {
            return Err(ValidationError::InvalidMatrixUsername);
        }
        Ok(trimmed.to_owned())
    }

    /// Checks a password: non-empty and at least 8 bytes.
    pub fn validate_password(password: &str) -> (r: Result<String, ValidationError>)
        ensures
            result_view(r) == password_check(password@),
    {
        if password.is_empty() {
            return Err(ValidationError::EmptyPassword);
        }
        if password.as_bytes().len() < MIN_PASSWORD_BYTES {
            return Err(ValidationError::PasswordTooShort);
        }
        Ok(password.to_owned())
    }

    /// Whether the text is a well-formed `@localpart:domain`.
    pub fn is_valid_matrix_format(username: &str) -> (r: bool)
        ensures
            r == valid_matrix_format(username@),
    {
        let n = username.unicode_len();
        if n == 0 || username.get_char(0) != '@' {
            return false;
        }
        let rest = username.substring_char(1, n);
        if count_colons(rest) != 1 {
            return false;
        }
        let p = index_of_colon(rest);
        let m = rest.unicode_len();
        let local = rest.substring_char(0, p);
        let domain = rest.substring_char(p + 1, m);
        if local.unicode_len() == 0 || local.as_bytes().len() > MAX_NAME_BYTES {
            return false;
        }
        if domain.unicode_len() == 0 || domain.as_bytes().len() > MAX_NAME_BYTES {
            return false;
        }
        localpart_chars_ok(local)
    }

    /// Validates the user name, then the password.
    pub fn validate_login_credentials(username: &str, password: &str) -> (r: Result<
        (String, String),
        ValidationError,
    >)
        ensures
            match r {
                Ok((u, p)) => username_check(username@) == Ok::<Seq<char>, ValidationError>(u@)
                    && password_check(password@) == Ok::<Seq<char>, ValidationError>(p@),
                Err(e) => username_check(username@) == Err::<Seq<char>, ValidationError>(e) || (
                username_check(username@) is Ok && password_check(password@) == Err::<
                    Seq<char>,
                    ValidationError,
                >(e)),
            },
    {
        let valid_username = match Self::validate_username(username) {
            Ok(u) => u,
            Err(e) => {
                return Err(e);
            },
        };
        let valid_password = match Self::validate_password(password) {
            Ok(p) => p,
            Err(e) => {
                return Err(e);
            },
        };
        Ok((valid_username, valid_password))
    }
}

} // verus!
