//! The admin login: password hashes, session tokens and the session cookie.

use argon2::password_hash::rand_core::OsRng;
use argon2::password_hash::SaltString;
use argon2::{Argon2, PasswordHash, PasswordHasher, PasswordVerifier};
use rand::RngCore;
use vstd::prelude::*;
use vstd::string::StringSliceAdditionalSpecFns;

use crate::state::User;
use crate::text::{
    chars_of, find_char, find_char_range, is_space, lemma_find_char_first, lemma_find_char_none, lemma_find_char_some,
    hex_encode, hex_lower, owned, push_decimal, range_eq, trim_start,
    split_char, split_once_char, string_of, trim, trim_range, decimal,
};

verus! {

/// Name of the cookie that carries the session token.
pub const SESSION_COOKIE: &'static str = "backyard_session";

/// Days a session stays valid.
pub const SESSION_TTL_DAYS: u64 = 30;

// ---------------------------------------------------------------------------
// Passwords
// ---------------------------------------------------------------------------

/// Whether Argon2 (default parameters) accepts `password` against the PHC
/// hash string `phc`: the string parses as a password hash and the password
/// hashes to it.
pub uninterp spec fn argon2_accepts(password: Seq<char>, phc: Seq<char>) -> bool;

/// Hashes a password with `Argon2::default()` and a fresh random salt
/// (`SaltString::generate` on `OsRng`, then `PasswordHasher::hash_password`),
/// giving the PHC string, or the error's text.
///
/// Claimed: a returned hash is accepted for the same password by
/// `PasswordVerifier::verify_password` (the crate's documented round trip),
/// and hashing fails only for a password longer than `u32::MAX` bytes (the
/// one error that `hash_password_into` raises for default parameters and a
/// generated salt).  A PHC string starts with `$` (`Display` of
/// `PasswordHash`).  The rest of the hash rests on the random salt and is
/// not stated.
#[verifier::external_body]
fn argon2_hash(password: &str) -> (r: Result<String, String>)
    ensures
        r matches Ok(h) ==> argon2_accepts(password@, h@),
        r matches Ok(h) ==> starts_with_dollar(h@),
        password.spec_bytes().len() <= 0xffff_ffff ==> r is Ok,
{
    let salt = SaltString::generate(&mut OsRng);
    match Argon2::default().hash_password(password.as_bytes(), &salt) {
        Ok(hash) => Ok(hash.to_string()),
        Err(e) => Err(e.to_string()),
    }
}

/// Checks a password against a PHC hash string with `PasswordHash::new` and
/// `Argon2::default().verify_password`; a string that does not parse is a
/// refusal.  Claimed of the parse: a string that does not start with `$`
/// (the empty string included) is not a PHC string (`PasswordHash::parse`
/// refuses an empty string and one whose text before its first `$` is not
/// empty).
#[verifier::external_body]
fn argon2_verify(password: &str, hash: &str) -> (ok: bool)
    ensures
        ok == argon2_accepts(password@, hash@),
        !starts_with_dollar(hash@) ==> !ok,
{
    match PasswordHash::new(hash) {
        Ok(parsed) => Argon2::default().verify_password(password.as_bytes(), &parsed).is_ok(),
        Err(_) => false,
    }
}

/// A text that starts with `$`, as every PHC hash string does.
pub open spec fn starts_with_dollar(s: Seq<char>) -> bool {
    s.len() > 0 && s[0] == '$'
}

/// Hashes a password for storage: a PHC string that the password verifies
/// against.  On failure the error reads `Failed to hash password: ` and the
/// hasher's message.
pub fn hash_password(password: &str) -> (r: Result<String, String>)
    ensures
        r matches Ok(h) ==> argon2_accepts(password@, h@),
        r matches Ok(h) ==> starts_with_dollar(h@),
        r matches Err(e) ==> has_message_prefix(e@),
        password.spec_bytes().len() <= 0xffff_ffff ==> r is Ok,
{
    match argon2_hash(password) {
        Ok(h) => Ok(h),
        Err(detail) => {
            let mut e = owned("Failed to hash password: ");
            e.push_str(detail.as_str());
            Err(e)
        },
    }
}

/// The error text of a failed hash starts with the fixed prefix.
pub open spec fn has_message_prefix(e: Seq<char>) -> bool {
    exists|d: Seq<char>| e == "Failed to hash password: "@ + d
}

/// Whether `password` matches a stored hash; a text that is not a PHC
/// string (one that does not start with `$`, such as `""` or `plain`) is
/// refused.
pub fn verify_password(password: &str, hash: &str) -> (ok: bool)
    ensures
        ok == argon2_accepts(password@, hash@),
        !starts_with_dollar(hash@) ==> !ok,
{
    argon2_verify(password, hash)
}

/// The outcome of a login attempt for the row found under the username
/// (`id`, `username`, `password_hash`), if any.
pub open spec fn login_outcome(row: Option<(i64, String, String)>, password: Seq<char>) -> Option<User> {
    match row {
        Some((id, username, hash)) => if argon2_accepts(password, hash@) {
            Some(User { id, username })
        } else {
            None
        },
        None => None,
    }
}

/// Decides a login from the user row looked up by name: the user when the
/// password matches its hash, nothing otherwise.
pub fn authenticate_row(row: Option<(i64, String, String)>, password: &str) -> (r: Option<User>)
    ensures
        r == login_outcome(row, password@),
{
    match row {
        Some((id, username, hash)) => {
            if verify_password(password, hash.as_str()) {
                Some(User { id, username })
            } else {
                None
            }
        },
        None => None,
    }
}

/// A password stored through `hash_password` logs its user in: the row that
/// holds the hash it returned, looked up under that user, yields the user.
pub proof fn lemma_stored_password_logs_in(id: i64, username: String, password: Seq<char>, hash: String)
    requires
        argon2_accepts(password, hash@),
    ensures
        login_outcome(Some((id, username, hash)), password) == Some(User { id, username }),
{
}

/// A password that the stored hash does not accept never logs in.
pub proof fn lemma_wrong_password_refused(row: Option<(i64, String, String)>, password: Seq<char>)
    requires
        row matches Some(r) ==> !argon2_accepts(password, r.2@),
    ensures
        login_outcome(row, password) is None,
{
}

// ---------------------------------------------------------------------------
// Sessions
// ---------------------------------------------------------------------------

/// Fills 32 bytes from the operating system's random source
/// (`RngCore::fill_bytes` on `OsRng`).  Nothing is claimed of the bytes.
#[verifier::external_body]
fn os_random_32() -> (bytes: [u8; 32])
{
    let mut bytes = [0u8; 32];
    OsRng.fill_bytes(&mut bytes);
    bytes
}

/// The session token made of given bytes: their lower-case hex digits.
pub fn session_token_from_bytes(bytes: &[u8]) -> (t: String)
    ensures
        t@ == hex_lower(bytes@),
{
    hex_encode(bytes)
}

/// A token is the hex writing of 32 bytes.
pub open spec fn is_session_token(t: Seq<char>) -> bool {
    exists|b: Seq<u8>| b.len() == 32 && t == hex_lower(b)
}

/// A fresh session token: 32 random bytes, written in hex.
pub fn new_session_token() -> (t: String)
    ensures
        is_session_token(t@),
{
    let bytes = os_random_32();
    let t = session_token_from_bytes(&bytes);
    assert(bytes@.len() == 32);
    t
}

/// A hex writing has two characters per byte.
pub proof fn lemma_hex_len(b: Seq<u8>)
    ensures
        hex_lower(b).len() == 2 * b.len(),
    decreases b.len(),
{
    if b.len() > 0 {
        lemma_hex_len(b.drop_last());
    }
}

/// Every session token is 64 characters long.
pub proof fn lemma_session_token_len(t: Seq<char>)
    requires
        is_session_token(t),
    ensures
        t.len() == 64,
{
    let b = choose|b: Seq<u8>| b.len() == 32 && t == hex_lower(b);
    lemma_hex_len(b);
}

/// The SQLite date modifier for a session's expiry: `+30 days`.
pub fn session_expiry_modifier() -> (m: String)
    ensures
        m@ == "+"@ + decimal(SESSION_TTL_DAYS as nat) + " days"@,
{
    let mut m = owned("+");
    push_decimal(&mut m, SESSION_TTL_DAYS);
    m.push_str(" days");
    m
}

// ---------------------------------------------------------------------------
// Cookies
// ---------------------------------------------------------------------------

/// The `Set-Cookie` value that stores a session token for 30 days.
pub fn session_cookie(token: &str) -> (c: String)
    ensures
        c@ == SESSION_COOKIE@ + "="@ + token@ + "; Path=/; HttpOnly; SameSite=Lax; Max-Age=2592000"@,
{
    let mut c = owned(SESSION_COOKIE);
    c.push_str("=");
    c.push_str(token);
    c.push_str("; Path=/; HttpOnly; SameSite=Lax; Max-Age=2592000");
    c
}

/// The `Set-Cookie` value that removes the session cookie.
pub fn clear_cookie() -> (c: String)
    ensures
        c@ == SESSION_COOKIE@ + "=; Path=/; HttpOnly; Max-Age=0"@,
{
    let mut c = owned(SESSION_COOKIE);
    c.push_str("=; Path=/; HttpOnly; Max-Age=0");
    c
}

/// The value of the first `name=value` pair among cookie pieces whose name,
/// trimmed, is `name`; pieces are trimmed and split at their first `=`, and
/// a piece without `=` is skipped.
pub open spec fn cookie_in_pieces(pieces: Seq<Seq<char>>, name: Seq<char>) -> Option<Seq<char>>
    decreases pieces.len(),
{
    if pieces.len() == 0 {
        None
    } else {
        match split_once_char(trim(pieces[0]), '=') {
            Some((k, v)) => if trim(k) == name {
                Some(trim(v))
            } else {
                cookie_in_pieces(pieces.drop_first(), name)
            },
            None => cookie_in_pieces(pieces.drop_first(), name),
        }
    }
}

/// The value of cookie `name` in a `Cookie` header (pieces separated by
/// `;`), trimmed.
pub open spec fn cookie_of(header: Seq<char>, name: Seq<char>) -> Option<Seq<char>> {
    cookie_in_pieces(split_char(header, ';'), name)
}

/// The session cookie reads back: a `Cookie` header that starts with the
/// pair that `session_cookie` sets (`backyard_session=<token>`, then nothing
/// or `;` and more) gives the token back under the session cookie's name,
/// for every token without `;` and without white space at its ends.
pub proof fn lemma_session_cookie_reads_back(token: Seq<char>, tail: Seq<char>)
    requires
        forall|i: int| 0 <= i < token.len() ==> token[i] != ';',
        token.len() > 0 ==> !is_space(token[0]) && !is_space(token.last()),
        tail.len() == 0 || tail[0] == ';',
    ensures
        cookie_of(SESSION_COOKIE@ + "="@ + token + tail, SESSION_COOKIE@) == Some(token),
{
    reveal_strlit("backyard_session");
    reveal_strlit("=");
    let name = SESSION_COOKIE@;
    assert(name == seq!['b', 'a', 'c', 'k', 'y', 'a', 'r', 'd', '_', 's', 'e', 's', 's', 'i', 'o', 'n']);
    let pair = name + "="@ + token;
    let h = pair + tail;
    assert(pair.len() == 17 + token.len());
    assert forall|j: int| 0 <= j < pair.len() implies pair[j] != ';' by {
        if j >= 17 {
            assert(pair[j] == token[j - 17]);
        }
    }
    // The first piece of the header is the pair.
    if tail.len() == 0 {
        assert(h == pair);
        lemma_find_char_none(h, ';');
        assert(split_char(h, ';') == seq![pair]);
    } else {
        assert(h[pair.len() as int] == ';');
        lemma_find_char_first(h, ';', pair.len() as int);
        assert(h.subrange(0, pair.len() as int) == pair);
        assert(split_char(h, ';')[0] == pair);
    }
    let pieces = split_char(h, ';');
    assert(pieces.len() > 0 && pieces[0] == pair);
    // The pair has no white space at its ends.
    assert(pair[0] == 'b');
    if token.len() > 0 {
        assert(pair.last() == token.last());
    } else {
        assert(pair.last() == '=');
    }
    assert(trim_start(pair) == pair);
    assert(trim(pair) == pair);
    // It splits at the `=` after the name.
    assert(pair[16] == '=');
    lemma_find_char_first(pair, '=', 16);
    assert(pair.subrange(0, 16) == name);
    assert(pair.subrange(17, pair.len() as int) == token);
    assert(trim_start(name) == name);
    assert(trim(name) == name);
    assert(trim_start(token) == token);
    assert(trim(token) == token);
}

/// A character of a lower-case hex writing.
pub open spec fn is_hex_char(c: char) -> bool {
    ('0' <= c && c <= '9') || ('a' <= c && c <= 'f')
}

/// Every character of a hex writing is a hex digit.
pub proof fn lemma_hex_chars(b: Seq<u8>)
    ensures
        forall|i: int| 0 <= i < hex_lower(b).len() ==> is_hex_char(#[trigger] hex_lower(b)[i]),
    decreases b.len(),
{
    if b.len() > 0 {
        lemma_hex_chars(b.drop_last());
        let hi = crate::text::hex_digit((b.last() / 16) as nat);
        let lo = crate::text::hex_digit((b.last() % 16) as nat);
        assert(is_hex_char(hi) && is_hex_char(lo));
        let h = hex_lower(b);
        let front = hex_lower(b.drop_last());
        assert(h == front + seq![hi, lo]);
        assert forall|i: int| 0 <= i < h.len() implies is_hex_char(#[trigger] h[i]) by {
            if i < front.len() {
                assert(h[i] == front[i]);
            }
        }
    }
}

/// A session token is read back from the `Set-Cookie` value that stores it,
/// and from the `backyard_session=<token>` pair a browser sends.
pub proof fn lemma_session_token_reads_back(t: Seq<char>)
    requires
        is_session_token(t),
    ensures
        cookie_of(SESSION_COOKIE@ + "="@ + t + "; Path=/; HttpOnly; SameSite=Lax; Max-Age=2592000"@, SESSION_COOKIE@) == Some(t),
        cookie_of(SESSION_COOKIE@ + "="@ + t, SESSION_COOKIE@) == Some(t),
{
    let b = choose|b: Seq<u8>| b.len() == 32 && t == hex_lower(b);
    lemma_hex_chars(b);
    assert forall|i: int| 0 <= i < t.len() implies t[i] != ';' by {
        assert(is_hex_char(t[i]));
    }
    if t.len() > 0 {
        assert(is_hex_char(t[0]));
        assert(is_hex_char(t[t.len() - 1]));
    }
    reveal_strlit("; Path=/; HttpOnly; SameSite=Lax; Max-Age=2592000");
    lemma_session_cookie_reads_back(t, "; Path=/; HttpOnly; SameSite=Lax; Max-Age=2592000"@);
    lemma_session_cookie_reads_back(t, Seq::empty());
    assert(SESSION_COOKIE@ + "="@ + t + Seq::<char>::empty() == SESSION_COOKIE@ + "="@ + t);
}

/// Reads cookie `name` from a `Cookie` header.
pub fn cookie_value(header: &str, name: &str) -> (r: Option<String>)
    ensures
        r matches Some(v) ==> cookie_of(header@, name@) == Some(v@),
        r is None ==> cookie_of(header@, name@) is None,
{
    let v = chars_of(header);
    let nv = chars_of(name);
    let mut start: usize = 0;
    assert(v@.subrange(0, v.len() as int) == v@);
    loop
        invariant
            start <= v.len(),
            v@ == header@,
            nv@ == name@,
            cookie_in_pieces(split_char(v@.subrange(start as int, v.len() as int), ';'), name@)
                == cookie_of(header@, name@),
        decreases v.len() - start,
    {
        let ghost rest = v@.subrange(start as int, v.len() as int);
        let found = find_char_range(&v, ';', start, v.len());
        let end: usize = match found {
            Some(e) => e,
            None => v.len(),
        };
        let ghost piece = v@.subrange(start as int, end as int);
        proof {
            lemma_find_char_some(rest, ';');
            match find_char(rest, ';') {
                Some(i) => {
                    assert(rest.subrange(0, i) == piece);
                    assert(rest.subrange(i + 1, rest.len() as int)
                        == v@.subrange(end + 1, v.len() as int));
                    assert(split_char(rest, ';') == seq![piece]
                        + split_char(v@.subrange(end + 1, v.len() as int), ';'));
                },
                None => {
                    assert(rest == piece);
                    assert(split_char(rest, ';') == seq![piece]);
                },
            }
        }
        let (a, b) = trim_range(&v, start, end);
        let eq = find_char_range(&v, '=', a, b);
        let ghost tp = v@.subrange(a as int, b as int);
        let ghost tail = if found is Some {
            split_char(v@.subrange(end + 1, v.len() as int), ';')
        } else {
            Seq::<Seq<char>>::empty()
        };
        proof {
            lemma_find_char_some(tp, '=');
            assert(split_char(rest, ';') == seq![piece] + tail);
            assert((seq![piece] + tail)[0] == piece);
            assert((seq![piece] + tail).drop_first() == tail);
        }
        match eq {
            Some(e) => {
                let (ka, kb) = trim_range(&v, a, e);
                proof {
                    let i = e - a;
                    assert(tp.subrange(0, i) == v@.subrange(a as int, e as int));
                    assert(tp.subrange(i + 1, tp.len() as int) == v@.subrange(e + 1, b as int));
                }
                if range_eq(&v, ka, kb, &nv) {
                    let (va, vb) = trim_range(&v, e + 1, b);
                    return Some(string_of(&v, va, vb));
                }
                assert(cookie_in_pieces(seq![piece] + tail, name@) == cookie_in_pieces(tail, name@));
            },
            None => {
                assert(cookie_in_pieces(seq![piece] + tail, name@) == cookie_in_pieces(tail, name@));
            },
        }
        match found {
            Some(e) => {
                start = e + 1;
            },
            None => {
                proof {
                    assert(tail.len() == 0);
                }
                return None;
            },
        }
    }
}

} // verus!
