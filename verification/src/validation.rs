//! Input validation shared by the whole system: usernames, passwords,
//! email addresses, and chat text.

use vstd::prelude::*;
use vstd::string::*;
use crate::constants::{
    MAX_CHAT_MESSAGE_LENGTH, MAX_USERNAME_LENGTH, MIN_PASSWORD_LENGTH, MIN_USERNAME_LENGTH,
};
use crate::errors::GameError;
use crate::strutil::{
    chat_keep, filter_keep, is_unicode_alphanumeric, keep_chat_chars, trim, trim_spec,
};

verus! {

/// Whether a character may appear in a username: a Unicode letter or
/// number, or an underscore.
pub open spec fn username_char_ok(c: char) -> bool {
    is_unicode_alphanumeric(c) || c == '_'
}

/// Whether a username is acceptable: after trimming it is between the
/// minimum and maximum length and holds only letters, numbers, and
/// underscores.
pub open spec fn username_ok(s: Seq<char>) -> bool {
    let t = trim_spec(s);
    &&& MIN_USERNAME_LENGTH <= t.len() <= MAX_USERNAME_LENGTH
    &&& forall|i: int| 0 <= i < t.len() ==> username_char_ok(t[i])
}

/// Checks a username against the world's rules; it is accepted exactly
/// when `username_ok` holds of it.
pub fn validate_username(username: &str) -> (r: Result<(), GameError>)
    ensures
        r is Ok <==> username_ok(username@),
        r is Err ==> r->Err_0 == GameError::Validation,
{
    let trimmed = trim(username);
    let t = trimmed.as_str();
    let len = t.unicode_len();
    if len < MIN_USERNAME_LENGTH || len > MAX_USERNAME_LENGTH {
        return Err(GameError::Validation);
    }
    let mut i: usize = 0;
    while i < len
        invariant
            0 <= i <= len,
            len == t@.len(),
            t@ == trim_spec(username@),
            forall|j: int| 0 <= j < i ==> username_char_ok(t@[j]),
        decreases len - i,
    {
        let c = t.get_char(i);
        if !(c.is_alphanumeric() || c == '_') {
            return Err(GameError::Validation);
        }
        i = i + 1;
    }
    Ok(())
}

/// Whether a password is acceptable: at least the minimum length.
pub open spec fn password_ok(s: Seq<char>) -> bool {
    s.len() >= MIN_PASSWORD_LENGTH
}

/// Checks a password's strength; it is accepted exactly when it has at
/// least the minimum length.
pub fn validate_password(password: &str) -> (r: Result<(), GameError>)
    ensures
        r is Ok <==> password_ok(password@),
        r is Err ==> r->Err_0 == GameError::Validation,
{
    if password.unicode_len() < MIN_PASSWORD_LENGTH {
        Err(GameError::Validation)
    } else {
        Ok(())
    }
}

/// Whether the string holds the character anywhere.
pub open spec fn contains_char(s: Seq<char>, c: char) -> bool {
    exists|i: int| 0 <= i < s.len() && s[i] == c
}

/// Whether an email address is acceptable: it holds an `@` and a `.`.
pub open spec fn email_ok(s: Seq<char>) -> bool {
    contains_char(s, '@') && contains_char(s, '.')
}

/// Checks an email address's basic shape; it is accepted exactly when it
/// holds both an `@` and a `.`.
pub fn validate_email(email: &str) -> (r: Result<(), GameError>)
    ensures
        r is Ok <==> email_ok(email@),
        r is Err ==> r->Err_0 == GameError::Validation,
{
    let len = email.unicode_len();
    let mut has_at = false;
    let mut has_dot = false;
    let mut i: usize = 0;
    while i < len
        invariant
            0 <= i <= len,
            len == email@.len(),
            has_at == exists|j: int| 0 <= j < i && email@[j] == '@',
            has_dot == exists|j: int| 0 <= j < i && email@[j] == '.',
        decreases len - i,
    {
        let c = email.get_char(i);
        if c == '@' {
            has_at = true;
        }
        if c == '.' {
            has_dot = true;
        }
        i = i + 1;
    }
    if has_at && has_dot {
        Ok(())
    } else {
        Err(GameError::Validation)
    }
}

/// What a chat message becomes after sanitization: trimmed, then stripped
/// to ASCII graphic and whitespace characters.
pub open spec fn sanitized_message(s: Seq<char>) -> Seq<char> {
    filter_keep(trim_spec(s))
}

/// Whether a chat message is acceptable at all: after trimming it is
/// non-empty and within the length cap.
pub open spec fn chat_message_ok(s: Seq<char>) -> bool {
    1 <= trim_spec(s).len() <= MAX_CHAT_MESSAGE_LENGTH
}

/// Sanitizes a chat message: trims it, rejects an empty or oversized
/// result, and strips everything but ASCII graphic and whitespace
/// characters.
pub fn sanitize_chat_message(message: &str) -> (r: Result<String, GameError>)
    ensures
        r is Ok <==> chat_message_ok(message@),
        r matches Ok(m) ==> m@ == sanitized_message(message@),
        r is Err ==> r->Err_0 == GameError::Validation,
{
    let trimmed = trim(message);
    let len = trimmed.as_str().unicode_len();
    if len == 0 || len > MAX_CHAT_MESSAGE_LENGTH {
        return Err(GameError::Validation);
    }
    Ok(keep_chat_chars(trimmed.as_str()))
}

} // verus!
