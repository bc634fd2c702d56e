//! Text utilities: character classes, trimming, equality, hex encoding.
//!
//! Unicode character classes come from the standard library through two
//! named results; everything built on top of them is verified.

use vstd::prelude::*;
use vstd::string::*;

verus! {

/// The result of `char::is_whitespace`: whether the character has the
/// Unicode White_Space property.
pub uninterp spec fn is_unicode_whitespace(c: char) -> bool;

/// Relies on char::is_whitespace: the result depends on the character
/// alone. The extra clauses are the documented ASCII cases.
pub assume_specification[ char::is_whitespace ](c: char) -> (r: bool)
    ensures
        r == is_unicode_whitespace(c),
        (c == ' ' || c == '\t' || c == '\n' || c == '\r') ==> r,
        ((0x30 <= (c as u32) && (c as u32) <= 0x39) || (0x61 <= (c as u32) && (c as u32) <= 0x7A)
            || (0x41 <= (c as u32) && (c as u32) <= 0x5A) || c == '_') ==> !r,
;

/// The result of `char::is_alphanumeric`: whether the character is a
/// Unicode letter or number.
pub uninterp spec fn is_unicode_alphanumeric(c: char) -> bool;

/// Relies on char::is_alphanumeric: the result depends on the character
/// alone. The extra clauses are the documented ASCII cases.
pub assume_specification[ char::is_alphanumeric ](c: char) -> (r: bool)
    ensures
        r == is_unicode_alphanumeric(c),
        ((0x30 <= (c as u32) && (c as u32) <= 0x39) || (0x61 <= (c as u32) && (c as u32) <= 0x7A)
            || (0x41 <= (c as u32) && (c as u32) <= 0x5A)) ==> r,
        (c == '_' || c == ' ' || c == '.' || c == '!' || c == '@') ==> !r,
;

/// Relies on String implementing FromIterator<char>: collecting characters
/// yields the string of exactly those characters in order.
#[verifier::external_body]
pub fn string_from_chars(v: Vec<char>) -> (r: String)
    ensures
        r@ == v@,
{
    v.into_iter().collect()
}

/// Compares two string slices character by character.
pub fn str_eq(a: &str, b: &str) -> (r: bool)
    ensures
        r == (a@ == b@),
{
    let la = a.unicode_len();
    let lb = b.unicode_len();
    if la != lb {
        proof {
            assert(a@.len() != b@.len());
        }
        return false;
    }
    let mut i: usize = 0;
    while i < la
        invariant
            0 <= i <= la,
            la == a@.len(),
            lb == b@.len(),
            la == lb,
            forall|j: int| 0 <= j < i ==> a@[j] == b@[j],
        decreases la - i,
    {
        if a.get_char(i) != b.get_char(i) {
            return false;
        }
        i = i + 1;
    }
    proof {
        assert(a@ =~= b@);
    }
    true
}

/// The string without its leading whitespace.
pub open spec fn trim_start_spec(s: Seq<char>) -> Seq<char>
    decreases s.len(),
{
    if s.len() == 0 {
        s
    } else if is_unicode_whitespace(s[0]) {
        trim_start_spec(s.drop_first())
    } else {
        s
    }
}

/// The string without its trailing whitespace.
pub open spec fn trim_end_spec(s: Seq<char>) -> Seq<char>
    decreases s.len(),
{
    if s.len() == 0 {
        s
    } else if is_unicode_whitespace(s.last()) {
        trim_end_spec(s.drop_last())
    } else {
        s
    }
}

/// The string without leading or trailing whitespace.
pub open spec fn trim_spec(s: Seq<char>) -> Seq<char> {
    trim_end_spec(trim_start_spec(s))
}

/// Dropping an all-whitespace prefix does not change the trimmed string.
proof fn lemma_trim_start_skip(s: Seq<char>, i: int)
    requires
        0 <= i <= s.len(),
        forall|j: int| 0 <= j < i ==> is_unicode_whitespace(s[j]),
    ensures
        trim_start_spec(s) == trim_start_spec(s.subrange(i, s.len() as int)),
    decreases i,
{
    if i == 0 {
        assert(s.subrange(0, s.len() as int) =~= s);
    } else {
        assert(is_unicode_whitespace(s[0]));
        let rest = s.drop_first();
        assert(forall|j: int| 0 <= j < i - 1 ==> is_unicode_whitespace(rest[j]));
        lemma_trim_start_skip(rest, i - 1);
        assert(rest.subrange(i - 1, rest.len() as int) =~= s.subrange(i, s.len() as int));
    }
}

/// Dropping an all-whitespace suffix does not change the trimmed string.
proof fn lemma_trim_end_skip(s: Seq<char>, e: int)
    requires
        0 <= e <= s.len(),
        forall|j: int| e <= j < s.len() ==> is_unicode_whitespace(s[j]),
    ensures
        trim_end_spec(s) == trim_end_spec(s.subrange(0, e)),
    decreases s.len() - e,
{
    if e == s.len() {
        assert(s.subrange(0, s.len() as int) =~= s);
    } else {
        assert(is_unicode_whitespace(s.last()));
        let rest = s.drop_last();
        assert(rest =~= s.subrange(0, s.len() - 1));
        assert(forall|j: int| e <= j < rest.len() ==> is_unicode_whitespace(rest[j]));
        lemma_trim_end_skip(rest, e);
        assert(rest.subrange(0, e) =~= s.subrange(0, e));
    }
}

/// Removes leading and trailing whitespace from a string.
pub fn trim(s: &str) -> (r: String)
    ensures
        r@ == trim_spec(s@),
{
    let len = s.unicode_len();
    let mut start: usize = 0;
    while start < len && s.get_char(start).is_whitespace()
        invariant
            0 <= start <= len,
            len == s@.len(),
            forall|j: int| 0 <= j < start ==> is_unicode_whitespace(s@[j]),
        decreases len - start,
    {
        start = start + 1;
    }
    let mut end: usize = len;
    while end > start && s.get_char(end - 1).is_whitespace()
        invariant
            start <= end <= len,
            len == s@.len(),
            forall|j: int| 0 <= j < start ==> is_unicode_whitespace(s@[j]),
            forall|j: int| end <= j < len ==> is_unicode_whitespace(s@[j]),
        decreases end,
    {
        end = end - 1;
    }
    let piece = s.substring_char(start, end);
    proof {
        let tail = s@.subrange(start as int, len as int);
        lemma_trim_start_skip(s@, start as int);
        assert(trim_start_spec(s@) == trim_start_spec(tail));
        if start < len {
            assert(!is_unicode_whitespace(tail[0]));
            assert(trim_start_spec(tail) == tail);
        } else {
            assert(tail =~= Seq::<char>::empty());
            assert(trim_start_spec(tail) == tail);
        }
        assert(forall|j: int| (end - start) <= j < tail.len() ==> is_unicode_whitespace(
            tail[j],
        ));
        lemma_trim_end_skip(tail, end - start);
        let kept = tail.subrange(0, end - start);
        if end > start {
            assert(kept.last() == s@[end - 1]);
            assert(!is_unicode_whitespace(kept.last()));
            assert(trim_end_spec(kept) == kept);
        } else {
            assert(kept =~= Seq::<char>::empty());
            assert(trim_end_spec(kept) == kept);
        }
        assert(kept =~= s@.subrange(start as int, end as int));
    }
    piece.to_owned()
}

/// Whether a character is ASCII graphic: `!` through `~`.
pub open spec fn ascii_graphic(c: char) -> bool {
    0x21 <= (c as u32) <= 0x7E
}

/// Whether a character is ASCII whitespace: space, tab, newline, form
/// feed, or carriage return.
pub open spec fn ascii_space(c: char) -> bool {
    c == ' ' || c == '\t' || c == '\n' || c == '\u{0C}' || c == '\r'
}

/// Whether a character survives chat sanitization.
pub open spec fn chat_keep(c: char) -> bool {
    ascii_graphic(c) || ascii_space(c)
}

/// The characters of a string that survive chat sanitization, in order.
pub open spec fn filter_keep(s: Seq<char>) -> Seq<char>
    decreases s.len(),
{
    if s.len() == 0 {
        s
    } else if chat_keep(s.last()) {
        filter_keep(s.drop_last()).push(s.last())
    } else {
        filter_keep(s.drop_last())
    }
}

/// Keeps only the ASCII graphic and whitespace characters of a string.
pub fn keep_chat_chars(s: &str) -> (r: String)
    ensures
        r@ == filter_keep(s@),
{
    let len = s.unicode_len();
    let mut kept: Vec<char> = Vec::new();
    let mut i: usize = 0;
    while i < len
        invariant
            0 <= i <= len,
            len == s@.len(),
            kept@ == filter_keep(s@.subrange(0, i as int)),
        decreases len - i,
    {
        let c = s.get_char(i);
        let code = c as u32;
        let keep = (0x21 <= code && code <= 0x7E) || c == ' ' || c == '\t' || c == '\n'
            || c == '\u{0C}' || c == '\r';
        proof {
            vstd::utf8::char_u32_cast(c, code);
            assert(keep == chat_keep(c));
            let pre = s@.subrange(0, i as int);
            let post = s@.subrange(0, i + 1);
            assert(post.drop_last() =~= pre);
            assert(post.last() == c);
        }
        if keep {
            kept.push(c);
        }
        i = i + 1;
    }
    proof {
        assert(s@.subrange(0, len as int) =~= s@);
    }
    string_from_chars(kept)
}

/// The lowercase hex digit for a value below sixteen.
pub open spec fn hex_digit(n: int) -> char {
    if n == 0 { '0' } else if n == 1 { '1' } else if n == 2 { '2' } else if n == 3 { '3' }
    else if n == 4 { '4' } else if n == 5 { '5' } else if n == 6 { '6' } else if n == 7 { '7' }
    else if n == 8 { '8' } else if n == 9 { '9' } else if n == 10 { 'a' } else if n == 11 { 'b' }
    else if n == 12 { 'c' } else if n == 13 { 'd' } else if n == 14 { 'e' } else { 'f' }
}

/// The lowercase hex encoding of a byte string: two digits per byte.
pub open spec fn hex_of_bytes(bytes: Seq<u8>) -> Seq<char>
    decreases bytes.len(),
{
    if bytes.len() == 0 {
        Seq::<char>::empty()
    } else {
        hex_of_bytes(bytes.drop_last()).push(hex_digit(bytes.last() as int / 16)).push(
            hex_digit(bytes.last() as int % 16),
        )
    }
}

/// Returns the hex digit character for a value below sixteen.
fn hex_digit_char(n: u8) -> (r: char)
    requires
        n < 16,
    ensures
        r == hex_digit(n as int),
{
    match n {
        0 => '0', 1 => '1', 2 => '2', 3 => '3', 4 => '4', 5 => '5', 6 => '6', 7 => '7',
        8 => '8', 9 => '9', 10 => 'a', 11 => 'b', 12 => 'c', 13 => 'd', 14 => 'e', _ => 'f',
    }
}

/// Encodes a byte string as lowercase hex, two digits per byte.
pub fn hex_encode(bytes: &Vec<u8>) -> (r: String)
    ensures
        r@ == hex_of_bytes(bytes@),
        r@.len() == 2 * bytes@.len(),
{
    let mut out: Vec<char> = Vec::new();
    let mut i: usize = 0;
    while i < bytes.len()
        invariant
            0 <= i <= bytes@.len(),
            out@ == hex_of_bytes(bytes@.subrange(0, i as int)),
            out@.len() == 2 * i,
        decreases bytes@.len() - i,
    {
        let b = bytes[i];
        let hi = b / 16;
        let lo = b % 16;
        proof {
            let pre = bytes@.subrange(0, i as int);
            let post = bytes@.subrange(0, i + 1);
            assert(post.drop_last() =~= pre);
            assert(post.last() == b);
        }
        out.push(hex_digit_char(hi));
        out.push(hex_digit_char(lo));
        i = i + 1;
    }
    proof {
        assert(bytes@.subrange(0, bytes@.len() as int) =~= bytes@);
    }
    string_from_chars(out)
}

} // verus!
