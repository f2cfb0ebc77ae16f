//! Trusted wrappers around the outside crates that the pipeline calls:
//! base64 encoding, SHA-256 digesting, file-name sanitizing and home
//! directory lookup. Each wrapper's contract states what the outside
//! crate's source shows, and nothing more.

use vstd::prelude::*;
use vstd::utf8::encode_utf8;

use crate::strutil::is_space;

verus! {

/// The text that base64's standard engine produces for the given bytes: a
/// pure function of the bytes alone.
pub uninterp spec fn base64_of(data: Seq<u8>) -> Seq<char>;

/// The SHA-256 digest of the given bytes: a pure function of the bytes
/// alone.
pub uninterp spec fn sha256_of(data: Seq<u8>) -> Seq<u8>;

/// Whether `c` belongs to the standard base64 alphabet, `=` padding
/// included (RFC 4648).
pub open spec fn is_b64_char(c: char) -> bool {
    ||| 'A' as u32 <= c as u32 && c as u32 <= 'Z' as u32
    ||| 'a' as u32 <= c as u32 && c as u32 <= 'z' as u32
    ||| '0' as u32 <= c as u32 && c as u32 <= '9' as u32
    ||| c == '+'
    ||| c == '/'
    ||| c == '='
}

/// Relies on base64's `Engine::encode` with the `STANDARD` engine: the
/// result is a function of the input bytes alone, uses only the standard
/// alphabet with `=` padding (none of whose characters is whitespace),
/// and is four characters for every started group of three input bytes.
/// The engine panics when the encoded length overflows `usize`, so that
/// input is excluded.
#[verifier::external_body]
pub(crate) fn b64_encode(data: &[u8]) -> (r: String)
    requires
        (data@.len() + 2) / 3 * 4 <= usize::MAX,
    ensures
        r@ == base64_of(data@),
        r@.len() == (data@.len() + 2) / 3 * 4,
        forall|i: int| 0 <= i < r@.len() ==> is_b64_char(r@[i]) && !is_space(r@[i]),
{
    base64::engine::Engine::encode(&base64::engine::general_purpose::STANDARD, data)
}

/// Relies on sha2's `Digest::digest` for `Sha256`: the digest is a
/// function of the input bytes alone and is exactly 32 bytes long.
#[verifier::external_body]
pub(crate) fn sha256_digest(data: &[u8]) -> (r: Vec<u8>)
    ensures
        r@ == sha256_of(data@),
        r@.len() == 32,
{
    <sha2::Sha256 as sha2::Digest>::digest(data).to_vec()
}

/// Whether `c` is a character that `sanitize_filename::sanitize` removes
/// on every platform: path separators and other characters illegal in file
/// names, and control characters.
pub open spec fn is_unsafe_name_char(c: char) -> bool {
    ||| c == '/'
    ||| c == '?'
    ||| c == '<'
    ||| c == '>'
    ||| c == '\\'
    ||| c == ':'
    ||| c == '*'
    ||| c == '|'
    ||| c == '"'
    ||| c as u32 <= 0x1f
    ||| 0x80 <= c as u32 && c as u32 <= 0x9f
}

/// Whether `c` equals the (ASCII lowercase) letter `lower`, ignoring
/// ASCII case.
pub open spec fn ci_is(c: char, lower: char) -> bool {
    c == lower || (c as u32) + 32 == lower as u32
}

/// Whether `c` is an ASCII decimal digit.
pub open spec fn is_ascii_digit(c: char) -> bool {
    '0' as u32 <= c as u32 && c as u32 <= '9' as u32
}

/// Whether `s` spells one of the Windows reserved device names, ignoring
/// ASCII case: `con`, `prn`, `aux`, `nul`, `com0`..`com9`, `lpt0`..`lpt9`.
pub open spec fn is_reserved_stem(s: Seq<char>) -> bool {
    ||| (s.len() == 3 && ci_is(s[0], 'c') && ci_is(s[1], 'o') && ci_is(s[2], 'n'))
    ||| (s.len() == 3 && ci_is(s[0], 'p') && ci_is(s[1], 'r') && ci_is(s[2], 'n'))
    ||| (s.len() == 3 && ci_is(s[0], 'a') && ci_is(s[1], 'u') && ci_is(s[2], 'x'))
    ||| (s.len() == 3 && ci_is(s[0], 'n') && ci_is(s[1], 'u') && ci_is(s[2], 'l'))
    ||| (s.len() == 4 && ci_is(s[0], 'c') && ci_is(s[1], 'o') && ci_is(s[2], 'm') && is_ascii_digit(
        s[3],
    ))
    ||| (s.len() == 4 && ci_is(s[0], 'l') && ci_is(s[1], 'p') && ci_is(s[2], 't') && is_ascii_digit(
        s[3],
    ))
}

/// Whether `s` matches the Windows reserved-name pattern that
/// `sanitize_filename` checks: a reserved device name, alone or followed
/// directly by a dot and anything.
pub open spec fn is_windows_reserved(s: Seq<char>) -> bool {
    ||| is_reserved_stem(s)
    ||| (s.len() > 3 && s[3] == '.' && is_reserved_stem(s.subrange(0, 3)))
    ||| (s.len() > 4 && s[4] == '.' && is_reserved_stem(s.subrange(0, 4)))
}

/// Whether `sanitize_filename::sanitize` returns `s` unchanged on every
/// platform: no illegal or control character, at most 255 bytes, not a
/// non-empty run of dots alone, not a Windows reserved name, and no
/// trailing dot or space.
pub open spec fn is_plain_file_name(s: Seq<char>) -> bool {
    &&& forall|i: int| 0 <= i < s.len() ==> !is_unsafe_name_char(#[trigger] s[i])
    &&& encode_utf8(s).len() <= 255
    &&& !(s.len() > 0 && (forall|i: int| 0 <= i < s.len() ==> #[trigger] s[i] == '.'))
    &&& !is_windows_reserved(s)
    &&& (s.len() > 0 ==> s.last() != '.' && s.last() != ' ')
}

/// Relies on `sanitize_filename::sanitize`: on every platform it removes
/// the characters matched by its illegal-character and control-character
/// patterns and truncates the result to at most 255 bytes; its patterns
/// only ever delete, so every character of the result occurs in the
/// input; and an input that none of its patterns matches — on either
/// platform branch — is returned unchanged. Its deletion of
/// Windows-reserved names and trailing dots or spaces depends on the
/// platform, so nothing more is stated of inputs those patterns match.
#[verifier::external_body]
pub(crate) fn sanitize_name(s: &String) -> (r: String)
    ensures
        forall|i: int| 0 <= i < r@.len() ==> !is_unsafe_name_char(r@[i]),
        encode_utf8(r@).len() <= 255,
        forall|i: int| 0 <= i < r@.len() ==> s@.contains(#[trigger] r@[i]),
        is_plain_file_name(s@) ==> r@ == s@,
{
    sanitize_filename::sanitize(s.as_str())
}

/// Relies on `dirs::home_dir`: the platform's home directory, if one can
/// be determined; converted to a `String` where it is valid UTF-8. Nothing
/// is promised of the outcome, which depends on the environment.
#[verifier::external_body]
pub(crate) fn home_dir_string() -> (r: Option<String>) {
    dirs::home_dir().and_then(|p| p.to_str().map(|s| s.to_string()))
}

} // verus!
