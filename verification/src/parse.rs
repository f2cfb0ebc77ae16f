//! The comment parser and the blob type extractor: an agent identity's
//! free-text comment yields `(user, host, optional alias)` or is rejected,
//! and its binary blob yields the textual key-type tag or is rejected.

use vstd::prelude::*;
use vstd::string::*;
use vstd::utf8::{decode_utf8, valid_utf8};

use crate::strutil::count_char;
use crate::strutil::find_char;
use crate::strutil::has_space;
use crate::strutil::lemma_count_char_zero;
use crate::strutil::lemma_find_char;
use crate::strutil::replace_char;
use crate::strutil::str_count_char;
use crate::strutil::str_find_char;
use crate::strutil::str_has_space;
use crate::strutil::str_replace_char;
use crate::strutil::str_trim;
use crate::strutil::trim_seq;

verus! {

/// The text strictly between the first `<` and the first `>`, provided the
/// `>` comes after the `<` and at least one character stands between them.
pub open spec fn spec_chevron_inner(s: Seq<char>) -> Option<Seq<char>> {
    let i = find_char(s, '<');
    let j = find_char(s, '>');
    if i < 0 || j < 0 {
        None
    } else if j <= i + 1 {
        None
    } else {
        Some(s.subrange(i + 1, j))
    }
}

/// Whether `uh` is a well-formed `user@host` portion: exactly one `@`, no
/// whitespace anywhere, and non-empty text on both sides of the `@`.
pub open spec fn spec_user_host_ok(uh: Seq<char>) -> bool {
    &&& count_char(uh, '@') == 1
    &&& !has_space(uh)
    &&& 0 < find_char(uh, '@')
    &&& find_char(uh, '@') < uh.len() - 1
}

/// The text before the (single) `@`.
pub open spec fn spec_user_of(uh: Seq<char>) -> Seq<char> {
    uh.subrange(0, find_char(uh, '@'))
}

/// The text after the (single) `@`.
pub open spec fn spec_host_of(uh: Seq<char>) -> Seq<char> {
    uh.subrange(find_char(uh, '@') + 1, uh.len() as int)
}

/// What parsing a comment yields: `(user, host, optional alias)`, or `None`
/// for a rejected comment.
///
/// A comment without brackets is trimmed and must be a well-formed
/// `user@host` portion. A comment with a bracket character must hold
/// exactly one `<` and one `>`, with non-empty text between them that forms
/// the `user@host` portion; the text before the `<`, trimmed and with
/// spaces turned into underscores, becomes the alias.
pub open spec fn spec_parse_comment(s: Seq<char>) -> Option<
    (Seq<char>, Seq<char>, Option<Seq<char>>),
> {
    if count_char(s, '<') > 0 || count_char(s, '>') > 0 {
        if count_char(s, '<') != 1 || count_char(s, '>') != 1 {
            None
        } else {
            match spec_chevron_inner(s) {
                Option::None => None,
                Option::Some(uh) => if spec_user_host_ok(uh) {
                    Some(
                        (
                            spec_user_of(uh),
                            spec_host_of(uh),
                            Some(replace_char(trim_seq(s.subrange(0, find_char(s, '<'))), ' ', '_')),
                        ),
                    )
                } else {
                    None
                },
            }
        }
    } else {
        let uh = trim_seq(s);
        if spec_user_host_ok(uh) {
            Some((spec_user_of(uh), spec_host_of(uh), None))
        } else {
            None
        }
    }
}

/// Extract the text enclosed in `<` and `>` from the given string, if both
/// chevrons are present in order with text between them.
pub fn extract_chevron_text<'a>(s: &'a str) -> (r: Option<&'a str>)
    ensures
        match r {
            Some(t) => spec_chevron_inner(s@) == Some(t@),
            None => spec_chevron_inner(s@) is None,
        },
{
    let i = match str_find_char(s, '<') {
        Some(i) => i,
        None => {
            return None;
        },
    };
    let j = match str_find_char(s, '>') {
        Some(j) => j,
        None => {
            return None;
        },
    };
    if j <= i || j - i == 1 {
        return None;
    }
    Some(s.substring_char(i + 1, j))
}

/// Parse an SSH identity comment into `(user, host, optional alias)`.
///
/// Returns `None` when the comment is not identity-shaped: unbalanced or
/// misordered brackets, not exactly one `@`, whitespace inside the
/// `user@host` portion, or an empty user or host.
pub fn process_ssh_comment(comment: &str) -> (r: Option<(String, String, Option<String>)>)
    ensures
        match r {
            Some(t) => spec_parse_comment(comment@) == Some((t.0@, t.1@, t.2.deep_view())),
            None => spec_parse_comment(comment@) is None,
        },
{
    let n_lt = str_count_char(comment, '<');
    let n_gt = str_count_char(comment, '>');
    let mut name: Option<String> = None;
    let user_host: &str;
    if n_lt > 0 || n_gt > 0 {
        if n_lt != 1 || n_gt != 1 {
            return None;
        }
        user_host = match extract_chevron_text(comment) {
            Some(t) => t,
            None => {
                return None;
            },
        };
        let idx = match str_find_char(comment, '<') {
            Some(i) => i,
            None => {
                proof {
                    lemma_find_char(comment@, '<');
                    lemma_count_char_zero(comment@, '<');
                }
                return None;
            },
        };
        name = Some(str_replace_char(str_trim(comment.substring_char(0, idx)), ' ', '_'));
    } else {
        user_host = str_trim(comment);
    }
    if str_count_char(user_host, '@') != 1 {
        return None;
    }
    if str_has_space(user_host) {
        return None;
    }
    let at = match str_find_char(user_host, '@') {
        Some(a) => a,
        None => {
            proof {
                lemma_find_char(user_host@, '@');
                lemma_count_char_zero(user_host@, '@');
            }
            return None;
        },
    };
    let m = user_host.unicode_len();
    if at == 0 || at + 1 == m {
        return None;
    }
    let user = String::from_str(user_host.substring_char(0, at));
    let host = String::from_str(user_host.substring_char(at + 1, m));
    Some((user, host, name))
}

/// The length declared by the blob's first four bytes, read big-endian.
pub open spec fn spec_blob_len(b: Seq<u8>) -> int {
    b[0] * 0x100_0000 + b[1] * 0x1_0000 + b[2] * 0x100 + b[3]
}

/// What extracting the key type from a blob yields: the UTF-8 decoding of
/// the `spec_blob_len(b)` bytes after the length prefix, or `None` for a
/// short blob or invalid UTF-8.
pub open spec fn spec_key_type(b: Seq<u8>) -> Option<Seq<char>> {
    if b.len() < 4 {
        None
    } else if b.len() < 4 + spec_blob_len(b) {
        None
    } else if !valid_utf8(b.subrange(4, 4 + spec_blob_len(b))) {
        None
    } else {
        Some(decode_utf8(b.subrange(4, 4 + spec_blob_len(b))))
    }
}

/// Relies on `std::str::from_utf8`: succeeds exactly on valid UTF-8 and
/// yields its decoding, as modeled by vstd's `valid_utf8` / `decode_utf8`.
#[verifier::external_body]
fn utf8_to_string(bytes: &[u8]) -> (r: Option<String>)
    ensures
        r is Some <==> valid_utf8(bytes@),
        r is Some ==> r->Some_0@ == decode_utf8(bytes@),
{
    match std::str::from_utf8(bytes) {
        Ok(s) => Some(s.to_string()),
        Err(_) => None,
    }
}

/// Extract the SSH key type tag from an SSH public key blob.
///
/// The blob starts with a big-endian `u32` length followed by that many
/// bytes of UTF-8 text naming the algorithm (e.g. `ssh-rsa`). Returns
/// `None` for a blob shorter than its declared prefix or for text that is
/// not valid UTF-8.
pub fn get_ssh_key_type(blob: &[u8]) -> (r: Option<String>)
    ensures
        match r {
            Some(t) => spec_key_type(blob@) == Some(t@),
            None => spec_key_type(blob@) is None,
        },
{
    if blob.len() < 4 {
        return None;
    }
    let b0 = *vstd::slice::slice_index_get(blob, 0);
    let b1 = *vstd::slice::slice_index_get(blob, 1);
    let b2 = *vstd::slice::slice_index_get(blob, 2);
    let b3 = *vstd::slice::slice_index_get(blob, 3);
    let len: usize = (b0 as usize) * 0x100_0000 + (b1 as usize) * 0x1_0000 + (b2 as usize) * 0x100
        + (b3 as usize);
    if len > blob.len() - 4 {
        return None;
    }
    let payload = vstd::slice::slice_subrange(blob, 4, 4 + len);
    utf8_to_string(payload)
}

} // verus!
