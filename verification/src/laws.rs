//! Laws of the library, each proved once and for all: determinism of the
//! fingerprint, idempotence of synchronization against a fragment the
//! library itself wrote, the comment parser's acceptance and rejection
//! conditions, and the shape of a patched base config.

use vstd::prelude::*;

use crate::config::crc_prefix;
use crate::config::spec_crc;
use crate::config::spec_crc_bytes;
use crate::config::spec_fragment;
use crate::config::spec_stored_crc;
use crate::config::spec_stored_crc_lines;
use crate::config::spec_stored_matches;
use crate::config::strip_prefix_rep;
use crate::outside::is_b64_char;
use crate::parse::spec_host_of;
use crate::parse::spec_parse_comment;
use crate::parse::spec_user_host_ok;
use crate::parse::spec_user_of;
use crate::strutil::count_char;
use crate::strutil::find_char;
use crate::strutil::has_space;
use crate::strutil::is_space;
use crate::strutil::lemma_count_char_zero;
use crate::strutil::lemma_find_char;
use crate::strutil::lemma_find_char_at;
use crate::strutil::lemma_trim_nospace;
use crate::strutil::spec_lines;
use crate::strutil::starts_with;
use crate::strutil::strip_cr;
use crate::strutil::trim_seq;
use crate::types::SshKeyView;

verus! {

/// Law: fingerprinting is deterministic. Two record lists of the same
/// length whose `user`, `host` and `key` fields agree pointwise yield the
/// same fingerprint, whatever their other fields hold.
pub proof fn lemma_fingerprint_deterministic(a: Seq<SshKeyView>, b: Seq<SshKeyView>)
    requires
        a.len() == b.len(),
        forall|i: int|
            0 <= i < a.len() ==> (#[trigger] a[i]).user == b[i].user && a[i].host == b[i].host
                && a[i].key == b[i].key,
    ensures
        spec_crc(a) == spec_crc(b),
{
    lemma_crc_bytes_deterministic(a, b);
}

pub proof fn lemma_crc_bytes_deterministic(a: Seq<SshKeyView>, b: Seq<SshKeyView>)
    requires
        a.len() == b.len(),
        forall|i: int|
            0 <= i < a.len() ==> (#[trigger] a[i]).user == b[i].user && a[i].host == b[i].host
                && a[i].key == b[i].key,
    ensures
        spec_crc_bytes(a) == spec_crc_bytes(b),
    decreases a.len(),
{
    if a.len() > 0 {
        assert(forall|i: int|
            0 <= i < a.drop_last().len() ==> #[trigger] a.drop_last()[i] == a[i]);
        assert(forall|i: int|
            0 <= i < b.drop_last().len() ==> #[trigger] b.drop_last()[i] == b[i]);
        lemma_crc_bytes_deterministic(a.drop_last(), b.drop_last());
        assert(a.last() == a[a.len() - 1]);
        assert(b.last() == b[b.len() - 1]);
    }
}

/// Law: synchronization is idempotent against its own output. A fragment
/// written with fingerprint `crc` stores exactly `crc`, so a repeated run
/// over an unchanged record set, handed that fragment and `force` unset,
/// finds a matching stored fingerprint and plans no writes.
///
/// The hypothesis is exactly what `generate_ssh_keys_crc` ensures of
/// every fingerprint it returns, so `plan_sync` discharges it and carries
/// this round trip in its own `ensures`.
pub proof fn lemma_sync_idempotent(crc: Seq<char>, ks: Seq<SshKeyView>, folder: Seq<char>)
    requires
        forall|i: int| 0 <= i < crc.len() ==> is_b64_char(#[trigger] crc[i]) && !is_space(crc[i]),
    ensures
        spec_stored_crc(spec_fragment(crc, ks, folder)) == Some(crc),
        spec_stored_matches(Some(spec_fragment(crc, ks, folder)), crc),
{
    reveal_strlit("### SSH_AGENT_SYNC_CRC=");
    reveal_strlit("\n\n");
    reveal_strlit("Host *\n    IdentitiesOnly yes\n\n");
    let p = crc_prefix();
    let plen = p.len() as int;
    assert(plen == 23);
    let frag = spec_fragment(crc, ks, folder);
    let head = plen + crc.len();
    assert(forall|k: int| 0 <= k < plen ==> p[k] != '\n');
    assert(frag[head] == '\n');
    assert forall|k: int| 0 <= k < head implies frag[k] != '\n' by {
        if k < plen {
            assert(frag[k] == p[k]);
        } else {
            assert(frag[k] == crc[k - plen]);
            assert(is_b64_char(crc[k - plen]));
        }
    }
    lemma_find_char_at(frag, '\n', head);
    let line0 = frag.subrange(0, head);
    assert(line0 =~= p + crc);
    assert(line0.last() != '\r') by {
        if crc.len() > 0 {
            assert(line0.last() == crc[crc.len() - 1]);
        } else {
            assert(line0.last() == p[plen - 1]);
        }
    }
    assert(strip_cr(line0) == line0);
    let ls = spec_lines(frag);
    assert(ls[0] == line0);
    assert(starts_with(line0, p)) by {
        assert(line0.subrange(0, plen) =~= p);
    }
    assert(strip_prefix_rep(line0, p) == strip_prefix_rep(crc, p)) by {
        assert(line0.skip(plen) =~= crc);
    }
    assert(strip_prefix_rep(crc, p) == crc) by {
        if starts_with(crc, p) {
            assert(crc.subrange(0, plen)[0] == crc[0]);
            assert(crc[0] == p[0]);
            assert(is_b64_char(crc[0]));
            assert(p[0] == '#');
            assert(false);
        }
    }
    assert(trim_seq(crc) == crc) by {
        if has_space(crc) {
            let k = choose|k: int| 0 <= k < crc.len() && is_space(crc[k]);
            assert(is_b64_char(crc[k]));
            assert(false);
        }
        lemma_trim_nospace(crc);
    }
    assert(spec_stored_crc_lines(ls) == Some(crc));
}

/// Law: a comment with no bracket characters, no whitespace, exactly one
/// `@`, and non-empty text on both sides of it parses to exactly that
/// split, with no alias.
pub proof fn lemma_parse_plain_comment(s: Seq<char>)
    requires
        count_char(s, '<') == 0,
        count_char(s, '>') == 0,
        !has_space(s),
        count_char(s, '@') == 1,
        0 < find_char(s, '@'),
        find_char(s, '@') < s.len() - 1,
    ensures
        spec_parse_comment(s) == Some((spec_user_of(s), spec_host_of(s), None::<Seq<char>>)),
{
    lemma_trim_nospace(s);
}

/// Law: a `user@host` portion that holds more or fewer than one `@`, or
/// any whitespace, is not well-formed, so the identity is rejected.
pub proof fn lemma_user_host_rejects(uh: Seq<char>)
    requires
        count_char(uh, '@') != 1 || has_space(uh),
    ensures
        !spec_user_host_ok(uh),
{
}

/// Law: a comment holding a bracket character without exactly one `<` and
/// exactly one `>` is rejected.
pub proof fn lemma_reject_unbalanced_brackets(s: Seq<char>)
    requires
        count_char(s, '<') > 0 || count_char(s, '>') > 0,
        count_char(s, '<') != 1 || count_char(s, '>') != 1,
    ensures
        spec_parse_comment(s) is None,
{
}

/// Law: a comment whose single `>` does not stand at least two places
/// after its single `<` is rejected.
pub proof fn lemma_reject_misordered_brackets(s: Seq<char>)
    requires
        count_char(s, '<') == 1,
        count_char(s, '>') == 1,
        find_char(s, '>') <= find_char(s, '<') + 1,
    ensures
        spec_parse_comment(s) is None,
{
    lemma_find_char(s, '<');
    lemma_count_char_zero(s, '<');
    lemma_find_char(s, '>');
    lemma_count_char_zero(s, '>');
}

/// Law: patching a base config puts the include directive on the first
/// line and keeps the prior content below the blank line. The directive
/// itself must hold no line-break character.
pub proof fn lemma_patched_base_first_line(inc: Seq<char>, old_content: Seq<char>)
    requires
        forall|i: int| 0 <= i < inc.len() ==> #[trigger] inc[i] != '\n' && inc[i] != '\r',
    ensures
        spec_lines(inc + "\n\n"@ + old_content).len() > 0,
        spec_lines(inc + "\n\n"@ + old_content)[0] == inc,
        (inc + "\n\n"@ + old_content).skip(inc.len() as int + 2) == old_content,
{
    reveal_strlit("\n\n");
    let t = inc + "\n\n"@ + old_content;
    assert(t[inc.len() as int] == '\n');
    assert forall|k: int| 0 <= k < inc.len() implies t[k] != '\n' by {
        assert(t[k] == inc[k]);
    }
    lemma_find_char_at(t, '\n', inc.len() as int);
    let line0 = t.subrange(0, inc.len() as int);
    assert(line0 =~= inc);
    assert(strip_cr(line0) == line0) by {
        if line0.len() > 0 {
            assert(line0.last() == inc[inc.len() - 1]);
        }
    }
    assert(t.skip(inc.len() as int + 2) =~= old_content);
}

} // verus!
