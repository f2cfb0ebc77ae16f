//! The key normalizer: turns the agent's raw identities into the ordered
//! list of key records that pass both the comment parser and the blob type
//! extractor, preserving the agent's reported order.

use vstd::prelude::*;
use vstd::string::*;

use crate::outside::b64_encode;
use crate::outside::base64_of;
use crate::parse::get_ssh_key_type;
use crate::parse::process_ssh_comment;
use crate::parse::spec_key_type;
use crate::parse::spec_parse_comment;
use crate::types::RawIdentity;
use crate::types::RawIdentityView;
use crate::types::SshKey;
use crate::types::SshKeyView;

verus! {

/// The record one identity normalizes to, or `None` when its comment or
/// its blob is rejected.
pub open spec fn spec_accept(id: RawIdentityView) -> Option<SshKeyView> {
    match spec_parse_comment(id.comment) {
        Option::None => None,
        Option::Some(t) => match spec_key_type(id.blob) {
            Option::None => None,
            Option::Some(kt) => Some(
                SshKeyView {
                    name: t.2,
                    user: t.0,
                    host: t.1,
                    key_type: kt,
                    key: base64_of(id.blob),
                    file_name: Seq::empty(),
                },
            ),
        },
    }
}

/// The ordered records of the identities that normalize, in the agent's
/// reported order.
pub open spec fn spec_normalize(ids: Seq<RawIdentityView>) -> Seq<SshKeyView>
    decreases ids.len(),
{
    if ids.len() == 0 {
        Seq::empty()
    } else {
        spec_normalize(ids.drop_last()) + (match spec_accept(ids.last()) {
            Option::Some(k) => seq![k],
            Option::None => Seq::empty(),
        })
    }
}

/// Normalize the agent's raw identities into key records.
///
/// Each identity is processed independently: one whose comment or blob is
/// rejected is dropped with no effect on the others. The records keep the
/// agent's reported order, and their `file_name` fields are left empty.
pub fn collect_ssh_keys(ids: &Vec<RawIdentity>) -> (r: Vec<SshKey>)
    requires
        forall|i: int| 0 <= i < ids@.len() ==> (#[trigger] ids@[i].blob@.len() + 2) / 3 * 4
            <= usize::MAX,
    ensures
        r.deep_view() == spec_normalize(ids.deep_view()),
{
    let n = ids.len();
    let mut out: Vec<SshKey> = Vec::new();
    let mut i: usize = 0;
    proof {
        assert(ids.deep_view().subrange(0, 0) =~= Seq::<RawIdentityView>::empty());
        assert(out.deep_view() =~= Seq::<SshKeyView>::empty());
    }
    while i < n
        invariant
            i <= n,
            n == ids@.len(),
            ids.deep_view().len() == ids@.len(),
            forall|k: int| 0 <= k < ids@.len() ==> (#[trigger] ids@[k].blob@.len() + 2) / 3 * 4
                <= usize::MAX,
            out.deep_view() == spec_normalize(ids.deep_view().subrange(0, i as int)),
        decreases n - i,
    {
        let ghost prefix = ids.deep_view().subrange(0, i as int);
        let ghost prefix1 = ids.deep_view().subrange(0, i + 1);
        proof {
            assert(prefix1.drop_last() =~= prefix);
            assert(prefix1.last() == ids.deep_view()[i as int]);
            assert(ids.deep_view()[i as int] == ids@[i as int].deep_view());
        }
        let id = &ids[i];
        let mut accepted = false;
        match process_ssh_comment(id.comment.as_str()) {
            Some(parsed) => {
                match get_ssh_key_type(id.blob.as_slice()) {
                    Some(key_type) => {
                        let key = b64_encode(id.blob.as_slice());
                        let (user, host, name) = parsed;
                        let record = SshKey {
                            name,
                            user,
                            host,
                            key_type,
                            key,
                            file_name: String::new(),
                        };
                        proof {
                            assert(spec_accept(id@) == Some(record@));
                        }
                        out.push(record);
                        accepted = true;
                        proof {
                            assert(out.deep_view() =~= spec_normalize(prefix) + seq![record@]);
                            assert(out.deep_view() == spec_normalize(prefix1));
                        }
                    },
                    None => {},
                }
            },
            None => {},
        }
        proof {
            if !accepted {
                assert(spec_accept(id@) is None);
                assert(spec_normalize(prefix1) =~= spec_normalize(prefix));
            }
        }
        i = i + 1;
    }
    proof {
        assert(ids.deep_view().subrange(0, n as int) =~= ids.deep_view());
    }
    out
}

} // verus!
