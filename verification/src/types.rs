use vstd::prelude::*;

verus! {

/// One identity as reported by a running SSH agent: a binary public-key
/// blob and a free-text comment.
pub struct RawIdentity {
    pub blob: Vec<u8>,
    pub comment: String,
}

/// The mathematical image of a `RawIdentity`: the blob's bytes and the
/// comment's characters.
pub struct RawIdentityView {
    pub blob: Seq<u8>,
    pub comment: Seq<char>,
}

impl View for RawIdentity {
    type V = RawIdentityView;

    open spec fn view(&self) -> RawIdentityView {
        RawIdentityView { blob: self.blob@, comment: self.comment@ }
    }
}

impl DeepView for RawIdentity {
    type V = RawIdentityView;

    open spec fn deep_view(&self) -> RawIdentityView {
        self.view()
    }
}

impl RawIdentity {
    pub fn new(blob: Vec<u8>, comment: String) -> (r: RawIdentity)
        ensures
            r@.blob == blob@,
            r@.comment == comment@,
    {
        RawIdentity { blob, comment }
    }
}

/// A normalized key record derived from one agent identity.
///
/// `name` is the optional alias taken from a bracketed display name in the
/// comment; `user` and `host` come from the `user@host` portion; `key_type`
/// is the textual algorithm tag read from the blob; `key` is the base64
/// encoding of the whole blob; `file_name` is empty until a synchronization
/// plan assigns the generated public-key file name.
#[derive(Debug, Clone, PartialEq, Eq)]
pub struct SshKey {
    pub name: Option<String>,
    pub user: String,
    pub host: String,
    pub key_type: String,
    pub key: String,
    pub file_name: String,
}

/// The mathematical image of an `SshKey`: every field as a character
/// sequence.
pub struct SshKeyView {
    pub name: Option<Seq<char>>,
    pub user: Seq<char>,
    pub host: Seq<char>,
    pub key_type: Seq<char>,
    pub key: Seq<char>,
    pub file_name: Seq<char>,
}

impl View for SshKey {
    type V = SshKeyView;

    open spec fn view(&self) -> SshKeyView {
        SshKeyView {
            name: match self.name {
                Some(n) => Some(n@),
                None => None,
            },
            user: self.user@,
            host: self.host@,
            key_type: self.key_type@,
            key: self.key@,
            file_name: self.file_name@,
        }
    }
}

impl DeepView for SshKey {
    type V = SshKeyView;

    open spec fn deep_view(&self) -> SshKeyView {
        self.view()
    }
}

} // verus!
