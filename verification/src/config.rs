//! The fingerprint engine and the config materializer: an order-sensitive
//! fingerprint over the key records, extraction of the fingerprint stored
//! in a previously generated config fragment, and the synchronization plan
//! that lists exactly which files and texts to write.

use vstd::prelude::*;
use vstd::string::*;

use crate::laws::lemma_patched_base_first_line;
use crate::laws::lemma_sync_idempotent;
use crate::outside::b64_encode;
use crate::outside::base64_of;
use crate::outside::is_b64_char;
use crate::outside::is_plain_file_name;
use crate::outside::is_unsafe_name_char;
use crate::outside::sanitize_name;
use crate::outside::sha256_digest;
use crate::outside::sha256_of;
use crate::strutil::contains_seq;
use crate::strutil::is_space;
use crate::strutil::replace_char;
use crate::strutil::split_lines;
use crate::strutil::spec_lines;
use crate::strutil::starts_with;
use crate::strutil::str_contains;
use crate::strutil::str_replace_char;
use crate::strutil::str_starts_with;
use crate::strutil::str_trim;
use crate::strutil::trim_seq;
use crate::types::SshKey;
use crate::types::SshKeyView;
use vstd::utf8::encode_utf8;

verus! {

/// The bytes fed to the digest: `user`, `host` and `key` of each record,
/// in record order, each as its UTF-8 encoding.
pub open spec fn spec_crc_bytes(ks: Seq<SshKeyView>) -> Seq<u8>
    decreases ks.len(),
{
    if ks.len() == 0 {
        Seq::empty()
    } else {
        spec_crc_bytes(ks.drop_last()) + encode_utf8(ks.last().user) + encode_utf8(ks.last().host)
            + encode_utf8(ks.last().key)
    }
}

/// The fingerprint of an ordered record list: the base64 encoding of the
/// SHA-256 digest of `spec_crc_bytes`.
pub open spec fn spec_crc(ks: Seq<SshKeyView>) -> Seq<char> {
    base64_of(sha256_of(spec_crc_bytes(ks)))
}

/// Compute the fingerprint of the given ordered record list: always 44
/// characters of base64 text, none of them whitespace.
pub fn generate_ssh_keys_crc(keys: &Vec<SshKey>) -> (r: String)
    ensures
        r@ == spec_crc(keys.deep_view()),
        r@.len() == 44,
        forall|i: int| 0 <= i < r@.len() ==> is_b64_char(r@[i]) && !is_space(r@[i]),
{
    let n = keys.len();
    let mut data: Vec<u8> = Vec::new();
    let mut i: usize = 0;
    proof {
        assert(keys.deep_view().subrange(0, 0) =~= Seq::<SshKeyView>::empty());
        assert(data@ =~= Seq::<u8>::empty());
    }
    while i < n
        invariant
            i <= n,
            n == keys@.len(),
            keys.deep_view().len() == keys@.len(),
            data@ == spec_crc_bytes(keys.deep_view().subrange(0, i as int)),
        decreases n - i,
    {
        let ghost prefix = keys.deep_view().subrange(0, i as int);
        let ghost prefix1 = keys.deep_view().subrange(0, i + 1);
        proof {
            assert(prefix1.drop_last() =~= prefix);
            assert(prefix1.last() == keys.deep_view()[i as int]);
            assert(keys.deep_view()[i as int] == keys@[i as int].deep_view());
        }
        let k = &keys[i];
        data.extend_from_slice(k.user.as_str().as_bytes());
        data.extend_from_slice(k.host.as_str().as_bytes());
        data.extend_from_slice(k.key.as_str().as_bytes());
        proof {
            assert(data@ =~= spec_crc_bytes(prefix1));
        }
        i = i + 1;
    }
    proof {
        assert(keys.deep_view().subrange(0, n as int) =~= keys.deep_view());
    }
    let digest = sha256_digest(data.as_slice());
    b64_encode(digest.as_slice())
}

/// The fixed prefix of the fragment line that stores the fingerprint.
pub open spec fn crc_prefix() -> Seq<char> {
    "### SSH_AGENT_SYNC_CRC="@
}

/// `s` with every leading repetition of `p` removed.
pub open spec fn strip_prefix_rep(s: Seq<char>, p: Seq<char>) -> Seq<char>
    decreases s.len(),
{
    if p.len() > 0 && starts_with(s, p) {
        strip_prefix_rep(s.skip(p.len() as int), p)
    } else {
        s
    }
}

/// The fingerprint stored in the given lines: the first line that starts
/// with the fixed prefix, with the prefix stripped and the rest trimmed.
pub open spec fn spec_stored_crc_lines(ls: Seq<Seq<char>>) -> Option<Seq<char>>
    decreases ls.len(),
{
    if ls.len() == 0 {
        None
    } else if starts_with(ls[0], crc_prefix()) {
        Some(trim_seq(strip_prefix_rep(ls[0], crc_prefix())))
    } else {
        spec_stored_crc_lines(ls.drop_first())
    }
}

/// The fingerprint stored in a previously generated config fragment, if
/// any line of it starts with the fixed prefix.
pub open spec fn spec_stored_crc(content: Seq<char>) -> Option<Seq<char>> {
    spec_stored_crc_lines(spec_lines(content))
}

/// `line` with every leading repetition of the fixed prefix removed.
fn strip_crc_prefix<'a>(line: &'a str) -> (r: &'a str)
    ensures
        r@ == strip_prefix_rep(line@, crc_prefix()),
{
    let prefix = "### SSH_AGENT_SYNC_CRC=";
    let plen = prefix.unicode_len();
    let mut cur: &str = line;
    if plen == 0 {
        return cur;
    }
    while str_starts_with(cur, prefix)
        invariant
            prefix@ == crc_prefix(),
            plen == prefix@.len(),
            plen > 0,
            strip_prefix_rep(line@, crc_prefix()) == strip_prefix_rep(cur@, crc_prefix()),
        decreases cur@.len(),
    {
        let ghost before = cur@;
        let m = cur.unicode_len();
        cur = cur.substring_char(plen, m);
        proof {
            assert(before.skip(plen as int) =~= before.subrange(plen as int, m as int));
        }
    }
    cur
}

/// Read the fingerprint stored in a previously generated config fragment.
///
/// Scans the fragment's lines for the first one starting with the fixed
/// prefix and returns the prefix-stripped, trimmed remainder; `None` when
/// no line carries the prefix.
pub fn extract_stored_crc(content: &str) -> (r: Option<String>)
    ensures
        match r {
            Some(c) => spec_stored_crc(content@) == Some(c@),
            None => spec_stored_crc(content@) is None,
        },
{
    let lines = split_lines(content);
    let n = lines.len();
    let mut i: usize = 0;
    proof {
        assert(lines.deep_view().subrange(0, n as int) =~= lines.deep_view());
    }
    while i < n
        invariant
            i <= n,
            n == lines@.len(),
            lines.deep_view().len() == n,
            lines.deep_view() == spec_lines(content@),
            spec_stored_crc(content@) == spec_stored_crc_lines(
                lines.deep_view().subrange(i as int, n as int),
            ),
        decreases n - i,
    {
        let ghost tail = lines.deep_view().subrange(i as int, n as int);
        proof {
            assert(tail[0] == lines.deep_view()[i as int]);
            assert(lines.deep_view()[i as int] == lines@[i as int]@);
            assert(tail.drop_first() =~= lines.deep_view().subrange(i + 1, n as int));
        }
        let line: &str = lines[i].as_str();
        if str_starts_with(line, "### SSH_AGENT_SYNC_CRC=") {
            let value = str_trim(strip_crc_prefix(line));
            return Some(String::from_str(value));
        }
        i = i + 1;
    }
    None
}

/// Whether `f` is an acceptable generated file name: it ends in `.pub`,
/// and before that extension holds no filesystem-unsafe character and no
/// dot.
pub open spec fn file_name_ok(f: Seq<char>) -> bool {
    &&& f.len() >= ".pub"@.len()
    &&& f.subrange(f.len() - ".pub"@.len(), f.len() as int) == ".pub"@
    &&& forall|i: int|
        0 <= i < f.len() - ".pub"@.len() ==> !is_unsafe_name_char(#[trigger] f[i]) && f[i] != '.'
}

/// The stem a record's file name is derived from: the alias if present,
/// else the host, with dots and spaces turned into underscores.
pub open spec fn spec_base_name(name: Option<Seq<char>>, host: Seq<char>) -> Seq<char> {
    replace_char(
        replace_char(
            match name {
                Option::Some(n) => n,
                Option::None => host,
            },
            '.',
            '_',
        ),
        ' ',
        '_',
    )
}

/// Derive the generated public-key file name for a record: the alias if
/// present, else the host, with dots and spaces turned into underscores,
/// sanitized for filesystem use, with the `.pub` extension appended.
/// Where the stem is one that the sanitizer keeps on every platform, the
/// name is exactly the stem plus `.pub`.
fn make_file_name(name: &Option<String>, host: &String) -> (r: String)
    ensures
        file_name_ok(r@),
        is_plain_file_name(spec_base_name(name.deep_view(), host@)) ==> r@ == spec_base_name(
            name.deep_view(),
            host@,
        ) + ".pub"@,
{
    let base = match name {
        Some(nm) => nm.clone(),
        None => host.clone(),
    };
    let step1 = str_replace_char(base.as_str(), '.', '_');
    let step2 = str_replace_char(step1.as_str(), ' ', '_');
    proof {
        assert(step2@ == spec_base_name(name.deep_view(), host@));
    }
    let mut fname = sanitize_name(&step2);
    let ghost san = fname@;
    proof {
        assert forall|i: int| 0 <= i < san.len() implies san[i] != '.' by {
            let j = choose|j: int| 0 <= j < step2@.len() && step2@[j] == san[i];
            assert(step2@[j] != '.');
        }
    }
    fname.append(".pub");
    proof {
        assert(fname@.subrange(san.len() as int, fname@.len() as int) =~= ".pub"@);
        if is_plain_file_name(spec_base_name(name.deep_view(), host@)) {
            assert(fname@ =~= spec_base_name(name.deep_view(), host@) + ".pub"@);
        }
    }
    fname
}

/// The single line a record's public-key file holds:
/// `<key_type> <key_material> <user>@<host>`.
pub open spec fn spec_key_file_content(k: SshKeyView) -> Seq<char> {
    k.key_type + " "@ + k.key + " "@ + k.user + "@"@ + k.host
}

/// Build the public-key file line for a record.
pub fn key_file_content(key: &SshKey) -> (r: String)
    ensures
        r@ == spec_key_file_content(key@),
{
    let mut out = String::from_str(key.key_type.as_str());
    out.append(" ");
    out.append(key.key.as_str());
    out.append(" ");
    out.append(key.user.as_str());
    out.append("@");
    out.append(key.host.as_str());
    proof {
        assert(out@ =~= spec_key_file_content(key@));
    }
    out
}

/// The path of a record's key file inside the key-storage directory.
pub open spec fn spec_key_path(folder: Seq<char>, fname: Seq<char>) -> Seq<char> {
    folder + "/"@ + fname
}

/// The `Host` block keyed by the record's bare host.
pub open spec fn spec_host_block(k: SshKeyView, folder: Seq<char>) -> Seq<char> {
    "Host "@ + k.host + "\n"@ + "    User "@ + k.user + "\n"@ + "    IdentityFile "@
        + spec_key_path(folder, k.file_name) + "\n"@ + "    IdentitiesOnly yes\n\n"@
}

/// The `Host` block keyed by the record's alias.
pub open spec fn spec_alias_block(k: SshKeyView, folder: Seq<char>, alias: Seq<char>) -> Seq<
    char,
> {
    "Host "@ + alias + "\n"@ + "    HostName "@ + k.host + "\n"@ + "    User "@ + k.user + "\n"@
        + "    IdentityFile "@ + spec_key_path(folder, k.file_name) + "\n"@
        + "    IdentitiesOnly yes\n\n"@
}

/// A record's config entry: an alias block first where an alias exists,
/// always followed by the bare-host block.
pub open spec fn spec_entry(k: SshKeyView, folder: Seq<char>) -> Seq<char> {
    match k.name {
        Option::Some(alias) => spec_alias_block(k, folder, alias) + spec_host_block(k, folder),
        Option::None => spec_host_block(k, folder),
    }
}

/// The config entries of all records, in order.
pub open spec fn spec_entries(ks: Seq<SshKeyView>, folder: Seq<char>) -> Seq<char>
    decreases ks.len(),
{
    if ks.len() == 0 {
        Seq::empty()
    } else {
        spec_entries(ks.drop_last(), folder) + spec_entry(ks.last(), folder)
    }
}

/// The full generated config fragment: the fingerprint line, a blank
/// line, the catch-all block, then one entry per record.
pub open spec fn spec_fragment(crc: Seq<char>, ks: Seq<SshKeyView>, folder: Seq<char>) -> Seq<
    char,
> {
    crc_prefix() + crc + "\n\n"@ + "Host *\n    IdentitiesOnly yes\n\n"@ + spec_entries(ks, folder)
}

/// Build one record's config entry against the given key folder path.
pub fn create_config_entry(key: &SshKey, key_folder: &str) -> (r: String)
    ensures
        r@ == spec_entry(key@, key_folder@),
{
    let mut out = String::new();
    match &key.name {
        Some(alias) => {
            out.append("Host ");
            out.append(alias.as_str());
            out.append("\n");
            out.append("    HostName ");
            out.append(key.host.as_str());
            out.append("\n");
            out.append("    User ");
            out.append(key.user.as_str());
            out.append("\n");
            out.append("    IdentityFile ");
            out.append(key_folder);
            out.append("/");
            out.append(key.file_name.as_str());
            out.append("\n");
            out.append("    IdentitiesOnly yes\n\n");
            proof {
                assert(out@ =~= spec_alias_block(key@, key_folder@, alias@));
            }
        },
        None => {},
    }
    let ghost head = out@;
    out.append("Host ");
    out.append(key.host.as_str());
    out.append("\n");
    out.append("    User ");
    out.append(key.user.as_str());
    out.append("\n");
    out.append("    IdentityFile ");
    out.append(key_folder);
    out.append("/");
    out.append(key.file_name.as_str());
    out.append("\n");
    out.append("    IdentitiesOnly yes\n\n");
    proof {
        assert(out@ =~= head + spec_host_block(key@, key_folder@));
        assert(out@ =~= spec_entry(key@, key_folder@));
    }
    out
}

/// Whether one of the first 20 lines of `content` contains `inc`.
pub open spec fn spec_has_include(content: Seq<char>, inc: Seq<char>) -> bool {
    exists|i: int|
        0 <= i < spec_lines(content).len() && i < 20 && contains_seq(
            #[trigger] spec_lines(content)[i],
            inc,
        )
}

/// Whether the user's base config still needs the `Include` directive: it
/// does when the base config cannot be read at all, and when none of its
/// first 20 lines contains the trimmed directive.
pub open spec fn spec_base_needs_edit(bc: Option<Seq<char>>, inc: Seq<char>) -> bool {
    match bc {
        Option::None => true,
        Option::Some(c) => !spec_has_include(c, trim_seq(inc)),
    }
}

/// The content of a possibly absent base config file.
pub open spec fn spec_opt_content(bc: Option<Seq<char>>) -> Seq<char> {
    match bc {
        Option::Some(c) => c,
        Option::None => Seq::empty(),
    }
}

/// Scan the first 20 lines of the base config for the trimmed include
/// directive.
pub fn base_config_has_include(content: &str, include_line: &str) -> (r: bool)
    ensures
        r == spec_has_include(content@, trim_seq(include_line@)),
{
    let inc_t = str_trim(include_line);
    let lines = split_lines(content);
    let n = lines.len();
    let limit = if n < 20 {
        n
    } else {
        20
    };
    let mut i: usize = 0;
    while i < limit
        invariant
            i <= limit,
            limit <= n,
            limit == (if n < 20 {
                n as int
            } else {
                20int
            }),
            n == lines@.len(),
            lines.deep_view().len() == n,
            lines.deep_view() == spec_lines(content@),
            inc_t@ == trim_seq(include_line@),
            forall|k: int|
                0 <= k < i ==> !contains_seq(#[trigger] lines.deep_view()[k], inc_t@),
        decreases limit - i,
    {
        proof {
            assert(lines.deep_view()[i as int] == lines@[i as int]@);
        }
        if str_contains(lines[i].as_str(), inc_t) {
            proof {
                assert(0 <= (i as int) && (i as int) < spec_lines(content@).len() && (i as int)
                    < 20 && contains_seq(spec_lines(content@)[i as int], trim_seq(include_line@)));
            }
            return true;
        }
        i = i + 1;
    }
    proof {
        if spec_has_include(content@, trim_seq(include_line@)) {
            let k = choose|k: int|
                0 <= k < spec_lines(content@).len() && k < 20 && contains_seq(
                    #[trigger] spec_lines(content@)[k],
                    trim_seq(include_line@),
                );
            assert(k < i);
            assert(false);
        }
    }
    false
}

/// One public-key file a synchronization run will write: its name inside
/// the key-storage directory and its single-line content.
pub struct KeyFilePlan {
    pub file_name: String,
    pub content: String,
}

/// The mathematical image of a `KeyFilePlan`.
pub struct KeyFilePlanView {
    pub file_name: Seq<char>,
    pub content: Seq<char>,
}

impl View for KeyFilePlan {
    type V = KeyFilePlanView;

    open spec fn view(&self) -> KeyFilePlanView {
        KeyFilePlanView { file_name: self.file_name@, content: self.content@ }
    }
}

impl DeepView for KeyFilePlan {
    type V = KeyFilePlanView;

    open spec fn deep_view(&self) -> KeyFilePlanView {
        self.view()
    }
}

/// Everything a synchronization run writes: the key files, the generated
/// config fragment's text, and the base config's new content where the
/// `Include` directive is still missing.
pub struct SyncWrites {
    pub key_files: Vec<KeyFilePlan>,
    pub config_text: String,
    pub base_config_text: Option<String>,
}

/// The outcome of planning a synchronization run: nothing to do, or the
/// exact writes to perform.
pub enum SyncPlan {
    Unchanged,
    Write(SyncWrites),
}

/// Whether a stored config fragment carries exactly the given fingerprint.
pub open spec fn spec_stored_matches(stored: Option<Seq<char>>, crc: Seq<char>) -> bool {
    match stored {
        Option::Some(c) => spec_stored_crc(c) == Some(crc),
        Option::None => false,
    }
}

/// How a planned record relates to the record it was derived from: all
/// fields carried over unchanged, and an acceptable file name assigned —
/// exactly the dot/space-replaced alias-or-host plus `.pub` where the
/// sanitizer keeps that stem on every platform.
pub open spec fn record_renamed(a: SshKeyView, b: SshKeyView) -> bool {
    &&& b.name == a.name
    &&& b.user == a.user
    &&& b.host == a.host
    &&& b.key_type == a.key_type
    &&& b.key == a.key
    &&& file_name_ok(b.file_name)
    &&& (is_plain_file_name(spec_base_name(a.name, a.host)) ==> b.file_name == spec_base_name(
        a.name,
        a.host,
    ) + ".pub"@)
}

/// Plan one synchronization run.
///
/// Computes the fingerprint of `keys` and compares it with the one stored
/// in the previous fragment: with `force` unset and a matching stored
/// fingerprint the plan is `Unchanged` and nothing is touched. Otherwise
/// every record is assigned its generated file name, and the plan lists
/// each key file with its exact content, the full fragment text, and the
/// base config's new content where its first 20 lines lack the trimmed
/// include directive.
pub fn plan_sync(
    keys: &mut Vec<SshKey>,
    force: bool,
    stored_config: &Option<String>,
    key_folder: &String,
    base_config: &Option<String>,
    include_line: &String,
) -> (r: SyncPlan)
    ensures
        (r is Unchanged) <==> (!force && spec_stored_matches(
            stored_config.deep_view(),
            spec_crc(old(keys).deep_view()),
        )),
        force ==> r is Write,
        r is Unchanged ==> final(keys)@ == old(keys)@,
        r is Write ==> {
            let ks = final(keys).deep_view();
            let ks0 = old(keys).deep_view();
            let w = r->Write_0;
            &&& ks.len() == ks0.len()
            &&& forall|i: int| 0 <= i < ks.len() ==> record_renamed(ks0[i], #[trigger] ks[i])
            &&& w.key_files.deep_view().len() == ks.len()
            &&& forall|i: int|
                0 <= i < ks.len() ==> (#[trigger] w.key_files.deep_view()[i]).file_name
                    == ks[i].file_name && w.key_files.deep_view()[i].content
                    == spec_key_file_content(ks[i])
            &&& w.config_text@ == spec_fragment(spec_crc(ks0), ks, key_folder@)
            &&& spec_stored_crc(w.config_text@) == Some(spec_crc(ks0))
            &&& ((w.base_config_text is Some) <==> spec_base_needs_edit(
                base_config.deep_view(),
                include_line@,
            ))
            &&& (w.base_config_text is Some ==> w.base_config_text->Some_0@ == include_line@
                + "\n\n"@ + spec_opt_content(base_config.deep_view()))
            &&& ((w.base_config_text is Some && (forall|i: int|
                0 <= i < include_line@.len() ==> #[trigger] include_line@[i] != '\n'
                    && include_line@[i] != '\r')) ==> spec_lines(
                w.base_config_text->Some_0@,
            ).len() > 0 && spec_lines(w.base_config_text->Some_0@)[0] == include_line@)
        },
{
    let crc = generate_ssh_keys_crc(keys);
    if !force {
        match stored_config {
            Some(content) => {
                match extract_stored_crc(content.as_str()) {
                    Some(stored) => {
                        if stored == crc {
                            return SyncPlan::Unchanged;
                        }
                    },
                    None => {},
                }
            },
            None => {},
        }
    }
    let n = keys.len();
    let mut named: Vec<SshKey> = Vec::new();
    let mut key_files: Vec<KeyFilePlan> = Vec::new();
    let mut config_text = String::from_str("### SSH_AGENT_SYNC_CRC=");
    config_text.append(crc.as_str());
    config_text.append("\n\n");
    config_text.append("Host *\n    IdentitiesOnly yes\n\n");
    let ghost header = crc_prefix() + crc@ + "\n\n"@ + "Host *\n    IdentitiesOnly yes\n\n"@;
    proof {
        assert(config_text@ =~= header);
        assert(named.deep_view() =~= Seq::<SshKeyView>::empty());
        assert(key_files.deep_view() =~= Seq::<KeyFilePlanView>::empty());
        assert(header + spec_entries(named.deep_view(), key_folder@) =~= header);
    }
    let mut i: usize = 0;
    while i < n
        invariant
            i <= n,
            n == keys@.len(),
            keys@ == old(keys)@,
            keys.deep_view().len() == n,
            named@.len() == i,
            named.deep_view().len() == i,
            key_files.deep_view().len() == i,
            header == crc_prefix() + crc@ + "\n\n"@ + "Host *\n    IdentitiesOnly yes\n\n"@,
            crc@ == spec_crc(old(keys).deep_view()),
            forall|j: int|
                0 <= j < i ==> record_renamed(
                    keys.deep_view()[j],
                    #[trigger] named.deep_view()[j],
                ),
            forall|j: int|
                0 <= j < i ==> (#[trigger] key_files.deep_view()[j]).file_name
                    == named.deep_view()[j].file_name && key_files.deep_view()[j].content
                    == spec_key_file_content(named.deep_view()[j]),
            config_text@ == header + spec_entries(named.deep_view(), key_folder@),
        decreases n - i,
    {
        let k = &keys[i];
        let fname = make_file_name(&k.name, &k.host);
        let rec = SshKey {
            name: match &k.name {
                Some(nm) => Some(nm.clone()),
                None => None,
            },
            user: k.user.clone(),
            host: k.host.clone(),
            key_type: k.key_type.clone(),
            key: k.key.clone(),
            file_name: fname,
        };
        proof {
            assert(keys.deep_view()[i as int] == keys@[i as int].deep_view());
            assert(k.name.deep_view() == keys.deep_view()[i as int].name);
            assert(k.host@ == keys.deep_view()[i as int].host);
            assert(record_renamed(keys.deep_view()[i as int], rec@));
        }
        let ghost recv = rec@;
        let content = key_file_content(&rec);
        let ghost contentv = content@;
        let ghost kprev = key_files.deep_view();
        key_files.push(KeyFilePlan { file_name: rec.file_name.clone(), content });
        let entry = create_config_entry(&rec, key_folder.as_str());
        config_text.append(entry.as_str());
        let ghost prev = named.deep_view();
        named.push(rec);
        proof {
            assert forall|j: int| 0 <= j < i implies #[trigger] named.deep_view()[j]
                == prev[j] by {
                assert(named@[j] == named@.drop_last()[j]);
            }
            assert forall|j: int| 0 <= j < i implies #[trigger] key_files.deep_view()[j]
                == kprev[j] by {
                assert(key_files@[j] == key_files@.drop_last()[j]);
            }
            assert(named.deep_view().drop_last() =~= prev);
            assert(named.deep_view()[i as int] == recv);
            assert(named.deep_view().last() == recv);
            assert(key_files.deep_view()[i as int].file_name == recv.file_name);
            assert(key_files.deep_view()[i as int].content == contentv);
            assert(spec_entries(named.deep_view(), key_folder@) == spec_entries(prev, key_folder@)
                + spec_entry(recv, key_folder@));
            assert(config_text@ =~= header + spec_entries(named.deep_view(), key_folder@));
        }
        i = i + 1;
    }
    proof {
        assert(keys.deep_view().subrange(0, n as int) =~= keys.deep_view());
    }
    let needs_edit = match base_config {
        Some(c) => !base_config_has_include(c.as_str(), include_line.as_str()),
        None => true,
    };
    let base_config_text: Option<String> = if needs_edit {
        let mut t = String::from_str(include_line.as_str());
        t.append("\n\n");
        match base_config {
            Some(c) => t.append(c.as_str()),
            None => {},
        }
        proof {
            assert(t@ =~= include_line@ + "\n\n"@ + spec_opt_content(base_config.deep_view()));
            if forall|i: int|
                0 <= i < include_line@.len() ==> #[trigger] include_line@[i] != '\n'
                    && include_line@[i] != '\r' {
                lemma_patched_base_first_line(
                    include_line@,
                    spec_opt_content(base_config.deep_view()),
                );
            }
        }
        Some(t)
    } else {
        None
    };
    proof {
        lemma_sync_idempotent(crc@, named.deep_view(), key_folder@);
        assert(config_text@ =~= spec_fragment(crc@, named.deep_view(), key_folder@));
    }
    *keys = named;
    SyncPlan::Write(SyncWrites { key_files, config_text, base_config_text })
}

} // verus!
