//! Self-update decisions for the portable build: version comparison,
//! picking the manifest entry, and checking the downloaded binary's
//! minisign signature.

use vstd::prelude::*;
use base64::Engine;
use crate::session::index_of;
use crate::text::{
    join2, same_text, slice_chars, string_of, trim_ws, trim_ws_bounds,
    chars_greater, chars_of, find_first, first_index_of, lemma_trim_start_by, parse_unsigned,
    parse_unsigned_at, split_char, text_greater, trim_start_by,
};

verus! {

/// Each segment parsed as a `u32`; `None` as soon as one does not parse.
pub open spec fn parse_segments(segs: Seq<Seq<char>>) -> Option<Seq<nat>>
    decreases segs.len(),
{
    if segs.len() == 0 {
        Some(Seq::empty())
    } else {
        match (parse_unsigned(segs[0], u32::MAX as nat), parse_segments(segs.drop_first())) {
            (Some(v), Some(vs)) => Some(seq![v] + vs),
            _ => None,
        }
    }
}

/// Dotted numeric components of a version, if every one is a `u32`.
pub open spec fn parse_version(s: Seq<char>) -> Option<Seq<nat>> {
    parse_segments(split_char(s, '.'))
}

/// Lexicographic "greater than" on component lists (a longer list is
/// greater than its own prefix), as `Vec`'s `Ord` compares.
pub open spec fn components_greater(a: Seq<nat>, b: Seq<nat>) -> bool
    decreases a.len(),
{
    if a.len() == 0 {
        false
    } else if b.len() == 0 {
        true
    } else if a[0] != b[0] {
        a[0] > b[0]
    } else {
        components_greater(a.drop_first(), b.drop_first())
    }
}

/// A version string without its leading `v`s.
pub open spec fn strip_v(s: Seq<char>) -> Seq<char> {
    trim_start_by(s, |c: char| c == 'v')
}

/// Whether `remote` names a newer version than `current`: both without
/// their leading `v`s, compared by dotted numeric components when both
/// parse, else compared as text.
pub open spec fn spec_is_newer_version(remote: Seq<char>, current: Seq<char>) -> bool {
    let r = strip_v(remote);
    let c = strip_v(current);
    match (parse_version(r), parse_version(c)) {
        (Some(rv), Some(cv)) => components_greater(rv, cv),
        _ => text_greater(r, c),
    }
}

/// `s` without its leading `v`s.
fn strip_leading_v(s: &str) -> (r: Vec<char>)
    ensures
        r@ == strip_v(s@),
{
    let v = chars_of(s);
    let n = v.len();
    let mut a: usize = 0;
    while a < n && v[a] == 'v'
        invariant
            0 <= a <= n,
            n == v@.len(),
            forall|k: int| 0 <= k < a ==> #[trigger] v@[k] == 'v',
        decreases n - a,
    {
        a = a + 1;
    }
    proof {
        lemma_trim_start_by(v@, |c: char| c == 'v', a as int);
    }
    crate::text::slice_chars(&v, a, n)
}

proof fn lemma_split_step(s: Seq<char>, start: int, j: int)
    requires
        0 <= start <= j < s.len(),
        s[j] == '.',
        forall|k: int| start <= k < j ==> #[trigger] s[k] != '.',
    ensures
        split_char(s.skip(start), '.') == seq![s.subrange(start, j)] + split_char(s.skip(j + 1), '.'),
{
    let t = s.skip(start);
    assert forall|k: int| 0 <= k < j - start implies #[trigger] t[k] != '.' by {
        assert(t[k] == s[k + start]);
    }
    crate::text::lemma_first_index_of(t, '.', j - start);
    assert(t.take(j - start) =~= s.subrange(start, j));
    assert(t.skip(j - start + 1) =~= s.skip(j + 1));
}

proof fn lemma_split_last(s: Seq<char>, start: int)
    requires
        0 <= start <= s.len(),
        forall|k: int| start <= k < s.len() ==> #[trigger] s[k] != '.',
    ensures
        split_char(s.skip(start), '.') == seq![s.skip(start)],
{
    let t = s.skip(start);
    assert forall|k: int| 0 <= k < t.len() implies #[trigger] t[k] != '.' by {
        assert(t[k] == s[k + start]);
    }
    crate::text::lemma_first_index_of(t, '.', t.len() as int);
}

/// Dotted numeric components of `v`, if each is a `u32`.
fn version_components(v: &Vec<char>) -> (r: Option<Vec<u32>>)
    ensures
        match parse_version(v@) {
            Some(cs) => r is Some && r->0@.len() == cs.len() && forall|k: int|
                0 <= k < cs.len() ==> (#[trigger] r->0@[k]) as nat == cs[k],
            None => r is None,
        },
{
    let n = v.len();
    let mut out: Vec<u32> = Vec::new();
    let mut start: usize = 0;
    let ghost done: Seq<nat> = Seq::empty();
    assert(v@.skip(0) =~= v@);
    loop
        invariant
            0 <= start <= n,
            n == v@.len(),
            out@.len() == done.len(),
            forall|k: int| 0 <= k < done.len() ==> (#[trigger] out@[k]) as nat == done[k],
            parse_version(v@) == (match parse_segments(split_char(v@.skip(start as int), '.')) {
                Some(vs) => Some(done + vs),
                None => None::<Seq<nat>>,
            }),
        decreases n - start,
    {
        let dot = find_first(v, start, n, '.');
        let end = match dot {
            Some(j) => j,
            None => n,
        };
        proof {
            if dot is Some {
                let t = v@.subrange(start as int, n as int);
                crate::text::lemma_first_index_of_found(t, '.');
                assert(t[end - start] == v@[end as int]);
                assert forall|k: int| start <= k < end implies #[trigger] v@[k] != '.' by {
                    assert(t[k - start] == v@[k]);
                }
                lemma_split_step(v@, start as int, end as int);
            } else {
                assert forall|k: int| start <= k < n implies #[trigger] v@[k] != '.' by {
                    let t = v@.subrange(start as int, n as int);
                    crate::text::lemma_first_index_of_none(t, '.');
                    assert(t[k - start] == v@[k]);
                }
                lemma_split_last(v@, start as int);
                assert(v@.skip(start as int) =~= v@.subrange(start as int, n as int));
            }
        }
        let ghost seg = v@.subrange(start as int, end as int);
        let ghost rest = if dot is Some {
            split_char(v@.skip(end + 1), '.')
        } else {
            Seq::<Seq<char>>::empty()
        };
        assert(split_char(v@.skip(start as int), '.') =~= seq![seg] + rest);
        assert((seq![seg] + rest).drop_first() =~= rest);
        match parse_unsigned_at(v, start, end, 0xffff_ffff) {
            None => {
                return None;
            },
            Some(x) => {
                let xv: u32 = x as u32;
                out.push(xv);
                proof {
                    done = done.push(x as nat);
                }
                match dot {
                    None => {
                        assert(parse_segments(rest) == Some(Seq::<nat>::empty()));
                        assert(done.drop_last() + seq![x as nat] =~= done);
                        return Some(out);
                    },
                    Some(j) => {
                        assert forall|vs: Seq<nat>| true implies done.drop_last() + (seq![x as nat]
                            + vs) =~= done + vs by {}
                        start = j + 1;
                    },
                }
            },
        }
    }
}

fn components_after(a: &Vec<u32>, b: &Vec<u32>, ghost_a: Ghost<Seq<nat>>, ghost_b: Ghost<Seq<nat>>) -> (r: bool)
    requires
        a@.len() == ghost_a@.len(),
        b@.len() == ghost_b@.len(),
        forall|k: int| 0 <= k < a@.len() ==> (#[trigger] a@[k]) as nat == ghost_a@[k],
        forall|k: int| 0 <= k < b@.len() ==> (#[trigger] b@[k]) as nat == ghost_b@[k],
    ensures
        r == components_greater(ghost_a@, ghost_b@),
{
    let ghost ga = ghost_a@;
    let ghost gb = ghost_b@;
    let mut k: usize = 0;
    assert(ga.skip(0) =~= ga);
    assert(gb.skip(0) =~= gb);
    while k < a.len() && k < b.len()
        invariant
            0 <= k <= a@.len(),
            k <= b@.len(),
            ga == ghost_a@,
            gb == ghost_b@,
            a@.len() == ga.len(),
            b@.len() == gb.len(),
            forall|j: int| 0 <= j < a@.len() ==> (#[trigger] a@[j]) as nat == ga[j],
            forall|j: int| 0 <= j < b@.len() ==> (#[trigger] b@[j]) as nat == gb[j],
            components_greater(ga, gb) == components_greater(ga.skip(k as int), gb.skip(k as int)),
        decreases a@.len() - k,
    {
        assert(ga.skip(k as int)[0] == ga[k as int]);
        assert(gb.skip(k as int)[0] == gb[k as int]);
        assert(a@[k as int] as nat == ga[k as int]);
        assert(b@[k as int] as nat == gb[k as int]);
        let x = a[k];
        let y = b[k];
        if x != y {
            assert(ga.skip(k as int).len() > 0 && gb.skip(k as int).len() > 0);
            assert(components_greater(ga.skip(k as int), gb.skip(k as int)) == (ga[k as int]
                > gb[k as int]));
            assert((x > y) == (ga[k as int] > gb[k as int]));
            return x > y;
        }
        assert(ga.skip(k as int).drop_first() =~= ga.skip(k + 1));
        assert(gb.skip(k as int).drop_first() =~= gb.skip(k + 1));
        k = k + 1;
    }
    k < a.len()
}

/// Whether the manifest's `remote` version is newer than `current`.
///
/// Leading `v`s are ignored; dotted numeric components are compared in
/// order when both versions parse, and the two strings are compared as
/// text otherwise, so an unusual version string never hides an upgrade.
pub fn is_newer_version(remote: &str, current: &str) -> (r: bool)
    ensures
        r == spec_is_newer_version(remote@, current@),
{
    let r = strip_leading_v(remote);
    let c = strip_leading_v(current);
    let rv = version_components(&r);
    let cv = version_components(&c);
    match (rv, cv) {
        (Some(a), Some(b)) => {
            let ghost ga = parse_version(r@)->0;
            let ghost gb = parse_version(c@)->0;
            components_after(&a, &b, Ghost(ga), Ghost(gb))
        },
        _ => chars_greater(&r, &c),
    }
}

#[verifier::external_type_specification]
#[verifier::external_body]
pub struct ExReqwestError(reqwest::Error);

#[verifier::external_type_specification]
#[verifier::external_body]
pub struct ExPublicKey(minisign_verify::PublicKey);

#[verifier::external_type_specification]
#[verifier::external_body]
pub struct ExSignature(minisign_verify::Signature);

/// Platform key of the portable build in the update manifest.
pub const PLATFORM_KEY: &'static str = "windows-x86_64-portable";

#[derive(Debug)]
pub enum UpdaterError {
    Network(reqwest::Error),
    Parse(serde_json::Error),
    Io(std::io::Error),
    NoPlatform(&'static str),
    BadPubkey,
    BadSignature,
    BadSignatureFormat,
    NoParentDir,
    EmptyDownload,
}

/// The display text of an HTTP client error (its `Display`).
#[verifier::external_body]
fn network_error_text(e: &reqwest::Error) -> String {
    format!("{e}")
}

impl UpdaterError {
    pub open spec fn wraps_outside(&self) -> bool {
        self is Network || self is Parse || self is Io
    }

    /// The message; for a wrapped outside error, the prefix put before that
    /// error's own text.
    pub open spec fn spec_message(&self) -> Seq<char> {
        match self {
            UpdaterError::Network(_) => "network: "@,
            UpdaterError::Parse(_) => "manifest parse: "@,
            UpdaterError::Io(_) => "io: "@,
            UpdaterError::NoPlatform(k) => "manifest has no entry for "@ + k@,
            UpdaterError::BadPubkey => "pubkey embedded in binary is malformed"@,
            UpdaterError::BadSignature => "signature on downloaded exe is invalid"@,
            UpdaterError::BadSignatureFormat => "invalid signature format from server"@,
            UpdaterError::NoParentDir => "current exe path has no parent directory"@,
            UpdaterError::EmptyDownload => "downloaded file is empty"@,
        }
    }

    /// The message shown to the user.
    pub fn message(&self) -> (r: String)
        ensures
            !self.wraps_outside() ==> r@ == self.spec_message(),
            r@.take(self.spec_message().len() as int) == self.spec_message(),
    {
        let r = match self {
            UpdaterError::Network(e) => join2("network: ", network_error_text(e).as_str()),
            UpdaterError::Parse(e) => join2("manifest parse: ", crate::error::json_error_text(e).as_str()),
            UpdaterError::Io(e) => join2("io: ", crate::error::io_error_text(e).as_str()),
            UpdaterError::NoPlatform(k) => join2("manifest has no entry for ", k),
            UpdaterError::BadPubkey => "pubkey embedded in binary is malformed".to_owned(),
            UpdaterError::BadSignature => "signature on downloaded exe is invalid".to_owned(),
            UpdaterError::BadSignatureFormat => "invalid signature format from server".to_owned(),
            UpdaterError::NoParentDir => "current exe path has no parent directory".to_owned(),
            UpdaterError::EmptyDownload => "downloaded file is empty".to_owned(),
        };
        assert(r@.take(self.spec_message().len() as int) =~= self.spec_message());
        r
    }
}

/// One platform's download in the update manifest.
pub struct PlatformEntry {
    pub signature: String,
    pub url: String,
}

/// The update manifest (`latest.json`), with the platform table as
/// key/entry pairs.
pub struct Manifest {
    pub version: String,
    pub notes: String,
    pub pub_date: String,
    pub platforms: Vec<(String, PlatformEntry)>,
}

/// What the UI is shown of an available update.
pub struct PortableUpdateInfo {
    pub version: String,
    pub notes: String,
    pub pub_date: String,
}

/// What applying an update needs: the shown facts plus the download URL
/// and signature, which stay in the backend.
pub struct PortableUpdatePlan {
    pub info: PortableUpdateInfo,
    pub url: String,
    pub signature: String,
}

pub open spec fn platform_keys(p: Seq<(String, PlatformEntry)>) -> Seq<Seq<char>> {
    p.map_values(|e: (String, PlatformEntry)| e.0@)
}

/// The update to offer for `manifest` when running version `current`:
/// none when the manifest's version is not newer; otherwise its entry for
/// the portable build (the first with that key; when keys are unique, as
/// in the manifest's JSON object, the only one), which must exist.
#[verifier::loop_isolation(false)]
pub fn plan_update(manifest: Manifest, current: &str) -> (r: Result<Option<PortableUpdatePlan>, UpdaterError>)
    ensures
        !spec_is_newer_version(manifest.version@, current@) ==> r matches Ok(None),
        spec_is_newer_version(manifest.version@, current@) ==> ({
            let i = index_of(platform_keys(manifest.platforms@), PLATFORM_KEY@);
            &&& i < 0 ==> (r matches Err(UpdaterError::NoPlatform(k)) && k@ == PLATFORM_KEY@)
            &&& i >= 0 ==> (r matches Ok(Some(p)) && p.info.version@ == manifest.version@
                && p.info.notes@ == manifest.notes@ && p.info.pub_date@ == manifest.pub_date@
                && p.url@ == manifest.platforms@[i].1.url@ && p.signature@
                == manifest.platforms@[i].1.signature@)
        }),
        platform_keys(manifest.platforms@).no_duplicates() ==> (r matches Ok(Some(p)) ==> forall|j: int|
            0 <= j < manifest.platforms@.len() && #[trigger] platform_keys(manifest.platforms@)[j]
                == PLATFORM_KEY@ ==> p.url@ == manifest.platforms@[j].1.url@ && p.signature@
                == manifest.platforms@[j].1.signature@),
{
    if !is_newer_version(manifest.version.as_str(), current) {
        return Ok(None);
    }
    let Manifest { version, notes, pub_date, platforms } = manifest;
    let ghost keys = platform_keys(platforms@);
    let mut k: usize = 0;
    while k < platforms.len()
        invariant
            0 <= k <= platforms@.len(),
            keys == platform_keys(platforms@),
            keys.len() == platforms@.len(),
            forall|j: int| 0 <= j < k ==> #[trigger] keys[j] != PLATFORM_KEY@,
        decreases platforms@.len() - k,
    {
        if same_text(platforms[k].0.as_str(), PLATFORM_KEY) {
            proof {
                assert(keys[k as int] == platforms@[k as int].0@);
                crate::session::lemma_index_of(keys, PLATFORM_KEY@, k as int);
            }
            let entry = &platforms[k].1;
            return Ok(
                Some(
                    PortableUpdatePlan {
                        info: PortableUpdateInfo { version, notes, pub_date },
                        url: entry.url.clone(),
                        signature: entry.signature.clone(),
                    },
                ),
            );
        }
        assert(keys[k as int] == platforms@[k as int].0@);
        k = k + 1;
    }
    proof {
        crate::session::lemma_index_of(keys, PLATFORM_KEY@, k as int);
    }
    Err(UpdaterError::NoPlatform(PLATFORM_KEY))
}

/// A download that produced no bytes is refused.
pub fn check_download(downloaded: u64) -> (r: Result<(), UpdaterError>)
    ensures
        downloaded == 0 ==> r matches Err(UpdaterError::EmptyDownload),
        downloaded > 0 ==> r is Ok,
{
    if downloaded == 0 {
        Err(UpdaterError::EmptyDownload)
    } else {
        Ok(())
    }
}

/// What the standard base64 engine of the `base64` crate decodes `text`
/// to (`None` when it refuses the text).
pub uninterp spec fn base64_standard_decode(text: Seq<char>) -> Option<Seq<u8>>;

/// Whether minisign-verify's `PublicKey::decode` accepts `text`.
pub uninterp spec fn minisign_key_decodes(text: Seq<char>) -> bool;

/// Whether minisign-verify's `Signature::decode` accepts `text`.
pub uninterp spec fn minisign_signature_decodes(text: Seq<char>) -> bool;

/// Decodes standard base64 (`base64::engine::general_purpose::STANDARD.decode`);
/// the contract only ties the result to `base64_standard_decode`.
#[verifier::external_body]
fn base64_decode(text: &str) -> (r: Option<Vec<u8>>)
    ensures
        match r {
            Some(v) => base64_standard_decode(text@) == Some(v@),
            None => base64_standard_decode(text@) is None,
        },
{
    match base64::engine::general_purpose::STANDARD.decode(text) {
        Ok(v) => Some(v),
        Err(_) => None,
    }
}

/// UTF-8 decoding (`std::str::from_utf8`): text exactly when the bytes are
/// valid UTF-8, and then the characters they encode.
#[verifier::external_body]
fn utf8_text(bytes: &[u8]) -> (r: Option<&str>)
    ensures
        r is Some <==> vstd::utf8::valid_utf8(bytes@),
        r matches Some(s) ==> s@ == vstd::utf8::decode_utf8(bytes@),
{
    match std::str::from_utf8(bytes) {
        Ok(s) => Some(s),
        Err(_) => None,
    }
}

/// Parses a minisign public key file (`PublicKey::decode`); `Some`
/// exactly when `minisign_key_decodes` holds. The key itself is opaque.
#[verifier::external_body]
fn minisign_public_key(text: &str) -> (r: Option<minisign_verify::PublicKey>)
    ensures
        r is Some <==> minisign_key_decodes(text@),
{
    match minisign_verify::PublicKey::decode(text) {
        Ok(k) => Some(k),
        Err(_) => None,
    }
}

/// Parses a minisign signature file (`Signature::decode`); `Some` exactly
/// when `minisign_signature_decodes` holds. The signature is opaque.
#[verifier::external_body]
fn minisign_signature(text: &str) -> (r: Option<minisign_verify::Signature>)
    ensures
        r is Some <==> minisign_signature_decodes(text@),
{
    match minisign_verify::Signature::decode(text) {
        Ok(s) => Some(s),
        Err(_) => None,
    }
}

/// Whether minisign-verify accepts `data` under the public key file text
/// `key` and the signature file text `sig`: both decode
/// (`PublicKey::decode`, `Signature::decode`) and `PublicKey::verify`,
/// with legacy signatures refused, returns `Ok`.
pub uninterp spec fn minisign_accepts(key: Seq<char>, sig: Seq<char>, data: Seq<u8>) -> bool;

/// Decodes the key and signature texts and checks `data` against them
/// (`PublicKey::decode`, `Signature::decode`, `PublicKey::verify` with
/// legacy signatures refused); the answer is `minisign_accepts`.
#[verifier::external_body]
fn minisign_check(key_text: &str, sig_text: &str, data: &[u8]) -> (r: bool)
    ensures
        r == minisign_accepts(key_text@, sig_text@, data@),
{
    match (minisign_verify::PublicKey::decode(key_text), minisign_verify::Signature::decode(sig_text)) {
        (Ok(key), Ok(signature)) => key.verify(data, &signature, false).is_ok(),
        _ => false,
    }
}

/// Trimmed text of `s`.
fn trimmed(s: &str) -> (r: String)
    ensures
        r@ == trim_ws(s@),
{
    let v = crate::text::chars_of(s);
    let (a, b) = trim_ws_bounds(&v);
    string_of(&slice_chars(&v, a, b))
}

/// The minisign text inside a base64 envelope (the form the signer tool
/// writes): the trimmed envelope decoded as base64, then as UTF-8, then
/// trimmed when `trim_inner`; `None` when a step fails.
pub open spec fn envelope_inner(outer: Seq<char>, trim_inner: bool) -> Option<Seq<char>> {
    match base64_standard_decode(trim_ws(outer)) {
        None => None,
        Some(b) => if vstd::utf8::valid_utf8(b) {
            let inner = vstd::utf8::decode_utf8(b);
            Some(
                if trim_inner {
                    trim_ws(inner)
                } else {
                    inner
                },
            )
        } else {
            None
        },
    }
}

/// Whether a base64 envelope around minisign text decodes and the inner
/// text is accepted as a public key (`key`) or as a signature.
pub open spec fn envelope_ok(outer: Seq<char>, trim_inner: bool, key: bool) -> bool {
    match envelope_inner(outer, trim_inner) {
        None => false,
        Some(t) => if key {
            minisign_key_decodes(t)
        } else {
            minisign_signature_decodes(t)
        },
    }
}

/// The minisign text inside the envelope `outer`, as `envelope_inner`
/// says.
fn envelope_text(outer: &str, trim_inner: bool) -> (r: Option<String>)
    ensures
        match r {
            Some(t) => envelope_inner(outer@, trim_inner) == Some(t@),
            None => envelope_inner(outer@, trim_inner) is None,
        },
{
    let t = trimmed(outer);
    let inner = match base64_decode(t.as_str()) {
        Some(b) => b,
        None => {
            return None;
        },
    };
    let text = match utf8_text(inner.as_slice()) {
        Some(s) => s,
        None => {
            return None;
        },
    };
    if trim_inner {
        Some(trimmed(text))
    } else {
        Some(text.to_owned())
    }
}

/// The public key inside its base64 envelope: base64, then UTF-8, then
/// the trimmed minisign key text; any failure is `BadPubkey`.
pub fn decode_pubkey(wrapped: &str) -> (r: Result<minisign_verify::PublicKey, UpdaterError>)
    ensures
        r is Ok <==> envelope_ok(wrapped@, true, true),
        r matches Err(e) ==> e is BadPubkey,
{
    let text = match envelope_text(wrapped, true) {
        Some(t) => t,
        None => {
            return Err(UpdaterError::BadPubkey);
        },
    };
    match minisign_public_key(text.as_str()) {
        Some(k) => Ok(k),
        None => Err(UpdaterError::BadPubkey),
    }
}

/// Verifies a downloaded binary against the signature from the manifest,
/// with the embedded public key; `data` is the result of reading the
/// downloaded file. The key failing to decode is `BadPubkey`; the
/// signature envelope or text failing to decode is `BadSignatureFormat`;
/// then a failed read is its I/O error; otherwise the binary is accepted
/// exactly when minisign accepts it under the two inner texts, else
/// `BadSignature`.
pub fn verify_signature(
    pubkey_wrapped: &str,
    signature_wrapped: &str,
    data: Result<Vec<u8>, std::io::Error>,
) -> (r: Result<(), UpdaterError>)
    ensures
        !envelope_ok(pubkey_wrapped@, true, true) ==> r matches Err(UpdaterError::BadPubkey),
        envelope_ok(pubkey_wrapped@, true, true) && !envelope_ok(signature_wrapped@, false, false)
            ==> r matches Err(UpdaterError::BadSignatureFormat),
        envelope_ok(pubkey_wrapped@, true, true) && envelope_ok(signature_wrapped@, false, false) ==> (
        match data {
            Err(e) => r == Err::<(), UpdaterError>(UpdaterError::Io(e)),
            Ok(bytes) => (r is Ok || r matches Err(UpdaterError::BadSignature)) && (r is Ok
                <==> minisign_accepts(
                envelope_inner(pubkey_wrapped@, true).unwrap(),
                envelope_inner(signature_wrapped@, false).unwrap(),
                bytes@,
            )),
        }),
{
    let key_text = match envelope_text(pubkey_wrapped, true) {
        Some(t) => t,
        None => {
            return Err(UpdaterError::BadPubkey);
        },
    };
    if minisign_public_key(key_text.as_str()).is_none() {
        return Err(UpdaterError::BadPubkey);
    }
    let sig_text = match envelope_text(signature_wrapped, false) {
        Some(t) => t,
        None => {
            return Err(UpdaterError::BadSignatureFormat);
        },
    };
    if minisign_signature(sig_text.as_str()).is_none() {
        return Err(UpdaterError::BadSignatureFormat);
    }
    let bytes = match data {
        Ok(b) => b,
        Err(e) => {
            return Err(UpdaterError::Io(e));
        },
    };
    if minisign_check(key_text.as_str(), sig_text.as_str(), bytes.as_slice()) {
        Ok(())
    } else {
        Err(UpdaterError::BadSignature)
    }
}

impl PortableUpdatePlan {
    pub fn copy(&self) -> (r: PortableUpdatePlan)
        ensures
            r.info.version@ == self.info.version@,
            r.info.notes@ == self.info.notes@,
            r.info.pub_date@ == self.info.pub_date@,
            r.url@ == self.url@,
            r.signature@ == self.signature@,
    {
        PortableUpdatePlan {
            info: PortableUpdateInfo {
                version: self.info.version.clone(),
                notes: self.info.notes.clone(),
                pub_date: self.info.pub_date.clone(),
            },
            url: self.url.clone(),
            signature: self.signature.clone(),
        }
    }
}

/// What the UI gets back from an update check, the same for both
/// deployment forms; `form` is `installed` or `portable`.
pub struct UpdateAvailable {
    pub version: String,
    pub notes: String,
    pub pub_date: String,
    pub form: &'static str,
}

/// The update offered to the UI for a portable-build plan.
pub fn portable_update_available(plan: &PortableUpdatePlan) -> (r: UpdateAvailable)
    ensures
        r.version@ == plan.info.version@,
        r.notes@ == plan.info.notes@,
        r.pub_date@ == plan.info.pub_date@,
        r.form@ == "portable"@,
{
    UpdateAvailable {
        version: plan.info.version.clone(),
        notes: plan.info.notes.clone(),
        pub_date: plan.info.pub_date.clone(),
        form: "portable",
    }
}

/// The update offered to the UI for the installed build, from what the
/// updater plugin reports: missing notes and date become empty.
pub fn installed_update_available(version: String, body: Option<String>, date: Option<String>) -> (r: UpdateAvailable)
    ensures
        r.version == version,
        body matches Some(b) ==> r.notes == b,
        body is None ==> r.notes@ == Seq::<char>::empty(),
        date matches Some(d) ==> r.pub_date == d,
        date is None ==> r.pub_date@ == Seq::<char>::empty(),
        r.form@ == "installed"@,
{
    UpdateAvailable {
        version,
        notes: match body {
            Some(b) => b,
            None => String::new(),
        },
        pub_date: match date {
            Some(d) => d,
            None => String::new(),
        },
        form: "installed",
    }
}

/// The update found by the last check, held until the user applies it
/// (the host keeps it behind a lock).
pub struct PendingUpdate(pub Option<PortableUpdatePlan>);

impl Default for PendingUpdate {
    fn default() -> (r: PendingUpdate)
        ensures
            r.0 is None,
    {
        PendingUpdate(None)
    }
}

impl PendingUpdate {
    /// Keeps the plan of the latest check.
    pub fn store(&mut self, plan: PortableUpdatePlan)
        ensures
            final(self).0 == Some(plan),
    {
        self.0 = Some(plan);
    }

    /// A copy of the plan to apply, or the error shown when no check has
    /// found one.
    pub fn plan(&self) -> (r: Result<PortableUpdatePlan, String>)
        ensures
            self.0 is None ==> (r matches Err(m) && m@ == "no pending update; call check_update first"@),
            self.0 matches Some(p) ==> (r matches Ok(q) && q.url@ == p.url@ && q.signature@
                == p.signature@ && q.info.version@ == p.info.version@ && q.info.notes@ == p.info.notes@
                && q.info.pub_date@ == p.info.pub_date@),
    {
        match &self.0 {
            Some(p) => Ok(p.copy()),
            None => Err("no pending update; call check_update first".to_owned()),
        }
    }
}

} // verus!
