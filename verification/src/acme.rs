//! ACME (Let's Encrypt) support: where the cached certificate lives, when
//! it is due for renewal, and the answers to HTTP-01 challenges.
use vstd::prelude::*;

use crate::compat::{assoc_get, StrMap};
use crate::paths::{join_path, join_path_chars};
use crate::text::{chars_of, contains, contains_chars, starts_with, starts_with_chars, string_of, sub_chars};

verus! {

/// The certificate and key files of a provisioned certificate.
pub struct AcmeCertificate {
    pub cert_path: String,
    pub key_path: String,
}

/// The files of the certificate cached in `cache_dir`: `cert.pem` and
/// `key.pem` there.
pub fn cached_certificate_paths(cache_dir: &str) -> (r: AcmeCertificate)
    ensures
        r.cert_path@ == join_path(cache_dir@, "cert.pem"@),
        r.key_path@ == join_path(cache_dir@, "key.pem"@),
{
    let d = chars_of(cache_dir);
    let c = chars_of("cert.pem");
    let k = chars_of("key.pem");
    let cp = join_path_chars(d.as_slice(), c.as_slice());
    let kp = join_path_chars(d.as_slice(), k.as_slice());
    AcmeCertificate { cert_path: string_of(cp.as_slice()), key_path: string_of(kp.as_slice()) }
}

/// Let's Encrypt certificates live 90 days; one older than 60 days is
/// renewed.  An unknown age (no file, no modification time) renews.
pub fn renewal_due(age_secs: Option<u64>) -> (r: bool)
    ensures
        r == match age_secs {
            Some(a) => a > 60 * 24 * 3600,
            None => true,
        },
{
    match age_secs {
        Some(a) => a > 60 * 24 * 3600,
        None => true,
    }
}

/// The DER bytes of the certificates that `rustls_pemfile::certs` reads
/// from a PEM text, in order, sections it cannot read left out.
pub uninterp spec fn pem_certificates(pem: Seq<char>) -> Seq<Seq<u8>>;

/// `rustls_pemfile::certs` over the text: the DER bytes of each
/// certificate section it reads without error.
#[verifier::external_body]
fn pem_certs(pem: &str) -> (r: Vec<Vec<u8>>)
    ensures
        r@.map_values(|c: Vec<u8>| c@) == pem_certificates(pem@),
{
    let mut reader = std::io::BufReader::new(pem.as_bytes());
    rustls_pemfile::certs(&mut reader).filter_map(|c| c.ok()).map(|c| c.as_ref().to_vec()).collect()
}

/// A cached certificate is usable when its PEM text names a certificate
/// and at least one certificate section reads.
pub open spec fn cert_valid(pem: Seq<char>) -> bool {
    contains(pem, "BEGIN CERTIFICATE"@) && pem_certificates(pem).len() > 0
}

/// Whether a cached certificate's PEM text is usable.
pub fn is_cert_valid(cert_pem: &str) -> (r: bool)
    ensures
        r == cert_valid(cert_pem@),
{
    let c = chars_of(cert_pem);
    let m = chars_of("BEGIN CERTIFICATE");
    if !contains_chars(c.as_slice(), m.as_slice()) {
        return false;
    }
    let certs = pem_certs(cert_pem);
    assert(certs@.map_values(|c: Vec<u8>| c@).len() == certs@.len());
    certs.len() > 0
}

/// The path prefix of HTTP-01 challenges.
pub const CHALLENGE_PREFIX: &'static str = "/.well-known/acme-challenge/";

/// The token a challenge path names: the rest after the prefix, when it
/// is not empty and holds no `/`.
pub open spec fn challenge_token(path: Seq<char>) -> Option<Seq<char>> {
    if starts_with(path, CHALLENGE_PREFIX@) {
        let t = path.skip(CHALLENGE_PREFIX@.len() as int);
        if t.len() > 0 && !t.contains('/') {
            Some(t)
        } else {
            None
        }
    } else {
        None
    }
}

fn has_char(s: &[char], c: char) -> (r: bool)
    ensures
        r == s@.contains(c),
{
    let mut i: usize = 0;
    while i < s.len()
        invariant
            i <= s@.len(),
            forall|j: int| 0 <= j < i ==> s@[j] != c,
        decreases s.len() - i,
    {
        if s[i] == c {
            assert(s@[i as int] == c);
            return true;
        }
        i = i + 1;
    }
    false
}

/// Answers an HTTP-01 challenge: the key authorization stored for the
/// token the path names, if any.
pub fn handle_challenge_request(path: &str, tokens: &StrMap) -> (r: Option<String>)
    ensures
        match challenge_token(path@) {
            Some(t) => match r {
                Some(v) => assoc_get(tokens@, t) == Some(v@),
                None => assoc_get(tokens@, t) is None,
            },
            None => r is None,
        },
{
    let p = chars_of(path);
    let pre = chars_of(CHALLENGE_PREFIX);
    if !starts_with_chars(p.as_slice(), pre.as_slice()) {
        return None;
    }
    let t = sub_chars(p.as_slice(), pre.len(), p.len());
    assert(t@ =~= path@.skip(CHALLENGE_PREFIX@.len() as int));
    if t.len() == 0 {
        return None;
    }
    if has_char(t.as_slice(), '/') {
        return None;
    }
    let ts = string_of(t.as_slice());
    match tokens.get(ts.as_str()) {
        Some(v) => Some(v.clone()),
        None => None,
    }
}

// ───────────────────────────── provisioning ─────────────────────────────

/// The ACME directory: Let's Encrypt's staging or production server.
pub fn directory_url(staging: bool) -> (r: &'static str)
    ensures
        r@ == (if staging {
            "https://acme-staging-v02.api.letsencrypt.org/directory"@
        } else {
            "https://acme-v02.api.letsencrypt.org/directory"@
        }),
{
    if staging {
        "https://acme-staging-v02.api.letsencrypt.org/directory"
    } else {
        "https://acme-v02.api.letsencrypt.org/directory"
    }
}

/// The contact of a new ACME account: `mailto:` and the e-mail address,
/// or none.
pub fn account_contact(email: Option<&str>) -> (r: Vec<String>)
    ensures
        crate::config::str_views(r@) == match crate::text::opt_str(email) {
            Some(e) => seq!["mailto:"@ + e],
            None => Seq::<Seq<char>>::empty(),
        },
{
    let mut r: Vec<String> = Vec::new();
    if let Some(e) = email {
        let mut v: Vec<char> = Vec::new();
        crate::text::push_str(&mut v, "mailto:");
        crate::text::push_str(&mut v, e);
        r.push(string_of(v.as_slice()));
        assert(crate::config::str_views(r@) =~= seq!["mailto:"@ + e@]);
    } else {
        assert(crate::config::str_views(r@) =~= Seq::<Seq<char>>::empty());
    }
    r
}

/// The state of an authorization, as the ACME server reports it.
#[derive(Debug, Clone, Copy, PartialEq, Eq, Structural)]
pub enum AuthorizationState {
    Pending,
    Valid,
    Invalid,
    Revoked,
    Expired,
}

/// What is done with an authorization.
#[derive(Debug, Clone, Copy, PartialEq, Eq, Structural)]
pub enum AuthorizationStep {
    /// Answer its HTTP-01 challenge.
    Answer,
    /// Already valid: nothing to do.
    Skip,
    /// Give up: the authorization can no longer succeed.
    Fail,
}

/// A pending authorization is answered, a valid one skipped, any other
/// ends the provisioning.
pub fn authorization_step(s: AuthorizationState) -> (r: AuthorizationStep)
    ensures
        r == match s {
            AuthorizationState::Pending => AuthorizationStep::Answer,
            AuthorizationState::Valid => AuthorizationStep::Skip,
            _ => AuthorizationStep::Fail,
        },
{
    match s {
        AuthorizationState::Pending => AuthorizationStep::Answer,
        AuthorizationState::Valid => AuthorizationStep::Skip,
        _ => AuthorizationStep::Fail,
    }
}

/// The state of an order, as the ACME server reports it.
#[derive(Debug, Clone, Copy, PartialEq, Eq, Structural)]
pub enum OrderState {
    Pending,
    Ready,
    Processing,
    Valid,
    Invalid,
}

/// What one poll of an order whose challenges were answered leads to.
#[derive(Debug, Clone, Copy, PartialEq, Eq, Structural)]
pub enum ChallengePoll {
    /// The challenges are verified: finalize the order.
    Finalize,
    /// Verification failed.
    Invalid,
    /// Poll again, with this many polls so far.
    Again(u32),
    /// Thirty polls without a verdict.
    TimedOut,
}

/// A poll while the challenges are verified: ready or valid finalizes,
/// invalid fails, anything else polls again, at most 30 times.
pub open spec fn challenge_poll_of(s: OrderState, tries: u32) -> ChallengePoll {
    match s {
        OrderState::Ready => ChallengePoll::Finalize,
        OrderState::Valid => ChallengePoll::Finalize,
        OrderState::Invalid => ChallengePoll::Invalid,
        _ => if tries + 1 > 30 {
            ChallengePoll::TimedOut
        } else {
            ChallengePoll::Again((tries + 1) as u32)
        },
    }
}

/// Decides one poll of the challenge verification.
pub fn challenge_poll(s: OrderState, tries: u32) -> (r: ChallengePoll)
    ensures
        r == challenge_poll_of(s, tries),
{
    match s {
        OrderState::Ready => ChallengePoll::Finalize,
        OrderState::Valid => ChallengePoll::Finalize,
        OrderState::Invalid => ChallengePoll::Invalid,
        _ => {
            if tries >= 30 {
                ChallengePoll::TimedOut
            } else {
                ChallengePoll::Again(tries + 1)
            }
        },
    }
}

/// What one poll of a finalized order leads to.
#[derive(Debug, Clone, Copy, PartialEq, Eq, Structural)]
pub enum CertificatePoll {
    /// The certificate is issued: download it.
    Download,
    /// Issuance failed.
    Invalid,
    /// Poll again.
    Again,
}

/// A poll after finalizing: valid downloads, invalid fails, anything
/// else polls again.
pub fn certificate_poll(s: OrderState) -> (r: CertificatePoll)
    ensures
        r == match s {
            OrderState::Valid => CertificatePoll::Download,
            OrderState::Invalid => CertificatePoll::Invalid,
            _ => CertificatePoll::Again,
        },
{
    match s {
        OrderState::Valid => CertificatePoll::Download,
        OrderState::Invalid => CertificatePoll::Invalid,
        _ => CertificatePoll::Again,
    }
}

/// The file the ACME account credentials are kept in.
pub fn account_path(cache_dir: &str) -> (r: String)
    ensures
        r@ == join_path(cache_dir@, "account.json"@),
{
    let d = chars_of(cache_dir);
    let a = chars_of("account.json");
    let p = join_path_chars(d.as_slice(), a.as_slice());
    string_of(p.as_slice())
}

/// Why a build without an ACME client cannot provision, and where a
/// certificate can be placed by hand.
pub open spec fn unavailable_text(cache_dir: Seq<char>) -> Seq<char> {
    "ACME provisioning requires the 'acme' feature. Rebuild with: cargo build --features acme\nOr manually place cert.pem and key.pem in "@
        + cache_dir
}

/// The error of provisioning in a build without an ACME client.
pub fn provisioning_unavailable(cache_dir: &str) -> (r: String)
    ensures
        r@ == unavailable_text(cache_dir@),
{
    let mut v: Vec<char> = Vec::new();
    crate::text::push_str(
        &mut v,
        "ACME provisioning requires the 'acme' feature. Rebuild with: cargo build --features acme\nOr manually place cert.pem and key.pem in ",
    );
    crate::text::push_str(&mut v, cache_dir);
    string_of(v.as_slice())
}

} // verus!
