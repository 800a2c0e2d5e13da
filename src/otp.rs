use vstd::prelude::*;
use crate::text::{parse_unsigned, parse_unsigned_text, same_text};

verus! {

/// The hash function that a credential's codes are generated with.
#[derive(Clone, Copy, Debug, PartialEq, Eq, Structural)]
pub enum Algo {
    SHA1,
    SHA256,
    SHA512,
}

/// Why a URI does not describe a one-time-password credential.
#[derive(Clone, Copy, Debug, PartialEq, Eq, Structural)]
pub enum OtpError {
    NotAnOtpLink,
    UnknownOtpType,
    LabelMissing,
    SecretMissing,
    CounterMissing,
    MalformedCounter,
    CannotParseQR,
}

/// A counter-based credential.
#[derive(Clone, Debug)]
pub struct HOTP {
    pub secret: String,
    pub label: String,
    pub issuer: String,
    pub algo: Algo,
    pub counter: u64,
    pub full_uri: String,
}

/// A time-step-based credential.
#[derive(Clone, Debug)]
pub struct TOTP {
    pub secret: String,
    pub label: String,
    pub issuer: String,
    pub algo: Algo,
    pub step: u32,
    pub full_uri: String,
}

/// One stored credential.
#[derive(Clone, Debug)]
pub enum OTP {
    HOTP(HOTP),
    TOTP(TOTP),
}

/// The mathematical value of a credential.
pub enum OtpView {
    Hotp {
        secret: Seq<char>,
        label: Seq<char>,
        issuer: Seq<char>,
        algo: Algo,
        counter: u64,
        full_uri: Seq<char>,
    },
    Totp {
        secret: Seq<char>,
        label: Seq<char>,
        issuer: Seq<char>,
        algo: Algo,
        step: u32,
        full_uri: Seq<char>,
    },
}

impl OtpView {
    pub open spec fn label(self) -> Seq<char> {
        match self {
            OtpView::Hotp { label, .. } => label,
            OtpView::Totp { label, .. } => label,
        }
    }

    pub open spec fn secret(self) -> Seq<char> {
        match self {
            OtpView::Hotp { secret, .. } => secret,
            OtpView::Totp { secret, .. } => secret,
        }
    }
}

impl View for HOTP {
    type V = OtpView;

    open spec fn view(&self) -> OtpView {
        OtpView::Hotp {
            secret: self.secret@,
            label: self.label@,
            issuer: self.issuer@,
            algo: self.algo,
            counter: self.counter,
            full_uri: self.full_uri@,
        }
    }
}

impl View for TOTP {
    type V = OtpView;

    open spec fn view(&self) -> OtpView {
        OtpView::Totp {
            secret: self.secret@,
            label: self.label@,
            issuer: self.issuer@,
            algo: self.algo,
            step: self.step,
            full_uri: self.full_uri@,
        }
    }
}

impl View for OTP {
    type V = OtpView;

    open spec fn view(&self) -> OtpView {
        match self {
            OTP::HOTP(h) => h.view(),
            OTP::TOTP(t) => t.view(),
        }
    }
}

/// A result whose credential is replaced by its value.
pub open spec fn otp_result<T: View<V = OtpView>>(r: Result<T, OtpError>) -> Result<OtpView, OtpError> {
    match r {
        Ok(o) => Ok(o@),
        Err(e) => Err(e),
    }
}

/// The pieces of a URI that a credential is read from.
pub struct UrlParts {
    pub scheme: String,
    pub host: Option<String>,
    pub segments: Option<Vec<String>>,
    pub query: Vec<(String, String)>,
}

/// Whether `url::Url::parse` accepts the text.
pub uninterp spec fn url_parses(s: Seq<char>) -> bool;

/// What `url::Url::scheme` gives for the parsed text.
pub uninterp spec fn url_scheme_of(s: Seq<char>) -> Seq<char>;

/// What `url::Url::host_str` gives for the parsed text.
pub uninterp spec fn url_host_of(s: Seq<char>) -> Option<Seq<char>>;

/// What `url::Url::path_segments` gives for the parsed text.
pub uninterp spec fn url_segments_of(s: Seq<char>) -> Option<Seq<Seq<char>>>;

/// The decoded key/value pairs, in order, that `url::Url::query_pairs` gives for the parsed text.
pub uninterp spec fn url_query_of(s: Seq<char>) -> Seq<(Seq<char>, Seq<char>)>;

/// Relies on `url::Url::parse` and on `Url::scheme`, `Url::host_str`, `Url::path_segments`
/// and `Url::query_pairs` of the parsed value: each is a function of the text alone.
#[verifier::external_body]
fn split_url(s: &str) -> (r: Option<UrlParts>)
    ensures
        r is Some <==> url_parses(s@),
        r matches Some(p) ==> {
            &&& p.scheme@ == url_scheme_of(s@)
            &&& p.host.deep_view() == url_host_of(s@)
            &&& p.segments.deep_view() == url_segments_of(s@)
            &&& p.query.deep_view() == url_query_of(s@)
        },
{
    url::Url::parse(s).ok().map(|u| UrlParts {
        scheme: u.scheme().to_string(),
        host: u.host_str().map(|h| h.to_string()),
        segments: u.path_segments().map(|p| p.map(|x| x.to_string()).collect()),
        query: u.query_pairs().map(|(k, v)| (k.into_owned(), v.into_owned())).collect(),
    })
}

/// The value of the first pair whose key is `key`.
pub open spec fn query_value(q: Seq<(Seq<char>, Seq<char>)>, key: Seq<char>) -> Option<Seq<char>>
    decreases q.len(),
{
    if q.len() == 0 {
        None
    } else if q[0].0 == key {
        Some(q[0].1)
    } else {
        query_value(q.drop_first(), key)
    }
}

/// The algorithm a query names: SHA256 and SHA512 by their exact names, SHA1 otherwise.
pub open spec fn algo_named(v: Option<Seq<char>>) -> Algo {
    match v {
        Some(n) => if n == "SHA256"@ {
            Algo::SHA256
        } else if n == "SHA512"@ {
            Algo::SHA512
        } else {
            Algo::SHA1
        },
        None => Algo::SHA1,
    }
}

/// The secret of a query: present and not empty.
pub open spec fn secret_of(q: Seq<(Seq<char>, Seq<char>)>) -> Option<Seq<char>> {
    match query_value(q, "secret"@) {
        Some(s) => if s.len() > 0 {
            Some(s)
        } else {
            None
        },
        None => None,
    }
}

/// The issuer of a query, the label where it names none.
pub open spec fn issuer_of(q: Seq<(Seq<char>, Seq<char>)>, label: Seq<char>) -> Seq<char> {
    match query_value(q, "issuer"@) {
        Some(i) => i,
        None => label,
    }
}

/// The time step of a query: its `period` where that is a 32-bit number, 30 otherwise.
pub open spec fn step_of(q: Seq<(Seq<char>, Seq<char>)>) -> u32 {
    match query_value(q, "period"@) {
        Some(p) => match parse_unsigned(p, u32::MAX as nat) {
            Some(v) => v as u32,
            None => 30,
        },
        None => 30,
    }
}

/// The counter-based credential that a query describes.
pub open spec fn hotp_of(uri: Seq<char>, q: Seq<(Seq<char>, Seq<char>)>, label: Seq<char>) -> Result<OtpView, OtpError> {
    match secret_of(q) {
        None => Err(OtpError::SecretMissing),
        Some(secret) => match query_value(q, "counter"@) {
            None => Err(OtpError::CounterMissing),
            Some(c) => match parse_unsigned(c, u64::MAX as nat) {
                None => Err(OtpError::MalformedCounter),
                Some(v) => Ok(OtpView::Hotp {
                    secret,
                    label,
                    issuer: issuer_of(q, label),
                    algo: algo_named(query_value(q, "algorithm"@)),
                    counter: v as u64,
                    full_uri: uri,
                }),
            },
        },
    }
}

/// The time-step-based credential that a query describes.
pub open spec fn totp_of(uri: Seq<char>, q: Seq<(Seq<char>, Seq<char>)>, label: Seq<char>) -> Result<OtpView, OtpError> {
    match secret_of(q) {
        None => Err(OtpError::SecretMissing),
        Some(secret) => Ok(OtpView::Totp {
            secret,
            label,
            issuer: issuer_of(q, label),
            algo: algo_named(query_value(q, "algorithm"@)),
            step: step_of(q),
            full_uri: uri,
        }),
    }
}

/// The label of a URI: its first path segment, where that is not empty.
pub open spec fn label_of(segments: Option<Seq<Seq<char>>>) -> Option<Seq<char>> {
    match segments {
        Some(s) => if s.len() > 0 && s[0].len() > 0 {
            Some(s[0])
        } else {
            None
        },
        None => None,
    }
}

/// The credential that the pieces of a URI describe.
pub open spec fn otp_of_parts(
    uri: Seq<char>,
    scheme: Seq<char>,
    host: Option<Seq<char>>,
    segments: Option<Seq<Seq<char>>>,
    q: Seq<(Seq<char>, Seq<char>)>,
) -> Result<OtpView, OtpError> {
    if scheme != "otpauth"@ {
        Err(OtpError::NotAnOtpLink)
    } else if host != Some("totp"@) && host != Some("hotp"@) {
        Err(OtpError::UnknownOtpType)
    } else {
        match label_of(segments) {
            None => Err(OtpError::LabelMissing),
            Some(label) => if host == Some("hotp"@) {
                hotp_of(uri, q, label)
            } else {
                totp_of(uri, q, label)
            },
        }
    }
}

/// The credential that a URI describes, read through the `url` crate.
pub open spec fn otp_of_uri(uri: Seq<char>) -> Result<OtpView, OtpError> {
    if url_parses(uri) {
        otp_of_parts(uri, url_scheme_of(uri), url_host_of(uri), url_segments_of(uri), url_query_of(uri))
    } else {
        Err(OtpError::NotAnOtpLink)
    }
}

/// The value of the first pair whose key is `key`.
pub fn query_lookup(q: &Vec<(String, String)>, key: &str) -> (r: Option<String>)
    ensures
        r.deep_view() == query_value(q.deep_view(), key@),
{
    let k = key.to_owned();
    let mut i: usize = 0;
    assert(q.deep_view().subrange(0, q.len() as int) =~= q.deep_view());
    while i < q.len()
        invariant
            i <= q.len(),
            k@ == key@,
            query_value(q.deep_view(), key@) == query_value(q.deep_view().subrange(i as int, q.len() as int), key@),
        decreases q.len() - i,
    {
        let ghost rest = q.deep_view().subrange(i as int, q.len() as int);
        assert(rest.drop_first() =~= q.deep_view().subrange(i + 1, q.len() as int));
        assert(rest[0] == q.deep_view()[i as int]);
        if q[i].0 == k {
            return Some(q[i].1.clone());
        }
        i = i + 1;
    }
    None
}

fn algo_lookup(q: &Vec<(String, String)>) -> (r: Algo)
    ensures
        r == algo_named(query_value(q.deep_view(), "algorithm"@)),
{
    match query_lookup(q, "algorithm") {
        Some(n) => if same_text(&n, "SHA256") {
            Algo::SHA256
        } else if same_text(&n, "SHA512") {
            Algo::SHA512
        } else {
            Algo::SHA1
        },
        None => Algo::SHA1,
    }
}

fn secret_lookup(q: &Vec<(String, String)>) -> (r: Option<String>)
    ensures
        r.deep_view() == secret_of(q.deep_view()),
{
    match query_lookup(q, "secret") {
        Some(s) => if s.unicode_len() > 0 {
            Some(s)
        } else {
            None
        },
        None => None,
    }
}

fn issuer_lookup(q: &Vec<(String, String)>, label: &String) -> (r: String)
    ensures
        r@ == issuer_of(q.deep_view(), label@),
{
    match query_lookup(q, "issuer") {
        Some(i) => i,
        None => label.clone(),
    }
}

impl HOTP {
    /// The counter-based credential that a URI's query describes, under `label`.
    pub fn new(uri: &String, q: &Vec<(String, String)>, label: String) -> (r: Result<HOTP, OtpError>)
        ensures
            otp_result(r) == hotp_of(uri@, q.deep_view(), label@),
    {
        let secret = match secret_lookup(q) {
            Some(s) => s,
            None => return Err(OtpError::SecretMissing),
        };
        let counter = match query_lookup(q, "counter") {
            Some(c) => match parse_unsigned_text(c.as_str(), u64::MAX) {
                Some(v) => v,
                None => return Err(OtpError::MalformedCounter),
            },
            None => return Err(OtpError::CounterMissing),
        };
        let issuer = issuer_lookup(q, &label);
        let algo = algo_lookup(q);
        Ok(HOTP { secret, label, issuer, algo, counter, full_uri: uri.clone() })
    }
}

impl TOTP {
    /// The time-step-based credential that a URI's query describes, under `label`.
    pub fn new(uri: &String, q: &Vec<(String, String)>, label: String) -> (r: Result<TOTP, OtpError>)
        ensures
            otp_result(r) == totp_of(uri@, q.deep_view(), label@),
    {
        let secret = match secret_lookup(q) {
            Some(s) => s,
            None => return Err(OtpError::SecretMissing),
        };
        let step: u32 = match query_lookup(q, "period") {
            Some(p) => match parse_unsigned_text(p.as_str(), u32::MAX as u64) {
                Some(v) => v as u32,
                None => 30,
            },
            None => 30,
        };
        let issuer = issuer_lookup(q, &label);
        let algo = algo_lookup(q);
        Ok(TOTP { secret, label, issuer, algo, step, full_uri: uri.clone() })
    }
}

impl OTP {
    /// The label that the credential is stored under.
    pub fn label(&self) -> (r: &String)
        ensures
            r@ == self@.label(),
    {
        match self {
            OTP::HOTP(h) => &h.label,
            OTP::TOTP(t) => &t.label,
        }
    }

    /// The credential that the pieces of `uri` describe.
    pub fn from_parts(uri: &String, parts: &UrlParts) -> (r: Result<OTP, OtpError>)
        ensures
            otp_result(r) == otp_of_parts(
                uri@,
                parts.scheme@,
                parts.host.deep_view(),
                parts.segments.deep_view(),
                parts.query.deep_view(),
            ),
    {
        if !same_text(&parts.scheme, "otpauth") {
            return Err(OtpError::NotAnOtpLink);
        }
        let hotp = match &parts.host {
            Some(h) => if same_text(h, "hotp") {
                true
            } else if same_text(h, "totp") {
                false
            } else {
                return Err(OtpError::UnknownOtpType);
            },
            None => return Err(OtpError::UnknownOtpType),
        };
        let label = match &parts.segments {
            Some(s) => if s.len() > 0 && s[0].unicode_len() > 0 {
                s[0].clone()
            } else {
                return Err(OtpError::LabelMissing);
            },
            None => return Err(OtpError::LabelMissing),
        };
        if hotp {
            match HOTP::new(uri, &parts.query, label) {
                Ok(h) => Ok(OTP::HOTP(h)),
                Err(e) => Err(e),
            }
        } else {
            match TOTP::new(uri, &parts.query, label) {
                Ok(t) => Ok(OTP::TOTP(t)),
                Err(e) => Err(e),
            }
        }
    }

    /// The credential that an `otpauth://` URI describes.
    pub fn parse_uri(uri: &String) -> (r: Result<OTP, OtpError>)
        ensures
            otp_result(r) == otp_of_uri(uri@),
    {
        match split_url(uri.as_str()) {
            Some(parts) => OTP::from_parts(uri, &parts),
            None => Err(OtpError::NotAnOtpLink),
        }
    }
}

/// The text of the first code that a QR decoder read, where it read any and the first
/// could be read.
pub open spec fn first_text(ts: Seq<Option<Seq<char>>>) -> Result<Seq<char>, OtpError> {
    if ts.len() == 0 {
        Err(OtpError::CannotParseQR)
    } else {
        match ts[0] {
            Some(t) => Ok(t),
            None => Err(OtpError::CannotParseQR),
        }
    }
}

/// A result whose text is replaced by its value.
pub open spec fn text_result(r: Result<String, OtpError>) -> Result<Seq<char>, OtpError> {
    match r {
        Ok(t) => Ok(t@),
        Err(e) => Err(e),
    }
}

/// The text of the first code that a QR decoder read, where it read any and the first
/// could be read.
pub fn first_qr_text(results: Vec<Option<String>>) -> (r: Result<String, OtpError>)
    ensures
        text_result(r) == first_text(results.deep_view()),
{
    let mut results = results;
    if results.len() == 0 {
        return Err(OtpError::CannotParseQR);
    }
    let ghost first = results.deep_view()[0];
    match results.swap_remove(0) {
        Some(t) => {
            assert(first == Some(t@));
            Ok(t)
        },
        None => Err(OtpError::CannotParseQR),
    }
}

} // verus!
