//! Taking the bytes of a workout file out of a `data:` URL.
//!
//! The user interface hands over a picked file as a URL of the form
//! `data:application/octet-stream;base64,<payload>`. URL parsing and base64
//! decoding are done by the `url` and `base64` crates; the checks on the URL's
//! shape are done here.
use base64::Engine as _;
use vstd::prelude::*;

verus! {

/// What `url::Url::parse` makes of `input`: none if it is no URL, else the
/// scheme, whether a query and a fragment are present, whether the URL
/// cannot be a base, and the path.
pub uninterp spec fn parsed_url(input: Seq<char>) -> Option<(Seq<char>, bool, bool, bool, Seq<char>)>;

/// What the standard base64 engine decodes `s` to; none if `s` is not valid
/// padded standard base64.
pub uninterp spec fn base64_decoded(s: Seq<char>) -> Option<Seq<u8>>;

/// The parts of a parsed URL that the checks read.
struct UrlParts {
    scheme: String,
    has_query: bool,
    has_fragment: bool,
    cannot_be_a_base: bool,
    path: String,
}

/// Relies on url::Url::parse, and on the parsed URL's scheme, query,
/// fragment, cannot_be_a_base and path accessors.
#[verifier::external_body]
fn parse_url(input: &str) -> (r: Option<UrlParts>)
    ensures
        match r {
            Some(p) => parsed_url(input@) == Some(
                (p.scheme@, p.has_query, p.has_fragment, p.cannot_be_a_base, p.path@),
            ),
            None => parsed_url(input@) is None,
        },
{
    match url::Url::parse(input) {
        Ok(u) => Some(UrlParts {
            scheme: u.scheme().to_string(),
            has_query: u.query().is_some(),
            has_fragment: u.fragment().is_some(),
            cannot_be_a_base: u.cannot_be_a_base(),
            path: u.path().to_string(),
        }),
        Err(_) => None,
    }
}

/// Relies on base64's standard engine `decode`: the bytes `s` encodes, or an
/// error if it is not valid base64.
#[verifier::external_body]
fn decode_base64(s: &str) -> (r: Option<Vec<u8>>)
    ensures
        match r {
            Some(v) => base64_decoded(s@) == Some(v@),
            None => base64_decoded(s@) is None,
        },
{
    base64::engine::general_purpose::STANDARD.decode(s).ok()
}

/// Why a data URL was refused.
#[derive(Clone, Copy, Debug, PartialEq, Eq)]
pub enum DataUrlError {
    /// The text is not a URL.
    InvalidUrl,
    /// The URL is not a base64 data URL of an octet stream.
    NotADataUrl,
    /// The payload is not valid base64.
    InvalidBase64,
}

/// The media type and encoding a workout data URL carries.
pub open spec fn media_type() -> Seq<char> {
    "application/octet-stream;base64"@
}

/// The payload of a data URL path: the path must be the media type, a
/// comma, and then text with no further comma.
pub open spec fn payload_of_path(path: Seq<char>) -> Option<Seq<char>> {
    let m = media_type().len() as int;
    if m < path.len() && path.subrange(0, m) == media_type() && path[m] == ','
        && !path.subrange(m + 1int, path.len() as int).contains(',') {
        Some(path.subrange(m + 1int, path.len() as int))
    } else {
        None
    }
}

/// The base64 payload of a parsed URL: it must be a data URL with no query
/// or fragment, whose path is the octet stream media type and the payload.
pub open spec fn checked_payload(
    scheme: Seq<char>,
    has_query: bool,
    has_fragment: bool,
    cannot_be_a_base: bool,
    path: Seq<char>,
) -> Result<Seq<char>, DataUrlError> {
    if scheme != "data"@ || has_query || has_fragment || !cannot_be_a_base {
        Err(DataUrlError::NotADataUrl)
    } else {
        match payload_of_path(path) {
            None => Err(DataUrlError::NotADataUrl),
            Some(payload) => Ok(payload),
        }
    }
}

/// What a data URL yields.
pub open spec fn data_url_spec(input: Seq<char>) -> Result<Seq<u8>, DataUrlError> {
    match parsed_url(input) {
        None => Err(DataUrlError::InvalidUrl),
        Some((scheme, has_query, has_fragment, cannot_be_a_base, path)) => match checked_payload(
            scheme,
            has_query,
            has_fragment,
            cannot_be_a_base,
            path,
        ) {
            Err(e) => Err(e),
            Ok(payload) => match base64_decoded(payload) {
                Some(bytes) => Ok(bytes),
                None => Err(DataUrlError::InvalidBase64),
            },
        },
    }
}

/// Whether `a` and `b` hold the same characters.
fn same_text(a: &str, b: &str) -> (r: bool)
    ensures
        r == (a@ == b@),
{
    let n = a.unicode_len();
    if n != b.unicode_len() {
        return false;
    }
    let mut i: usize = 0;
    while i < n
        invariant
            i <= n,
            n == a@.len(),
            n == b@.len(),
            a@.subrange(0, i as int) == b@.subrange(0, i as int),
        decreases n - i,
    {
        if a.get_char(i) != b.get_char(i) {
            return false;
        }
        i = i + 1;
        assert(a@.subrange(0, i as int) =~= b@.subrange(0, i as int)) by {
            assert forall|k: int| 0 <= k < i implies a@.subrange(0, i as int)[k] == b@.subrange(
                0,
                i as int,
            )[k] by {
                if k < i - 1 {
                    assert(a@.subrange(0, i - 1)[k] == b@.subrange(0, i - 1)[k]);
                }
            }
        }
    }
    assert(a@ =~= a@.subrange(0, n as int));
    assert(b@ =~= b@.subrange(0, n as int));
    true
}

/// The payload of a data URL path, as [`payload_of_path`] states.
fn path_payload(path: &str) -> (r: Option<&str>)
    ensures
        match r {
            Some(p) => payload_of_path(path@) == Some(p@),
            None => payload_of_path(path@) is None,
        },
{
    let media = "application/octet-stream;base64";
    let m = media.unicode_len();
    assert(media@ == media_type());
    let n = path.unicode_len();
    if n <= m {
        return None;
    }
    let head = path.substring_char(0, m);
    if !same_text(head, media) {
        return None;
    }
    if path.get_char(m) != ',' {
        return None;
    }
    let mut j: usize = m + 1;
    while j < n
        invariant
            m + 1 <= j <= n,
            n == path@.len(),
            m == media_type().len(),
            forall|k: int| m + 1 <= k < j ==> path@[k] != ',',
        decreases n - j,
    {
        if path.get_char(j) == ',' {
            assert(path@.subrange(m + 1, n as int)[j - m - 1] == ',');
            return None;
        }
        j = j + 1;
    }
    let payload = path.substring_char(m + 1, n);
    assert(!payload@.contains(',')) by {
        if payload@.contains(',') {
            let k = choose|k: int| 0 <= k < payload@.len() && payload@[k] == ',';
            assert(path@[m + 1 + k] == ',');
        }
    }
    Some(payload)
}

/// The base64 payload of a parsed URL, as [`checked_payload`] states.
pub fn base64_payload<'a>(
    scheme: &str,
    has_query: bool,
    has_fragment: bool,
    cannot_be_a_base: bool,
    path: &'a str,
) -> (r: Result<&'a str, DataUrlError>)
    ensures
        match r {
            Ok(p) => checked_payload(scheme@, has_query, has_fragment, cannot_be_a_base, path@)
                == Ok::<Seq<char>, DataUrlError>(p@),
            Err(e) => checked_payload(scheme@, has_query, has_fragment, cannot_be_a_base, path@)
                == Err::<Seq<char>, DataUrlError>(e),
        },
{
    if !same_text(scheme, "data") || has_query || has_fragment || !cannot_be_a_base {
        return Err(DataUrlError::NotADataUrl);
    }
    match path_payload(path) {
        Some(p) => Ok(p),
        None => Err(DataUrlError::NotADataUrl),
    }
}

/// The bytes a `data:application/octet-stream;base64,...` URL carries.
pub fn data_url_payload(input: &str) -> (r: Result<Vec<u8>, DataUrlError>)
    ensures
        match r {
            Ok(bytes) => data_url_spec(input@) == Ok::<Seq<u8>, DataUrlError>(bytes@),
            Err(e) => data_url_spec(input@) == Err::<Seq<u8>, DataUrlError>(e),
        },
{
    let parts = match parse_url(input) {
        Some(p) => p,
        None => return Err(DataUrlError::InvalidUrl),
    };
    let payload = match base64_payload(
        parts.scheme.as_str(),
        parts.has_query,
        parts.has_fragment,
        parts.cannot_be_a_base,
        parts.path.as_str(),
    ) {
        Ok(p) => p,
        Err(e) => return Err(e),
    };
    match decode_base64(payload) {
        Some(bytes) => Ok(bytes),
        None => Err(DataUrlError::InvalidBase64),
    }
}

} // verus!
