//! Basic authentication of uploads against the one configured user.

use vstd::prelude::*;
use vstd::string::*;
use vstd::utf8::{decode_utf8, valid_utf8};
use crate::config;
use crate::response::{is_message, serve, Response};
use crate::text::{chars_of, same_text, slice_of, slice_text, text_of, with_entry};

verus! {

pub const WWW_AUTHENTICATE: &'static str = "WWW-Authenticate";

/// The one scheme that is understood.
pub const BASIC_SCHEME: &'static str = "Basic";

pub const MISSING_CREDENTIALS_MESSAGE: &'static str =
    "Missing credentials; authentication is required for `PUT` requests.";

pub const INVALID_CREDENTIALS_MESSAGE: &'static str =
    "Invalid credentials; authentication is required for `PUT` requests.";

/// The name and the password that a client sent.
#[derive(Debug, Clone, PartialEq, Eq)]
pub struct ClientCredentials {
    pub username: String,
    pub password: String,
}

/// The bytes that `input` stands for in base64, as the decoder of the
/// `base64` crate reads it in its standard configuration; `None` where the
/// decoder refuses `input`.
pub uninterp spec fn base64_decoded(input: Seq<char>) -> Option<Seq<u8>>;

/// Calls `base64::decode`, which decodes in the crate's standard
/// configuration. The result depends on the input alone and is only named
/// here, not described; the decoder's error becomes `None`. Not proved.
#[verifier::external_body]
fn decode_base64(input: &str) -> (decoded: Option<Vec<u8>>)
    ensures
        match decoded {
            Some(bytes) => base64_decoded(input@) == Some(bytes@),
            None => base64_decoded(input@) == None::<Seq<u8>>,
        },
{
    base64::decode(input).ok()
}

/// Calls `String::from_utf8`: the text that the bytes encode, or `None`
/// where they are not valid UTF-8. Not proved.
#[verifier::external_body]
fn text_from_utf8(bytes: Vec<u8>) -> (text: Option<String>)
    ensures
        match text {
            Some(s) => valid_utf8(bytes@) && s@ == decode_utf8(bytes@),
            None => !valid_utf8(bytes@),
        },
{
    String::from_utf8(bytes).ok()
}

/// The first position from `from` on at which `s` holds `c`, or -1.
pub open spec fn first_index<T>(s: Seq<T>, c: T, from: int) -> int
    decreases s.len() - from,
{
    if from < 0 || from >= s.len() {
        -1
    } else if s[from] == c {
        from
    } else {
        first_index(s, c, from + 1)
    }
}

/// What follows the scheme in an `Authorization` header, where the scheme is
/// `Basic` and a space follows it.
pub open spec fn basic_payload(header: Seq<char>) -> Option<Seq<char>> {
    let space = first_index(header, ' ', 0);
    if space >= 0 && header.subrange(0, space) == BASIC_SCHEME@ {
        Some(header.subrange(space + 1, header.len() as int))
    } else {
        None
    }
}

/// The name and password in decoded credentials: what stands before the first
/// colon and what stands after it, where there is a colon and both are valid
/// UTF-8.
pub open spec fn credentials_in(decoded: Seq<u8>) -> Option<(Seq<char>, Seq<char>)> {
    let colon = first_index(decoded, 58u8, 0);
    if colon < 0 {
        None
    } else {
        let name = decoded.subrange(0, colon);
        let password = decoded.subrange(colon + 1, decoded.len() as int);
        if valid_utf8(name) && valid_utf8(password) {
            Some((decode_utf8(name), decode_utf8(password)))
        } else {
            None
        }
    }
}

/// The credentials that an `Authorization` header carries, if any.
pub open spec fn credentials_of(authorization: Option<Seq<char>>) -> Option<
    (Seq<char>, Seq<char>),
> {
    match authorization {
        None => None,
        Some(header) => match basic_payload(header) {
            None => None,
            Some(payload) => match base64_decoded(payload) {
                None => None,
                Some(decoded) => credentials_in(decoded),
            },
        },
    }
}

/// The credentials as a pair of texts.
pub open spec fn credentials_text(credentials: Option<ClientCredentials>) -> Option<
    (Seq<char>, Seq<char>),
> {
    match credentials {
        Some(c) => Some((c.username@, c.password@)),
        None => None,
    }
}

/// The credentials are those of the configured user.
pub open spec fn is_configured_user(name: Seq<char>, password: Seq<char>) -> bool {
    name == config::AUTH_USERNAME@ && password == config::AUTH_PASSWORD@
}

/// What follows the scheme in an `Authorization` header, where the scheme is
/// `Basic`.
pub fn payload_of(header: &str) -> (payload: Option<String>)
    ensures
        text_of(payload) == basic_payload(header@),
{
    let chars = chars_of(header);
    let mut i: usize = 0;
    while i < chars.len()
        invariant
            i <= chars.len(),
            chars@ == header@,
            first_index(header@, ' ', 0) == first_index(header@, ' ', i as int),
        decreases chars.len() - i,
    {
        if chars[i] == ' ' {
            let scheme = slice_of(header, 0, i);
            if same_text(scheme.as_str(), BASIC_SCHEME) {
                return Some(slice_of(header, i + 1, chars.len()));
            } else {
                return None;
            }
        }
        i += 1;
    }
    None
}

/// The bytes of `bytes` from `from` up to `to`.
pub fn bytes_between(bytes: &Vec<u8>, from: usize, to: usize) -> (part: Vec<u8>)
    requires
        from <= to <= bytes@.len(),
    ensures
        part@ == bytes@.subrange(from as int, to as int),
{
    let mut part: Vec<u8> = Vec::new();
    let mut i: usize = from;
    while i < to
        invariant
            from <= i <= to,
            to <= bytes@.len(),
            part@ == bytes@.subrange(from as int, i as int),
        decreases to - i,
    {
        part.push(bytes[i]);
        i += 1;
        assert(part@ =~= bytes@.subrange(from as int, i as int));
    }
    part
}

/// The name and password in decoded credentials.
pub fn credentials_from_decoded(decoded: &Vec<u8>) -> (credentials: Option<ClientCredentials>)
    ensures
        credentials_text(credentials) == credentials_in(decoded@),
{
    let mut i: usize = 0;
    while i < decoded.len()
        invariant
            i <= decoded.len(),
            first_index(decoded@, 58u8, 0) == first_index(decoded@, 58u8, i as int),
        decreases decoded.len() - i,
    {
        if decoded[i] == 58u8 {
            let name = text_from_utf8(bytes_between(decoded, 0, i));
            let password = text_from_utf8(bytes_between(decoded, i + 1, decoded.len()));
            return match (name, password) {
                (Some(username), Some(password)) => Some(ClientCredentials { username, password }),
                _ => None,
            };
        }
        i += 1;
    }
    None
}

/// The credentials that the `Authorization` header of a request carries,
/// if it has the header and the header carries any.
pub fn fetch_auth_credentials(authorization: Option<&str>) -> (credentials: Option<
    ClientCredentials,
>)
    ensures
        credentials_text(credentials) == credentials_of(slice_text(authorization)),
{
    let header = match authorization {
        None => {
            return None;
        },
        Some(header) => header,
    };
    let payload = match payload_of(header) {
        None => {
            return None;
        },
        Some(payload) => payload,
    };
    match decode_base64(payload.as_str()) {
        Some(decoded) => credentials_from_decoded(&decoded),
        None => None,
    }
}

/// Whether the credentials are those of the configured user.
pub fn check_credentials(credentials: &ClientCredentials) -> (valid: bool)
    ensures
        valid == is_configured_user(credentials.username@, credentials.password@),
{
    same_text(credentials.username.as_str(), config::AUTH_USERNAME) && same_text(
        credentials.password.as_str(),
        config::AUTH_PASSWORD,
    )
}

/// The value of the `WWW-Authenticate` header: the scheme and the realm.
pub open spec fn challenge() -> Seq<char> {
    "Basic realm=\""@ + config::AUTH_REALM@ + "\""@
}

/// Asks the client for credentials. The challenge then stands once; the
/// other headers, the status and the body stay.
pub fn set_www_authenticate_header(response: &mut Response)
    ensures
        final(response).status == old(response).status,
        final(response).body == old(response).body,
        final(response).fields() == with_entry(
            old(response).fields(),
            WWW_AUTHENTICATE@,
            challenge(),
        ),
        forall|name: Seq<char>|
            #[trigger] final(response).header(name) == if name == WWW_AUTHENTICATE@ {
                Some(challenge())
            } else {
                old(response).header(name)
            },
        forall|name: Seq<char>|
            #[trigger] final(response).occurrences(name) == if name == WWW_AUTHENTICATE@ {
                1
            } else {
                old(response).occurrences(name)
            },
        old(response).has_distinct_names() ==> final(response).has_distinct_names(),
{
    let value = String::from_str("Basic realm=\"").concat(config::AUTH_REALM).concat("\"");
    response.set_header(WWW_AUTHENTICATE, value);
}

/// The response asks for credentials: 401, the message, and the challenge as
/// its only header.
pub open spec fn is_challenge(response: Response) -> bool {
    &&& response.status == 401
    &&& response.body@ == vstd::utf8::encode_utf8(MISSING_CREDENTIALS_MESSAGE@)
    &&& response.fields() == seq![(WWW_AUTHENTICATE@, challenge())]
    &&& forall|name: Seq<char>|
        #[trigger] response.header(name) == if name == WWW_AUTHENTICATE@ {
            Some(challenge())
        } else {
            None
        }
}

/// The response to an upload, from what was decided of its credentials.
pub open spec fn is_refusal(response: Response, status: u16) -> bool {
    if status == 401 {
        is_challenge(response)
    } else {
        is_message(response, status, INVALID_CREDENTIALS_MESSAGE@)
    }
}

/// The answer to an upload without credentials.
pub fn serve_auth_required() -> (response: Response)
    ensures
        is_challenge(response),
        response.has_distinct_names(),
{
    let mut response = serve(401, MISSING_CREDENTIALS_MESSAGE);
    proof {
        assert forall|name: Seq<char>| #[trigger] response.header(name) == None::<Seq<char>> by {}
    }
    set_www_authenticate_header(&mut response);
    assert(response.fields() =~= seq![(WWW_AUTHENTICATE@, challenge())]);
    response
}

/// What is decided of an upload from the credentials that came with it:
/// `None` lets it through, otherwise the status of the refusal.
pub open spec fn refusal(credentials: Option<(Seq<char>, Seq<char>)>) -> Option<u16> {
    match credentials {
        None => Some(401u16),
        Some((name, password)) => if is_configured_user(name, password) {
            None
        } else {
            Some(403u16)
        },
    }
}

/// Decides on an upload from the credentials that came with it.
pub fn authorize(credentials: Option<ClientCredentials>) -> (decision: Result<(), Response>)
    ensures
        match decision {
            Ok(_) => refusal(credentials_text(credentials)) == None::<u16>,
            Err(response) => refusal(credentials_text(credentials)) == Some(response.status)
                && is_refusal(response, response.status),
        },
{
    match credentials {
        None => Err(serve_auth_required()),
        Some(sent) => {
            if check_credentials(&sent) {
                Ok(())
            } else {
                Err(serve(403, INVALID_CREDENTIALS_MESSAGE))
            }
        },
    }
}

/// Lets an upload through where its `Authorization` header carries the
/// configured credentials. Without credentials the answer is 401 with a
/// challenge; with others, 403.
pub fn require_authentication(authorization: Option<&str>) -> (decision: Result<(), Response>)
    ensures
        match decision {
            Ok(_) => refusal(credentials_of(slice_text(authorization))) == None::<u16>,
            Err(response) => refusal(credentials_of(slice_text(authorization))) == Some(
                response.status,
            ) && is_refusal(response, response.status),
        },
{
    authorize(fetch_auth_credentials(authorization))
}

} // verus!
